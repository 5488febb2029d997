//! The FreeRDP command line. The argument vector is public to every process
//! on the machine, so it holds only the binary and the instruction to read
//! the arguments from standard input; every option, the password included,
//! travels on standard input, one per line.

use vstd::prelude::*;
use crate::rdp::types::RdpConnectionConfig;
use crate::text::{concat, decimal, decimal_string, lemma_newline_pos_skip, newline_pos, owned, strip_cr};
use vstd::string::StrSliceExecFns;
use vstd::utf8::encode_utf8;

verus! {

/// The two halves of a FreeRDP invocation.
pub struct FreeRdpArguments {
    /// The process arguments; never the password.
    pub argv: Vec<String>,
    /// The lines given on standard input; the only place for the password.
    pub stdin: Vec<String>,
}

/// The texts of a list of strings.
pub open spec fn texts(v: Seq<String>) -> Seq<Seq<char>> {
    v.map_values(|s: String| s@)
}

/// The standard-input lines for a configuration and window title.
pub open spec fn stdin_lines(c: RdpConnectionConfig, title: Seq<char>) -> Seq<Seq<char>> {
    seq![
        "/v:"@ + c.host@ + ":"@ + decimal(c.port as nat),
        "/u:"@ + c.username@,
        "/p:"@ + c.password@,
        "/cert:tofu"@,
        "/cert:name:"@ + c.certificate_name@,
        "/t:"@ + title,
    ] + (if c.clipboard {
        seq!["+clipboard"@]
    } else {
        Seq::<Seq<char>>::empty()
    }) + (if c.dynamic_resolution {
        seq!["+dynamic-resolution"@]
    } else {
        Seq::<Seq<char>>::empty()
    })
}

/// Build the invocation of FreeRDP `binary` for a configuration: the
/// arguments are the binary and `/args-from:stdin` only; the options
/// (address, user, password, certificate trust on first use pinned to the
/// device's name, title, then clipboard and dynamic resolution when on) go
/// to standard input.
pub fn build(binary: &str, config: &RdpConnectionConfig, title: &str) -> (r: FreeRdpArguments)
    ensures
        texts(r.argv@) == seq![binary@, "/args-from:stdin"@],
        texts(r.stdin@) == stdin_lines(*config, title@),
{
    let mut stdin: Vec<String> = Vec::new();
    let v1 = concat("/v:", config.host.as_str());
    let v2 = concat(v1.as_str(), ":");
    stdin.push(concat(v2.as_str(), decimal_string(config.port as u64).as_str()));
    stdin.push(concat("/u:", config.username.as_str()));
    stdin.push(concat("/p:", config.password.as_str()));
    stdin.push(owned("/cert:tofu"));
    stdin.push(concat("/cert:name:", config.certificate_name.as_str()));
    stdin.push(concat("/t:", title));
    let ghost base = texts(stdin@);
    assert(base =~= seq![
        "/v:"@ + config.host@ + ":"@ + decimal(config.port as nat),
        "/u:"@ + config.username@,
        "/p:"@ + config.password@,
        "/cert:tofu"@,
        "/cert:name:"@ + config.certificate_name@,
        "/t:"@ + title@,
    ]);
    if config.clipboard {
        stdin.push(owned("+clipboard"));
    }
    let ghost mid = texts(stdin@);
    assert(mid =~= base + (if config.clipboard {
        seq!["+clipboard"@]
    } else {
        Seq::<Seq<char>>::empty()
    }));
    if config.dynamic_resolution {
        stdin.push(owned("+dynamic-resolution"));
    }
    assert(texts(stdin@) =~= stdin_lines(*config, title@));
    let mut argv: Vec<String> = Vec::new();
    argv.push(owned(binary));
    argv.push(owned("/args-from:stdin"));
    assert(texts(argv@) =~= seq![binary@, "/args-from:stdin"@]);
    FreeRdpArguments { argv, stdin }
}

/// Each line followed by a line break.
pub open spec fn lines_text(lines: Seq<Seq<char>>) -> Seq<char>
    decreases lines.len(),
{
    if lines.len() == 0 {
        Seq::<char>::empty()
    } else {
        lines_text(lines.drop_last()) + lines.last() + seq!['\n']
    }
}

/// The standard-input text: the lines joined by line breaks, then one
/// more line break (a lone line break when there are no lines).
pub open spec fn payload_text(lines: Seq<Seq<char>>) -> Seq<char> {
    if lines.len() == 0 {
        seq!['\n']
    } else {
        lines_text(lines)
    }
}

/// The bytes written to FreeRDP's standard input: the UTF-8 encoding of
/// `payload_text`.
pub fn stdin_payload(args: &FreeRdpArguments) -> (r: Vec<u8>)
    ensures
        r@ == encode_utf8(payload_text(texts(args.stdin@))),
{
    let mut text = String::new();
    let mut i: usize = 0;
    while i < args.stdin.len()
        invariant
            i <= args.stdin@.len(),
            text@ == lines_text(texts(args.stdin@).take(i as int)),
        decreases args.stdin@.len() - i,
    {
        let nl = "\n";
        proof {
            reveal_strlit("\n");
            let t = texts(args.stdin@);
            assert(t.take(i + 1).drop_last() =~= t.take(i as int));
            assert(t.take(i + 1).last() == args.stdin@[i as int]@);
        }
        let line = concat(args.stdin[i].as_str(), nl);
        text = concat(text.as_str(), line.as_str());
        proof {
            assert(text@ =~= lines_text(texts(args.stdin@).take(i + 1)));
        }
        i = i + 1;
    }
    assert(texts(args.stdin@).take(args.stdin@.len() as int) =~= texts(args.stdin@));
    if args.stdin.len() == 0 {
        let nl = "\n";
        proof {
            reveal_strlit("\n");
        }
        text = owned(nl);
    }
    assert(text@ == payload_text(texts(args.stdin@)));
    let t = text.as_str();
    assert(t@ == text@);
    let r = t.as_bytes_vec();
    assert(r@ == encode_utf8(t@));
    r
}

/// `s` split into lines as `str::lines` splits it: at each line break,
/// dropping a carriage return just before the break, with no empty line
/// after a final break.
pub open spec fn lines_spec(s: Seq<char>) -> Seq<Seq<char>>
    decreases s.len(),
{
    let i = newline_pos(s);
    if s.len() == 0 {
        Seq::empty()
    } else if i >= s.len() {
        seq![s]
    } else {
        seq![strip_cr(s.take(i as int))] + lines_spec(s.skip(i + 1 as int))
    }
}

proof fn lemma_lines_text_front(lines: Seq<Seq<char>>)
    requires
        lines.len() > 0,
    ensures
        lines_text(lines) == lines[0] + seq!['\n'] + lines_text(lines.drop_first()),
    decreases lines.len(),
{
    if lines.len() == 1 {
        assert(lines.drop_last().len() == 0);
        assert(lines.drop_first().len() == 0);
        assert(lines_text(lines.drop_last()) =~= Seq::<char>::empty());
        assert(lines_text(lines.drop_first()) =~= Seq::<char>::empty());
        assert(lines_text(lines) =~= lines[0] + seq!['\n'] + lines_text(lines.drop_first()));
    } else {
        let d = lines.drop_last();
        lemma_lines_text_front(d);
        assert(lines.drop_first().drop_last() =~= d.drop_first());
        assert(lines.drop_first().last() == lines.last());
        assert(lines_text(lines) =~= lines[0] + seq!['\n'] + lines_text(lines.drop_first()));
    }
}

/// The standard-input payload reads back, line by line, as the lines it
/// was made of, when there is at least one and none holds a line break or
/// ends in a carriage return.
pub proof fn payload_reads_back(lines: Seq<Seq<char>>)
    requires
        lines.len() > 0,
        forall|i: int|
            0 <= i < lines.len() ==> !(#[trigger] lines[i]).contains('\n') && strip_cr(lines[i]) == lines[i],
    ensures
        lines_spec(payload_text(lines)) == lines,
    decreases lines.len(),
{
    lemma_lines_text_front(lines);
    let l = lines[0];
    let rest = lines.drop_first();
    let s = lines_text(lines);
    let n = l.len() as int;
    assert forall|k: int| 0 <= k < n implies s[k] != '\n' by {
        assert(s[k] == l[k]);
        if l[k] == '\n' {
            assert(l.contains('\n'));
        }
    }
    lemma_newline_pos_skip(s, n);
    assert(s.skip(n)[0] == '\n');
    assert(newline_pos(s.skip(n)) == 0);
    assert(s.take(n) =~= l);
    assert(s.skip(n + 1) =~= lines_text(rest));
    if rest.len() == 0 {
        assert(lines_text(rest) =~= Seq::<char>::empty());
        assert(lines_spec(s.skip(n + 1)) =~= Seq::<Seq<char>>::empty());
        assert(strip_cr(lines[0]) == lines[0]);
        assert(newline_pos(s) == n);
        assert(lines_spec(s) =~= lines);
    } else {
        assert forall|i: int| 0 <= i < rest.len() implies !(#[trigger] rest[i]).contains('\n') && strip_cr(rest[i])
            == rest[i] by {
            assert(rest[i] == lines[i + 1]);
        }
        payload_reads_back(rest);
        assert(strip_cr(lines[0]) == lines[0]);
        assert(newline_pos(s) == n);
        assert(lines_spec(s) =~= lines);
    }
}

/// The standard input of a FreeRDP invocation pins the certificate to the
/// configuration's certificate name (the device's name, not the address it
/// is reached at): its fifth line is `/cert:name:` and that name, so two
/// configurations with different certificate names pin differently.
pub proof fn certificate_pinned_to_its_name(
    c1: RdpConnectionConfig,
    c2: RdpConnectionConfig,
    title: Seq<char>,
    a1: FreeRdpArguments,
    a2: FreeRdpArguments,
)
    requires
        texts(a1.stdin@) == stdin_lines(c1, title),
        texts(a2.stdin@) == stdin_lines(c2, title),
    ensures
        a1.stdin@.len() > 5,
        a1.stdin@[0]@ == "/v:"@ + c1.host@ + ":"@ + decimal(c1.port as nat),
        a1.stdin@[1]@ == "/u:"@ + c1.username@,
        a1.stdin@[2]@ == "/p:"@ + c1.password@,
        a1.stdin@[3]@ == "/cert:tofu"@,
        a1.stdin@[4]@ == "/cert:name:"@ + c1.certificate_name@,
        a1.stdin@[5]@ == "/t:"@ + title,
        a1.stdin@.len() == 6 + (if c1.clipboard { 1int } else { 0 }) + (if c1.dynamic_resolution { 1int } else { 0 }),
        c1.certificate_name@ != c2.certificate_name@ ==> a1.stdin@[4]@ != a2.stdin@[4]@,
{
    let p = "/cert:name:"@;
    assert(stdin_lines(c1, title).len() >= 6);
    assert(stdin_lines(c2, title).len() >= 6);
    assert(stdin_lines(c1, title)[0] == "/v:"@ + c1.host@ + ":"@ + decimal(c1.port as nat));
    assert(stdin_lines(c1, title)[1] == "/u:"@ + c1.username@);
    assert(stdin_lines(c1, title)[2] == "/p:"@ + c1.password@);
    assert(stdin_lines(c1, title)[3] == "/cert:tofu"@);
    assert(stdin_lines(c1, title)[4] == p + c1.certificate_name@);
    assert(stdin_lines(c1, title)[5] == "/t:"@ + title);
    assert(stdin_lines(c2, title)[4] == p + c2.certificate_name@);
    assert(texts(a1.stdin@).len() == a1.stdin@.len());
    assert(texts(a2.stdin@).len() == a2.stdin@.len());
    assert forall|k: int| 0 <= k < 6 implies #[trigger] texts(a1.stdin@)[k] == a1.stdin@[k]@ by {}
    assert(texts(a1.stdin@)[4] == a1.stdin@[4]@);
    assert(texts(a2.stdin@)[4] == a2.stdin@[4]@);
    if c1.certificate_name@ != c2.certificate_name@ && a1.stdin@[4]@ == a2.stdin@[4]@ {
        assert((p + c1.certificate_name@).skip(p.len() as int) =~= c1.certificate_name@);
        assert((p + c2.certificate_name@).skip(p.len() as int) =~= c2.certificate_name@);
    }
}

} // verus!
