//! Fault injection for tests: rules `key=action`, separated by commas, arm
//! named fault points. Actions are `error:<message>`, `panic` and
//! `delay:<ms>`; anything else is ignored, so new kinds stay compatible.

use vstd::prelude::*;
use crate::registry::Registry;
use crate::text::{
    chars_of, concat, owned, parse_u64, parse_u64_spec, str_eq, string_from_range, trim, trim_spec,
};

verus! {

/// What an armed fault point does.
#[derive(Debug, Clone, PartialEq, Eq)]
pub enum FaultAction {
    Error(String),
    Panic,
    DelayMs(u64),
}

/// A fault action with its message as text.
pub enum ActionView {
    Error(Seq<char>),
    Panic,
    DelayMs(u64),
}

impl View for FaultAction {
    type V = ActionView;

    open spec fn view(&self) -> ActionView {
        match self {
            FaultAction::Error(m) => ActionView::Error(m@),
            FaultAction::Panic => ActionView::Panic,
            FaultAction::DelayMs(ms) => ActionView::DelayMs(*ms),
        }
    }
}

impl FaultAction {
    /// A copy with the same meaning.
    pub fn copy(&self) -> (r: Self)
        ensures
            r@ == self@,
    {
        match self {
            FaultAction::Error(m) => FaultAction::Error(owned(m.as_str())),
            FaultAction::Panic => FaultAction::Panic,
            FaultAction::DelayMs(ms) => FaultAction::DelayMs(*ms),
        }
    }
}

/// The error an `error` fault point fails with.
#[derive(Debug, Clone, PartialEq, Eq)]
pub struct FaultError {
    key: String,
    message: String,
}

impl FaultError {
    /// The fault point's key.
    pub closed spec fn key_text(&self) -> Seq<char> {
        self.key@
    }

    /// The rule's message.
    pub closed spec fn message_text(&self) -> Seq<char> {
        self.message@
    }

    /// The fault point's key.
    pub fn key(&self) -> (r: &str)
        ensures
            r@ == self.key_text(),
    {
        self.key.as_str()
    }

    /// The displayed form: `injected fault at <key>: <message>`.
    pub fn display_string(&self) -> (r: String)
        ensures
            r@ == "injected fault at "@ + self.key_text() + ": "@ + self.message_text(),
    {
        let a = concat("injected fault at ", self.key.as_str());
        let b = concat(a.as_str(), ": ");
        concat(b.as_str(), self.message.as_str())
    }
}

/// What firing a fault point asks of the caller.
#[derive(Debug, Clone, Copy, PartialEq, Eq, Structural)]
pub enum FaultEffect {
    /// Nothing is armed there.
    Nothing,
    /// The point is armed to panic.
    Panic,
    /// The point is armed to wait this many milliseconds.
    DelayMs(u64),
}

/// The position of the first `c` in `s` (its length when none).
pub open spec fn char_pos(s: Seq<char>, c: char) -> nat
    decreases s.len(),
{
    if s.len() == 0 || s[0] == c {
        0
    } else {
        1 + char_pos(s.drop_first(), c)
    }
}

/// `s` split at every `c` (`str::split`).
pub open spec fn split_spec(s: Seq<char>, c: char) -> Seq<Seq<char>>
    decreases s.len(),
{
    let i = char_pos(s, c);
    if i >= s.len() {
        seq![s]
    } else {
        seq![s.take(i as int)] + split_spec(s.skip(i + 1 as int), c)
    }
}

/// `s` split at its first `c` (`str::split_once`).
pub open spec fn split_once_spec(s: Seq<char>, c: char) -> Option<(Seq<char>, Seq<char>)> {
    let i = char_pos(s, c);
    if i >= s.len() {
        None
    } else {
        Some((s.take(i as int), s.skip(i + 1 as int)))
    }
}

/// The rule a (trimmed) segment states: `key=error:msg`, `key=delay:ms`
/// (an unparsable delay is 0) or `key=panic`, keys and values trimmed.
pub open spec fn rule_spec(seg: Seq<char>) -> Option<(Seq<char>, ActionView)> {
    match split_once_spec(seg, '=') {
        None => None,
        Some((k, a)) => {
            let key = trim_spec(k);
            let text = trim_spec(a);
            match split_once_spec(text, ':') {
                Some((kind, arg)) => if kind == "error"@ {
                    Some((key, ActionView::Error(trim_spec(arg))))
                } else if kind == "delay"@ {
                    Some(
                        (
                            key,
                            ActionView::DelayMs(
                                match parse_u64_spec(trim_spec(arg)) {
                                    Some(v) => v,
                                    None => 0,
                                },
                            ),
                        ),
                    )
                } else if text == "panic"@ {
                    Some((key, ActionView::Panic))
                } else {
                    None
                },
                None => if text == "panic"@ {
                    Some((key, ActionView::Panic))
                } else {
                    None
                },
            }
        },
    }
}

/// The rules of the segments, in order (a later rule for a key wins).
pub open spec fn rules_spec(segs: Seq<Seq<char>>) -> Map<Seq<char>, ActionView>
    decreases segs.len(),
{
    if segs.len() == 0 {
        Map::empty()
    } else {
        let m = rules_spec(segs.drop_last());
        match rule_spec(trim_spec(segs.last())) {
            Some((k, a)) => m.insert(k, a),
            None => m,
        }
    }
}

proof fn lemma_char_pos(s: Seq<char>, c: char)
    ensures
        char_pos(s, c) <= s.len(),
        char_pos(s, c) < s.len() ==> s[char_pos(s, c) as int] == c,
        forall|k: int| 0 <= k < char_pos(s, c) ==> s[k] != c,
    decreases s.len(),
{
    if s.len() > 0 && s[0] != c {
        lemma_char_pos(s.drop_first(), c);
        assert forall|k: int| 0 <= k < char_pos(s, c) implies s[k] != c by {
            if k > 0 {
                assert(s[k] == s.drop_first()[k - 1]);
            }
        }
    }
}

proof fn lemma_char_pos_skip(s: Seq<char>, c: char, j: int)
    requires
        0 <= j <= s.len(),
        forall|k: int| 0 <= k < j ==> s[k] != c,
    ensures
        char_pos(s, c) == j + char_pos(s.skip(j), c),
    decreases j,
{
    if j > 0 {
        lemma_char_pos_skip(s.drop_first(), c, j - 1);
        assert(s.drop_first().skip(j - 1) =~= s.skip(j));
    } else {
        assert(s.skip(0) =~= s);
    }
}

/// The position of the first `c` in `cs[from..]`, as an index of `cs`.
fn find_char(cs: &Vec<char>, from: usize, c: char) -> (r: usize)
    requires
        from <= cs@.len(),
    ensures
        r == from + char_pos(cs@.skip(from as int), c),
        r <= cs@.len(),
{
    let mut j = from;
    while j < cs.len() && cs[j] != c
        invariant
            from <= j <= cs@.len(),
            forall|k: int| from <= k < j ==> cs@[k] != c,
        decreases cs@.len() - j,
    {
        j = j + 1;
    }
    proof {
        let s = cs@.skip(from as int);
        assert forall|k: int| 0 <= k < j - from implies s[k] != c by {
            assert(s[k] == cs@[k + from]);
        }
        lemma_char_pos_skip(s, c, j - from);
        lemma_char_pos(s.skip(j - from), c);
        if j < cs@.len() {
            assert(s.skip(j - from)[0] == cs@[j as int]);
        }
    }
    j
}

/// `s.split_once(c)`.
pub fn split_once(s: &str, c: char) -> (r: Option<(String, String)>)
    ensures
        match (r, split_once_spec(s@, c)) {
            (Some((a, b)), Some((x, y))) => a@ == x && b@ == y,
            (None, None) => true,
            _ => false,
        },
{
    let cs = chars_of(s);
    let i = find_char(&cs, 0, c);
    assert(cs@.skip(0) =~= cs@);
    if i >= cs.len() {
        None
    } else {
        let a = string_from_range(&cs, 0, i);
        let b = string_from_range(&cs, i + 1, cs.len());
        assert(cs@.subrange(0, i as int) =~= s@.take(i as int));
        assert(cs@.subrange(i + 1, cs@.len() as int) =~= s@.skip(i + 1));
        Some((a, b))
    }
}

/// `s.split(c)`, collected.
pub fn split_on(s: &str, c: char) -> (r: Vec<String>)
    ensures
        r@.map_values(|x: String| x@) == split_spec(s@, c),
{
    let cs = chars_of(s);
    let mut out: Vec<String> = Vec::new();
    let mut from: usize = 0;
    assert(cs@.skip(0) =~= cs@);
    assert(out@.map_values(|x: String| x@) + split_spec(cs@.skip(0), c) =~= split_spec(s@, c));
    loop
        invariant_except_break
            from <= cs@.len(),
            cs@ == s@,
            out@.map_values(|x: String| x@) + split_spec(cs@.skip(from as int), c) == split_spec(s@, c),
        ensures
            out@.map_values(|x: String| x@) == split_spec(s@, c),
        decreases cs@.len() - from,
    {
        let i = find_char(&cs, from, c);
        let part = string_from_range(&cs, from, i);
        let ghost rest = cs@.skip(from as int);
        let ghost prev = out@;
        proof {
            assert(cs@.subrange(from as int, i as int) =~= rest.take(i - from));
        }
        out.push(part);
        if i >= cs.len() {
            proof {
                assert(split_spec(rest, c) == seq![rest]);
                assert(rest.take(i - from) =~= rest);
                assert(out@.map_values(|x: String| x@) =~= prev.map_values(|x: String| x@).push(rest));
                assert(out@.map_values(|x: String| x@) =~= prev.map_values(|x: String| x@) + split_spec(rest, c));
            }
            break;
        }
        proof {
            assert(rest.skip(i - from + 1) =~= cs@.skip(i + 1));
            assert(split_spec(rest, c) == seq![rest.take(i - from)] + split_spec(cs@.skip(i + 1), c));
            assert(out@.map_values(|x: String| x@) =~= prev.map_values(|x: String| x@).push(rest.take(i - from)));
            assert(out@.map_values(|x: String| x@) + split_spec(cs@.skip(i + 1), c) =~= prev.map_values(
                |x: String| x@,
            ) + split_spec(rest, c));
        }
        from = i + 1;
    }
    out
}

/// The rule a trimmed segment states, if it is one.
fn parse_rule(seg: &str) -> (r: Option<(String, FaultAction)>)
    ensures
        match (r, rule_spec(seg@)) {
            (Some((k, a)), Some((k2, a2))) => k@ == k2 && a@ == a2,
            (None, None) => true,
            _ => false,
        },
{
    let (k, a) = match split_once(seg, '=') {
        None => {
            return None;
        },
        Some(p) => p,
    };
    let key = trim(k.as_str());
    let text = trim(a.as_str());
    match split_once(text.as_str(), ':') {
        Some((kind, arg)) => {
            if str_eq(kind.as_str(), "error") {
                Some((key, FaultAction::Error(trim(arg.as_str()))))
            } else if str_eq(kind.as_str(), "delay") {
                let ms = match parse_u64(trim(arg.as_str()).as_str()) {
                    Some(v) => v,
                    None => 0,
                };
                Some((key, FaultAction::DelayMs(ms)))
            } else if str_eq(text.as_str(), "panic") {
                Some((key, FaultAction::Panic))
            } else {
                None
            }
        },
        None => {
            if str_eq(text.as_str(), "panic") {
                Some((key, FaultAction::Panic))
            } else {
                None
            }
        },
    }
}

/// The armed fault points of one process.
pub struct FaultInjector {
    rules: Registry<FaultAction>,
}

impl FaultInjector {
    /// The armed points and what they do.
    pub closed spec fn armed(&self) -> Map<Seq<char>, ActionView> {
        self.rules.map().map_values(|a: FaultAction| a@)
    }

    /// The injector's invariant.
    pub closed spec fn wf(&self) -> bool {
        self.rules.wf()
    }

    /// No point armed.
    pub fn new() -> (r: Self)
        ensures
            r.wf(),
            r.armed() == Map::<Seq<char>, ActionView>::empty(),
    {
        let r = FaultInjector { rules: Registry::new() };
        assert(r.armed() =~= Map::<Seq<char>, ActionView>::empty());
        r
    }

    /// Arm point `key` with `action`, replacing what it had.
    pub fn arm(&mut self, key: &str, action: FaultAction)
        requires
            old(self).wf(),
        ensures
            final(self).wf(),
            final(self).armed() == old(self).armed().insert(key@, action@),
    {
        let ghost a = action;
        self.rules.insert(owned(key), action);
        assert(self.armed() =~= old(self).armed().insert(key@, a@));
    }

    /// The rules of a specification string: its comma-separated segments,
    /// trimmed, each a rule or ignored; a later rule for a key wins.
    pub fn parse(spec: &str) -> (r: Self)
        ensures
            r.wf(),
            r.armed() == rules_spec(split_spec(spec@, ',')),
    {
        let segs = split_on(spec, ',');
        let ghost sv = segs@.map_values(|x: String| x@);
        let mut injector = FaultInjector::new();
        let mut i: usize = 0;
        while i < segs.len()
            invariant
                i <= segs@.len(),
                sv == segs@.map_values(|x: String| x@),
                sv == split_spec(spec@, ','),
                injector.wf(),
                injector.armed() == rules_spec(sv.take(i as int)),
            decreases segs@.len() - i,
        {
            let seg = trim(segs[i].as_str());
            proof {
                assert(sv.take(i + 1).drop_last() =~= sv.take(i as int));
                assert(sv.take(i + 1).last() == segs@[i as int]@);
            }
            match parse_rule(seg.as_str()) {
                Some((k, a)) => {
                    injector.arm(k.as_str(), a);
                },
                None => {},
            }
            i = i + 1;
        }
        assert(sv.take(sv.len() as int) =~= sv);
        injector
    }

    /// Whether point `key` is armed.
    pub fn has(&self, key: &str) -> (r: bool)
        requires
            self.wf(),
        ensures
            r == self.armed().dom().contains(key@),
    {
        self.rules.contains_key(key)
    }

    /// Fire point `key`: an unarmed point does nothing; an `error` point
    /// fails with its key and message; a `panic` or `delay` point asks the
    /// caller to panic or to wait.
    pub fn trigger(&self, key: &str) -> (r: Result<FaultEffect, FaultError>)
        requires
            self.wf(),
        ensures
            !self.armed().dom().contains(key@) ==> r == Ok::<FaultEffect, FaultError>(FaultEffect::Nothing),
            self.armed().dom().contains(key@) ==> match self.armed()[key@] {
                ActionView::Error(m) => r matches Err(e) && e.key_text() == key@ && e.message_text() == m,
                ActionView::Panic => r == Ok::<FaultEffect, FaultError>(FaultEffect::Panic),
                ActionView::DelayMs(ms) => r == Ok::<FaultEffect, FaultError>(FaultEffect::DelayMs(ms)),
            },
    {
        match self.rules.get(key) {
            None => Ok(FaultEffect::Nothing),
            Some(action) => match action {
                FaultAction::Error(m) => Err(FaultError { key: owned(key), message: owned(m.as_str()) }),
                FaultAction::Panic => Ok(FaultEffect::Panic),
                FaultAction::DelayMs(ms) => Ok(FaultEffect::DelayMs(*ms)),
            },
        }
    }
}

impl Default for FaultInjector {
    fn default() -> (r: Self)
        ensures
            r.wf(),
            r.armed() == Map::<Seq<char>, ActionView>::empty(),
    {
        FaultInjector::new()
    }
}

/// Two rules are isolated: arming one point never changes what another
/// point does.
pub proof fn arming_is_isolated(m: Map<Seq<char>, ActionView>, k: Seq<char>, a: ActionView, other: Seq<char>)
    requires
        other != k,
    ensures
        m.insert(k, a).dom().contains(other) == m.dom().contains(other),
        m.dom().contains(other) ==> m.insert(k, a)[other] == m[other],
{
}


/// A split always has at least one part.
pub proof fn lemma_split_nonempty(s: Seq<char>, c: char)
    ensures
        split_spec(s, c).len() >= 1,
    decreases s.len(),
{
    lemma_char_pos(s, c);
    let i = char_pos(s, c);
    if i < s.len() {
        lemma_split_nonempty(s.skip(i + 1 as int), c);
    }
}

} // verus!
