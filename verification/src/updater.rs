//! Self-update from the project's releases: comparing versions, reading
//! the release description, and the typed errors the interface sees.
//! Downloading, unpacking and swapping the application bundle is the
//! application's part.

use vstd::prelude::*;
use crate::json::{json_array_len, json_array_len_at, json_error, json_error_text, json_item_str, json_item_str_at, json_str_at, json_str_field};
use crate::test_support::fault::{split_on, split_spec};
use crate::text::{
    chars_of, concat, contains, decimal, decimal_string, lowercase, newline_pos, owned, parse_u64, parse_u64_spec,
    strip_cr, string_from_range, to_lowercase, trim, trim_spec,
};

verus! {

/// The release description the update check reads.
pub const RELEASES_API: &'static str = "https://api.github.com/repos/zibochen6/jetson-tools/releases/latest";

/// The name ending of the packaged application asset.
pub const ASSET_SUFFIX: &'static str = ".app.tar.gz";

/// A typed updater error: a short code and a message.
#[derive(Debug)]
pub struct UpdateError {
    pub code: String,
    pub message: String,
}

impl UpdateError {
    /// An error with this code and message.
    pub fn new(code: &str, message: &str) -> (r: Self)
        ensures
            r.code@ == code@,
            r.message@ == message@,
    {
        UpdateError { code: owned(code), message: owned(message) }
    }
}

/// What the update check found.
#[derive(Debug)]
pub struct UpdateCheckResult {
    pub current_version: String,
    pub latest_version: Option<String>,
    pub update_available: bool,
    pub release_url: Option<String>,
    pub app_asset_url: Option<String>,
    /// Whether the application runs from an installed bundle (so it can
    /// install an update itself).
    pub is_bundled_app: bool,
}

/// `s` without its leading `c`s (`str::trim_start_matches`).
pub open spec fn strip_leading(s: Seq<char>, c: char) -> Seq<char>
    decreases s.len(),
{
    if s.len() > 0 && s[0] == c {
        strip_leading(s.drop_first(), c)
    } else {
        s
    }
}

/// The length of the leading run of ASCII digits.
pub open spec fn digit_run(s: Seq<char>) -> nat
    decreases s.len(),
{
    if s.len() > 0 && '0' <= s[0] && s[0] <= '9' {
        1 + digit_run(s.drop_first())
    } else {
        0
    }
}

/// The number a version part stands for: its leading digits, 0 when there
/// are none or they do not fit.
pub open spec fn part_value(p: Seq<char>) -> u64 {
    match parse_u64_spec(p.take(digit_run(p) as int)) {
        Some(v) => v,
        None => 0,
    }
}

/// The numbers of a version text: trimmed, leading `v`s then `V`s
/// dropped, split at dots, each part's leading digits.
pub open spec fn version_parts(s: Seq<char>) -> Seq<u64> {
    split_spec(strip_leading(strip_leading(trim_spec(s), 'v'), 'V'), '.').map_values(|p: Seq<char>| part_value(p))
}

fn strip_leading_exec(s: &str, c: char) -> (r: String)
    ensures
        r@ == strip_leading(s@, c),
{
    let cs = chars_of(s);
    let mut i: usize = 0;
    assert(s@.skip(0) =~= s@);
    while i < cs.len() && cs[i] == c
        invariant
            i <= cs@.len(),
            cs@ == s@,
            strip_leading(s@, c) == strip_leading(s@.skip(i as int), c),
        decreases cs@.len() - i,
    {
        proof {
            assert(s@.skip(i as int)[0] == c);
            assert(s@.skip(i as int).drop_first() =~= s@.skip(i + 1));
        }
        i = i + 1;
    }
    proof {
        assert(s@.skip(0) =~= s@);
    }
    let r = string_from_range(&cs, i, cs.len());
    proof {
        assert(cs@.subrange(i as int, cs@.len() as int) =~= s@.skip(i as int));
        if i < cs.len() {
            assert(s@.skip(i as int)[0] != c);
        }
    }
    r
}

fn part_value_exec(p: &str) -> (r: u64)
    ensures
        r == part_value(p@),
{
    let cs = chars_of(p);
    let mut i: usize = 0;
    assert(p@.skip(0) =~= p@);
    while i < cs.len() && '0' <= cs[i] && cs[i] <= '9'
        invariant
            i <= cs@.len(),
            cs@ == p@,
            digit_run(p@) == i + digit_run(p@.skip(i as int)),
        decreases cs@.len() - i,
    {
        proof {
            assert(p@.skip(i as int).drop_first() =~= p@.skip(i + 1));
        }
        i = i + 1;
    }
    proof {
        assert(p@.skip(0) =~= p@);
        if i < cs.len() {
            assert(p@.skip(i as int)[0] == cs@[i as int]);
        }
        assert(digit_run(p@) == i);
    }
    let digits = string_from_range(&cs, 0, i);
    assert(digits@ =~= p@.take(i as int));
    match parse_u64(digits.as_str()) {
        Some(v) => v,
        None => 0,
    }
}

/// The numbers of a version text, e.g. `v0.2.1` is 0, 2, 1.
pub fn parse_version(s: &str) -> (r: Vec<u64>)
    ensures
        r@ == version_parts(s@),
{
    let t = trim(s);
    let a = strip_leading_exec(t.as_str(), 'v');
    let b = strip_leading_exec(a.as_str(), 'V');
    let parts = split_on(b.as_str(), '.');
    let ghost pv = parts@.map_values(|x: String| x@);
    let mut out: Vec<u64> = Vec::new();
    let mut i: usize = 0;
    while i < parts.len()
        invariant
            i <= parts@.len(),
            pv == parts@.map_values(|x: String| x@),
            out@ == pv.take(i as int).map_values(|p: Seq<char>| part_value(p)),
        decreases parts@.len() - i,
    {
        out.push(part_value_exec(parts[i].as_str()));
        proof {
            assert(pv[i as int] == parts@[i as int]@);
            assert(pv.take(i + 1) =~= pv.take(i as int).push(pv[i as int]));
            assert(out@ =~= pv.take(i + 1).map_values(|p: Seq<char>| part_value(p)));
        }
        i = i + 1;
    }
    assert(pv.take(pv.len() as int) =~= pv);
    out
}

/// Part `i` of a version, 0 past its end.
pub open spec fn part_at(v: Seq<u64>, i: int) -> u64 {
    if 0 <= i < v.len() {
        v[i]
    } else {
        0
    }
}

/// Whether version `b` is newer than `a` from part `i` on: the first part
/// where they differ is larger in `b` (missing parts count as 0).
pub open spec fn newer_from(a: Seq<u64>, b: Seq<u64>, i: int) -> bool
    decreases (if a.len() > b.len() { a.len() } else { b.len() }) - i,
{
    let n: int = if a.len() > b.len() { a.len() as int } else { b.len() as int };
    if i < 0 || i >= n {
        false
    } else if part_at(b, i) > part_at(a, i) {
        true
    } else if part_at(a, i) > part_at(b, i) {
        false
    } else {
        newer_from(a, b, i + 1)
    }
}

/// Whether version `b` is newer than `a`.
pub open spec fn newer(a: Seq<u64>, b: Seq<u64>) -> bool {
    newer_from(a, b, 0)
}

/// Whether `candidate` is a newer version than `current` (a suffix such as
/// `-rc1` is dropped with the non-digits of its part).
pub fn version_is_newer(current: &str, candidate: &str) -> (r: bool)
    ensures
        r == newer(version_parts(current@), version_parts(candidate@)),
{
    let a = parse_version(current);
    let b = parse_version(candidate);
    let n = if a.len() > b.len() { a.len() } else { b.len() };
    let mut i: usize = 0;
    while i < n
        invariant
            a@ == version_parts(current@),
            b@ == version_parts(candidate@),
            n == (if a@.len() > b@.len() { a@.len() } else { b@.len() }),
            i <= n,
            newer(a@, b@) == newer_from(a@, b@, i as int),
        decreases n - i,
    {
        let av = if i < a.len() { a[i] } else { 0 };
        let bv = if i < b.len() { b[i] } else { 0 };
        if bv > av {
            return true;
        }
        if av > bv {
            return false;
        }
        i = i + 1;
    }
    false
}

proof fn lemma_newer_irreflexive(a: Seq<u64>, i: int)
    ensures
        !newer_from(a, a, i),
    decreases a.len() - i,
{
    if 0 <= i < a.len() {
        lemma_newer_irreflexive(a, i + 1);
    }
}

proof fn lemma_newer_asymmetric(a: Seq<u64>, b: Seq<u64>, i: int)
    requires
        newer_from(a, b, i),
    ensures
        !newer_from(b, a, i),
    decreases (if a.len() > b.len() { a.len() } else { b.len() }) - i,
{
    let n: int = if a.len() > b.len() { a.len() as int } else { b.len() as int };
    if 0 <= i < n && part_at(a, i) == part_at(b, i) {
        lemma_newer_asymmetric(a, b, i + 1);
    }
}

proof fn lemma_newer_transitive(a: Seq<u64>, b: Seq<u64>, c: Seq<u64>, i: int)
    requires
        i >= 0,
        newer_from(a, b, i),
        newer_from(b, c, i),
    ensures
        newer_from(a, c, i),
    decreases (if a.len() > b.len() { if a.len() > c.len() { a.len() } else { c.len() } } else { if b.len() > c.len() { b.len() } else { c.len() } }) - i,
{
    let nab: int = if a.len() > b.len() { a.len() as int } else { b.len() as int };
    let nbc: int = if b.len() > c.len() { b.len() as int } else { c.len() as int };
    let nac: int = if a.len() > c.len() { a.len() as int } else { c.len() as int };
    assert(i < nab && i < nbc);
    if part_at(a, i) == part_at(b, i) && part_at(b, i) == part_at(c, i) {
        lemma_newer_transitive(a, b, c, i + 1);
        assert(i < nac || (part_at(a, i) == 0 && part_at(c, i) == 0));
        if i >= nac {
            lemma_newer_beyond(a, c, i + 1);
        }
    } else {
        assert(part_at(c, i) > part_at(a, i));
        assert(i < nac || part_at(c, i) == 0);
    }
}

proof fn lemma_newer_beyond(a: Seq<u64>, c: Seq<u64>, i: int)
    requires
        i >= a.len(),
        i >= c.len(),
    ensures
        !newer_from(a, c, i),
{
}

/// No version is newer than itself.
pub proof fn version_newer_is_irreflexive(a: Seq<u64>)
    ensures
        !newer(a, a),
{
    lemma_newer_irreflexive(a, 0);
}

/// Of two versions, at most one is newer than the other.
pub proof fn version_newer_is_asymmetric(a: Seq<u64>, b: Seq<u64>)
    requires
        newer(a, b),
    ensures
        !newer(b, a),
{
    lemma_newer_asymmetric(a, b, 0);
}

/// Newer-than is transitive.
pub proof fn version_newer_is_transitive(a: Seq<u64>, b: Seq<u64>, c: Seq<u64>)
    requires
        newer(a, b),
        newer(b, c),
    ensures
        newer(a, c),
{
    lemma_newer_transitive(a, b, c, 0);
}

/// What the release query printed: the body on its first line, the HTTP
/// status on its second (0 when missing or unreadable).
pub open spec fn curl_output(stdout: Seq<char>) -> (Seq<char>, u32) {
    let lines = split_spec(stdout, '\n');
    let body = strip_cr(lines[0]);
    let code = if lines.len() > 1 {
        match parse_u64_spec(trim_spec(lines[1])) {
            Some(v) => if v <= u32::MAX {
                v as u32
            } else {
                0
            },
            None => 0,
        }
    } else {
        0
    };
    (body, code)
}

/// Split the release query's output into its body and HTTP status.
pub fn parse_curl_output(stdout: &str) -> (r: (String, u32))
    ensures
        r.0@ == curl_output(stdout@).0,
        r.1 == curl_output(stdout@).1,
{
    let lines = split_on(stdout, '\n');
    proof {
        crate::test_support::fault::lemma_split_nonempty(stdout@, '\n');
    }
    let ghost lv = lines@.map_values(|x: String| x@);
    assert(lv[0] == lines@[0]@);
    let first = &lines[0];
    let fc = chars_of(first.as_str());
    let body = if fc.len() > 0 && fc[fc.len() - 1] == '\r' {
        string_from_range(&fc, 0, fc.len() - 1)
    } else {
        owned(first.as_str())
    };
    proof {
        assert(fc@.subrange(0, fc@.len() - 1) =~= fc@.drop_last());
    }
    let code = if lines.len() > 1 {
        assert(lv[1] == lines@[1]@);
        match parse_u64(trim(lines[1].as_str()).as_str()) {
            Some(v) => if v <= 4294967295 {
                v as u32
            } else {
                0
            },
            None => 0,
        }
    } else {
        0
    };
    (body, code)
}

/// The first asset whose lower-cased name ends with the asset suffix,
/// among the first `n` items (assets without a name or URL are skipped).
pub open spec fn asset_from(text: Seq<char>, n: int) -> Option<Seq<char>>
    decreases n,
{
    if n <= 0 {
        None
    } else {
        match asset_from(text, n - 1) {
            Some(u) => Some(u),
            None => {
                let i = (n - 1) as usize;
                match (json_item_str_at(text, "assets"@, i, "name"@), json_item_str_at(text, "assets"@, i, "browser_download_url"@)) {
                    (Some(name), Some(url)) => if ends_with_spec(lowercase(name), ".app.tar.gz"@) {
                        Some(url)
                    } else {
                        None
                    },
                    _ => None,
                }
            },
        }
    }
}

/// Whether `s` ends with `suffix`.
pub open spec fn ends_with_spec(s: Seq<char>, suffix: Seq<char>) -> bool {
    suffix.len() <= s.len() && s.skip(s.len() - suffix.len()) == suffix
}

fn ends_with(s: &str, suffix: &str) -> (r: bool)
    ensures
        r == ends_with_spec(s@, suffix@),
{
    let cs = chars_of(s);
    let xs = chars_of(suffix);
    if xs.len() > cs.len() {
        return false;
    }
    let off = cs.len() - xs.len();
    let mut j: usize = 0;
    while j < xs.len()
        invariant
            j <= xs@.len(),
            off + xs@.len() == cs@.len(),
            xs@.len() == xs.len(),
            cs@.len() == cs.len(),
            cs@ == s@,
            xs@ == suffix@,
            forall|k: int| 0 <= k < j ==> cs@[off + k] == xs@[k],
        decreases xs@.len() - j,
    {
        if cs[off + j] != xs[j] {
            assert(s@.skip(off as int)[j as int] != suffix@[j as int]);
            return false;
        }
        j = j + 1;
    }
    assert(s@.skip(off as int) =~= suffix@);
    true
}

/// The tag of a release without its leading `v`s.
pub open spec fn release_tag(text: Seq<char>) -> Seq<char> {
    strip_leading(
        match json_str_at(text, "tag_name"@) {
            Some(t) => t,
            None => Seq::<char>::empty(),
        },
        'v',
    )
}

/// Whether `r` is the check result for release description `body`: a
/// parse error; or the latest version (its tag, when not empty), whether it
/// is newer than `current`, the release page, and the packaged application
/// asset.
pub open spec fn release_result(
    r: Result<UpdateCheckResult, UpdateError>,
    current: Seq<char>,
    is_bundled_app: bool,
    body: Seq<char>,
) -> bool {
    match json_error_text(body) {
        Some(e) => r matches Err(err) && err.code@ == "parse"@ && err.message@ == e,
        None => r matches Ok(c) && {
            let tag = release_tag(body);
            &&& c.current_version@ == current
            &&& c.is_bundled_app == is_bundled_app
            &&& (tag.len() > 0 ==> (c.latest_version matches Some(v) && v@ == tag))
            &&& (tag.len() == 0 ==> c.latest_version is None)
            &&& c.update_available == (tag.len() > 0 && newer(version_parts(current), version_parts(tag)))
            &&& crate::text::opt_view(c.release_url) == json_str_at(body, "html_url"@)
            &&& crate::text::opt_view(c.app_asset_url) == asset_from(
                body,
                match json_array_len_at(body, "assets"@) {
                    Some(n) => n as int,
                    None => 0,
                },
            )
        },
    }
}

/// The check result for a release description: the latest version (its
/// tag, when not empty), whether it is newer than `current`, the release
/// page, and the packaged application asset.
pub fn release_check(current: &str, is_bundled_app: bool, body: &str) -> (r: Result<UpdateCheckResult, UpdateError>)
    ensures
        release_result(r, current@, is_bundled_app, body@),
{
    match json_error(body) {
        Some(e) => {
            return Err(UpdateError { code: owned("parse"), message: e });
        },
        None => {},
    }
    let raw_tag = match json_str_field(body, "tag_name") {
        Some(t) => t,
        None => String::new(),
    };
    let tag = strip_leading_exec(raw_tag.as_str(), 'v');
    let html_url = json_str_field(body, "html_url");
    let n = match json_array_len(body, "assets") {
        Some(n) => n,
        None => 0,
    };
    let mut asset: Option<String> = None;
    let mut i: usize = 0;
    while i < n
        invariant
            i <= n,
            n as int == (match json_array_len_at(body@, "assets"@) {
                Some(k) => k as int,
                None => 0,
            }),
            crate::text::opt_view(asset) == asset_from(body@, i as int),
        decreases n - i,
    {
        if asset.is_none() {
            let name = json_item_str(body, "assets", i, "name");
            let url = json_item_str(body, "assets", i, "browser_download_url");
            match (name, url) {
                (Some(nm), Some(u)) => {
                    let low = to_lowercase(nm.as_str());
                    if ends_with(low.as_str(), ASSET_SUFFIX) {
                        asset = Some(u);
                    }
                },
                _ => {},
            }
        }
        i = i + 1;
    }
    let has_tag = !tag.as_str().is_empty();
    let update_available = has_tag && version_is_newer(current, tag.as_str());
    Ok(UpdateCheckResult {
        current_version: owned(current),
        latest_version: if has_tag { Some(tag) } else { None },
        update_available,
        release_url: html_url,
        app_asset_url: asset,
        is_bundled_app,
    })
}

/// The result of the release query: no release yet (404) means nothing to
/// update to; a rate limit (403, 429) and any other failure or empty body
/// are errors; otherwise the release description decides.
pub fn update_check(current: &str, is_bundled_app: bool, http_code: u32, body: &str) -> (r: Result<UpdateCheckResult, UpdateError>)
    ensures
        http_code == 404 ==> (r matches Ok(c) && c.current_version@ == current@ && c.latest_version is None
            && !c.update_available && c.release_url is None && c.app_asset_url is None && c.is_bundled_app
            == is_bundled_app),
        (http_code == 403 || http_code == 429) ==> (r matches Err(e) && e.code@ == "rateLimited"@),
        http_code != 404 && http_code != 403 && http_code != 429 && (http_code != 200 || trim_spec(body@).len() == 0)
            ==> (r matches Err(e) && e.code@ == "network"@ && e.message@ == "GitHub API 响应异常 (HTTP "@ + decimal(
            http_code as nat,
        ) + ")"@),
        http_code == 200 && trim_spec(body@).len() > 0 ==> release_result(r, current@, is_bundled_app, body@),
{
    if http_code == 404 {
        return Ok(UpdateCheckResult {
            current_version: owned(current),
            latest_version: None,
            update_available: false,
            release_url: None,
            app_asset_url: None,
            is_bundled_app,
        });
    }
    if http_code == 403 || http_code == 429 {
        return Err(UpdateError::new("rateLimited", "GitHub API 访问频率受限，请稍后再试"));
    }
    if http_code != 200 || trim(body).as_str().is_empty() {
        let a = concat("GitHub API 响应异常 (HTTP ", decimal_string(http_code as u64).as_str());
        return Err(UpdateError { code: owned("network"), message: concat(a.as_str(), ")") });
    }
    release_check(current, is_bundled_app, body)
}

/// The smallest plausible application bundle download (1 MiB).
pub const MIN_BUNDLE_BYTES: u64 = 1048576;

/// The outcome of a bundle download with HTTP status `http_code` that
/// wrote `size` bytes: anything but 200 is a failed download naming the
/// status; a file under `MIN_BUNDLE_BYTES` is a broken download.
pub fn download_check(http_code: u32, size: u64) -> (r: Result<(), UpdateError>)
    ensures
        http_code != 200 ==> (r matches Err(e) && e.code@ == "download"@ && e.message@ == "下载失败 (HTTP "@ + decimal(
            http_code as nat,
        ) + ")"@),
        http_code == 200 && size < MIN_BUNDLE_BYTES ==> (r matches Err(e) && e.code@ == "download"@ && e.message@
            == "下载内容异常（文件过小），请检查网络后重试"@),
        http_code == 200 && size >= MIN_BUNDLE_BYTES ==> r is Ok,
{
    if http_code != 200 {
        let a = concat("下载失败 (HTTP ", decimal_string(http_code as u64).as_str());
        return Err(UpdateError { code: owned("download"), message: concat(a.as_str(), ")") });
    }
    if size < MIN_BUNDLE_BYTES {
        return Err(UpdateError::new("download", "下载内容异常（文件过小），请检查网络后重试"));
    }
    Ok(())
}

} // verus!
