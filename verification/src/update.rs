//! The update check: reading the latest release from the releases API's
//! reply and comparing its version with the running one. The HTTP request
//! is the caller's.

use vstd::prelude::*;
use vstd::string::StringExecFns;

use crate::text::{parse_uint, parse_uint_exec, split_chars, split_on, string_from_chars, to_chars};

verus! {

/// Info about a newer release that was found.
#[derive(Clone, Debug)]
pub struct ReleaseInfo {
    /// The version string with the tag's leading `v` stripped (e.g. "0.6.0").
    pub version: String,
    /// The release page URL.
    pub url: String,
    /// Download URL of the portable executable, when the release has one.
    pub exe_url: Option<String>,
    /// Download URL of the installer, when the release has one.
    pub setup_url: Option<String>,
}

/// Component `i` of a dotted version: the `i`-th `.`-separated piece parsed
/// as a `u32`, or 0 when it is missing or not a valid number.
pub open spec fn version_part(v: Seq<char>, i: int) -> int {
    let parts = split_on(v, '.');
    if i < parts.len() {
        match parse_uint(parts[i], u32::MAX as int) {
            Some(x) => x,
            None => 0,
        }
    } else {
        0
    }
}

/// The `(major, minor, patch)` triple of a dotted version string.
pub open spec fn spec_parse_version(v: Seq<char>) -> (int, int, int) {
    (version_part(v, 0), version_part(v, 1), version_part(v, 2))
}

/// Whether `a` is lexicographically greater than `b`.
pub open spec fn triple_gt(a: (int, int, int), b: (int, int, int)) -> bool {
    a.0 > b.0 || (a.0 == b.0 && (a.1 > b.1 || (a.1 == b.1 && a.2 > b.2)))
}

/// The numeric `X.Y.Z` triple of `v`; missing or invalid components are 0.
pub fn parse_version(v: &str) -> (r: (u32, u32, u32))
    ensures
        (r.0 as int, r.1 as int, r.2 as int) == spec_parse_version(v@),
{
    let s = to_chars(v);
    let parts = split_chars(s.as_slice(), '.');
    let mut out: [u32; 3] = [0, 0, 0];
    let mut i: usize = 0;
    while i < 3
        invariant
            s@ == v@,
            parts@.len() == split_on(s@, '.').len(),
            forall|k: int| 0 <= k < parts@.len() ==> #[trigger] parts@[k]@ == split_on(s@, '.')[k],
            i <= 3,
            forall|k: int| 0 <= k < i ==> out@[k] as int == version_part(v@, k),
        decreases 3 - i,
    {
        let x: u32 = if i < parts.len() {
            match parse_uint_exec(parts[i].as_slice(), u32::MAX as u64) {
                Some(x) => x as u32,
                None => 0,
            }
        } else {
            0
        };
        out.set(i, x);
        i = i + 1;
    }
    (out[0], out[1], out[2])
}

/// A simple numeric `X.Y.Z` comparison (no pre-release identifiers).
/// Missing or invalid components count as 0; never panics.
pub fn is_newer(latest: &str, current: &str) -> (r: bool)
    ensures
        r == triple_gt(spec_parse_version(latest@), spec_parse_version(current@)),
{
    let a = parse_version(latest);
    let b = parse_version(current);
    a.0 > b.0 || (a.0 == b.0 && (a.1 > b.1 || (a.1 == b.1 && a.2 > b.2)))
}

/// The release page used when the reply has no `html_url`.
pub const RELEASES_URL: &'static str = "https://github.com/yozba/pashari/releases";

/// What `serde_json` reads from the reply `body`: the string values of its
/// top-level `tag_name` and `html_url` (absent when missing or not a
/// string), or the parser's error message when `body` is not JSON.
pub uninterp spec fn json_release_fields(body: Seq<u8>) -> Result<
    (Option<Seq<char>>, Option<Seq<char>>),
    Seq<char>,
>;

/// The text of an optional string.
pub open spec fn opt_view(o: Option<String>) -> Option<Seq<char>> {
    match o {
        Some(s) => Some(s@),
        None => None,
    }
}

/// `serde_json::from_slice` into a `Value`, then `get(..)` and `as_str`
/// for `tag_name` and `html_url`; a parse error becomes its message.
#[verifier::external_body]
fn read_release_fields(body: &[u8]) -> (r: Result<(Option<String>, Option<String>), String>)
    ensures
        match r {
            Ok((tag, url)) => json_release_fields(body@) == Ok::<
                (Option<Seq<char>>, Option<Seq<char>>),
                Seq<char>,
            >((opt_view(tag), opt_view(url))),
            Err(e) => json_release_fields(body@) == Err::<
                (Option<Seq<char>>, Option<Seq<char>>),
                Seq<char>,
            >(e@),
        },
{
    match serde_json::from_slice::<serde_json::Value>(body) {
        Ok(v) => Ok(
            (
                v.get("tag_name").and_then(serde_json::Value::as_str).map(String::from),
                v.get("html_url").and_then(serde_json::Value::as_str).map(String::from),
            ),
        ),
        Err(e) => Err(e.to_string()),
    }
}

/// `s` without its leading `v`s.
pub open spec fn trim_leading_v(s: Seq<char>) -> Seq<char>
    decreases s.len(),
{
    if s.len() > 0 && s[0] == 'v' {
        trim_leading_v(s.drop_first())
    } else {
        s
    }
}

/// The outcome of the update check given what the reply held: the
/// parser's error (after `json: `, as the HTTP client words it), an error when there is no tag, else the release (tag
/// without its leading `v`s, page URL or `RELEASES_URL`) when it is newer
/// than `current`, else nothing.
pub open spec fn spec_release_check(
    fields: Result<(Option<Seq<char>>, Option<Seq<char>>), Seq<char>>,
    current: Seq<char>,
) -> Result<Option<(Seq<char>, Seq<char>)>, Seq<char>> {
    match fields {
        Err(e) => Err("json: "@ + e),
        Ok((tag, url)) => match tag {
            None => Err("tag_name が取得できません"@),
            Some(t) => {
                let v = trim_leading_v(t);
                let u = match url {
                    Some(u) => u,
                    None => RELEASES_URL@,
                };
                if triple_gt(spec_parse_version(v), spec_parse_version(current)) {
                    Ok(Some((v, u)))
                } else {
                    Ok(None)
                }
            },
        },
    }
}

/// Decides the update check from the reply's fields (see
/// `spec_release_check`) against the running version `current`.
pub fn release_check(
    fields: Result<(Option<String>, Option<String>), String>,
    current: &str,
) -> (r: Result<Option<ReleaseInfo>, String>)
    ensures
        ({
            let f = match fields {
                Ok((t, u)) => Ok::<(Option<Seq<char>>, Option<Seq<char>>), Seq<char>>(
                    (opt_view(t), opt_view(u)),
                ),
                Err(e) => Err::<(Option<Seq<char>>, Option<Seq<char>>), Seq<char>>(e@),
            };
            match r {
                Ok(Some(info)) => spec_release_check(f, current@) == Ok::<
                    Option<(Seq<char>, Seq<char>)>,
                    Seq<char>,
                >(Some((info.version@, info.url@))) && info.exe_url is None && info.setup_url is None,
                Ok(None) => spec_release_check(f, current@) == Ok::<
                    Option<(Seq<char>, Seq<char>)>,
                    Seq<char>,
                >(None),
                Err(e) => spec_release_check(f, current@) == Err::<
                    Option<(Seq<char>, Seq<char>)>,
                    Seq<char>,
                >(e@),
            }
        }),
{
    let (tag, url) = match fields {
        Ok(x) => x,
        Err(e) => {
            let mut m = String::from_str("json: ");
            m.append(e.as_str());
            return Err(m);
        },
    };
    let tag = match tag {
        Some(t) => t,
        None => {
            return Err(String::from_str("tag_name が取得できません"));
        },
    };
    let t = to_chars(tag.as_str());
    let mut i: usize = 0;
    assert(t@.skip(0) =~= t@);
    while i < t.len() && t[i] == 'v'
        invariant
            t@ == tag@,
            i <= t@.len(),
            trim_leading_v(t@) == trim_leading_v(t@.skip(i as int)),
        decreases t@.len() - i,
    {
        assert(t@.skip(i as int).drop_first() =~= t@.skip(i as int + 1));
        i = i + 1;
    }
    let mut rest: Vec<char> = Vec::new();
    let mut j: usize = i;
    while j < t.len()
        invariant
            i <= j <= t@.len(),
            rest@ == t@.subrange(i as int, j as int),
        decreases t@.len() - j,
    {
        rest.push(t[j]);
        j = j + 1;
        assert(rest@ =~= t@.subrange(i as int, j as int));
    }
    assert(rest@ =~= t@.skip(i as int));
    assert(trim_leading_v(t@.skip(i as int)) == t@.skip(i as int));
    let version = string_from_chars(rest.as_slice());
    let url = match url {
        Some(u) => u,
        None => String::from_str(RELEASES_URL),
    };
    if is_newer(version.as_str(), current) {
        Ok(Some(ReleaseInfo { version, url, exe_url: None, setup_url: None }))
    } else {
        Ok(None)
    }
}

/// The update check on the releases API's reply `body`: the latest
/// release when it is newer than `current`, `None` when it is not, an
/// error when the reply is not JSON or has no tag.
pub fn latest_from_body(body: &[u8], current: &str) -> (r: Result<Option<ReleaseInfo>, String>)
    ensures
        match r {
            Ok(Some(info)) => spec_release_check(json_release_fields(body@), current@) == Ok::<
                Option<(Seq<char>, Seq<char>)>,
                Seq<char>,
            >(Some((info.version@, info.url@))) && info.exe_url is None && info.setup_url is None,
            Ok(None) => spec_release_check(json_release_fields(body@), current@) == Ok::<
                Option<(Seq<char>, Seq<char>)>,
                Seq<char>,
            >(None),
            Err(e) => spec_release_check(json_release_fields(body@), current@) == Err::<
                Option<(Seq<char>, Seq<char>)>,
                Seq<char>,
            >(e@),
        },
{
    release_check(read_release_fields(body), current)
}

/// "Newer" is a strict order on version strings: no version is newer than
/// itself, of two versions at most one is newer than the other, and a
/// version newer than one newer than `c` is newer than `c`.
pub proof fn lemma_is_newer_strict_order(a: Seq<char>, b: Seq<char>, c: Seq<char>)
    ensures
        !triple_gt(spec_parse_version(a), spec_parse_version(a)),
        triple_gt(spec_parse_version(a), spec_parse_version(b)) ==> !triple_gt(
            spec_parse_version(b),
            spec_parse_version(a),
        ),
        triple_gt(spec_parse_version(a), spec_parse_version(b)) && triple_gt(
            spec_parse_version(b),
            spec_parse_version(c),
        ) ==> triple_gt(spec_parse_version(a), spec_parse_version(c)),
{
}

} // verus!
