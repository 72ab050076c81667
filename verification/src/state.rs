//! Version state store: the durable record of which version is current and
//! which was previous, its document format, and the on-disk layout of
//! side-by-side versions. The document is a single JSON object with a
//! `current` string and a `previous` string or null; rendering and parsing
//! are inverse on strings free of quotes and backslashes. Reading and
//! writing the document is the caller's I/O.
//!
//! The parser accepts exactly the canonical form this module writes. The
//! document is private to the subsystem — nothing else writes it — so a
//! reordered or reformatted document was not produced here, and reporting it
//! as malformed is safer than guessing at its origin.

use vstd::prelude::*;

use vstd::string::StringExecFns;

use crate::text::{chars_eq, chars_of, find_from, string_of, subvec};
use crate::version::{lemma_first_at, lemma_first_none, spec_first, Version};

verus! {

/// The durable version record: `current` is always present; `previous` is
/// absent on first run.
pub struct VersionState {
    pub current: String,
    pub previous: Option<String>,
}

#[derive(Debug, Clone, PartialEq, Eq)]
pub enum StateError {
    /// A state document exists but does not hold a version record.
    MalformedDocument,
    /// A version string cannot be carried by the document format.
    UnencodableState,
}

/// Strings the document format can carry: no quote, no backslash.
pub open spec fn plain_str(s: Seq<char>) -> bool {
    forall|i: int| 0 <= i < s.len() ==> s[i] != '"' && s[i] != '\\'
}

pub open spec fn opt_view(p: Option<String>) -> Option<Seq<char>> {
    match p {
        None => None,
        Some(s) => Some(s@),
    }
}

/// The canonical state document.
pub open spec fn spec_render_state(cur: Seq<char>, prev: Option<Seq<char>>) -> Seq<char> {
    match prev {
        None => "{\"current\":\""@ + cur + "\",\"previous\":null}"@,
        Some(p) => "{\"current\":\""@ + cur + "\",\"previous\":\""@ + p + "\"}"@,
    }
}

/// What a state document holds: the canonical shape read back, scanning each
/// string up to its closing quote.
pub open spec fn spec_parse_state(s: Seq<char>) -> Option<(Seq<char>, Option<Seq<char>>)> {
    if s.len() < 12 || s.subrange(0, 12) != "{\"current\":\""@ {
        None
    } else {
        let rest1 = s.subrange(12, s.len() as int);
        match spec_first(rest1, '"') {
            None => None,
            Some(q) => {
                let cur = rest1.subrange(0, q);
                let tail = rest1.subrange(q, rest1.len() as int);
                if !plain_str(cur) {
                    None
                } else if tail == "\",\"previous\":null}"@ {
                    Some((cur, None))
                } else if tail.len() >= 14 && tail.subrange(0, 14) == "\",\"previous\":\""@ {
                    let rest2 = tail.subrange(14, tail.len() as int);
                    match spec_first(rest2, '"') {
                        None => None,
                        Some(q2) => {
                            let p = rest2.subrange(0, q2);
                            let tail2 = rest2.subrange(q2, rest2.len() as int);
                            if plain_str(p) && tail2 == "\"}"@ {
                                Some((cur, Some(p)))
                            } else {
                                None
                            }
                        },
                    }
                } else {
                    None
                }
            },
        }
    }
}

/// Rendering and parsing are inverse: a record whose strings the format can
/// carry is read back exactly from its rendered document.
pub proof fn lemma_state_round_trip(cur: Seq<char>, prev: Option<Seq<char>>)
    requires
        plain_str(cur),
        prev matches Some(p) ==> plain_str(p),
    ensures
        spec_parse_state(spec_render_state(cur, prev)) == Some((cur, prev)),
{
    reveal_strlit("{\"current\":\"");
    reveal_strlit("\",\"previous\":null}");
    reveal_strlit("\",\"previous\":\"");
    reveal_strlit("\"}");
    let s = spec_render_state(cur, prev);
    match prev {
        None => {
            assert(s.len() == 12 + cur.len() + 18);
            assert(s.subrange(0, 12) =~= "{\"current\":\""@);
            let rest1 = s.subrange(12, s.len() as int);
            assert(rest1 =~= cur + "\",\"previous\":null}"@);
            assert(rest1[cur.len() as int] == '"');
            assert(forall|j: int| 0 <= j < cur.len() ==> rest1[j] == cur[j]);
            lemma_first_at(rest1, '"', cur.len() as int);
            assert(rest1.subrange(0, cur.len() as int) =~= cur);
            assert(rest1.subrange(cur.len() as int, rest1.len() as int)
                =~= "\",\"previous\":null}"@);
        },
        Some(p) => {
            assert(s.len() == 12 + cur.len() + 14 + p.len() + 2);
            assert(s.subrange(0, 12) =~= "{\"current\":\""@);
            let rest1 = s.subrange(12, s.len() as int);
            assert(rest1 =~= cur + "\",\"previous\":\""@ + p + "\"}"@);
            assert(rest1[cur.len() as int] == '"');
            assert(forall|j: int| 0 <= j < cur.len() ==> rest1[j] == cur[j]);
            lemma_first_at(rest1, '"', cur.len() as int);
            assert(rest1.subrange(0, cur.len() as int) =~= cur);
            let tail = rest1.subrange(cur.len() as int, rest1.len() as int);
            assert(tail =~= "\",\"previous\":\""@ + p + "\"}"@);
            assert(tail != "\",\"previous\":null}"@) by {
                if tail == "\",\"previous\":null}"@ {
                    assert(tail[13] == 'n');
                    assert(tail[13] == "\",\"previous\":\""@[13]);
                }
            }
            assert(tail.len() >= 14);
            assert(tail.subrange(0, 14) =~= "\",\"previous\":\""@);
            let rest2 = tail.subrange(14, tail.len() as int);
            assert(rest2 =~= p + "\"}"@);
            assert(rest2[p.len() as int] == '"');
            assert(forall|j: int| 0 <= j < p.len() ==> rest2[j] == p[j]);
            lemma_first_at(rest2, '"', p.len() as int);
            assert(rest2.subrange(0, p.len() as int) =~= p);
            assert(rest2.subrange(p.len() as int, rest2.len() as int) =~= "\"}"@);
        },
    }
}

/// Whether the characters can be carried by the document format.
fn chars_plain(v: &[char]) -> (r: bool)
    ensures
        r == plain_str(v@),
{
    let mut i: usize = 0;
    while i < v.len()
        invariant
            i <= v@.len(),
            forall|j: int| 0 <= j < i ==> v@[j] != '"' && v@[j] != '\\',
        decreases v@.len() - i,
    {
        let c = v[i];
        if c == '"' || c == '\\' {
            return false;
        }
        i = i + 1;
    }
    true
}

/// Render the durable state document. Fails, touching nothing, when a
/// version string cannot be carried by the format.
pub fn save_version_state(state: &VersionState) -> (r: Result<String, StateError>)
    ensures
        r is Ok <==> plain_str(state.current@) && (state.previous matches Some(p) ==> plain_str(
            p@,
        )),
        r matches Ok(doc) ==> doc@ == spec_render_state(state.current@, opt_view(state.previous)),
        r matches Err(e) ==> e is UnencodableState,
{
    let cc = chars_of(state.current.as_str());
    if !chars_plain(cc.as_slice()) {
        return Err(StateError::UnencodableState);
    }
    let mut doc = String::from_str("{\"current\":\"");
    doc.append(state.current.as_str());
    match &state.previous {
        None => {
            doc.append("\",\"previous\":null}");
        },
        Some(p) => {
            let pc = chars_of(p.as_str());
            if !chars_plain(pc.as_slice()) {
                return Err(StateError::UnencodableState);
            }
            doc.append("\",\"previous\":\"");
            doc.append(p.as_str());
            doc.append("\"}");
        },
    }
    Ok(doc)
}

/// Parse a state document.
pub fn parse_version_state(s: &str) -> (r: Option<VersionState>)
    ensures
        match r {
            Some(st) => spec_parse_state(s@) == Some((st.current@, opt_view(st.previous))),
            None => spec_parse_state(s@) is None,
        },
{
    let v = chars_of(s);
    let n = v.len();
    let head = chars_of("{\"current\":\"");
    if n < 12 {
        proof {
            reveal_strlit("{\"current\":\"");
        }
        return None;
    }
    let h = subvec(v.as_slice(), 0, 12);
    if !chars_eq(h.as_slice(), head.as_slice()) {
        proof {
            reveal_strlit("{\"current\":\"");
        }
        return None;
    }
    let ghost rest1 = s@.subrange(12, s@.len() as int);
    let q = match find_from(v.as_slice(), '"', 12) {
        None => {
            proof {
                assert(forall|j: int| 0 <= j < rest1.len() ==> rest1[j] != '"');
                lemma_first_none(rest1, '"');
            }
            return None;
        },
        Some(q) => q,
    };
    proof {
        assert(rest1[(q - 12) as int] == '"');
        assert(forall|j: int| 0 <= j < q - 12 ==> rest1[j] != '"');
        lemma_first_at(rest1, '"', q - 12);
    }
    let cur = subvec(v.as_slice(), 12, q);
    proof {
        assert(cur@ =~= rest1.subrange(0, q - 12));
    }
    if !chars_plain(cur.as_slice()) {
        return None;
    }
    let ghost tail = rest1.subrange(q - 12, rest1.len() as int);
    proof {
        assert(tail =~= s@.subrange(q as int, s@.len() as int));
    }
    let lit_none = chars_of("\",\"previous\":null}");
    let lit_some = chars_of("\",\"previous\":\"");
    let t = subvec(v.as_slice(), q, n);
    if chars_eq(t.as_slice(), lit_none.as_slice()) {
        let current = string_of(cur.as_slice());
        return Some(VersionState { current, previous: None });
    }
    if n - q < 14 {
        proof {
            reveal_strlit("\",\"previous\":\"");
        }
        return None;
    }
    let t14 = subvec(v.as_slice(), q, q + 14);
    if !chars_eq(t14.as_slice(), lit_some.as_slice()) {
        proof {
            assert(t14@ =~= tail.subrange(0, 14));
        }
        return None;
    }
    proof {
        assert(t14@ =~= tail.subrange(0, 14));
    }
    let ghost rest2 = tail.subrange(14, tail.len() as int);
    proof {
        assert(rest2 =~= s@.subrange(q + 14, s@.len() as int));
    }
    let q2 = match find_from(v.as_slice(), '"', q + 14) {
        None => {
            proof {
                assert(forall|j: int| 0 <= j < rest2.len() ==> rest2[j] != '"');
                lemma_first_none(rest2, '"');
            }
            return None;
        },
        Some(q2) => q2,
    };
    proof {
        assert(rest2[(q2 - q - 14) as int] == '"');
        assert(forall|j: int| 0 <= j < q2 - q - 14 ==> rest2[j] != '"');
        lemma_first_at(rest2, '"', q2 - q - 14);
    }
    let p = subvec(v.as_slice(), q + 14, q2);
    proof {
        assert(p@ =~= rest2.subrange(0, q2 - q - 14));
    }
    if !chars_plain(p.as_slice()) {
        return None;
    }
    let lit_end = chars_of("\"}");
    let t2 = subvec(v.as_slice(), q2, n);
    proof {
        assert(t2@ =~= rest2.subrange(q2 - q - 14, rest2.len() as int));
    }
    if !chars_eq(t2.as_slice(), lit_end.as_slice()) {
        return None;
    }
    let current = string_of(cur.as_slice());
    let previous = string_of(p.as_slice());
    Some(VersionState { current, previous: Some(previous) })
}

/// Load the version state from the durable document, or the first-run
/// default when none exists: current `0.0.0`, no previous version, and no
/// error. A document that exists but cannot be read back is an error, never
/// a silent default.
pub fn load_version_state(doc: Option<&str>) -> (r: Result<VersionState, StateError>)
    ensures
        doc is None ==> (r matches Ok(st) && st.current@ == "0.0.0"@ && st.previous is None),
        doc matches Some(d) ==> match r {
            Ok(st) => spec_parse_state(d@) == Some((st.current@, opt_view(st.previous))),
            Err(e) => e is MalformedDocument && spec_parse_state(d@) is None,
        },
{
    match doc {
        None => Ok(VersionState { current: String::from_str("0.0.0"), previous: None }),
        Some(d) => match parse_version_state(d) {
            Some(st) => Ok(st),
            None => Err(StateError::MalformedDocument),
        },
    }
}

/// The bookkeeping shift of a successful apply: the old current version
/// becomes previous, the newly applied version becomes current.
pub fn next_version_state(state: &VersionState, new_version: &String) -> (r: VersionState)
    ensures
        r.current@ == new_version@,
        r.previous matches Some(p) && p@ == state.current@,
{
    VersionState { current: new_version.clone(), previous: Some(state.current.clone()) }
}

/// The root of the side-by-side version layout.
pub open spec fn spec_versions_root(app_config_dir: Seq<char>) -> Seq<char> {
    app_config_dir + "/versions"@
}

pub fn versions_root(app_config_dir: &str) -> (r: String)
    ensures
        r@ == spec_versions_root(app_config_dir@),
{
    let mut r = String::from_str(app_config_dir);
    r.append("/versions");
    r
}

/// Where the durable state document lives.
pub fn state_path(app_config_dir: &str) -> (r: String)
    ensures
        r@ == spec_versions_root(app_config_dir@) + "/version_state.json"@,
{
    let mut r = versions_root(app_config_dir);
    r.append("/version_state.json");
    r
}

/// The directory a given version is installed into.
pub fn version_dir(app_config_dir: &str, version: &Version) -> (r: String)
    ensures
        r@ == spec_versions_root(app_config_dir@) + "/"@ + version.raw@,
{
    let mut r = versions_root(app_config_dir);
    r.append("/");
    r.append(version.raw.as_str());
    r
}

} // verus!
