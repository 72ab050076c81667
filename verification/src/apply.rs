//! Staged apply engine. One apply runs in four strictly ordered steps: stage
//! a fresh temporary directory beside the target versioned directory,
//! extract the bundle into it, promote it with a single atomic rename, and
//! only then commit the version bookkeeping. This module makes every
//! decision of that state machine: it reads the bundle, refuses any entry
//! whose path could escape the staging directory (a security boundary: one
//! bad entry aborts the whole apply before anything is promoted), fixes both
//! directory paths, and produces the shifted version record. The caller
//! performs the directory I/O in the order above and reports a bookkeeping
//! write that fails after promotion as a distinct, non-fatal condition.

use vstd::prelude::*;

use crate::state::{next_version_state, VersionState};
use crate::text::{chars_eq, chars_of, spec_split_all, split_all};
use crate::version::{parse_version, spec_parse_version};

verus! {

/// What a ZIP archive holds: for each entry in order, its name and its
/// decompressed bytes; nothing when the bytes are not a readable archive.
pub uninterp spec fn zip_entries(b: Seq<u8>) -> Option<Seq<(Seq<char>, Seq<u8>)>>;

/// Relies on zip::ZipArchive::new over an in-memory reader, together with
/// ZipArchive::len, ZipArchive::by_index, ZipFile::name and
/// std::io::Read::read_to_end: an archive's central directory and entry
/// contents are a function of its bytes alone.
#[verifier::external_body]
fn zip_read_entries(bytes: &Vec<u8>) -> (r: Option<Vec<(String, Vec<u8>)>>)
    ensures
        (r is Some) == (zip_entries(bytes@) is Some),
        r matches Some(v) ==> zip_entries(bytes@) == Some(v.deep_view()),
{
    let cursor = std::io::Cursor::new(bytes.as_slice());
    let mut archive = zip::ZipArchive::new(cursor).ok()?;
    let mut out: Vec<(String, Vec<u8>)> = Vec::new();
    for i in 0..archive.len() {
        let mut f = archive.by_index(i).ok()?;
        let name = f.name().to_string();
        let mut data = Vec::new();
        std::io::Read::read_to_end(&mut f, &mut data).ok()?;
        out.push((name, data));
    }
    Some(out)
}

/// An entry path with a trailing directory slash removed.
/// Whether no path segment names a parent directory.
pub open spec fn no_parent_segment(segs: Seq<Seq<char>>) -> bool {
    forall|i: int| 0 <= i < segs.len() ==> (#[trigger] segs[i]) != ".."@
}

/// Whether an entry path stays inside the directory it is extracted into.
/// Rejected are exactly the ways out: an absolute path (leading slash) and a
/// parent-directory segment, plus backslashes, colons and NUL, which on some
/// platforms act as separators or drive syntax. Anything else — current
/// directory segments, doubled slashes, a trailing directory slash — resolves
/// inside the directory and is extracted.
pub open spec fn safe_entry_path(p: Seq<char>) -> bool {
    &&& p.len() > 0
    &&& p[0] != '/'
    &&& (forall|i: int| 0 <= i < p.len() ==> p[i] != '\\' && p[i] != ':' && p[i] != '\u{0}')
    &&& no_parent_segment(spec_split_all(p, '/'))
}

/// Check one entry path.
#[verifier::rlimit(50)]
pub fn check_entry_path(p: &String) -> (r: bool)
    ensures
        r == safe_entry_path(p@),
{
    let v = chars_of(p.as_str());
    let n = v.len();
    if n == 0 {
        return false;
    }
    if v[0] == '/' {
        return false;
    }
    let mut i: usize = 0;
    while i < n
        invariant
            i <= n,
            n == v@.len(),
            v@ == p@,
            forall|j: int| 0 <= j < i ==> v@[j] != '\\' && v@[j] != ':' && v@[j] != '\u{0}',
        decreases n - i,
    {
        let c = v[i];
        if c == '\\' || c == ':' || c == '\u{0}' {
            proof {
                assert(p@[i as int] == '\\' || p@[i as int] == ':' || p@[i as int] == '\u{0}');
                assert(!safe_entry_path(p@));
            }
            return false;
        }
        i = i + 1;
    }
    let segs = split_all(v.as_slice(), '/');
    let dotdot = chars_of("..");
    let ghost sv = spec_split_all(p@, '/');
    proof {
        assert(segs.deep_view().len() == segs@.len());
    }
    let mut k: usize = 0;
    while k < segs.len()
        invariant
            k <= segs@.len(),
            p@.len() > 0,
            sv == spec_split_all(p@, '/'),
            segs.deep_view() == sv,
            segs.deep_view().len() == segs@.len(),
            dotdot@ == ".."@,
            forall|j: int| 0 <= j < k ==> (#[trigger] sv[j]) != ".."@,
        decreases segs@.len() - k,
    {
        proof {
            assert(sv[k as int] == segs@[k as int]@);
        }
        let seg = &segs[k];
        if chars_eq(seg.as_slice(), dotdot.as_slice()) {
            proof {
                assert(sv[k as int] == ".."@);
                assert(!no_parent_segment(sv));
            }
            return false;
        }
        k = k + 1;
    }
    true
}

/// Whether an entry names a directory (the trailing-slash convention).
pub fn entry_is_dir(name: &String) -> (r: bool)
    ensures
        r == (name@.len() > 0 && name@.last() == '/'),
{
    let v = chars_of(name.as_str());
    let n = v.len();
    n > 0 && v[n - 1] == '/'
}

/// The outcome of a successful apply.
pub struct ApplyResult {
    pub from_version: String,
    pub to_version: String,
}

#[derive(Debug, Clone, PartialEq, Eq)]
pub enum ApplyError {
    /// The version to apply is not a semantic version.
    InvalidVersion,
    /// The bundle bytes are not a readable archive.
    BadArchive,
    /// An entry path would escape the staging directory; the apply is
    /// aborted with nothing promoted.
    UnsafeEntryPath,
}

/// A decided apply: the staging and final directories, the entries to place
/// under the staging directory (every path checked safe), the shifted
/// version record to persist after promotion, and the reported outcome.
pub struct ApplyPlan {
    pub temp_dir: String,
    pub target_dir: String,
    pub files: Vec<(String, Vec<u8>)>,
    pub new_state: VersionState,
    pub result: ApplyResult,
}

/// Whether every entry of a bundle has a safe path.
pub open spec fn all_entries_safe(es: Seq<(Seq<char>, Seq<u8>)>) -> bool {
    forall|i: int| 0 <= i < es.len() ==> safe_entry_path((#[trigger] es[i]).0)
}

/// The final versioned directory of the apply.
pub open spec fn spec_apply_target_dir(app_config_dir: Seq<char>, ver: Seq<char>) -> Seq<char> {
    crate::state::spec_versions_root(app_config_dir) + "/"@ + ver
}

/// The staging directory: a sibling of the target, never inside it.
pub open spec fn spec_apply_temp_dir(app_config_dir: Seq<char>, ver: Seq<char>) -> Seq<char> {
    crate::state::spec_versions_root(app_config_dir) + "/."@ + ver + "_tmp"@
}

/// Decide an apply of a downloaded bundle to `new_version`. Succeeds exactly
/// when the version parses, the bundle is a readable archive, and every
/// entry path is safe; the plan then carries the bundle's entries unchanged,
/// both directory paths, and the shifted version record. One unsafe entry
/// rejects the whole bundle before any file is staged or promoted.
///
/// Applies must be serialized by the caller: two running at once can collide
/// on one staging directory name, which no plan here can rule out.
pub fn apply_staged_update(
    app_config_dir: &str,
    state: &VersionState,
    bundle: &Vec<u8>,
    new_version: &String,
) -> (r: Result<ApplyPlan, ApplyError>)
    ensures
        r is Ok <==> spec_parse_version(new_version@) is Some && zip_entries(bundle@) is Some
            && all_entries_safe(zip_entries(bundle@).unwrap()),
        match r {
            Ok(plan) => {
                &&& plan.target_dir@ == spec_apply_target_dir(app_config_dir@, new_version@)
                &&& plan.temp_dir@ == spec_apply_temp_dir(app_config_dir@, new_version@)
                &&& zip_entries(bundle@) == Some(plan.files.deep_view())
                &&& all_entries_safe(plan.files.deep_view())
                &&& plan.new_state.current@ == new_version@
                &&& plan.new_state.previous matches Some(p) && p@ == state.current@
                &&& plan.result.from_version@ == state.current@
                &&& plan.result.to_version@ == new_version@
            },
            Err(e) => match e {
                ApplyError::InvalidVersion => spec_parse_version(new_version@) is None,
                ApplyError::BadArchive => spec_parse_version(new_version@) is Some && zip_entries(
                    bundle@,
                ) is None,
                ApplyError::UnsafeEntryPath => spec_parse_version(new_version@) is Some
                    && zip_entries(bundle@) is Some && !all_entries_safe(
                    zip_entries(bundle@).unwrap(),
                ),
            },
        },
{
    let ver = match parse_version(new_version.as_str()) {
        Some(v) => v,
        None => {
            return Err(ApplyError::InvalidVersion);
        },
    };
    let entries = match zip_read_entries(bundle) {
        Some(es) => es,
        None => {
            return Err(ApplyError::BadArchive);
        },
    };
    let ghost es = entries.deep_view();
    proof {
        assert(es.len() == entries@.len());
    }
    let mut i: usize = 0;
    while i < entries.len()
        invariant
            i <= entries@.len(),
            es == entries.deep_view(),
            es.len() == entries@.len(),
            zip_entries(bundle@) == Some(es),
            spec_parse_version(new_version@) is Some,
            forall|j: int| 0 <= j < i ==> safe_entry_path((#[trigger] es[j]).0),
        decreases entries@.len() - i,
    {
        proof {
            assert(es[i as int] == (entries@[i as int].0@, entries@[i as int].1@));
        }
        if !check_entry_path(&entries[i].0) {
            proof {
                assert(!safe_entry_path((es[i as int]).0));
                assert(!all_entries_safe(es));
            }
            return Err(ApplyError::UnsafeEntryPath);
        }
        i = i + 1;
    }
    let root = crate::state::versions_root(app_config_dir);
    let mut target_dir = root.clone();
    target_dir.append("/");
    target_dir.append(new_version.as_str());
    let mut temp_dir = root.clone();
    temp_dir.append("/.");
    temp_dir.append(new_version.as_str());
    temp_dir.append("_tmp");
    let new_state = next_version_state(state, new_version);
    let result = ApplyResult {
        from_version: state.current.clone(),
        to_version: new_version.clone(),
    };
    Ok(ApplyPlan { temp_dir, target_dir, files: entries, new_state, result })
}

} // verus!
