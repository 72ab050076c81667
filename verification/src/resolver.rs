//! Release resolver: find, in a verified repository view, the highest
//! semantic version published for a platform under the naming convention
//! `filesup/<platform-id>/app-<version>.zip`.

use vstd::prelude::*;

use vstd::string::StringExecFns;

use crate::order::{version_eq, version_lt, version_lt_exec, lemma_version_lt_total,
    lemma_version_lt_trans, lemma_version_lt_irrefl};
use crate::text::{chars_of, chars_eq, subvec};
use crate::trust::{Repository, TargetMeta};
use crate::version::{parse_version_chars, spec_parse_version, Version, VersionView};

verus! {

/// Resolving the latest release for a platform.
#[derive(Debug, Clone, PartialEq, Eq)]
pub enum ResolveError {
    /// Two distinct targets of the platform carry one version: the repository
    /// data is inconsistent (one target per version per platform), and such a
    /// duplication is reported wherever it sits, also below the maximum, never
    /// silently resolved past.
    DuplicateVersion,
}

/// The latest eligible release found for a platform: its parsed version, the
/// target it lives under, and the byte length committed for that target.
pub struct UpdateDescriptor {
    pub version: Version,
    pub target_name: String,
    pub length: u64,
}

/// The name prefix of the platform's release channel.
pub open spec fn spec_target_prefix(platform: Seq<char>) -> Seq<char> {
    "filesup/"@ + platform + "/app-"@
}

/// Whether a target name is a release of the platform: prefix, a parseable
/// version, and the bundle suffix.
pub open spec fn target_matches(name: Seq<char>, platform: Seq<char>) -> bool {
    let p = spec_target_prefix(platform);
    &&& name.len() > p.len() + 4
    &&& name.take(p.len() as int) == p
    &&& name.subrange(name.len() - 4, name.len() as int) == ".zip"@
    &&& spec_parse_version(name.subrange(p.len() as int, name.len() - 4)) is Some
}

/// The version embedded in a matching target name.
pub open spec fn target_version(name: Seq<char>, platform: Seq<char>) -> VersionView {
    spec_parse_version(
        name.subrange(spec_target_prefix(platform).len() as int, name.len() - 4),
    ).unwrap()
}

/// Whether target `i` is a release of the platform.
pub open spec fn matches_at(targets: Seq<TargetMeta>, platform: Seq<char>, i: int) -> bool {
    0 <= i < targets.len() && target_matches(targets[i].name@, platform)
}

pub open spec fn no_match(targets: Seq<TargetMeta>, platform: Seq<char>) -> bool {
    forall|i: int| !matches_at(targets, platform, i)
}

/// Whether target `i` is a maximal release of the platform.
pub open spec fn is_latest(targets: Seq<TargetMeta>, platform: Seq<char>, i: int) -> bool {
    &&& matches_at(targets, platform, i)
    &&& forall|j: int|
        matches_at(targets, platform, j) ==> version_lt(
            target_version(targets[j].name@, platform),
            target_version(targets[i].name@, platform),
        ) || target_version(targets[j].name@, platform) == target_version(
            targets[i].name@,
            platform,
        )
}

/// Whether two distinct targets of the platform carry one version, anywhere
/// in the target list.
pub open spec fn has_duplicate(targets: Seq<TargetMeta>, platform: Seq<char>) -> bool {
    exists|i: int, j: int|
        i != j && matches_at(targets, platform, i) && matches_at(targets, platform, j)
            && target_version(targets[i].name@, platform) == target_version(
            targets[j].name@,
            platform,
        )
}

/// A latest target that no other match equals in version is the only latest
/// target: any index that is also latest coincides with it.
pub proof fn lemma_latest_unique(targets: Seq<TargetMeta>, platform: Seq<char>, i: int)
    requires
        is_latest(targets, platform, i),
        forall|j: int|
            matches_at(targets, platform, j) && target_version(targets[j].name@, platform)
                == target_version(targets[i].name@, platform) ==> j == i,
    ensures
        forall|j: int| #[trigger] is_latest(targets, platform, j) ==> j == i,
{
    assert forall|j: int| #[trigger] is_latest(targets, platform, j) implies j == i by {
        let vi = target_version(targets[i].name@, platform);
        let vj = target_version(targets[j].name@, platform);
        assert(matches_at(targets, platform, j));
        assert(matches_at(targets, platform, i));
        if vj == vi {
        } else {
            assert(version_lt(vj, vi) || vj == vi);
            assert(version_lt(vi, vj) || vi == vj);
            lemma_version_lt_trans(vi, vj, vi);
            lemma_version_lt_irrefl(vi);
        }
    }
}

/// Check one target name against the platform's convention, yielding the
/// embedded version.
fn match_target(name: &String, platform: &String) -> (r: Option<Version>)
    ensures
        r is Some <==> target_matches(name@, platform@),
        r is Some ==> r.unwrap()@ == target_version(name@, platform@) && r.unwrap().wf()
            && r.unwrap().raw@ == name@.subrange(
            spec_target_prefix(platform@).len() as int,
            name@.len() - 4,
        ),
{
    let mut prefix = String::from_str("filesup/");
    prefix.append(platform.as_str());
    prefix.append("/app-");
    let pc = chars_of(prefix.as_str());
    let nc = chars_of(name.as_str());
    let suffix = chars_of(".zip");
    let p_len = pc.len();
    let n_len = nc.len();
    if n_len <= 4 || n_len - 4 <= p_len {
        proof {
            assert(!target_matches(name@, platform@));
        }
        return None;
    }
    let head = subvec(nc.as_slice(), 0, p_len);
    if !chars_eq(head.as_slice(), pc.as_slice()) {
        return None;
    }
    let tail = subvec(nc.as_slice(), n_len - 4, n_len);
    if !chars_eq(tail.as_slice(), suffix.as_slice()) {
        return None;
    }
    let mid = subvec(nc.as_slice(), p_len, n_len - 4);
    parse_version_chars(mid.as_slice())
}

/// Scan the platform's matching targets for two distinct ones that carry one
/// version.
fn scan_for_duplicate(repo: &Repository, platform_id: &String) -> (r: bool)
    ensures
        r == has_duplicate(repo.targets@, platform_id@),
{
    let ghost ts = repo.targets@;
    let ghost pf = platform_id@;
    let n = repo.targets.len();
    let mut i: usize = 0;
    while i < n
        invariant
            i <= n,
            n == ts.len(),
            ts == repo.targets@,
            pf == platform_id@,
            forall|a: int, b: int|
                0 <= b < a < i && matches_at(ts, pf, a) && matches_at(ts, pf, b)
                    ==> target_version(ts[a].name@, pf) != target_version(ts[b].name@, pf),
        decreases n - i,
    {
        match match_target(&repo.targets[i].name, platform_id) {
            None => {},
            Some(vi) => {
                let mut j: usize = 0;
                while j < i
                    invariant
                        j <= i < n,
                        n == ts.len(),
                        ts == repo.targets@,
                        pf == platform_id@,
                        matches_at(ts, pf, i as int),
                        vi.wf(),
                        vi@ == target_version(ts[i as int].name@, pf),
                        forall|b: int|
                            0 <= b < j && matches_at(ts, pf, b) ==> target_version(
                                ts[b].name@,
                                pf,
                            ) != vi@,
                    decreases i - j,
                {
                    match match_target(&repo.targets[j].name, platform_id) {
                        None => {},
                        Some(vj) => {
                            if version_eq(&vj, &vi) {
                                proof {
                                    assert(matches_at(ts, pf, j as int));
                                    assert(matches_at(ts, pf, i as int));
                                    assert(target_version(ts[j as int].name@, pf)
                                        == target_version(ts[i as int].name@, pf));
                                }
                                return true;
                            }
                        },
                    }
                    j = j + 1;
                }
            },
        }
        i = i + 1;
    }
    proof {
        assert forall|a: int, b: int|
            a != b && matches_at(ts, pf, a) && matches_at(ts, pf, b) implies target_version(
            ts[a].name@,
            pf,
        ) != target_version(ts[b].name@, pf) by {}
    }
    false
}

/// Find the latest release target of a platform. Returns the unique maximal
/// match, nothing when no target matches (a platform without a release
/// channel, not an error), and reports a version carried by two distinct
/// matching targets as a data error wherever in the list it sits, below the
/// maximum included.
pub fn find_latest_update_for_platform(repo: &Repository, platform_id: &String) -> (r: Result<
    Option<UpdateDescriptor>,
    ResolveError,
>)
    ensures
        match r {
            Ok(opt) => match opt {
                None => no_match(repo.targets@, platform_id@),
                Some(d) => {
                    &&& !has_duplicate(repo.targets@, platform_id@)
                    &&& exists|i: int|
                        {
                            &&& #[trigger] is_latest(repo.targets@, platform_id@, i)
                            &&& (forall|j: int|
                                matches_at(repo.targets@, platform_id@, j) && target_version(
                                    repo.targets@[j].name@,
                                    platform_id@,
                                ) == target_version(repo.targets@[i].name@, platform_id@) ==> j
                                    == i)
                            &&& d.target_name@ == repo.targets@[i].name@
                            &&& d.length == repo.targets@[i].length
                            &&& d.version.wf()
                            &&& d.version@ == target_version(repo.targets@[i].name@, platform_id@)
                        }
                },
            },
            Err(e) => e is DuplicateVersion && has_duplicate(repo.targets@, platform_id@),
        },
        r is Err <==> has_duplicate(repo.targets@, platform_id@),
{
    if scan_for_duplicate(repo, platform_id) {
        return Err(ResolveError::DuplicateVersion);
    }
    let ghost ts = repo.targets@;
    let ghost pf = platform_id@;
    let n = repo.targets.len();
    let mut best_idx: usize = 0;
    let mut best: Option<Version> = None;
    let mut i: usize = 0;
    while i < n
        invariant
            i <= n,
            n == ts.len(),
            ts == repo.targets@,
            pf == platform_id@,
            !has_duplicate(ts, pf),
            best is None ==> forall|j: int| 0 <= j < i ==> !matches_at(ts, pf, j),
            best matches Some(bv) ==> {
                &&& best_idx < i
                &&& matches_at(ts, pf, best_idx as int)
                &&& bv.wf()
                &&& bv@ == target_version(ts[best_idx as int].name@, pf)
                &&& bv.raw@ == ts[best_idx as int].name@.subrange(
                    spec_target_prefix(pf).len() as int,
                    ts[best_idx as int].name@.len() - 4,
                )
                &&& forall|j: int|
                    0 <= j < i && matches_at(ts, pf, j) ==> version_lt(
                        target_version(ts[j].name@, pf),
                        bv@,
                    ) || target_version(ts[j].name@, pf) == bv@
            },
        decreases n - i,
    {
        let cand = match_target(&repo.targets[i].name, platform_id);
        match cand {
            None => {},
            Some(ver) => {
                match &best {
                    None => {
                        best_idx = i;
                        best = Some(ver);
                    },
                    Some(bv) => {
                        let ghost bvv = bv@;
                        if version_lt_exec(bv, &ver) {
                            proof {
                                assert forall|j: int|
                                    0 <= j < i + 1 && matches_at(ts, pf, j) implies version_lt(
                                    target_version(ts[j].name@, pf),
                                    ver@,
                                ) || target_version(ts[j].name@, pf) == ver@ by {
                                    if j < i {
                                        if version_lt(target_version(ts[j].name@, pf), bvv) {
                                            lemma_version_lt_trans(
                                                target_version(ts[j].name@, pf),
                                                bvv,
                                                ver@,
                                            );
                                        }
                                    }
                                }
                            }
                            best_idx = i;
                            best = Some(ver);
                        } else {
                            proof {
                                lemma_version_lt_total(ver@, bvv);
                                if ver@ == bvv {
                                    assert(matches_at(ts, pf, best_idx as int));
                                    assert(matches_at(ts, pf, i as int));
                                    assert(target_version(ts[best_idx as int].name@, pf)
                                        == target_version(ts[i as int].name@, pf));
                                    assert(has_duplicate(ts, pf));
                                }
                                assert(version_lt(ver@, bvv));
                            }
                        }
                    },
                }
            },
        }
        i = i + 1;
    }
    match best {
        None => {
            proof {
                assert(no_match(ts, pf));
            }
            Ok(None)
        },
        Some(bv) => {
            proof {
                assert(is_latest(ts, pf, best_idx as int));
                assert forall|j: int|
                    matches_at(ts, pf, j) && target_version(ts[j].name@, pf) == target_version(
                        ts[best_idx as int].name@,
                        pf,
                    ) implies j == best_idx as int by {
                    if j != best_idx as int {
                        assert(matches_at(ts, pf, best_idx as int));
                        assert(has_duplicate(ts, pf));
                    }
                }
            }
            let name = repo.targets[best_idx].name.clone();
            let length = repo.targets[best_idx].length;
            Ok(Some(UpdateDescriptor { version: bv, target_name: name, length }))
        },
    }
}

} // verus!
