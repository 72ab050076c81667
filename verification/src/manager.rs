//! High-level update operations over a verified repository view: report
//! whether a newer release exists for a platform, and decide a bundle
//! download into the local cache. Network fetches and file writes are the
//! caller's I/O; every decision about their results is made here.

use vstd::prelude::*;

use crate::config::TufConfig;
use crate::fetch::{first_target_at, save_target_to_cache, sha256_of, spec_target_cache_path,
    FetchError};
use crate::order::{version_lt, version_lt_exec};
use crate::resolver::{find_latest_update_for_platform, has_duplicate, is_latest, matches_at, no_match,
    target_version, ResolveError};
use crate::trust::{Repository, TargetMeta};
use crate::version::{parse_version, spec_parse_version, VersionView};

verus! {

/// The outcome of an update check.
pub struct UpdateCheckResult {
    pub current_version: String,
    pub latest_version: Option<String>,
    pub update_available: bool,
}

/// The outcome of a bundle download: the version fetched and where the
/// verified bundle sits in the local cache.
pub struct DownloadResult {
    pub version: String,
    pub bundle_path: String,
}

#[derive(Debug, Clone, PartialEq, Eq)]
pub enum CheckError {
    /// The caller's current version is not a semantic version.
    InvalidCurrentVersion,
    /// Two distinct targets of the platform carry one version.
    DuplicateVersion,
}

#[derive(Debug, Clone, PartialEq, Eq)]
pub enum DownloadError {
    /// No release channel exists for the platform.
    NoUpdateAvailable,
    /// Two distinct targets of the platform carry one version.
    DuplicateVersion,
    /// The download disagreed with the verified commitments.
    Fetch(FetchError),
}

/// What a successful check reports: when no target matches the platform
/// there is no latest version and no update; otherwise the latest version is
/// surfaced and an update is available exactly when it lies above the
/// current one.
pub open spec fn spec_check_ok(
    targets: Seq<TargetMeta>,
    platform: Seq<char>,
    cur: VersionView,
    res: UpdateCheckResult,
) -> bool {
    if no_match(targets, platform) {
        res.latest_version is None && !res.update_available
    } else {
        exists|i: int|
            {
                &&& #[trigger] is_latest(targets, platform, i)
                &&& res.latest_version matches Some(s) && spec_parse_version(s@) == Some(
                    target_version(targets[i].name@, platform),
                )
                &&& res.update_available == version_lt(
                    cur,
                    target_version(targets[i].name@, platform),
                )
            }
    }
}

/// Determine whether a newer release exists for the platform. The current
/// version is parsed and compared against the latest matching target by
/// semantic-version order; an equal or older latest release is still
/// surfaced, with no update reported.
pub fn check_for_updates(repo: &Repository, current_version: String, platform_id: &String) -> (r:
    Result<UpdateCheckResult, CheckError>)
    ensures
        r is Ok <==> spec_parse_version(current_version@) is Some && !has_duplicate(
            repo.targets@,
            platform_id@,
        ),
        match r {
            Ok(res) => {
                &&& res.current_version@ == current_version@
                &&& spec_parse_version(current_version@) matches Some(cv) && spec_check_ok(
                    repo.targets@,
                    platform_id@,
                    cv,
                    res,
                )
            },
            Err(e) => match e {
                CheckError::InvalidCurrentVersion => spec_parse_version(current_version@) is None,
                CheckError::DuplicateVersion => spec_parse_version(current_version@) is Some
                    && has_duplicate(repo.targets@, platform_id@),
            },
        },
{
    let cur = match parse_version(current_version.as_str()) {
        Some(v) => v,
        None => {
            return Err(CheckError::InvalidCurrentVersion);
        },
    };
    match find_latest_update_for_platform(repo, platform_id) {
        Err(ResolveError::DuplicateVersion) => Err(CheckError::DuplicateVersion),
        Ok(None) => {
            let res = UpdateCheckResult {
                current_version,
                latest_version: None,
                update_available: false,
            };
            proof {
                assert(spec_check_ok(repo.targets@, platform_id@, cur@, res));
            }
            Ok(res)
        },
        Ok(Some(desc)) => {
            let newer = version_lt_exec(&cur, &desc.version);
            let res = UpdateCheckResult {
                current_version,
                latest_version: Some(desc.version.raw),
                update_available: newer,
            };
            proof {
                assert(!no_match(repo.targets@, platform_id@));
                assert(spec_check_ok(repo.targets@, platform_id@, cur@, res));
            }
            Ok(res)
        },
    }
}

/// Whether downloaded bytes honour the commitments of the latest release's
/// target: as many bytes as committed for it, and their digest the hash
/// committed for its name.
pub open spec fn latest_commitments_ok(
    targets: Seq<TargetMeta>,
    platform: Seq<char>,
    fetched: Seq<u8>,
) -> bool {
    exists|i: int|
        {
            &&& #[trigger] is_latest(targets, platform, i)
            &&& fetched.len() == targets[i].length
            &&& exists|j: int|
                #[trigger] first_target_at(targets, targets[i].name@, j) && sha256_of(fetched)
                    == targets[j].sha256@
        }
}

/// Resolve the latest release for the platform and decide its download into
/// the cache: with no matching target the download fails as such (the check
/// reports that case as a plain result; a download needs a release). A fresh
/// download succeeds exactly when the downloaded bytes' count and digest
/// equal the latest target's verified commitments; an already-verified
/// cached copy succeeds with the bytes unconsulted.
pub fn download_update_bundle(
    repo: &Repository,
    cfg: &TufConfig,
    platform_id: &String,
    cached: bool,
    fetched: &Vec<u8>,
) -> (r: Result<DownloadResult, DownloadError>)
    ensures
        match r {
            Ok(res) => exists|i: int|
                {
                    &&& #[trigger] is_latest(repo.targets@, platform_id@, i)
                    &&& spec_parse_version(res.version@) == Some(
                        target_version(repo.targets@[i].name@, platform_id@),
                    )
                    &&& res.bundle_path@ == spec_target_cache_path(
                        *cfg,
                        repo.targets@[i].name@,
                    )
                },
            Err(e) => match e {
                DownloadError::NoUpdateAvailable => no_match(repo.targets@, platform_id@),
                DownloadError::DuplicateVersion => has_duplicate(repo.targets@, platform_id@),
                DownloadError::Fetch(f) => {
                    &&& !cached
                    &&& !no_match(repo.targets@, platform_id@)
                    &&& !has_duplicate(repo.targets@, platform_id@)
                    &&& f is LengthMismatch || f is HashMismatch
                },
            },
        },
        has_duplicate(repo.targets@, platform_id@) ==> r == Err::<
            DownloadResult,
            DownloadError,
        >(DownloadError::DuplicateVersion),
        !no_match(repo.targets@, platform_id@) && !has_duplicate(repo.targets@, platform_id@) ==> (
        r is Ok <==> cached || latest_commitments_ok(repo.targets@, platform_id@, fetched@)),
        !cached && !no_match(repo.targets@, platform_id@) && !has_duplicate(
            repo.targets@,
            platform_id@,
        ) ==> (r == Err::<DownloadResult, DownloadError>(
            DownloadError::Fetch(FetchError::LengthMismatch),
        ) <==> exists|i: int|
            #[trigger] is_latest(repo.targets@, platform_id@, i) && fetched@.len()
                != repo.targets@[i].length),
        !cached && !no_match(repo.targets@, platform_id@) && !has_duplicate(
            repo.targets@,
            platform_id@,
        ) ==> (r == Err::<DownloadResult, DownloadError>(
            DownloadError::Fetch(FetchError::HashMismatch),
        ) <==> exists|i: int|
            {
                &&& #[trigger] is_latest(repo.targets@, platform_id@, i)
                &&& fetched@.len() == repo.targets@[i].length
                &&& exists|j: int|
                    #[trigger] first_target_at(repo.targets@, repo.targets@[i].name@, j)
                        && sha256_of(fetched@) != repo.targets@[j].sha256@
            }),
{
    let ghost ts = repo.targets@;
    let ghost pf = platform_id@;
    let desc = match find_latest_update_for_platform(repo, platform_id) {
        Err(ResolveError::DuplicateVersion) => {
            return Err(DownloadError::DuplicateVersion);
        },
        Ok(None) => {
            return Err(DownloadError::NoUpdateAvailable);
        },
        Ok(Some(d)) => d,
    };
    proof {
        let i0 = choose|i: int|
            {
                &&& #[trigger] is_latest(ts, pf, i)
                &&& (forall|j: int|
                    matches_at(ts, pf, j) && target_version(ts[j].name@, pf) == target_version(
                        ts[i].name@,
                        pf,
                    ) ==> j == i)
                &&& desc.target_name@ == ts[i].name@
                &&& desc.length == ts[i].length
                &&& desc.version.wf()
                &&& desc.version@ == target_version(ts[i].name@, pf)
            };
        crate::resolver::lemma_latest_unique(ts, pf, i0);
        assert forall|j1: int, j2: int|
            first_target_at(ts, desc.target_name@, j1) && first_target_at(
                ts,
                desc.target_name@,
                j2,
            ) implies j1 == j2 by {
            if j1 < j2 {
                assert(ts[j1].name@ != desc.target_name@);
            } else if j2 < j1 {
                assert(ts[j2].name@ != desc.target_name@);
            }
        }
    }
    match save_target_to_cache(repo, cfg, &desc, cached, fetched) {
        Ok(path) => Ok(DownloadResult { version: desc.version.raw, bundle_path: path }),
        Err(f) => Err(DownloadError::Fetch(f)),
    }
}

/// A repository whose only matching target for the platform is `i` has that
/// target as its unique latest release and holds no duplicated version: the
/// check then reports an update exactly when that target's version lies
/// above the current one, by the check's own contract.
pub proof fn lemma_single_match_is_latest(targets: Seq<TargetMeta>, platform: Seq<char>, i: int)
    requires
        matches_at(targets, platform, i),
        forall|j: int| #[trigger] matches_at(targets, platform, j) ==> j == i,
    ensures
        is_latest(targets, platform, i),
        !has_duplicate(targets, platform),
        forall|j: int| #[trigger] is_latest(targets, platform, j) ==> j == i,
{
    assert forall|a: int, b: int|
        a != b && matches_at(targets, platform, a) && matches_at(targets, platform, b)
            && target_version(targets[a].name@, platform) == target_version(
            targets[b].name@,
            platform,
        ) implies false by {
        assert(a == i);
        assert(b == i);
    }
}

/// What a successful check says when the repository holds a single matching
/// target: an update is reported exactly when that target's version lies
/// above the current one by semantic-version order — so for two versions
/// `a < b`, a check from `a` against a repository offering only `b` reports
/// an update, and a check from `b` against one offering only `a` does not —
/// and the offered version is surfaced as the latest either way.
pub proof fn lemma_check_orders_single_target(
    targets: Seq<TargetMeta>,
    platform: Seq<char>,
    i: int,
    cur: VersionView,
    res: UpdateCheckResult,
)
    requires
        matches_at(targets, platform, i),
        forall|j: int| #[trigger] matches_at(targets, platform, j) ==> j == i,
        spec_check_ok(targets, platform, cur, res),
    ensures
        res.update_available == version_lt(cur, target_version(targets[i].name@, platform)),
        res.latest_version matches Some(s) && spec_parse_version(s@) == Some(
            target_version(targets[i].name@, platform),
        ),
{
    assert(!no_match(targets, platform));
    let j = choose|j: int|
        {
            &&& #[trigger] is_latest(targets, platform, j)
            &&& res.latest_version matches Some(s) && spec_parse_version(s@) == Some(
                target_version(targets[j].name@, platform),
            )
            &&& res.update_available == version_lt(cur, target_version(targets[j].name@, platform))
        };
    assert(matches_at(targets, platform, j));
    assert(j == i);
}

/// A platform with no matching target resolves to the empty result, never to
/// an error: with no match there is no pair of matching targets to carry one
/// version, so the resolver's contract forces the `Ok(None)` outcome.
pub proof fn lemma_no_channel_is_empty_result(targets: Seq<TargetMeta>, platform: Seq<char>)
    requires
        no_match(targets, platform),
    ensures
        !has_duplicate(targets, platform),
{
    assert forall|a: int, b: int|
        a != b && matches_at(targets, platform, a) && matches_at(targets, platform, b)
            && target_version(targets[a].name@, platform) == target_version(
            targets[b].name@,
            platform,
        ) implies false by {
        assert(!matches_at(targets, platform, a));
    }
}

} // verus!
