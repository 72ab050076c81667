//! Target fetcher decisions: where a verified target lives in the local
//! cache, and whether the downloaded bytes honour the length and
//! content-hash commitments of the verified metadata. The caller performs
//! the download and the file writes; nothing may be placed at the final
//! cache path unless this module accepts the bytes.

use vstd::prelude::*;

use vstd::string::StringExecFns;

use crate::config::TufConfig;
use crate::resolver::UpdateDescriptor;
use crate::text::{chars_eq, chars_of};
use crate::trust::{Repository, TargetMeta};

verus! {

/// The SHA-256 digest of a byte string: a function of the bytes alone, the
/// same in every process and on every machine.
pub uninterp spec fn sha256_of(b: Seq<u8>) -> Seq<u8>;

/// Relies on sha2::Sha256::digest: the SHA-256 digest depends on the input
/// bytes alone.
#[verifier::external_body]
fn sha256_digest(bytes: &Vec<u8>) -> (r: Vec<u8>)
    ensures
        r@ == sha256_of(bytes@),
{
    <sha2::Sha256 as sha2::Digest>::digest(bytes.as_slice()).to_vec()
}

#[derive(Debug, Clone, PartialEq, Eq)]
pub enum FetchError {
    /// The downloaded byte count differs from the verified length commitment.
    LengthMismatch,
    /// The downloaded bytes' digest differs from the verified hash commitment.
    HashMismatch,
}

/// The final cache path of a target: its name under the targets cache
/// directory. A function of configuration and name alone, so repeated
/// fetches of one descriptor resolve to one path.
pub open spec fn spec_target_cache_path(cfg: TufConfig, name: Seq<char>) -> Seq<char> {
    cfg.targets_cache_dir@ + "/"@ + name
}

/// Compute the final cache path of a descriptor's target.
pub fn target_cache_path(cfg: &TufConfig, descriptor: &UpdateDescriptor) -> (r: String)
    ensures
        r@ == spec_target_cache_path(*cfg, descriptor.target_name@),
{
    let mut p = cfg.targets_cache_dir.clone();
    p.append("/");
    p.append(descriptor.target_name.as_str());
    p
}

/// Whether target `i` is the first with the given name.
pub open spec fn first_target_at(targets: Seq<TargetMeta>, name: Seq<char>, i: int) -> bool {
    &&& 0 <= i < targets.len()
    &&& targets[i].name@ == name
    &&& forall|j: int| 0 <= j < i ==> targets[j].name@ != name
}

/// Whether downloaded bytes honour the commitments of the descriptor's
/// target: as many bytes as committed, and their digest the committed hash.
pub open spec fn commitments_ok(
    targets: Seq<TargetMeta>,
    descriptor: UpdateDescriptor,
    fetched: Seq<u8>,
) -> bool {
    &&& fetched.len() == descriptor.length
    &&& exists|i: int|
        #[trigger] first_target_at(targets, descriptor.target_name@, i) && sha256_of(fetched)
            == targets[i].sha256@
}

/// Re-running a fetch of one descriptor can only reproduce the same verified
/// content at the same cache path: any two byte strings accepted for that
/// descriptor have the same length and the same digest, both pinned by the
/// verified commitments, and the final path is a function of configuration
/// and target name alone.
pub proof fn lemma_accepted_downloads_agree(
    targets: Seq<TargetMeta>,
    descriptor: UpdateDescriptor,
    b1: Seq<u8>,
    b2: Seq<u8>,
)
    requires
        commitments_ok(targets, descriptor, b1),
        commitments_ok(targets, descriptor, b2),
    ensures
        b1.len() == b2.len(),
        sha256_of(b1) == sha256_of(b2),
{
    let i1 = choose|i: int|
        #[trigger] first_target_at(targets, descriptor.target_name@, i) && sha256_of(b1)
            == targets[i].sha256@;
    let i2 = choose|i: int|
        #[trigger] first_target_at(targets, descriptor.target_name@, i) && sha256_of(b2)
            == targets[i].sha256@;
    if i1 < i2 {
        assert(targets[i1].name@ != descriptor.target_name@);
    } else if i2 < i1 {
        assert(targets[i2].name@ != descriptor.target_name@);
    }
}

/// Decide a fetch of the descriptor's target into the local cache and return
/// the final cache path. `cached` says whether an already-verified copy sits
/// at that path: then the fetch is a no-op and the bytes are not consulted.
/// Otherwise `fetched` holds the downloaded bytes, and the path is returned
/// only when their count and digest equal the verified commitments: a
/// mismatch is fatal for the download and nothing may reach the final path.
pub fn save_target_to_cache(
    repo: &Repository,
    cfg: &TufConfig,
    descriptor: &UpdateDescriptor,
    cached: bool,
    fetched: &Vec<u8>,
) -> (r: Result<String, FetchError>)
    requires
        exists|i: int|
            0 <= i < repo.targets@.len() && #[trigger] repo.targets@[i].name@
                == descriptor.target_name@,
    ensures
        r is Ok <==> cached || commitments_ok(repo.targets@, *descriptor, fetched@),
        r is Ok ==> r.unwrap()@ == spec_target_cache_path(*cfg, descriptor.target_name@),
        !cached ==> (r == Err::<String, FetchError>(FetchError::LengthMismatch) <==> fetched@.len()
            != descriptor.length),
        !cached ==> (r == Err::<String, FetchError>(FetchError::HashMismatch) <==> fetched@.len()
            == descriptor.length && exists|i: int|
            #[trigger] first_target_at(repo.targets@, descriptor.target_name@, i) && sha256_of(
                fetched@,
            ) != repo.targets@[i].sha256@),
{
    if cached {
        return Ok(target_cache_path(cfg, descriptor));
    }
    if fetched.len() as u64 != descriptor.length {
        return Err(FetchError::LengthMismatch);
    }
    let digest = sha256_digest(fetched);
    let ghost ts = repo.targets@;
    let ghost nm = descriptor.target_name@;
    let want = chars_of(descriptor.target_name.as_str());
    let n = repo.targets.len();
    let mut i: usize = 0;
    while i < n
        invariant
            i <= n,
            n == ts.len(),
            ts == repo.targets@,
            nm == descriptor.target_name@,
            want@ == nm,
            !cached,
            fetched@.len() == descriptor.length,
            digest@ == sha256_of(fetched@),
            forall|j: int| 0 <= j < i ==> ts[j].name@ != nm,
            exists|k: int| 0 <= k < ts.len() && #[trigger] ts[k].name@ == nm,
        decreases n - i,
    {
        let cand = chars_of(repo.targets[i].name.as_str());
        if chars_eq(cand.as_slice(), want.as_slice()) {
            proof {
                assert(first_target_at(ts, nm, i as int));
                assert forall|j: int| #[trigger] first_target_at(ts, nm, j) implies j
                    == i as int by {
                    assert(ts[j].name@ == nm);
                }
            }
            let expect = &repo.targets[i].sha256;
            if digest.len() != expect.len() {
                proof {
                    assert(digest@ != expect@);
                }
                return Err(FetchError::HashMismatch);
            }
            let mut k: usize = 0;
            while k < expect.len()
                invariant
                    k <= expect@.len(),
                    digest@.len() == expect@.len(),
                    expect@ == ts[i as int].sha256@,
                    ts == repo.targets@,
                    first_target_at(ts, nm, i as int),
                    forall|j: int| #[trigger] first_target_at(ts, nm, j) ==> j == i as int,
                    nm == descriptor.target_name@,
                    !cached,
                    fetched@.len() == descriptor.length,
                    digest@ == sha256_of(fetched@),
                    forall|j: int| 0 <= j < k ==> digest@[j] == expect@[j],
                decreases expect@.len() - k,
            {
                if digest[k] != expect[k] {
                    proof {
                        assert(digest@ != expect@);
                    }
                    return Err(FetchError::HashMismatch);
                }
                k = k + 1;
            }
            proof {
                assert(digest@ =~= expect@);
            }
            return Ok(target_cache_path(cfg, descriptor));
        }
        i = i + 1;
    }
    proof {
        let k = choose|k: int| 0 <= k < ts.len() && ts[k].name@ == nm;
        assert(ts[k].name@ != nm);
    }
    // Unreachable: the descriptor's target is in the repository.
    Err(FetchError::HashMismatch)
}

} // verus!
