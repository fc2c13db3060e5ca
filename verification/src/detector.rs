//! Fork detection: cross-checking the primary's block against witnesses and
//! classifying every disagreement.
//!
//! The detector takes the primary's verified block, an earlier trusted block,
//! and one response per witness — what the witness served at the verified
//! height, and how the skipping verifier judged the witness's branch when it
//! was asked. The network calls themselves are made by the surrounding
//! driver; the detector's decisions are pure functions of those responses, so
//! every classification below is verified for every response a witness could
//! give.

use vstd::prelude::*;

use crate::hasher::{Hasher, ProdHasher};
use crate::store::LightStore;
use crate::types::{ErrorKind, HeaderView, LightBlock, LightBlockView, PeerId, Status};

verus! {

/// What one witness answered during a detection pass: the outcome of fetching
/// its block at the verified height, and the outcome the skipping verifier
/// reports for the witness's branch when verification is invoked.
pub struct WitnessResponse {
    /// Identity of the witness peer.
    pub witness_id: PeerId,
    /// Outcome of `get_or_fetch_block` at the verified height.
    pub fetch: Result<LightBlock, ErrorKind>,
    /// Outcome of `verify_to_target` on a store seeded with the trusted block
    /// and the fetched block. Consulted only when the header hashes diverge.
    pub verify: Result<(), ErrorKind>,
}

/// Mathematical model of a `WitnessResponse`.
#[verifier::ext_equal]
pub struct WitnessResponseView {
    pub witness_id: PeerId,
    pub fetch: Result<LightBlockView, ErrorKind>,
    pub verify: Result<(), ErrorKind>,
}

impl View for WitnessResponse {
    type V = WitnessResponseView;

    open spec fn view(&self) -> WitnessResponseView {
        WitnessResponseView {
            witness_id: self.witness_id,
            fetch: match self.fetch {
                Result::Ok(b) => Result::Ok(b@),
                Result::Err(e) => Result::Err(e),
            },
            verify: self.verify,
        }
    }
}

/// One disagreement found during a detection pass.
#[derive(Debug, PartialEq)]
pub enum Fork {
    /// Both peers committed at the same height with different header hashes,
    /// and the witness's chain verifies (or only aged out of the trusting
    /// period) from the trusted root: a real fork.
    Forked {
        /// Light block fetched from the primary.
        primary: LightBlock,
        /// Light block fetched from a witness.
        witness: LightBlock,
    },
    /// The witness served a contradictory block that fails verification for a
    /// reason attributable to the witness.
    Faulty(LightBlock, ErrorKind),
    /// The witness was unreachable or too slow.
    Timeout(PeerId, ErrorKind),
}

/// Mathematical model of a `Fork`.
#[verifier::ext_equal]
pub enum ForkView {
    Forked { primary: LightBlockView, witness: LightBlockView },
    Faulty(LightBlockView, ErrorKind),
    Timeout(PeerId, ErrorKind),
}

impl View for Fork {
    type V = ForkView;

    open spec fn view(&self) -> ForkView {
        match self {
            Fork::Forked { primary, witness } => ForkView::Forked {
                primary: primary@,
                witness: witness@,
            },
            Fork::Faulty(b, e) => ForkView::Faulty(b@, *e),
            Fork::Timeout(p, e) => ForkView::Timeout(*p, *e),
        }
    }
}

/// Result of a detection pass.
#[derive(Debug, PartialEq)]
pub enum ForkDetection {
    /// One or more forks have been detected.
    Detected(Vec<Fork>),
    /// No fork has been detected.
    NotDetected,
}

/// Mathematical model of a `ForkDetection`.
#[verifier::ext_equal]
pub enum ForkDetectionView {
    Detected(Seq<ForkView>),
    NotDetected,
}

impl View for ForkDetection {
    type V = ForkDetectionView;

    open spec fn view(&self) -> ForkDetectionView {
        match self {
            ForkDetection::Detected(forks) => ForkDetectionView::Detected(
                forks@.map_values(|f: Fork| f@),
            ),
            ForkDetection::NotDetected => ForkDetectionView::NotDetected,
        }
    }
}

/// Structural caller errors. Operational per-witness failures are never
/// surfaced here: they are captured as `Fork` data, since a detector that
/// aborts the scan when one witness misbehaves could be used to hide forks.
#[derive(Clone, Copy, Debug, PartialEq, Eq, Structural)]
pub enum DetectorError {
    /// The verified block does not lie above the trusted block.
    HeightsNotIncreasing,
    /// The caller supplied no witnesses.
    EmptyWitnessList,
}

/// Classification of one diverging witness, per the decision table: a verified
/// branch is a fork; an expired trusted state is still a fork (the witness's
/// branch could have been verified had it been asked earlier); a timeout is
/// unattributable; every other failure is the witness's fault.
pub open spec fn classify_spec(
    primary: LightBlockView,
    witness: LightBlockView,
    verdict: Result<(), ErrorKind>,
) -> ForkView {
    match verdict {
        Result::Ok(_) => ForkView::Forked { primary, witness },
        Result::Err(e) => if e.spec_has_expired() {
            ForkView::Forked { primary, witness }
        } else if e.spec_is_timeout() {
            ForkView::Timeout(witness.provider, e)
        } else {
            ForkView::Faulty(witness, e)
        },
    }
}

/// What one witness contributes to the output: nothing when its block agrees
/// with the primary's by hash; a timeout record when its block could not be
/// fetched; otherwise its classification.
pub open spec fn witness_entry_spec(
    hash: spec_fn(HeaderView) -> Seq<u8>,
    primary: LightBlockView,
    resp: WitnessResponseView,
) -> Option<ForkView> {
    match resp.fetch {
        Result::Err(e) => Option::Some(ForkView::Timeout(resp.witness_id, e)),
        Result::Ok(wb) => if hash(wb.header()) == hash(primary.header()) {
            Option::None
        } else {
            Option::Some(classify_spec(primary, wb, resp.verify))
        },
    }
}

/// An optional entry as a list of zero or one entries.
pub open spec fn entry_seq(entry: Option<ForkView>) -> Seq<ForkView> {
    match entry {
        Option::None => Seq::<ForkView>::empty(),
        Option::Some(f) => seq![f],
    }
}

/// The forks contributed by a list of witness responses, in witness order.
pub open spec fn forks_spec(
    hash: spec_fn(HeaderView) -> Seq<u8>,
    primary: LightBlockView,
    responses: Seq<WitnessResponseView>,
) -> Seq<ForkView>
    decreases responses.len(),
{
    if responses.len() == 0 {
        Seq::<ForkView>::empty()
    } else {
        forks_spec(hash, primary, responses.drop_last()) + entry_seq(
            witness_entry_spec(hash, primary, responses.last()),
        )
    }
}

/// How many responses contribute an entry.
pub open spec fn reported_count(
    hash: spec_fn(HeaderView) -> Seq<u8>,
    primary: LightBlockView,
    responses: Seq<WitnessResponseView>,
) -> int
    decreases responses.len(),
{
    if responses.len() == 0 {
        0
    } else {
        reported_count(hash, primary, responses.drop_last()) + if witness_entry_spec(
            hash,
            primary,
            responses.last(),
        ) is Some {
            1int
        } else {
            0int
        }
    }
}

/// Result of a whole detection pass over the responses.
pub open spec fn detect_spec(
    hash: spec_fn(HeaderView) -> Seq<u8>,
    primary: LightBlockView,
    responses: Seq<WitnessResponseView>,
) -> ForkDetectionView {
    let forks = forks_spec(hash, primary, responses);
    if forks.len() == 0 {
        ForkDetectionView::NotDetected
    } else {
        ForkDetectionView::Detected(forks)
    }
}

/// The views of a list of witness responses.
pub open spec fn response_views(responses: Seq<WitnessResponse>) -> Seq<WitnessResponseView> {
    responses.map_values(|r: WitnessResponse| r@)
}

/// Interface for a fork detector.
pub trait ForkDetector: Sized {
    /// The digest this detector assigns to a header when comparing blocks.
    spec fn hash_model(&self) -> spec_fn(HeaderView) -> Seq<u8>;

    /// Detects forks between the verified block and the witnesses' responses,
    /// given the trusted block as the root the witnesses were verified from.
    fn detect_forks(
        &self,
        verified_block: &LightBlock,
        trusted_block: &LightBlock,
        witnesses: &Vec<WitnessResponse>,
    ) -> (r: Result<ForkDetection, DetectorError>)
        ensures
            r is Err <==> (verified_block@.height() <= trusted_block@.height() || witnesses@.len()
                == 0),
            verified_block@.height() <= trusted_block@.height() ==> r == Result::<
                ForkDetection,
                DetectorError,
            >::Err(DetectorError::HeightsNotIncreasing),
            (verified_block@.height() > trusted_block@.height() && witnesses@.len() == 0) ==> r
                == Result::<ForkDetection, DetectorError>::Err(DetectorError::EmptyWitnessList),
            r matches Result::Ok(d) ==> d@ == detect_spec(
                self.hash_model(),
                verified_block@,
                response_views(witnesses@),
            ),
    ;
}

/// A production-ready fork detector which compares light blocks fetched from
/// the witnesses by hash. If the hashes don't match, the light block pulled
/// from the witness is judged by the verifier's outcome against a store
/// holding only the trusted root and the witness's block, and then:
///
/// - if the verification succeeded, there is a real fork;
/// - if verification failed because the trusted state expired, there is still
///   a fork worth recording;
/// - if verification timed out, the witness is unreachable;
/// - if verification failed for any other reason, the witness is faulty.
pub struct ProdForkDetector<H: Hasher> {
    hasher: H,
}

impl<H: Hasher> ProdForkDetector<H> {
    /// Constructs a new fork detector that will use the given header hasher.
    pub fn new(hasher: H) -> (r: Self)
        ensures
            r.hasher() == hasher,
    {
        ProdForkDetector { hasher }
    }

    /// The hasher this detector compares headers with.
    pub closed spec fn hasher(self) -> H {
        self.hasher
    }

    /// Borrows the hasher this detector compares headers with.
    pub fn hasher_ref(&self) -> (h: &H)
        ensures
            *h == self.hasher(),
    {
        &self.hasher
    }
}

impl Default for ProdForkDetector<ProdHasher> {
    /// A fork detector over the production hasher.
    fn default() -> (r: Self)
        ensures
            r.hasher() == ProdHasher,
    {
        ProdForkDetector::new(ProdHasher)
    }
}

/// Classifies one diverging witness block by the verifier's outcome.
pub fn classify(primary: &LightBlock, witness: LightBlock, verdict: Result<(), ErrorKind>) -> (f:
    Fork)
    ensures
        f@ == classify_spec(primary@, witness@, verdict),
{
    match verdict {
        Result::Ok(_) => Fork::Forked { primary: primary.clone(), witness },
        Result::Err(e) => if e.has_expired() {
            Fork::Forked { primary: primary.clone(), witness }
        } else if e.is_timeout() {
            Fork::Timeout(witness.provider, e)
        } else {
            Fork::Faulty(witness, e)
        },
    }
}

impl<H: Hasher> ForkDetector for ProdForkDetector<H> {
    open spec fn hash_model(&self) -> spec_fn(HeaderView) -> Seq<u8> {
        |hd: HeaderView| self.hasher().hash_spec(hd)
    }

    /// Performs fork detection. See `ProdForkDetector` for the decision
    /// rules; per-witness operational failures land in the returned list and
    /// never abort the pass.
    fn detect_forks(
        &self,
        verified_block: &LightBlock,
        trusted_block: &LightBlock,
        witnesses: &Vec<WitnessResponse>,
    ) -> (r: Result<ForkDetection, DetectorError>) {
        if verified_block.height() <= trusted_block.height() {
            return Result::Err(DetectorError::HeightsNotIncreasing);
        }
        if witnesses.len() == 0 {
            return Result::Err(DetectorError::EmptyWitnessList);
        }
        let ghost hash = self.hash_model();
        let ghost resps = response_views(witnesses@);
        let primary_hash = self.hasher.hash_header(&verified_block.signed_header.header);

        let mut forks: Vec<Fork> = Vec::new();
        let mut i: usize = 0;
        while i < witnesses.len()
            invariant
                i <= witnesses@.len(),
                resps == response_views(witnesses@),
                resps.len() == witnesses@.len(),
                hash == self.hash_model(),
                primary_hash@ == hash(verified_block@.header()),
                forks@.map_values(|f: Fork| f@) == forks_spec(
                    hash,
                    verified_block@,
                    resps.subrange(0, i as int),
                ),
            decreases witnesses@.len() - i,
        {
            let ghost prefix = resps.subrange(0, i as int);
            let w = &witnesses[i];
            proof {
                assert(w@ == resps[i as int]);
            }
            match &w.fetch {
                Result::Err(e) => {
                    forks.push(Fork::Timeout(w.witness_id, *e));
                },
                Result::Ok(wb) => {
                    let witness_hash = self.hasher.hash_header(&wb.signed_header.header);
                    if !crate::types::bytes_eq(&primary_hash, &witness_hash) {
                        let f = classify(verified_block, wb.clone(), w.verify);
                        forks.push(f);
                    }
                },
            }
            proof {
                assert(resps.subrange(0, i as int + 1).drop_last() =~= prefix);
                assert(resps.subrange(0, i as int + 1).last() == resps[i as int]);
                assert(forks@.map_values(|f: Fork| f@) =~= forks_spec(
                    hash,
                    verified_block@,
                    resps.subrange(0, i as int + 1),
                ));
            }
            i += 1;
        }
        proof {
            assert(resps.subrange(0, witnesses@.len() as int) =~= resps);
        }
        if forks.len() == 0 {
            Result::Ok(ForkDetection::NotDetected)
        } else {
            Result::Ok(ForkDetection::Detected(forks))
        }
    }
}

/// Builds the fresh ephemeral store a witness check hands to the verifier:
/// the trusted block seeded as `Verified`, the witness's block as
/// `Unverified`, and nothing else. One such store is made per witness, so a
/// failed verification leaves no residue that could pollute another witness's
/// check.
pub fn prepare_verification_store(trusted_block: &LightBlock, witness_block: &LightBlock) -> (s:
    LightStore)
    requires
        trusted_block@.height() != witness_block@.height(),
    ensures
        s.wf(),
        s.has_key(trusted_block@.height(), Status::Verified),
        s.value_at(trusted_block@.height(), Status::Verified) == trusted_block@,
        s.has_key(witness_block@.height(), Status::Unverified),
        s.value_at(witness_block@.height(), Status::Unverified) == witness_block@,
        forall|h: u64, st: Status|
            !(h == trusted_block@.height() && st == Status::Verified) && !(h
                == witness_block@.height() && st == Status::Unverified) ==> !s.has_key(h, st),
{
    let mut s = LightStore::new();
    s.insert(trusted_block.clone(), Status::Verified);
    s.insert(witness_block.clone(), Status::Unverified);
    s
}

} // verus!
