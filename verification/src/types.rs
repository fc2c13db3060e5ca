//! Data model of the fork-detection core: headers, commits, validator sets,
//! light blocks, block status, and the error taxonomy of the verifier.

use vstd::prelude::*;

verus! {

/// Verification status of a light block inside a store.
///
/// Upgrades follow the chain `Unverified -> Verified -> Trusted`; downgrades
/// and moves into or out of `Failed` are disallowed.
#[derive(Clone, Copy, Debug, PartialEq, Eq, Hash, Structural)]
pub enum Status {
    Unverified,
    Verified,
    Trusted,
    Failed,
}

impl Status {
    /// Position of a status on the upgrade chain; `Failed` is off the chain.
    pub open spec fn chain_rank(self) -> int {
        match self {
            Status::Unverified => 0,
            Status::Verified => 1,
            Status::Trusted => 2,
            Status::Failed => 3,
        }
    }

    /// A status change is an upgrade exactly when it moves forward along
    /// `Unverified -> Verified -> Trusted`.
    pub open spec fn upgrade_allowed(self, to: Status) -> bool {
        &&& self != Status::Failed
        &&& to != Status::Failed
        &&& self.chain_rank() < to.chain_rank()
    }

    /// Decides whether moving from `self` to `to` is a permitted upgrade.
    pub fn is_upgrade_to(&self, to: &Status) -> (r: bool)
        ensures
            r == self.upgrade_allowed(*to),
    {
        let from_failed = matches!(self, Status::Failed);
        let to_failed = matches!(to, Status::Failed);
        let a: u8 = match self {
            Status::Unverified => 0,
            Status::Verified => 1,
            Status::Trusted => 2,
            Status::Failed => 3,
        };
        let b: u8 = match to {
            Status::Unverified => 0,
            Status::Verified => 1,
            Status::Trusted => 2,
            Status::Failed => 3,
        };
        !from_failed && !to_failed && a < b
    }
}

/// Error discriminants surfaced by the witness client and the verifier.
#[derive(Clone, Copy, Debug, PartialEq, Eq, Structural)]
pub enum ErrorKind {
    Io,
    Timeout,
    Rpc,
    InvalidCommit,
    InsufficientVotingPower,
    TrustedStateOutsideTrustingPeriod,
    TargetLowerThanTrustedState,
    InvalidValidatorSet,
}

impl ErrorKind {
    /// The trusted anchor lay outside its trusting period.
    pub open spec fn spec_has_expired(self) -> bool {
        self == ErrorKind::TrustedStateOutsideTrustingPeriod
    }

    /// Transport-level unreachability.
    pub open spec fn spec_is_timeout(self) -> bool {
        self == ErrorKind::Timeout
    }

    /// Returns whether this kind reports an expired trusted state.
    pub fn has_expired(&self) -> (r: bool)
        ensures
            r == self.spec_has_expired(),
    {
        matches!(self, ErrorKind::TrustedStateOutsideTrustingPeriod)
    }

    /// Returns whether this kind reports a timeout.
    pub fn is_timeout(&self) -> (r: bool)
        ensures
            r == self.spec_is_timeout(),
    {
        matches!(self, ErrorKind::Timeout)
    }
}

/// Opaque identity of the peer that supplied a block.
#[derive(Clone, Copy, Debug, PartialEq, Eq, Hash, Structural)]
pub struct PeerId {
    pub value: u64,
}

/// A point in time: seconds and nanoseconds counted from the Unix epoch.
/// Negative seconds are legal.
#[derive(Clone, Copy, Debug, PartialEq, Eq, Structural)]
pub struct Time {
    pub seconds: i64,
    pub nanos: i32,
}

/// Consensus protocol version carried by a header.
#[derive(Clone, Copy, Debug, PartialEq, Eq, Structural)]
pub struct Version {
    pub block: u64,
    pub app: u64,
}

/// Header of the part set a block was split into for gossiping.
#[derive(Debug, PartialEq)]
pub struct PartsSetHeader {
    pub total: i64,
    pub hash: Vec<u8>,
}

/// Mathematical model of a `PartsSetHeader`.
#[verifier::ext_equal]
pub struct PartsSetHeaderView {
    pub total: i64,
    pub hash: Seq<u8>,
}

impl View for PartsSetHeader {
    type V = PartsSetHeaderView;

    open spec fn view(&self) -> PartsSetHeaderView {
        PartsSetHeaderView { total: self.total, hash: self.hash@ }
    }
}

impl Clone for PartsSetHeader {
    fn clone(&self) -> (r: Self)
        ensures
            r@ == self@,
    {
        PartsSetHeader { total: self.total, hash: clone_bytes(&self.hash) }
    }
}

/// Identifier of a block: its hash plus the header of its part set.
#[derive(Debug, PartialEq)]
pub struct BlockID {
    pub hash: Vec<u8>,
    pub parts_header: Option<PartsSetHeader>,
}

/// Mathematical model of a `BlockID`.
#[verifier::ext_equal]
pub struct BlockIdView {
    pub hash: Seq<u8>,
    pub parts_header: Option<PartsSetHeaderView>,
}

impl View for BlockID {
    type V = BlockIdView;

    open spec fn view(&self) -> BlockIdView {
        BlockIdView {
            hash: self.hash@,
            parts_header: match self.parts_header {
                Option::Some(p) => Option::Some(p@),
                Option::None => Option::None,
            },
        }
    }
}

impl Clone for BlockID {
    fn clone(&self) -> (r: Self)
        ensures
            r@ == self@,
    {
        BlockID {
            hash: clone_bytes(&self.hash),
            parts_header: match &self.parts_header {
                Option::Some(p) => Option::Some(p.clone()),
                Option::None => Option::None,
            },
        }
    }
}

/// Canonical consensus block header.
#[derive(Debug, PartialEq)]
pub struct Header {
    pub version: Version,
    pub chain_id: Vec<u8>,
    pub height: u64,
    pub time: Time,
    pub last_block_id: BlockID,
    pub last_commit_hash: Vec<u8>,
    pub data_hash: Vec<u8>,
    pub validators_hash: Vec<u8>,
    pub next_validators_hash: Vec<u8>,
    pub consensus_hash: Vec<u8>,
    pub app_hash: Vec<u8>,
    pub last_results_hash: Vec<u8>,
    pub evidence_hash: Vec<u8>,
    pub proposer_address: Vec<u8>,
}

/// Mathematical model of a `Header`.
#[verifier::ext_equal]
pub struct HeaderView {
    pub version: Version,
    pub chain_id: Seq<u8>,
    pub height: u64,
    pub time: Time,
    pub last_block_id: BlockIdView,
    pub last_commit_hash: Seq<u8>,
    pub data_hash: Seq<u8>,
    pub validators_hash: Seq<u8>,
    pub next_validators_hash: Seq<u8>,
    pub consensus_hash: Seq<u8>,
    pub app_hash: Seq<u8>,
    pub last_results_hash: Seq<u8>,
    pub evidence_hash: Seq<u8>,
    pub proposer_address: Seq<u8>,
}

impl View for Header {
    type V = HeaderView;

    open spec fn view(&self) -> HeaderView {
        HeaderView {
            version: self.version,
            chain_id: self.chain_id@,
            height: self.height,
            time: self.time,
            last_block_id: self.last_block_id@,
            last_commit_hash: self.last_commit_hash@,
            data_hash: self.data_hash@,
            validators_hash: self.validators_hash@,
            next_validators_hash: self.next_validators_hash@,
            consensus_hash: self.consensus_hash@,
            app_hash: self.app_hash@,
            last_results_hash: self.last_results_hash@,
            evidence_hash: self.evidence_hash@,
            proposer_address: self.proposer_address@,
        }
    }
}

impl Clone for Header {
    fn clone(&self) -> (r: Self)
        ensures
            r@ == self@,
    {
        Header {
            version: self.version,
            chain_id: clone_bytes(&self.chain_id),
            height: self.height,
            time: self.time,
            last_block_id: self.last_block_id.clone(),
            last_commit_hash: clone_bytes(&self.last_commit_hash),
            data_hash: clone_bytes(&self.data_hash),
            validators_hash: clone_bytes(&self.validators_hash),
            next_validators_hash: clone_bytes(&self.next_validators_hash),
            consensus_hash: clone_bytes(&self.consensus_hash),
            app_hash: clone_bytes(&self.app_hash),
            last_results_hash: clone_bytes(&self.last_results_hash),
            evidence_hash: clone_bytes(&self.evidence_hash),
            proposer_address: clone_bytes(&self.proposer_address),
        }
    }
}

/// Commit for a header: the identity of the committed block and the height it
/// was committed at. Vote signatures are checked by the external verifier and
/// are not consulted by the detector, so they are not modeled here.
#[derive(Debug, PartialEq)]
pub struct Commit {
    pub height: u64,
    pub block_id: BlockID,
}

/// Mathematical model of a `Commit`.
#[verifier::ext_equal]
pub struct CommitView {
    pub height: u64,
    pub block_id: BlockIdView,
}

impl View for Commit {
    type V = CommitView;

    open spec fn view(&self) -> CommitView {
        CommitView { height: self.height, block_id: self.block_id@ }
    }
}

impl Clone for Commit {
    fn clone(&self) -> (r: Self)
        ensures
            r@ == self@,
    {
        Commit { height: self.height, block_id: self.block_id.clone() }
    }
}

/// A header together with the commit that carries the pre-commit votes for it.
#[derive(Debug, PartialEq)]
pub struct SignedHeader {
    pub header: Header,
    pub commit: Commit,
}

/// Mathematical model of a `SignedHeader`.
#[verifier::ext_equal]
pub struct SignedHeaderView {
    pub header: HeaderView,
    pub commit: CommitView,
}

impl SignedHeaderView {
    /// The commit must speak of the same height as the header.
    pub open spec fn well_formed(self) -> bool {
        self.commit.height == self.header.height
    }
}

impl View for SignedHeader {
    type V = SignedHeaderView;

    open spec fn view(&self) -> SignedHeaderView {
        SignedHeaderView { header: self.header@, commit: self.commit@ }
    }
}

impl Clone for SignedHeader {
    fn clone(&self) -> (r: Self)
        ensures
            r@ == self@,
    {
        SignedHeader { header: self.header.clone(), commit: self.commit.clone() }
    }
}

impl SignedHeader {
    /// Pairs a header with its commit. Fails exactly when the commit speaks
    /// of a different height than the header.
    pub fn new(header: Header, commit: Commit) -> (r: Option<SignedHeader>)
        ensures
            header@.height == commit@.height ==> (r matches Option::Some(sh) && sh@.header
                == header@ && sh@.commit == commit@ && sh@.well_formed()),
            header@.height != commit@.height ==> r is None,
    {
        if header.height == commit.height {
            Option::Some(SignedHeader { header, commit })
        } else {
            Option::None
        }
    }
}

/// One validator: its address and its voting power.
#[derive(Debug, PartialEq)]
pub struct Validator {
    pub address: Vec<u8>,
    pub power: u64,
}

/// Mathematical model of a `Validator`.
#[verifier::ext_equal]
pub struct ValidatorView {
    pub address: Seq<u8>,
    pub power: u64,
}

impl View for Validator {
    type V = ValidatorView;

    open spec fn view(&self) -> ValidatorView {
        ValidatorView { address: self.address@, power: self.power }
    }
}

impl Clone for Validator {
    fn clone(&self) -> (r: Self)
        ensures
            r@ == self@,
    {
        Validator { address: clone_bytes(&self.address), power: self.power }
    }
}

/// Total voting power of a sequence of validators.
pub open spec fn total_power_of(vals: Seq<ValidatorView>) -> int
    decreases vals.len(),
{
    if vals.len() == 0 {
        0
    } else {
        total_power_of(vals.drop_last()) + vals.last().power
    }
}

/// Ordered set of validators with their summed voting power.
#[derive(Debug, PartialEq)]
pub struct ValidatorSet {
    pub validators: Vec<Validator>,
    pub total_power: u64,
}

/// Mathematical model of a `ValidatorSet`.
#[verifier::ext_equal]
pub struct ValidatorSetView {
    pub validators: Seq<ValidatorView>,
    pub total_power: u64,
}

impl ValidatorSetView {
    /// The stored total is the sum of the members' powers.
    pub open spec fn well_formed(self) -> bool {
        self.total_power == total_power_of(self.validators)
    }
}

impl View for ValidatorSet {
    type V = ValidatorSetView;

    open spec fn view(&self) -> ValidatorSetView {
        ValidatorSetView {
            validators: self.validators@.map_values(|v: Validator| v@),
            total_power: self.total_power,
        }
    }
}

impl Clone for ValidatorSet {
    fn clone(&self) -> (r: Self)
        ensures
            r@ == self@,
    {
        let mut vals: Vec<Validator> = Vec::new();
        let mut i: usize = 0;
        while i < self.validators.len()
            invariant
                i <= self.validators.len(),
                vals@.map_values(|v: Validator| v@) =~= self.validators@.map_values(
                    |v: Validator| v@,
                ).subrange(0, i as int),
            decreases self.validators.len() - i,
        {
            let ghost prev = vals@.map_values(|v: Validator| v@);
            vals.push(self.validators[i].clone());
            proof {
                assert(vals@.map_values(|v: Validator| v@) =~= prev.push(self.validators@[
                    i as int]@));
                assert(prev.push(self.validators@[i as int]@) =~= self.validators@.map_values(
                    |v: Validator| v@,
                ).subrange(0, i as int + 1));
            }
            i += 1;
        }
        proof {
            assert(vals@.map_values(|v: Validator| v@) =~= self.validators@.map_values(
                |v: Validator| v@,
            ));
        }
        let r = ValidatorSet { validators: vals, total_power: self.total_power };
        proof {
            assert(r@ =~= self@);
        }
        r
    }
}

impl ValidatorSet {
    /// Builds a validator set from its members, summing their voting power.
    /// Fails exactly when the summed power does not fit in 64 bits.
    pub fn new(validators: Vec<Validator>) -> (r: Option<ValidatorSet>)
        ensures
            total_power_of(validators@.map_values(|v: Validator| v@)) <= u64::MAX ==> (r
                matches Option::Some(s) && s@.well_formed() && s@.validators
                == validators@.map_values(|v: Validator| v@)),
            total_power_of(validators@.map_values(|v: Validator| v@)) > u64::MAX ==> r is None,
    {
        let ghost all = validators@.map_values(|v: Validator| v@);
        let mut total: u64 = 0;
        let mut i: usize = 0;
        while i < validators.len()
            invariant
                i <= validators.len(),
                all == validators@.map_values(|v: Validator| v@),
                total == total_power_of(all.subrange(0, i as int)),
            decreases validators.len() - i,
        {
            proof {
                assert(all.subrange(0, i as int + 1).drop_last() =~= all.subrange(0, i as int));
                assert(all.subrange(0, i as int + 1).last() == all[i as int]);
                lemma_total_power_prefix_bound(all, i as int + 1);
            }
            let p = validators[i].power;
            if total > u64::MAX - p {
                proof {
                    lemma_total_power_prefix_monotonic(all, i as int + 1);
                }
                return Option::None;
            }
            total = total + p;
            i += 1;
        }
        proof {
            assert(all.subrange(0, validators@.len() as int) =~= all);
        }
        Option::Some(ValidatorSet { validators, total_power: total })
    }
}

/// Each member's power is non-negative, so every prefix sum is at most any
/// longer prefix sum.
proof fn lemma_total_power_prefix_bound(vals: Seq<ValidatorView>, i: int)
    requires
        0 <= i <= vals.len(),
    ensures
        total_power_of(vals.subrange(0, i)) >= 0,
    decreases i,
{
    if i > 0 {
        assert(vals.subrange(0, i).drop_last() =~= vals.subrange(0, i - 1));
        lemma_total_power_prefix_bound(vals, i - 1);
    }
}

/// If some prefix sum already exceeds the 64-bit range, so does the total.
proof fn lemma_total_power_prefix_monotonic(vals: Seq<ValidatorView>, i: int)
    requires
        0 <= i <= vals.len(),
    ensures
        total_power_of(vals) >= total_power_of(vals.subrange(0, i)),
    decreases vals.len(),
{
    if i < vals.len() {
        assert(vals.drop_last().subrange(0, i) =~= vals.subrange(0, i));
        lemma_total_power_prefix_monotonic(vals.drop_last(), i);
        assert(vals.last().power >= 0);
    } else {
        assert(vals.subrange(0, i) =~= vals);
    }
}

/// A signed header, the validator sets that contextualize it, and the peer
/// that supplied it.
#[derive(Debug, PartialEq)]
pub struct LightBlock {
    pub signed_header: SignedHeader,
    pub validators: ValidatorSet,
    pub next_validators: ValidatorSet,
    pub provider: PeerId,
}

/// Mathematical model of a `LightBlock`.
#[verifier::ext_equal]
pub struct LightBlockView {
    pub signed_header: SignedHeaderView,
    pub validators: ValidatorSetView,
    pub next_validators: ValidatorSetView,
    pub provider: PeerId,
}

impl LightBlockView {
    /// Height the block was committed at.
    pub open spec fn height(self) -> u64 {
        self.signed_header.header.height
    }

    /// Header carried by the block.
    pub open spec fn header(self) -> HeaderView {
        self.signed_header.header
    }
}

impl View for LightBlock {
    type V = LightBlockView;

    open spec fn view(&self) -> LightBlockView {
        LightBlockView {
            signed_header: self.signed_header@,
            validators: self.validators@,
            next_validators: self.next_validators@,
            provider: self.provider,
        }
    }
}

impl Clone for LightBlock {
    fn clone(&self) -> (r: Self)
        ensures
            r@ == self@,
    {
        let r = LightBlock {
            signed_header: self.signed_header.clone(),
            validators: self.validators.clone(),
            next_validators: self.next_validators.clone(),
            provider: self.provider,
        };
        proof {
            assert(r@ =~= self@);
        }
        r
    }
}

impl LightBlock {
    /// Height the block was committed at.
    pub fn height(&self) -> (h: u64)
        ensures
            h == self@.height(),
    {
        self.signed_header.header.height
    }
}

/// Copies a byte vector element by element.
pub fn clone_bytes(v: &Vec<u8>) -> (r: Vec<u8>)
    ensures
        r@ == v@,
{
    let mut r: Vec<u8> = Vec::new();
    let mut i: usize = 0;
    while i < v.len()
        invariant
            i <= v.len(),
            r@ =~= v@.subrange(0, i as int),
        decreases v.len() - i,
    {
        r.push(v[i]);
        proof {
            assert(v@.subrange(0, i as int).push(v@[i as int]) =~= v@.subrange(0, i as int + 1));
        }
        i += 1;
    }
    proof {
        assert(r@ =~= v@);
    }
    r
}

/// Compares two byte vectors for equality of contents.
pub fn bytes_eq(a: &Vec<u8>, b: &Vec<u8>) -> (r: bool)
    ensures
        r == (a@ == b@),
{
    if a.len() != b.len() {
        proof {
            assert(a@.len() != b@.len());
        }
        return false;
    }
    let mut i: usize = 0;
    while i < a.len()
        invariant
            i <= a.len(),
            a@.len() == b@.len(),
            forall|j: int| 0 <= j < i ==> a@[j] == b@[j],
        decreases a.len() - i,
    {
        if a[i] != b[i] {
            return false;
        }
        i += 1;
    }
    proof {
        assert(a@ =~= b@);
    }
    true
}

} // verus!
