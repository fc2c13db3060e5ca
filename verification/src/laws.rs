//! Laws of the fork detector, stated over the detection model and proved for
//! every input: determinism, silence under hash agreement, no accusation of a
//! witness whose block matches, witness isolation, exhaustiveness of the
//! output, and locality of reclassification.

use vstd::prelude::*;

use crate::detector::{
    detect_spec, entry_seq, forks_spec, reported_count, witness_entry_spec, ForkDetectionView,
    ForkView, WitnessResponseView,
};
use crate::types::{HeaderView, LightBlockView};

verus! {

/// Determinism: a detection pass is a function of the hasher, the primary's
/// block, and the witness responses; two passes over identical inputs return
/// equal results.
pub proof fn lemma_detection_deterministic(
    hash: spec_fn(HeaderView) -> Seq<u8>,
    primary: LightBlockView,
    responses: Seq<WitnessResponseView>,
    r1: ForkDetectionView,
    r2: ForkDetectionView,
)
    requires
        r1 == detect_spec(hash, primary, responses),
        r2 == detect_spec(hash, primary, responses),
    ensures
        r1 == r2,
{
}

/// Hash agreement means no report: when every witness served a block whose
/// header digest equals the primary's, the pass detects nothing.
pub proof fn lemma_hash_agreement_no_report(
    hash: spec_fn(HeaderView) -> Seq<u8>,
    primary: LightBlockView,
    responses: Seq<WitnessResponseView>,
)
    requires
        forall|j: int|
            0 <= j < responses.len() ==> responses[j].fetch is Ok && hash(
                (responses[j].fetch->Ok_0).header(),
            ) == hash(primary.header()),
    ensures
        forks_spec(hash, primary, responses) == Seq::<ForkView>::empty(),
        detect_spec(hash, primary, responses) == ForkDetectionView::NotDetected,
    decreases responses.len(),
{
    if responses.len() > 0 {
        assert(forall|j: int|
            0 <= j < responses.drop_last().len() ==> responses.drop_last()[j] == responses[j]);
        lemma_hash_agreement_no_report(hash, primary, responses.drop_last());
        assert(witness_entry_spec(hash, primary, responses.last()) is None);
        assert(forks_spec(hash, primary, responses) =~= Seq::<ForkView>::empty());
    }
}

/// No false accusation on a matching hash: a witness whose fetched block
/// agrees with the primary's by digest contributes nothing, whatever the
/// verification outcome in its response says — verification is never
/// consulted on matching hashes.
pub proof fn lemma_matching_hash_never_reported(
    hash: spec_fn(HeaderView) -> Seq<u8>,
    primary: LightBlockView,
    resp: WitnessResponseView,
)
    requires
        resp.fetch is Ok,
        hash((resp.fetch->Ok_0).header()) == hash(primary.header()),
    ensures
        witness_entry_spec(hash, primary, resp) is None,
{
}

/// Witness isolation: what one witness contributes depends on its own
/// response alone; responses that agree at a position contribute the same
/// entry there.
pub proof fn lemma_witness_isolation(
    hash: spec_fn(HeaderView) -> Seq<u8>,
    primary: LightBlockView,
    rs1: Seq<WitnessResponseView>,
    rs2: Seq<WitnessResponseView>,
    i: int,
)
    requires
        rs1.len() == rs2.len(),
        0 <= i < rs1.len(),
        forall|j: int| 0 <= j < rs1.len() && j != i ==> rs1[j] == rs2[j],
    ensures
        forall|j: int|
            0 <= j < rs1.len() && j != i ==> witness_entry_spec(hash, primary, rs1[j])
                == witness_entry_spec(hash, primary, rs2[j]),
{
}

/// The output decomposes around any position: the forks of the whole list
/// are the forks of the prefix, then whatever that position contributes,
/// then the forks of the suffix.
pub proof fn lemma_forks_decompose(
    hash: spec_fn(HeaderView) -> Seq<u8>,
    primary: LightBlockView,
    rs: Seq<WitnessResponseView>,
    i: int,
)
    requires
        0 <= i < rs.len(),
    ensures
        forks_spec(hash, primary, rs) == forks_spec(hash, primary, rs.subrange(0, i)) + entry_seq(
            witness_entry_spec(hash, primary, rs[i]),
        ) + forks_spec(hash, primary, rs.subrange(i + 1, rs.len() as int)),
    decreases rs.len(),
{
    let n = rs.len() as int;
    if i == n - 1 {
        assert(rs.drop_last() =~= rs.subrange(0, i));
        assert(rs.subrange(i + 1, n).len() == 0);
        assert(forks_spec(hash, primary, rs) =~= forks_spec(hash, primary, rs.subrange(0, i))
            + entry_seq(witness_entry_spec(hash, primary, rs[i])) + forks_spec(
            hash,
            primary,
            rs.subrange(i + 1, n),
        ));
    } else {
        lemma_forks_decompose(hash, primary, rs.drop_last(), i);
        assert(rs.drop_last().subrange(0, i) =~= rs.subrange(0, i));
        assert(rs.drop_last()[i] == rs[i]);
        assert(rs.drop_last().subrange(i + 1, n - 1) =~= rs.subrange(i + 1, n).drop_last());
        assert(rs.subrange(i + 1, n).last() == rs.last());
        assert(forks_spec(hash, primary, rs.subrange(i + 1, n)) == forks_spec(
            hash,
            primary,
            rs.drop_last().subrange(i + 1, n - 1),
        ) + entry_seq(witness_entry_spec(hash, primary, rs.last())));
        assert(forks_spec(hash, primary, rs) =~= forks_spec(hash, primary, rs.subrange(0, i))
            + entry_seq(witness_entry_spec(hash, primary, rs[i])) + forks_spec(
            hash,
            primary,
            rs.subrange(i + 1, n),
        ));
    }
}

/// Replacing one witness's response changes nothing but that witness's
/// contribution: prefix and suffix forks are untouched.
pub proof fn lemma_witness_replacement(
    hash: spec_fn(HeaderView) -> Seq<u8>,
    primary: LightBlockView,
    rs: Seq<WitnessResponseView>,
    i: int,
    x: WitnessResponseView,
)
    requires
        0 <= i < rs.len(),
    ensures
        forks_spec(hash, primary, rs) == forks_spec(hash, primary, rs.subrange(0, i)) + entry_seq(
            witness_entry_spec(hash, primary, rs[i]),
        ) + forks_spec(hash, primary, rs.subrange(i + 1, rs.len() as int)),
        forks_spec(hash, primary, rs.update(i, x)) == forks_spec(hash, primary, rs.subrange(0, i))
            + entry_seq(witness_entry_spec(hash, primary, x)) + forks_spec(
            hash,
            primary,
            rs.subrange(i + 1, rs.len() as int),
        ),
{
    let n = rs.len() as int;
    lemma_forks_decompose(hash, primary, rs, i);
    lemma_forks_decompose(hash, primary, rs.update(i, x), i);
    assert(rs.update(i, x).subrange(0, i) =~= rs.subrange(0, i));
    assert(rs.update(i, x).subrange(i + 1, n) =~= rs.subrange(i + 1, n));
}

/// Exhaustiveness: the output holds one entry per reporting witness — a
/// witness reports exactly when its block could not be fetched or its digest
/// diverges from the primary's — so the output is never longer than the
/// witness list.
pub proof fn lemma_exhaustive(
    hash: spec_fn(HeaderView) -> Seq<u8>,
    primary: LightBlockView,
    responses: Seq<WitnessResponseView>,
)
    ensures
        forks_spec(hash, primary, responses).len() == reported_count(hash, primary, responses),
        0 <= reported_count(hash, primary, responses) <= responses.len(),
        forall|j: int|
            0 <= j < responses.len() ==> (witness_entry_spec(hash, primary, responses[j]) is Some
                <==> (responses[j].fetch is Err || hash((responses[j].fetch->Ok_0).header())
                != hash(primary.header()))),
    decreases responses.len(),
{
    if responses.len() > 0 {
        lemma_exhaustive(hash, primary, responses.drop_last());
    }
}

/// For `n` witnesses the detected list holds between one and `n` entries —
/// an empty list is never surfaced as a detection.
pub proof fn lemma_output_bounds(
    hash: spec_fn(HeaderView) -> Seq<u8>,
    primary: LightBlockView,
    responses: Seq<WitnessResponseView>,
)
    ensures
        match detect_spec(hash, primary, responses) {
            ForkDetectionView::Detected(l) => 1 <= l.len() <= responses.len(),
            ForkDetectionView::NotDetected => reported_count(hash, primary, responses) == 0,
        },
{
    lemma_exhaustive(hash, primary, responses);
}

/// Nothing is detected exactly when no witness reports: `NotDetected` means
/// no witness produced a contradiction in this pass, not that no fork
/// exists.
pub proof fn lemma_not_detected_iff_no_reports(
    hash: spec_fn(HeaderView) -> Seq<u8>,
    primary: LightBlockView,
    responses: Seq<WitnessResponseView>,
)
    ensures
        (detect_spec(hash, primary, responses) == ForkDetectionView::NotDetected) <==> (
        reported_count(hash, primary, responses) == 0),
{
    lemma_exhaustive(hash, primary, responses);
}

/// Locality of reclassification: exchanging a reporting witness's response
/// for another reporting response (a worse error kind, say) keeps the output
/// length and every other entry, and rewrites that witness's entry alone.
pub proof fn lemma_reclassification_local(
    hash: spec_fn(HeaderView) -> Seq<u8>,
    primary: LightBlockView,
    rs: Seq<WitnessResponseView>,
    i: int,
    x: WitnessResponseView,
)
    requires
        0 <= i < rs.len(),
        witness_entry_spec(hash, primary, rs[i]) is Some,
        witness_entry_spec(hash, primary, x) is Some,
    ensures
        ({
            let f1 = forks_spec(hash, primary, rs);
            let f2 = forks_spec(hash, primary, rs.update(i, x));
            let p = forks_spec(hash, primary, rs.subrange(0, i)).len() as int;
            &&& f1.len() == f2.len()
            &&& 0 <= p < f1.len()
            &&& forall|k: int| 0 <= k < f1.len() && k != p ==> f2[k] == f1[k]
            &&& f1[p] == witness_entry_spec(hash, primary, rs[i])->Some_0
            &&& f2[p] == witness_entry_spec(hash, primary, x)->Some_0
        }),
{
    lemma_witness_replacement(hash, primary, rs, i, x);
}

} // verus!
