//! Resolution of an output's datum against a pool of decoded candidates.

use crate::bytes::same_bytes;
use crate::output::{Datum, DatumView, Output, OutputView};
use pallas::crypto::hash::Hasher;
use pallas::ledger::primitives::alonzo::PlutusData;
use vstd::prelude::*;
use vstd::seq_lib::to_multiset_contains;

verus! {

/// A decoded datum together with the bytes it was decoded from. The content
/// hash of a candidate is the hash of these bytes, never of a new encoding of
/// the value, which need not give the same bytes.
#[derive(Debug, PartialEq, Eq)]
pub struct DatumCandidate {
    /// The encoding that the value was decoded from, byte for byte.
    pub raw: Vec<u8>,
    /// The value that was decoded from it.
    pub value: PlutusData,
}

/// A `DatumCandidate` as a mathematical value.
pub struct DatumCandidateView {
    pub raw: Seq<u8>,
    pub value: PlutusData,
}

impl View for DatumCandidate {
    type V = DatumCandidateView;

    open spec fn view(&self) -> DatumCandidateView {
        DatumCandidateView { raw: self.raw@, value: self.value }
    }
}

impl Clone for DatumCandidate {
    fn clone(&self) -> (copy: Self)
        ensures
            copy@ == self@,
    {
        DatumCandidate { raw: self.raw.clone(), value: self.value.clone() }
    }
}

/// The candidates of a pool as mathematical values, in order.
pub open spec fn pool_view(pool: Seq<DatumCandidate>) -> Seq<DatumCandidateView> {
    Seq::new(pool.len(), |i: int| pool[i]@)
}

/// The Blake2b-256 digest of a byte string.
pub uninterp spec fn blake2b_256(bytes: Seq<u8>) -> Seq<u8>;

/// Calls `Hasher::<256>::hash` of pallas. Trusted: the 32 bytes it returns are
/// the Blake2b-256 digest of `bytes`, and depend on nothing else.
#[verifier::external_body]
pub(crate) fn content_hash(bytes: &[u8]) -> (digest: [u8; 32])
    ensures
        digest@ == blake2b_256(bytes@),
{
    *Hasher::<256>::hash(bytes)
}

/// Whether `hash` is the content hash of the candidate.
pub open spec fn answers(candidate: DatumCandidateView, hash: Seq<u8>) -> bool {
    blake2b_256(candidate.raw) == hash
}

/// The value of the first candidate of the pool whose content hash is
/// `hash`, if there is one.
pub open spec fn first_with_hash(pool: Seq<DatumCandidateView>, hash: Seq<u8>) -> Option<
    PlutusData,
>
    decreases pool.len(),
{
    if pool.len() == 0 {
        None
    } else if answers(pool.first(), hash) {
        Some(pool.first().value)
    } else {
        first_with_hash(pool.drop_first(), hash)
    }
}

/// The datum of an output: none where the output has none, the value itself
/// where the output carries it, and where the output refers to it by hash, the
/// value of the first candidate with that content hash, if the pool has one.
pub open spec fn resolved_datum(output: OutputView, pool: Seq<DatumCandidateView>) -> Option<
    PlutusData,
> {
    match output.datum {
        None => None,
        Some(DatumView::Inline(value)) => Some(value),
        Some(DatumView::HashRef(hash)) => first_with_hash(pool, hash),
    }
}

/// The content hash of each candidate of the pool, in the order of the pool.
pub fn content_hashes(pool: &[DatumCandidate]) -> (hashes: Vec<[u8; 32]>)
    ensures
        hashes.len() == pool.len(),
        forall|i: int|
            0 <= i < pool.len() ==> (#[trigger] hashes@[i])@ == blake2b_256(pool@[i].raw@),
{
    let mut hashes: Vec<[u8; 32]> = Vec::with_capacity(pool.len());
    let mut i: usize = 0;
    while i < pool.len()
        invariant
            i <= pool.len(),
            hashes.len() == i,
            forall|k: int| 0 <= k < i ==> (#[trigger] hashes@[k])@ == blake2b_256(pool@[k].raw@),
        decreases pool.len() - i,
    {
        hashes.push(content_hash(pool[i].raw.as_slice()));
        i += 1;
    }
    hashes
}

/// The position of the first of `hashes` that equals `wanted`, if one does.
pub fn position_of_hash(hashes: &[[u8; 32]], wanted: &[u8; 32]) -> (position: Option<usize>)
    ensures
        match position {
            Some(at) => {
                &&& at < hashes.len()
                &&& hashes@[at as int]@ == wanted@
                &&& forall|before: int| 0 <= before < at ==> (#[trigger] hashes@[before])@ != wanted@
            },
            None => forall|at: int| 0 <= at < hashes.len() ==> (#[trigger] hashes@[at])@ != wanted@,
        },
{
    let mut i: usize = 0;
    while i < hashes.len()
        invariant
            i <= hashes.len(),
            forall|before: int| 0 <= before < i ==> (#[trigger] hashes@[before])@ != wanted@,
        decreases hashes.len() - i,
    {
        if same_bytes(hashes[i].as_slice(), wanted.as_slice()) {
            return Some(i);
        }
        i += 1;
    }
    None
}

/// The datum of `output`, resolved against the candidates in `plutus_data`.
///
/// An output without a datum gives `None` and an output with an inline datum
/// gives that datum; the pool plays no part in either. For a datum given by
/// hash each candidate is hashed over the bytes it was decoded from, and the
/// value of the first candidate whose hash is the one asked for is returned.
/// `None` then says that the pool does not hold the datum.
pub fn get_plutus_datum_for_output(output: &Output, plutus_data: &[DatumCandidate]) -> (resolved:
    Option<PlutusData>)
    ensures
        resolved == resolved_datum(output@, pool_view(plutus_data@)),
        output.datum is None ==> resolved is None,
        output.datum matches Some(Datum::Inline(value)) ==> resolved == Some(value),
{
    match &output.datum {
        None => None,
        Some(Datum::Inline(value)) => Some(value.clone()),
        Some(Datum::HashRef(hash)) => {
            let ghost pool = pool_view(plutus_data@);
            let hashes = content_hashes(plutus_data);
            let position = position_of_hash(hashes.as_slice(), hash);
            proof {
                lemma_first_with_hash(pool, hash@);
                assert forall|at: int| 0 <= at < pool.len() implies answers(
                    #[trigger] pool[at],
                    hash@,
                ) == (hashes@[at]@ == hash@) by {
                    assert(pool[at].raw == plutus_data@[at].raw@);
                }
            }
            match position {
                Some(at) => {
                    assert(is_first_answer(pool, hash@, at as int));
                    Some(plutus_data[at].value.clone())
                },
                None => None,
            }
        },
    }
}

/// Whether the candidate at `at` has the content hash `hash` and none before
/// it has.
pub open spec fn is_first_answer(pool: Seq<DatumCandidateView>, hash: Seq<u8>, at: int) -> bool {
    &&& 0 <= at < pool.len()
    &&& answers(pool[at], hash)
    &&& forall|before: int| 0 <= before < at ==> !answers(#[trigger] pool[before], hash)
}

/// What a search by hash finds is the value of the first candidate with that
/// content hash, and it finds nothing only where no candidate has it.
pub proof fn lemma_first_with_hash(pool: Seq<DatumCandidateView>, hash: Seq<u8>)
    ensures
        match first_with_hash(pool, hash) {
            Some(value) => exists|at: int|
                #[trigger] is_first_answer(pool, hash, at) && pool[at].value == value,
            None => forall|at: int| 0 <= at < pool.len() ==> !answers(#[trigger] pool[at], hash),
        },
    decreases pool.len(),
{
    if pool.len() == 0 {
    } else if answers(pool.first(), hash) {
        assert(is_first_answer(pool, hash, 0));
    } else {
        let rest = pool.drop_first();
        lemma_first_with_hash(rest, hash);
        match first_with_hash(rest, hash) {
            Some(value) => {
                let at = choose|at: int|
                    #[trigger] is_first_answer(rest, hash, at) && rest[at].value == value;
                assert forall|before: int| 0 <= before < at + 1 implies !answers(
                    #[trigger] pool[before],
                    hash,
                ) by {
                    if before > 0 {
                        assert(pool[before] == rest[before - 1]);
                    }
                }
                assert(pool[at + 1] == rest[at]);
                assert(is_first_answer(pool, hash, at + 1));
            },
            None => {
                assert forall|at: int| 0 <= at < pool.len() implies !answers(
                    #[trigger] pool[at],
                    hash,
                ) by {
                    if at > 0 {
                        assert(pool[at] == rest[at - 1]);
                    }
                }
            },
        }
    }
}

/// An output that carries its datum resolves to that datum, whatever the pool
/// holds.
pub proof fn lemma_inline_datum_ignores_pool(
    output: OutputView,
    value: PlutusData,
    pool: Seq<DatumCandidateView>,
)
    requires
        output.datum == Some(DatumView::Inline(value)),
    ensures
        resolved_datum(output, pool) == Some(value),
{
}

/// An output without a datum resolves to none, whatever the pool holds.
pub proof fn lemma_absent_datum_ignores_pool(output: OutputView, pool: Seq<DatumCandidateView>)
    requires
        output.datum is None,
    ensures
        resolved_datum(output, pool) is None,
{
}

/// Where exactly one candidate of the pool has the hash that the output refers
/// to, the output resolves to that candidate's value.
pub proof fn lemma_only_answer_is_resolved(
    output: OutputView,
    hash: Seq<u8>,
    pool: Seq<DatumCandidateView>,
    at: int,
)
    requires
        output.datum == Some(DatumView::HashRef(hash)),
        0 <= at < pool.len(),
        answers(pool[at], hash),
        forall|other: int|
            0 <= other < pool.len() && other != at ==> !answers(#[trigger] pool[other], hash),
    ensures
        resolved_datum(output, pool) == Some(pool[at].value),
{
    lemma_first_with_hash(pool, hash);
}

/// Where no candidate of the pool has the hash that the output refers to, and
/// so for an empty pool, the output resolves to none.
pub proof fn lemma_unanswered_hash_resolves_to_none(
    output: OutputView,
    hash: Seq<u8>,
    pool: Seq<DatumCandidateView>,
)
    requires
        output.datum == Some(DatumView::HashRef(hash)),
        forall|at: int| 0 <= at < pool.len() ==> !answers(#[trigger] pool[at], hash),
    ensures
        resolved_datum(output, pool) is None,
{
    lemma_first_with_hash(pool, hash);
}

/// In a pool where at most one candidate has a given content hash, the order
/// of the candidates does not matter: a pool with the same candidates in
/// another order gives the same value for that hash.
pub proof fn lemma_first_with_hash_any_order(
    first: Seq<DatumCandidateView>,
    second: Seq<DatumCandidateView>,
    hash: Seq<u8>,
)
    requires
        first.to_multiset() == second.to_multiset(),
        forall|i: int, j: int|
            0 <= i < first.len() && 0 <= j < first.len() && answers(#[trigger] first[i], hash)
                && answers(#[trigger] first[j], hash) ==> i == j,
    ensures
        first_with_hash(first, hash) == first_with_hash(second, hash),
{
    lemma_first_with_hash(first, hash);
    lemma_first_with_hash(second, hash);
    match first_with_hash(second, hash) {
        Some(value) => {
            let at = choose|at: int|
                #[trigger] is_first_answer(second, hash, at) && second[at].value == value;
            let found = second[at];
            assert(second.contains(found));
            to_multiset_contains(second, found);
            to_multiset_contains(first, found);
            let twin = first.index_of(found);
            assert(answers(first[twin], hash));
            match first_with_hash(first, hash) {
                Some(other) => {
                    let other_at = choose|other_at: int|
                        #[trigger] is_first_answer(first, hash, other_at) && first[other_at].value
                            == other;
                    assert(other_at == twin);
                },
                None => {},
            }
        },
        None => {
            match first_with_hash(first, hash) {
                Some(other) => {
                    let other_at = choose|other_at: int|
                        #[trigger] is_first_answer(first, hash, other_at) && first[other_at].value
                            == other;
                    let found = first[other_at];
                    assert(first.contains(found));
                    to_multiset_contains(first, found);
                    to_multiset_contains(second, found);
                    let twin = second.index_of(found);
                    assert(answers(second[twin], hash));
                },
                None => {},
            }
        },
    }
}

/// The resolved datum is a function of what the output and the pool hold:
/// equal outputs and equal pools resolve alike.
pub proof fn lemma_resolved_datum_repeatable(
    first: Output,
    first_pool: Seq<DatumCandidate>,
    second: Output,
    second_pool: Seq<DatumCandidate>,
)
    requires
        first@ == second@,
        pool_view(first_pool) == pool_view(second_pool),
    ensures
        resolved_datum(first@, pool_view(first_pool)) == resolved_datum(
            second@,
            pool_view(second_pool),
        ),
{
}

} // verus!
