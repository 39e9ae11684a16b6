//! Lookup of registry records by a batch of asset keys.

use crate::bytes::same_bytes;
use vstd::prelude::*;
use vstd::seq_lib::seq_to_set_is_finite;
use vstd::set_lib::lemma_len_subset;

verus! {

/// A record of the asset registry. The registry holds at most one record for
/// each pair of policy id and asset name.
#[derive(Debug, PartialEq, Eq)]
pub struct RegistryRecord {
    /// The identity under which later stages refer to the asset.
    pub id: i64,
    /// The policy under which the asset was minted.
    pub policy_id: Vec<u8>,
    /// The name of the asset under that policy.
    pub asset_name: Vec<u8>,
}

/// A `RegistryRecord` as a mathematical value.
pub struct RegistryRecordView {
    pub id: i64,
    pub policy_id: Seq<u8>,
    pub asset_name: Seq<u8>,
}

impl View for RegistryRecord {
    type V = RegistryRecordView;

    open spec fn view(&self) -> RegistryRecordView {
        RegistryRecordView {
            id: self.id,
            policy_id: self.policy_id@,
            asset_name: self.asset_name@,
        }
    }
}

impl Clone for RegistryRecord {
    fn clone(&self) -> (copy: Self)
        ensures
            copy@ == self@,
    {
        RegistryRecord {
            id: self.id,
            policy_id: self.policy_id.clone(),
            asset_name: self.asset_name.clone(),
        }
    }
}

/// A policy id and an asset name as mathematical values.
pub type KeyView = (Seq<u8>, Seq<u8>);

/// The key under which the registry holds a record.
pub open spec fn key_of(record: RegistryRecordView) -> KeyView {
    (record.policy_id, record.asset_name)
}

/// The records of a list as mathematical values, in order.
pub open spec fn records_view(records: Seq<RegistryRecord>) -> Seq<RegistryRecordView> {
    Seq::new(records.len(), |i: int| records[i]@)
}

/// The pairs of a list as mathematical values, in order.
pub open spec fn keys_view(pairs: Seq<(Vec<u8>, Vec<u8>)>) -> Seq<KeyView> {
    Seq::new(pairs.len(), |i: int| (pairs[i].0@, pairs[i].1@))
}

/// The condition that a record's key is one of `keys`.
pub open spec fn wanted(keys: Seq<KeyView>) -> spec_fn(RegistryRecordView) -> bool {
    |record: RegistryRecordView| keys.contains(key_of(record))
}

/// The records of the registry whose key is one of `keys`, in the order of
/// the registry.
pub open spec fn matching_records(
    registry: Seq<RegistryRecordView>,
    keys: Seq<KeyView>,
) -> Seq<RegistryRecordView> {
    registry.filter(wanted(keys))
}

/// What has to be asked of the registry for a batch of pairs.
#[derive(Debug, PartialEq, Eq)]
pub enum AssetQuery {
    /// The batch is empty: no record is asked for, and the registry is not
    /// to be queried at all.
    Nothing,
    /// The records whose policy id and asset name both equal those of one of
    /// these pairs. The list is never empty.
    AnyOf(Vec<(Vec<u8>, Vec<u8>)>),
}

impl AssetQuery {
    /// The keys that the query asks for.
    pub open spec fn keys(self) -> Seq<KeyView> {
        match self {
            AssetQuery::Nothing => Seq::empty(),
            AssetQuery::AnyOf(pairs) => keys_view(pairs@),
        }
    }

    /// A query that names pairs names at least one.
    pub open spec fn wf(self) -> bool {
        self matches AssetQuery::AnyOf(pairs) ==> pairs.len() > 0
    }

    /// Whether the query asks for the record: whether one of its pairs has
    /// both the record's policy id and the record's asset name.
    pub fn admits(&self, record: &RegistryRecord) -> (admitted: bool)
        ensures
            admitted == wanted(self.keys())(record@),
    {
        match self {
            AssetQuery::Nothing => false,
            AssetQuery::AnyOf(pairs) => {
                let ghost keys = keys_view(pairs@);
                let mut i: usize = 0;
                while i < pairs.len()
                    invariant
                        i <= pairs.len(),
                        keys == keys_view(pairs@),
                        keys == self.keys(),
                        forall|k: int| 0 <= k < i ==> keys[k] != key_of(record@),
                    decreases pairs.len() - i,
                {
                    let pair = &pairs[i];
                    if same_bytes(pair.0.as_slice(), record.policy_id.as_slice()) && same_bytes(
                        pair.1.as_slice(),
                        record.asset_name.as_slice(),
                    ) {
                        assert(keys[i as int] == key_of(record@));
                        return true;
                    }
                    i += 1;
                }
                false
            },
        }
    }
}

/// The query for a batch of pairs. An empty batch asks for nothing; any other
/// batch asks for the records that match one of its pairs, each pair taken as
/// it stands, so that a pair given twice is asked for twice.
pub fn asset_query(pairs: &[(Vec<u8>, Vec<u8>)]) -> (query: AssetQuery)
    ensures
        query.wf(),
        query.keys() == keys_view(pairs@),
        query is Nothing <==> pairs.len() == 0,
{
    if pairs.len() == 0 {
        assert(keys_view(pairs@) =~= Seq::empty());
        return AssetQuery::Nothing;
    }
    let mut asked: Vec<(Vec<u8>, Vec<u8>)> = Vec::with_capacity(pairs.len());
    let mut i: usize = 0;
    while i < pairs.len()
        invariant
            i <= pairs.len(),
            asked.len() == i,
            forall|k: int|
                0 <= k < i ==> asked@[k].0@ == pairs@[k].0@ && asked@[k].1@ == pairs@[k].1@,
        decreases pairs.len() - i,
    {
        let pair = &pairs[i];
        asked.push((pair.0.clone(), pair.1.clone()));
        i += 1;
    }
    assert(keys_view(asked@) =~= keys_view(pairs@));
    AssetQuery::AnyOf(asked)
}

/// The records of `registry` that a batch of pairs selects: every record
/// whose policy id and asset name are those of some pair in `pairs`, in the
/// order of the registry, and no other. A pair that the registry does not know
/// selects nothing; the order of the pairs and their repetition change
/// nothing. For an empty batch the result is empty and the registry is not
/// read.
pub fn asset_from_pair(registry: &[RegistryRecord], pairs: &[(Vec<u8>, Vec<u8>)]) -> (records: Vec<
    RegistryRecord,
>)
    ensures
        records_view(records@) == matching_records(records_view(registry@), keys_view(pairs@)),
        pairs.len() == 0 ==> records.len() == 0,
{
    let query = asset_query(pairs);
    let ghost all = records_view(registry@);
    let ghost keys = keys_view(pairs@);
    let mut records: Vec<RegistryRecord> = Vec::new();
    match query {
        AssetQuery::Nothing => {
            proof {
                lemma_no_keys_match_nothing(all);
                assert(records_view(records@) =~= Seq::empty());
            }
        },
        AssetQuery::AnyOf(_) => {
            let mut i: usize = 0;
            proof {
                assert(all.take(0) =~= Seq::empty());
                lemma_no_records_match_nothing(keys);
                assert(records_view(records@) =~= Seq::empty());
            }
            while i < registry.len()
                invariant
                    i <= registry.len(),
                    all == records_view(registry@),
                    query.keys() == keys,
                    records_view(records@) == matching_records(all.take(i as int), keys),
                decreases registry.len() - i,
            {
                let record = &registry[i];
                let ghost before = records_view(records@);
                proof {
                    assert(all.take(i + 1) == all.take(i as int).push(record@));
                    all.take(i as int).lemma_filter_push(record@, wanted(keys));
                }
                if query.admits(record) {
                    records.push(record.clone());
                    assert(records_view(records@) =~= before.push(record@));
                }
                i += 1;
            }
            assert(all.take(i as int) == all);
        },
    }
    records
}

/// An empty batch selects no record, whatever the registry holds.
pub proof fn lemma_no_keys_match_nothing(registry: Seq<RegistryRecordView>)
    ensures
        matching_records(registry, Seq::empty()) == Seq::<RegistryRecordView>::empty(),
    decreases registry.len(),
{
    reveal(Seq::filter);
    if registry.len() != 0 {
        lemma_no_keys_match_nothing(registry.drop_last());
    }
}

/// From an empty registry no batch selects a record.
pub proof fn lemma_no_records_match_nothing(keys: Seq<KeyView>)
    ensures
        matching_records(Seq::empty(), keys) == Seq::<RegistryRecordView>::empty(),
{
    reveal(Seq::filter);
}

/// The selected records are the records of the registry whose key is one of
/// the keys asked for: none is left out, and none is added.
pub proof fn lemma_matching_records_exact(
    registry: Seq<RegistryRecordView>,
    keys: Seq<KeyView>,
    record: RegistryRecordView,
)
    ensures
        matching_records(registry, keys).contains(record) <==> registry.contains(record)
            && keys.contains(key_of(record)),
{
    let found = matching_records(registry, keys);
    if found.contains(record) {
        let at = found.index_of(record);
        registry.lemma_filter_pred(wanted(keys), at);
        registry.lemma_filter_contains_rev(wanted(keys), record);
    }
    if registry.contains(record) && keys.contains(key_of(record)) {
        let at = registry.index_of(record);
        registry.lemma_filter_contains(wanted(keys), at);
    }
}

/// No two records of the list have the same policy id and asset name.
pub open spec fn keys_unique(records: Seq<RegistryRecordView>) -> bool {
    forall|i: int, j: int|
        0 <= i < j < records.len() ==> key_of(#[trigger] records[i]) != key_of(
            #[trigger] records[j],
        )
}

/// Selecting from a registry with one record for each key gives a list with
/// one record for each key.
pub proof fn lemma_matching_records_keep_keys_unique(
    registry: Seq<RegistryRecordView>,
    keys: Seq<KeyView>,
)
    requires
        keys_unique(registry),
    ensures
        keys_unique(matching_records(registry, keys)),
    decreases registry.len(),
{
    reveal(Seq::filter);
    if registry.len() != 0 {
        let rest = registry.drop_last();
        let last = registry.last();
        assert forall|i: int, j: int| 0 <= i < j < rest.len() implies key_of(
            #[trigger] rest[i],
        ) != key_of(#[trigger] rest[j]) by {
            assert(rest[i] == registry[i] && rest[j] == registry[j]);
        }
        lemma_matching_records_keep_keys_unique(rest, keys);
        let kept = matching_records(rest, keys);
        if wanted(keys)(last) {
            assert forall|i: int| 0 <= i < kept.len() implies key_of(#[trigger] kept[i])
                != key_of(last) by {
                assert(kept.contains(kept[i]));
                rest.lemma_filter_contains_rev(wanted(keys), kept[i]);
                let at = rest.index_of(kept[i]);
                assert(registry[at] == kept[i]);
                assert(registry[registry.len() - 1] == last);
            }
        }
    }
}

/// From a registry with one record for each key, a batch selects at most as
/// many records as it names different keys.
pub proof fn lemma_matching_records_bounded(registry: Seq<RegistryRecordView>, keys: Seq<KeyView>)
    requires
        keys_unique(registry),
    ensures
        matching_records(registry, keys).len() <= keys.to_set().len(),
{
    let found = matching_records(registry, keys);
    let found_keys = found.map_values(|record: RegistryRecordView| key_of(record));
    lemma_matching_records_keep_keys_unique(registry, keys);
    assert(found_keys.no_duplicates()) by {
        assert forall|i: int, j: int|
            0 <= i < found_keys.len() && 0 <= j < found_keys.len() && i != j implies found_keys[i]
            != found_keys[j] by {
            if i < j {
                assert(key_of(found[i]) != key_of(found[j]));
            } else {
                assert(key_of(found[j]) != key_of(found[i]));
            }
        }
    }
    found_keys.unique_seq_to_set();
    assert(found_keys.to_set().subset_of(keys.to_set())) by {
        assert forall|key: KeyView| found_keys.to_set().contains(key) implies keys.to_set().contains(
            key,
        ) by {
            let at = found_keys.index_of(key);
            registry.lemma_filter_pred(wanted(keys), at);
        }
    }
    seq_to_set_is_finite(keys);
    lemma_len_subset(found_keys.to_set(), keys.to_set());
}

/// Neither the order of the pairs nor their repetition matters: two batches
/// that name the same keys select the same records.
pub proof fn lemma_matching_records_same_keys(
    registry: Seq<RegistryRecordView>,
    first: Seq<KeyView>,
    second: Seq<KeyView>,
)
    requires
        first.to_set() == second.to_set(),
    ensures
        matching_records(registry, first) == matching_records(registry, second),
{
    assert forall|record: RegistryRecordView| #[trigger]
        wanted(first)(record) == wanted(second)(record) by {
        let key = key_of(record);
        assert(first.contains(key) == first.to_set().contains(key));
        assert(second.contains(key) == second.to_set().contains(key));
    }
    assert(wanted(first) =~= wanted(second));
}

/// The selected records are a function of what the registry holds and of the
/// keys the batch names: equal registries and equal batches give equal
/// results.
pub proof fn lemma_matching_records_repeatable(
    first: Seq<RegistryRecord>,
    first_pairs: Seq<(Vec<u8>, Vec<u8>)>,
    second: Seq<RegistryRecord>,
    second_pairs: Seq<(Vec<u8>, Vec<u8>)>,
)
    requires
        records_view(first) == records_view(second),
        keys_view(first_pairs) == keys_view(second_pairs),
    ensures
        matching_records(records_view(first), keys_view(first_pairs)) == matching_records(
            records_view(second),
            keys_view(second_pairs),
        ),
{
}

} // verus!
