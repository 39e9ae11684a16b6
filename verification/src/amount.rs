//! The amount of one asset in an output.

use crate::bytes::same_bytes;
use crate::output::{Asset, AssetView, Output, OutputView};
use vstd::prelude::*;
use vstd::seq_lib::{to_multiset_contains, to_multiset_len, to_multiset_remove};

verus! {

/// Which entries of an output an amount is asked for: `None` for the chain's
/// own currency, `Some` for the token with that policy id and asset name.
pub type AssetPair = Option<(Vec<u8>, Vec<u8>)>;

/// An `AssetPair` as a mathematical value.
pub type Selector = Option<(Seq<u8>, Seq<u8>)>;

/// The selector that an `AssetPair` stands for.
pub open spec fn selector_of(pair: AssetPair) -> Selector {
    match pair {
        Some((policy_id, asset_name)) => Some((policy_id@, asset_name@)),
        None => None,
    }
}

/// Whether the selector picks the entry: a base entry is picked by the base
/// selector only, a native entry by the selector with the same policy id and
/// the same asset name only.
pub open spec fn selects(selector: Selector, asset: AssetView) -> bool {
    match asset {
        AssetView::Base(_) => selector is None,
        AssetView::Native(policy_id, asset_name, _) => selector == Some((policy_id, asset_name)),
    }
}

/// What one entry adds to the amount asked for.
pub open spec fn share(selector: Selector, asset: AssetView) -> nat {
    if selects(selector, asset) {
        asset.quantity()
    } else {
        0
    }
}

/// The sum of the quantities of the entries that the selector picks.
pub open spec fn total_amount(assets: Seq<AssetView>, selector: Selector) -> nat
    decreases assets.len(),
{
    if assets.len() == 0 {
        0
    } else {
        total_amount(assets.drop_last(), selector) + share(selector, assets.last())
    }
}

/// A sum as a `u64` can hold it: the sum itself, or the largest `u64` where
/// the sum is larger.
pub open spec fn saturated(sum: nat) -> u64 {
    if sum <= u64::MAX {
        sum as u64
    } else {
        u64::MAX
    }
}

/// The amount that an output holds of the selected asset.
pub open spec fn asset_amount(output: OutputView, selector: Selector) -> u64 {
    saturated(total_amount(output.assets, selector))
}

/// Whether the selector picks the entry.
fn picks(pair: &AssetPair, asset: &Asset) -> (picked: bool)
    ensures
        picked == selects(selector_of(*pair), asset@),
{
    match asset {
        Asset::Base(_) => pair.is_none(),
        Asset::Native(policy_id, asset_name, _) => match pair {
            Some((wanted_policy, wanted_name)) => {
                same_bytes(policy_id.as_slice(), wanted_policy.as_slice()) && same_bytes(
                    asset_name.as_slice(),
                    wanted_name.as_slice(),
                )
            },
            None => false,
        },
    }
}

/// The quantity that the entry holds.
fn quantity_of(asset: &Asset) -> (quantity: u64)
    ensures
        quantity == asset@.quantity(),
{
    match asset {
        Asset::Base(quantity) => *quantity,
        Asset::Native(_, _, quantity) => *quantity,
    }
}

/// The amount of the selected asset in the output: the sum of the quantities
/// of all entries that `pair` picks, zero where it picks none. A sum too large
/// for a `u64` is returned as `u64::MAX`.
pub fn get_asset_amount(output: &Output, pair: &AssetPair) -> (amount: u64)
    ensures
        amount == asset_amount(output@, selector_of(*pair)),
{
    let ghost entries = output@.assets;
    let ghost selector = selector_of(*pair);
    let mut amount: u64 = 0;
    let mut i: usize = 0;
    while i < output.assets.len()
        invariant
            i <= output.assets.len(),
            entries == output@.assets,
            selector == selector_of(*pair),
            amount == saturated(total_amount(entries.take(i as int), selector)),
        decreases output.assets.len() - i,
    {
        let asset = &output.assets[i];
        proof {
            assert(entries.take(i + 1).drop_last() == entries.take(i as int));
            assert(entries.take(i + 1).last() == asset@);
        }
        if picks(pair, asset) {
            amount = amount.saturating_add(quantity_of(asset));
        }
        i += 1;
    }
    assert(entries.take(i as int) == entries);
    amount
}

/// The sum over two lists laid end to end is the sum of their sums.
pub proof fn lemma_total_amount_concat(
    front: Seq<AssetView>,
    back: Seq<AssetView>,
    selector: Selector,
)
    ensures
        total_amount(front + back, selector) == total_amount(front, selector) + total_amount(
            back,
            selector,
        ),
    decreases back.len(),
{
    if back.len() == 0 {
        assert(front + back == front);
    } else {
        assert((front + back).drop_last() == front + back.drop_last());
        lemma_total_amount_concat(front, back.drop_last(), selector);
    }
}

/// Taking one entry out of a list lowers the sum by that entry's share.
pub proof fn lemma_total_amount_remove(assets: Seq<AssetView>, at: int, selector: Selector)
    requires
        0 <= at < assets.len(),
    ensures
        total_amount(assets, selector) == total_amount(assets.remove(at), selector) + share(
            selector,
            assets[at],
        ),
{
    let front = assets.take(at);
    let one = seq![assets[at]];
    let back = assets.skip(at + 1);
    assert(assets == front + one + back);
    assert(assets.remove(at) == front + back);
    lemma_total_amount_concat(front + one, back, selector);
    lemma_total_amount_concat(front, one, selector);
    lemma_total_amount_concat(front, back, selector);
    assert(total_amount(one, selector) == share(selector, assets[at])) by {
        assert(one.drop_last().len() == 0);
        reveal_with_fuel(total_amount, 2);
    }
}

/// The order of the entries does not matter: two lists that hold the same
/// entries, each as often as the other, have the same sum.
pub proof fn lemma_total_amount_any_order(
    first: Seq<AssetView>,
    second: Seq<AssetView>,
    selector: Selector,
)
    requires
        first.to_multiset() == second.to_multiset(),
    ensures
        total_amount(first, selector) == total_amount(second, selector),
    decreases first.len(),
{
    to_multiset_len(first);
    to_multiset_len(second);
    if first.len() != 0 {
        let entry = first.last();
        assert(first.contains(entry));
        to_multiset_contains(first, entry);
        to_multiset_contains(second, entry);
        let at = second.index_of(entry);
        assert(first.drop_last() == first.remove(first.len() - 1));
        to_multiset_remove(first, first.len() - 1);
        to_multiset_remove(second, at);
        lemma_total_amount_any_order(first.drop_last(), second.remove(at), selector);
        lemma_total_amount_remove(second, at, selector);
    }
}

/// Where the selector picks no entry, the sum is zero.
pub proof fn lemma_total_amount_none_selected(assets: Seq<AssetView>, selector: Selector)
    requires
        forall|i: int| 0 <= i < assets.len() ==> !selects(selector, #[trigger] assets[i]),
    ensures
        total_amount(assets, selector) == 0,
    decreases assets.len(),
{
    if assets.len() != 0 {
        lemma_total_amount_none_selected(assets.drop_last(), selector);
    }
}

/// The amount is a function of what the output holds and of what the
/// selector stands for: outputs with the same entries, asked for the same
/// asset, give the same amount.
pub proof fn lemma_asset_amount_repeatable(
    first: Output,
    first_pair: AssetPair,
    second: Output,
    second_pair: AssetPair,
)
    requires
        first@ == second@,
        selector_of(first_pair) == selector_of(second_pair),
    ensures
        asset_amount(first@, selector_of(first_pair)) == asset_amount(
            second@,
            selector_of(second_pair),
        ),
{
}

} // verus!
