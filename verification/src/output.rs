//! The era-independent shape of a transaction output: its assets and its
//! datum.

use pallas::ledger::primitives::alonzo::PlutusData;
use vstd::prelude::*;

verus! {

/// The decoded datum value of the ledger. The library carries such a value
/// through and never looks inside it.
#[verifier::external_type_specification]
#[verifier::external_body]
pub struct ExPlutusData(PlutusData);

/// Specifies `PlutusData::clone`, which the type derives. Trusted: the clone
/// equals the value it was made from.
pub assume_specification[ <PlutusData as Clone>::clone ](value: &PlutusData) -> (copy: PlutusData)
    ensures
        copy == *value,
;

/// One entry of an output's value.
#[derive(Debug, PartialEq, Eq)]
pub enum Asset {
    /// An amount of the chain's own currency.
    Base(u64),
    /// An amount of a minted token: policy id, asset name, quantity.
    Native(Vec<u8>, Vec<u8>, u64),
}

/// An `Asset` as a mathematical value.
pub enum AssetView {
    Base(u64),
    Native(Seq<u8>, Seq<u8>, u64),
}

impl View for Asset {
    type V = AssetView;

    open spec fn view(&self) -> AssetView {
        match *self {
            Asset::Base(quantity) => AssetView::Base(quantity),
            Asset::Native(policy_id, asset_name, quantity) => AssetView::Native(
                policy_id@,
                asset_name@,
                quantity,
            ),
        }
    }
}

impl Clone for Asset {
    fn clone(&self) -> (copy: Self)
        ensures
            copy@ == self@,
    {
        match self {
            Asset::Base(quantity) => Asset::Base(*quantity),
            Asset::Native(policy_id, asset_name, quantity) => Asset::Native(
                policy_id.clone(),
                asset_name.clone(),
                *quantity,
            ),
        }
    }
}

impl AssetView {
    /// The amount that the entry holds.
    pub open spec fn quantity(self) -> nat {
        match self {
            AssetView::Base(quantity) => quantity as nat,
            AssetView::Native(_, _, quantity) => quantity as nat,
        }
    }
}

/// What an output says of its datum.
#[derive(Debug, PartialEq, Eq)]
pub enum Datum {
    /// The decoded value itself.
    Inline(PlutusData),
    /// The content hash of the encoding that the value was decoded from.
    HashRef([u8; 32]),
}

/// A `Datum` as a mathematical value.
pub enum DatumView {
    Inline(PlutusData),
    HashRef(Seq<u8>),
}

impl View for Datum {
    type V = DatumView;

    open spec fn view(&self) -> DatumView {
        match *self {
            Datum::Inline(value) => DatumView::Inline(value),
            Datum::HashRef(hash) => DatumView::HashRef(hash@),
        }
    }
}

impl Clone for Datum {
    fn clone(&self) -> (copy: Self)
        ensures
            copy@ == self@,
    {
        match self {
            Datum::Inline(value) => Datum::Inline(value.clone()),
            Datum::HashRef(hash) => Datum::HashRef(*hash),
        }
    }
}

/// A transaction output, whatever the era that produced it.
#[derive(Debug, PartialEq, Eq)]
pub struct Output {
    /// The entries of its value, in the order of the output.
    pub assets: Vec<Asset>,
    /// Its datum, if it has one.
    pub datum: Option<Datum>,
}

/// An `Output` as a mathematical value.
pub struct OutputView {
    pub assets: Seq<AssetView>,
    pub datum: Option<DatumView>,
}

/// The entries of a list of assets as mathematical values, in order.
pub open spec fn assets_view(assets: Seq<Asset>) -> Seq<AssetView> {
    Seq::new(assets.len(), |i: int| assets[i]@)
}

impl View for Output {
    type V = OutputView;

    open spec fn view(&self) -> OutputView {
        OutputView {
            assets: assets_view(self.assets@),
            datum: match self.datum {
                Some(datum) => Some(datum@),
                None => None,
            },
        }
    }
}

impl Clone for Output {
    fn clone(&self) -> (copy: Self)
        ensures
            copy@ == self@,
    {
        let mut assets: Vec<Asset> = Vec::with_capacity(self.assets.len());
        let mut i: usize = 0;
        while i < self.assets.len()
            invariant
                i <= self.assets.len(),
                assets.len() == i,
                forall|k: int| 0 <= k < i ==> assets@[k]@ == self.assets@[k]@,
            decreases self.assets.len() - i,
        {
            assets.push(self.assets[i].clone());
            i += 1;
        }
        let datum = match &self.datum {
            Some(datum) => Some(datum.clone()),
            None => None,
        };
        assert(assets_view(assets@) =~= assets_view(self.assets@));
        Output { assets, datum }
    }
}

} // verus!
