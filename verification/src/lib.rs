//! Normalisation of multi-era ledger outputs.
//!
//! Four transforms, none of which calls another:
//! [`get_shelley_payment_hash`] gives the payment credential of a decoded
//! address, [`get_asset_amount`] the amount of one asset in an output,
//! [`get_plutus_datum_for_output`] the datum that an output carries or refers
//! to, and [`asset_from_pair`] the registry records that a batch of asset keys
//! selects. Each result is a function of the arguments alone.

pub mod address;
pub mod amount;
pub mod bytes;
pub mod datum;
pub mod encoding;
pub mod output;
pub mod registry;

pub use address::{
    get_shelley_payment_hash, Address, AddressError, DelegationPart, PaymentPart, ShelleyAddress,
    StakePart,
};
pub use amount::{get_asset_amount, AssetPair};
pub use datum::{get_plutus_datum_for_output, DatumCandidate};
pub use output::{Asset, Datum, Output};
pub use registry::{asset_from_pair, asset_query, AssetQuery, RegistryRecord};
