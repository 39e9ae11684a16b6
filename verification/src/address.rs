//! Decoded addresses and the payment credential of an address.

use crate::encoding::{hex_encode, hex_lower, lemma_hex_lower_injective};
use vstd::prelude::*;

verus! {

/// The payment part of a Shelley address: the hash of a key or of a script.
#[derive(Debug, Clone, Copy, PartialEq, Eq)]
pub enum PaymentPart {
    Key([u8; 28]),
    Script([u8; 28]),
}

impl PaymentPart {
    /// The hash that the part holds, whichever kind it is.
    pub open spec fn hash(self) -> [u8; 28] {
        match self {
            PaymentPart::Key(hash) => hash,
            PaymentPart::Script(hash) => hash,
        }
    }

    /// The hash that the part holds, whichever kind it is.
    pub fn as_hash(&self) -> (hash: &[u8; 28])
        ensures
            *hash == self.hash(),
    {
        match self {
            PaymentPart::Key(hash) => hash,
            PaymentPart::Script(hash) => hash,
        }
    }
}

/// The delegation part of a Shelley address.
#[derive(Debug, Clone, Copy, PartialEq, Eq)]
pub enum DelegationPart {
    Key([u8; 28]),
    Script([u8; 28]),
    /// A pointer to a stake registration: slot, transaction index and
    /// certificate index.
    Pointer(u64, u64, u64),
    Null,
}

/// An address with a payment part and a delegation part of its own.
#[derive(Debug, Clone, Copy, PartialEq, Eq)]
pub struct ShelleyAddress {
    pub payment: PaymentPart,
    pub delegation: DelegationPart,
}

/// What a stake address holds: the hash of a key or of a script.
#[derive(Debug, Clone, Copy, PartialEq, Eq)]
pub enum StakePart {
    Key([u8; 28]),
    Script([u8; 28]),
}

/// A decoded address of any era.
#[derive(Debug, PartialEq, Eq)]
pub enum Address {
    /// A Byron address, by its bytes.
    Byron(Vec<u8>),
    Shelley(ShelleyAddress),
    Stake(StakePart),
}

/// An `Address` as a mathematical value.
pub enum AddressView {
    Byron(Seq<u8>),
    Shelley(ShelleyAddress),
    Stake(StakePart),
}

impl View for Address {
    type V = AddressView;

    open spec fn view(&self) -> AddressView {
        match *self {
            Address::Byron(bytes) => AddressView::Byron(bytes@),
            Address::Shelley(shelley) => AddressView::Shelley(shelley),
            Address::Stake(stake) => AddressView::Stake(stake),
        }
    }
}

impl Clone for Address {
    fn clone(&self) -> (copy: Self)
        ensures
            copy@ == self@,
    {
        match self {
            Address::Byron(bytes) => Address::Byron(bytes.clone()),
            Address::Shelley(shelley) => Address::Shelley(*shelley),
            Address::Stake(stake) => Address::Stake(*stake),
        }
    }
}

/// The bytes of an address could not be decoded.
#[derive(Debug, Clone, Copy, PartialEq, Eq)]
pub struct AddressError;

/// What decoding an address gave, as a mathematical value.
pub open spec fn decoded(address: Result<Address, AddressError>) -> Option<AddressView> {
    match address {
        Ok(address) => Some(address@),
        Err(_) => None,
    }
}

/// The payment credential of a decoded address: the hexadecimal text of the
/// hash in the payment part of a Shelley address. No other address has one,
/// nor has an address that could not be decoded.
pub open spec fn payment_credential(address: Option<AddressView>) -> Option<Seq<char>> {
    match address {
        Some(AddressView::Shelley(shelley)) => Some(hex_lower(shelley.payment.hash()@)),
        _ => None,
    }
}

/// The characters of a text, if there is one.
pub open spec fn text_of(text: Option<String>) -> Option<Seq<char>> {
    match text {
        Some(text) => Some(text@),
        None => None,
    }
}

/// The payment credential of an address, as lower-case hexadecimal text.
///
/// Only a Shelley address that was decoded has one: the hash of its payment
/// part, whether that is the hash of a key or of a script. For a Byron
/// address, a stake address and a failed decoding the result is `None`,
/// which is no error.
pub fn get_shelley_payment_hash(address: Result<Address, AddressError>) -> (credential: Option<
    String,
>)
    ensures
        text_of(credential) == payment_credential(decoded(address)),
        credential is Some <==> address matches Ok(Address::Shelley(_)),
{
    match address {
        Ok(Address::Shelley(shelley)) => Some(hex_encode(shelley.payment.as_hash().as_slice())),
        _ => None,
    }
}

/// An address has a payment credential exactly when it was decoded and is a
/// Shelley address: a failed decoding, a Byron address and a stake address
/// have none.
pub proof fn lemma_credential_only_of_shelley(address: Result<Address, AddressError>)
    ensures
        payment_credential(decoded(address)) is Some <==> address matches Ok(Address::Shelley(_)),
{
}

/// The credential of a Shelley address is the text of the hash in its
/// payment part and of nothing else: two addresses whose payment parts hold
/// the same hash have the same credential, whatever their delegation parts.
pub proof fn lemma_credential_ignores_delegation(first: ShelleyAddress, second: ShelleyAddress)
    requires
        first.payment.hash() == second.payment.hash(),
    ensures
        payment_credential(Some(AddressView::Shelley(first))) == payment_credential(
            Some(AddressView::Shelley(second)),
        ),
        payment_credential(Some(AddressView::Shelley(first))) == Some(
            hex_lower(first.payment.hash()@),
        ),
{
}

/// The credential tells the hash: Shelley addresses with the same credential
/// hold the same hash in their payment parts.
pub proof fn lemma_credential_tells_hash(first: ShelleyAddress, second: ShelleyAddress)
    requires
        payment_credential(Some(AddressView::Shelley(first))) == payment_credential(
            Some(AddressView::Shelley(second)),
        ),
    ensures
        first.payment.hash() == second.payment.hash(),
{
    lemma_hex_lower_injective(first.payment.hash()@, second.payment.hash()@);
    assert(first.payment.hash()@ =~= second.payment.hash()@);
}

/// The credential is a function of what decoding gave: equal addresses have
/// equal credentials.
pub proof fn lemma_credential_repeatable(
    first: Result<Address, AddressError>,
    second: Result<Address, AddressError>,
)
    requires
        decoded(first) == decoded(second),
    ensures
        payment_credential(decoded(first)) == payment_credential(decoded(second)),
{
}

} // verus!
