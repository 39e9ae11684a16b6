use multiera::{
    get_shelley_payment_hash, Address, AddressError, DelegationPart, PaymentPart, ShelleyAddress,
    StakePart,
};
use pallas::ledger::addresses;

fn counting_hash(start: u8) -> [u8; 28] {
    let mut hash = [0u8; 28];
    for (i, byte) in hash.iter_mut().enumerate() {
        *byte = start.wrapping_add(i as u8);
    }
    hash
}

fn hash_of(hash: &pallas::crypto::hash::Hash<28>) -> [u8; 28] {
    let mut bytes = [0u8; 28];
    bytes.copy_from_slice(hash.as_ref());
    bytes
}

fn model_of(address: addresses::Address) -> Address {
    match address {
        addresses::Address::Byron(byron) => Address::Byron(byron.to_vec()),
        addresses::Address::Shelley(shelley) => Address::Shelley(ShelleyAddress {
            payment: match shelley.payment() {
                addresses::ShelleyPaymentPart::Key(hash) => PaymentPart::Key(hash_of(hash)),
                addresses::ShelleyPaymentPart::Script(hash) => PaymentPart::Script(hash_of(hash)),
            },
            delegation: match shelley.delegation() {
                addresses::ShelleyDelegationPart::Key(hash) => DelegationPart::Key(hash_of(hash)),
                addresses::ShelleyDelegationPart::Script(hash) => {
                    DelegationPart::Script(hash_of(hash))
                }
                addresses::ShelleyDelegationPart::Pointer(pointer) => {
                    DelegationPart::Pointer(pointer.slot(), pointer.tx_idx(), pointer.cert_idx())
                }
                addresses::ShelleyDelegationPart::Null => DelegationPart::Null,
            },
        }),
        addresses::Address::Stake(stake) => Address::Stake(match stake.payload() {
            addresses::StakePayload::Stake(hash) => StakePart::Key(hash_of(hash)),
            addresses::StakePayload::Script(hash) => StakePart::Script(hash_of(hash)),
        }),
    }
}

#[test]
fn failed_decoding_has_no_credential() {
    assert_eq!(get_shelley_payment_hash(Err(AddressError)), None);
}

#[test]
fn byron_address_has_no_credential() {
    assert_eq!(get_shelley_payment_hash(Ok(Address::Byron(vec![0x82, 0xd8, 0x18]))), None);
    assert_eq!(get_shelley_payment_hash(Ok(Address::Byron(Vec::new()))), None);
}

#[test]
fn stake_address_has_no_credential() {
    assert_eq!(
        get_shelley_payment_hash(Ok(Address::Stake(StakePart::Key(counting_hash(0))))),
        None
    );
    assert_eq!(
        get_shelley_payment_hash(Ok(Address::Stake(StakePart::Script(counting_hash(7))))),
        None
    );
}

#[test]
fn shelley_key_credential_is_hex_of_payment_hash() {
    let address = Address::Shelley(ShelleyAddress {
        payment: PaymentPart::Key(counting_hash(0)),
        delegation: DelegationPart::Null,
    });
    assert_eq!(
        get_shelley_payment_hash(Ok(address)),
        Some(String::from("000102030405060708090a0b0c0d0e0f101112131415161718191a1b"))
    );
}

#[test]
fn shelley_script_credential_is_hex_of_payment_hash() {
    let address = Address::Shelley(ShelleyAddress {
        payment: PaymentPart::Script(counting_hash(0xf0)),
        delegation: DelegationPart::Key(counting_hash(1)),
    });
    assert_eq!(
        get_shelley_payment_hash(Ok(address)),
        Some(String::from("f0f1f2f3f4f5f6f7f8f9fafbfcfdfeff000102030405060708090a0b"))
    );
}

#[test]
fn credential_is_lower_case_and_two_digits_per_byte() {
    let address = Address::Shelley(ShelleyAddress {
        payment: PaymentPart::Key([0xAB; 28]),
        delegation: DelegationPart::Null,
    });
    let credential = get_shelley_payment_hash(Ok(address)).unwrap();
    assert_eq!(credential.len(), 56);
    assert_eq!(credential, "ab".repeat(28));
    let zero = Address::Shelley(ShelleyAddress {
        payment: PaymentPart::Key([0x0f; 28]),
        delegation: DelegationPart::Null,
    });
    assert_eq!(get_shelley_payment_hash(Ok(zero)).unwrap(), "0f".repeat(28));
}

#[test]
fn credential_does_not_depend_on_delegation_part() {
    let payment = PaymentPart::Key(counting_hash(40));
    let delegations = [
        DelegationPart::Null,
        DelegationPart::Key(counting_hash(1)),
        DelegationPart::Script(counting_hash(2)),
        DelegationPart::Pointer(2498243, 27, 3),
    ];
    let expected = get_shelley_payment_hash(Ok(Address::Shelley(ShelleyAddress {
        payment,
        delegation: DelegationPart::Null,
    })));
    assert!(expected.is_some());
    for delegation in delegations {
        let address = Address::Shelley(ShelleyAddress { payment, delegation });
        assert_eq!(get_shelley_payment_hash(Ok(address)), expected);
    }
}

#[test]
fn key_and_script_with_same_hash_have_same_credential() {
    let key = Address::Shelley(ShelleyAddress {
        payment: PaymentPart::Key(counting_hash(9)),
        delegation: DelegationPart::Null,
    });
    let script = Address::Shelley(ShelleyAddress {
        payment: PaymentPart::Script(counting_hash(9)),
        delegation: DelegationPart::Null,
    });
    assert_eq!(get_shelley_payment_hash(Ok(key)), get_shelley_payment_hash(Ok(script)));
}

#[test]
fn different_hashes_have_different_credentials() {
    let first = Address::Shelley(ShelleyAddress {
        payment: PaymentPart::Key(counting_hash(9)),
        delegation: DelegationPart::Null,
    });
    let second = Address::Shelley(ShelleyAddress {
        payment: PaymentPart::Key(counting_hash(10)),
        delegation: DelegationPart::Null,
    });
    assert_ne!(get_shelley_payment_hash(Ok(first)), get_shelley_payment_hash(Ok(second)));
}

#[test]
fn credential_is_the_same_on_every_call() {
    let address = Address::Shelley(ShelleyAddress {
        payment: PaymentPart::Script(counting_hash(3)),
        delegation: DelegationPart::Script(counting_hash(4)),
    });
    let first = get_shelley_payment_hash(Ok(address.clone()));
    let second = get_shelley_payment_hash(Ok(address.clone()));
    assert_eq!(first, second);
    assert_eq!(get_shelley_payment_hash(Err(AddressError)), get_shelley_payment_hash(Err(AddressError)));
}

#[test]
fn decoded_base_address_gives_payment_key_hash() {
    let decoded = addresses::Address::from_bech32(
        "addr1qx2fxv2umyhttkxyxp8x0dlpdt3k6cwng5pxj3jhsydzer3n0d3vllmyqwsx5wktcd8cc3sq835lu7drv2xwl2wywfgse35a3x",
    )
    .unwrap();
    let expected = match &decoded {
        addresses::Address::Shelley(shelley) => hex::encode(shelley.payment().as_hash()),
        _ => unreachable!(),
    };
    let credential = get_shelley_payment_hash(Ok(model_of(decoded)));
    assert_eq!(credential, Some(expected));
    assert_eq!(
        credential,
        Some(String::from("9493315cd92eb5d8c4304e67b7e16ae36d61d34502694657811a2c8e"))
    );
}

#[test]
fn decoded_script_address_gives_script_hash() {
    let decoded = addresses::Address::from_bech32(
        "addr1w8phkx6acpnf78fuvxn0mkew3l0fd058hzquvz7w36x4gtcyjy7wx",
    )
    .unwrap();
    assert_eq!(
        get_shelley_payment_hash(Ok(model_of(decoded))),
        Some(String::from("c37b1b5dc0669f1d3c61a6fddb2e8fde96be87b881c60bce8e8d542f"))
    );
}

#[test]
fn decoded_pointer_address_gives_payment_key_hash() {
    let decoded = addresses::Address::from_bech32(
        "addr1gx2fxv2umyhttkxyxp8x0dlpdt3k6cwng5pxj3jhsydzer5pnz75xxcrzqf96k",
    )
    .unwrap();
    assert_eq!(
        get_shelley_payment_hash(Ok(model_of(decoded))),
        Some(String::from("9493315cd92eb5d8c4304e67b7e16ae36d61d34502694657811a2c8e"))
    );
}

#[test]
fn decoded_stake_address_has_no_credential() {
    let decoded = addresses::Address::from_bech32(
        "stake1uyehkck0lajq8gr28t9uxnuvgcqrc6070x3k9r8048z8y5gh6ffgw",
    )
    .unwrap();
    assert_eq!(get_shelley_payment_hash(Ok(model_of(decoded))), None);
}

#[test]
fn decoded_byron_address_has_no_credential() {
    let decoded = addresses::Address::Byron(
        addresses::ByronAddress::from_base58(
            "37btjrVyb4KDXBNC4haBVPCrro8AQPHwvCMp3RFhhSVWwfFmZ6wwzSK6JK1hY6wHNmtrpTf1kdbva8TCneM2YsiXT7mrzT21EacHnPpz5YyUdj64na",
        )
        .unwrap(),
    );
    assert_eq!(get_shelley_payment_hash(Ok(model_of(decoded))), None);
}

#[test]
fn undecodable_bytes_have_no_credential() {
    let attempts = [
        addresses::Address::from_bytes(&[]),
        addresses::Address::from_bech32("not an address"),
        addresses::Address::from_hex("zz"),
    ];
    for decoded in attempts {
        assert!(decoded.is_err());
        let result = match decoded {
            Ok(address) => Ok(model_of(address)),
            Err(_) => Err(AddressError),
        };
        assert_eq!(get_shelley_payment_hash(result), None);
    }
}
