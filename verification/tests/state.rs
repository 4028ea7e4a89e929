use solana_program::pubkey::Pubkey;
use tokenitis::account::Account;
use tokenitis::address::Address;
use tokenitis::basket::{Basket, Leg, Token};
use tokenitis::errors::TokenitisError;
use tokenitis::state::{Tokenitis, Transform, TransformMetadata};
use tokenitis::tokenitis_instruction::create_transform::CreateTransformArgs;
use tokenitis::derivation::{find_fee_account, prove_authority};
use tokenitis::util::{calculate_fee, create_pda};

const PROGRAM: [u8; 32] = [
    226, 51, 240, 192, 240, 164, 198, 61, 227, 109, 10, 218, 74, 136, 54, 168, 50, 19, 134, 134,
    68, 178, 9, 96, 42, 149, 201, 37, 178, 203, 139, 39,
];

fn key(n: u8) -> Address {
    Address::new([n; 32])
}

fn pubkey(address: &Address) -> Pubkey {
    Pubkey::new_from_array(address.bytes)
}

fn transform() -> Transform {
    let mut inputs = Basket::new();
    inputs.insert(key(20), Token { account: key(21), amount: 7 });
    inputs.insert(key(10), Token { account: key(11), amount: 300 });
    let mut outputs = Basket::new();
    outputs.insert(key(30), Token { account: key(31), amount: u64::MAX });
    Transform {
        initialized: true,
        id: 258,
        metadata: TransformMetadata { name: "gold".to_string(), image: "é".to_string() },
        inputs,
        outputs,
        fee: Some(5),
        creator: key(1),
    }
}

#[test]
fn fee_on_given_values() {
    assert_eq!(calculate_fee(100, 5), 5);
    assert_eq!(calculate_fee(99, 5), 4);
    assert_eq!(calculate_fee(10, 5), 0);
    assert_eq!(calculate_fee(19, 5), 0);
    assert_eq!(calculate_fee(20, 5), 1);
    assert_eq!(calculate_fee(0, 50), 0);
    assert_eq!(calculate_fee(1, 100), 1);
    assert_eq!(calculate_fee(12345, 100), 12345);
    assert_eq!(calculate_fee(200, 150), 300);
}

#[test]
fn fee_at_zero_percent_is_nothing() {
    for amount in [0u64, 1, 99, 100, 1 << 40, u64::MAX] {
        assert_eq!(calculate_fee(amount, 0), 0);
    }
}

#[test]
fn fee_never_exceeds_the_amount() {
    for amount in [0u64, 1, 3, 99, 100, 101, 9_999_999_999, u64::MAX - 1, u64::MAX] {
        for percent in [0u64, 1, 5, 33, 50, 99, 100] {
            let fee = calculate_fee(amount, percent);
            assert!(fee <= amount);
            assert_eq!(fee as u128, amount as u128 * percent as u128 / 100);
        }
    }
}

#[test]
fn fee_is_exact_where_floating_point_is_not() {
    // 2^53 + 1 has no exact 64-bit floating-point form.
    assert_eq!(calculate_fee(9_007_199_254_740_993, 100), 9_007_199_254_740_993);
    assert_eq!(calculate_fee(u64::MAX, 100), u64::MAX);
    assert_eq!(calculate_fee(u64::MAX, 50), u64::MAX / 2);
    assert_eq!(calculate_fee(u64::MAX, 1), 184_467_440_737_095_516);
}

#[test]
fn fee_too_large_for_64_bits_is_capped() {
    assert_eq!(calculate_fee(u64::MAX, 101), u64::MAX);
    assert_eq!(calculate_fee(u64::MAX, 200), u64::MAX);
    assert_eq!(calculate_fee(u64::MAX, u64::MAX), u64::MAX);
    assert_eq!(calculate_fee(u64::MAX / 2, 200), u64::MAX - 1);
}

#[test]
fn seeds_are_the_texts() {
    assert_eq!(Tokenitis::tokenitis_seed(), b"tokenitis".to_vec());
    assert_eq!(Tokenitis::transform_seed(0), b"transform-0".to_vec());
    assert_eq!(Tokenitis::transform_seed(1), b"transform-1".to_vec());
    assert_eq!(Tokenitis::transform_seed(9), b"transform-9".to_vec());
    assert_eq!(Tokenitis::transform_seed(10), b"transform-10".to_vec());
    assert_eq!(Tokenitis::transform_seed(1234567890), b"transform-1234567890".to_vec());
    assert_eq!(Tokenitis::transform_seed(u64::MAX), b"transform-18446744073709551615".to_vec());
    for n in [0u64, 7, 42, 99, 100, 101, 65535, 1 << 33, u64::MAX - 1] {
        assert_eq!(Tokenitis::transform_seed(n), format!("transform-{}", n).into_bytes());
    }
}

#[test]
fn addresses_are_those_that_the_ledger_derives() {
    let program = Address::new(PROGRAM);
    let id = pubkey(&program);
    let (registry, nonce) = Pubkey::find_program_address(&[b"tokenitis"], &id);
    assert_eq!(
        Tokenitis::find_tokenitis_address(&program),
        Some((Address::new(registry.to_bytes()), nonce))
    );
    assert!(registry.to_bytes() != PROGRAM);
    for n in [0u64, 1, 2, 77, u64::MAX] {
        let seed = format!("transform-{}", n);
        let (address, nonce) = Pubkey::find_program_address(&[seed.as_bytes()], &id);
        assert_eq!(
            Tokenitis::find_transform_address(&program, n),
            Some((Address::new(address.to_bytes()), nonce))
        );
    }
    let other = key(200);
    assert!(
        Tokenitis::find_tokenitis_address(&other) != Tokenitis::find_tokenitis_address(&program)
    );
}

#[test]
fn derivation_is_repeatable() {
    let program = Address::new(PROGRAM);
    assert_eq!(
        Tokenitis::find_tokenitis_address(&program),
        Tokenitis::find_tokenitis_address(&program)
    );
    assert_eq!(
        Tokenitis::find_transform_address(&program, 5),
        Tokenitis::find_transform_address(&program, 5)
    );
    assert!(
        Tokenitis::find_transform_address(&program, 5)
            != Tokenitis::find_transform_address(&program, 6)
    );
}

#[test]
fn fee_account_is_the_associated_token_account() {
    let creator = key(1);
    for mint in [key(10), key(20), Address::new(PROGRAM)] {
        let expected = spl_associated_token_account::get_associated_token_address(
            &pubkey(&creator),
            &pubkey(&mint),
        );
        let found = find_fee_account(&creator, &mint).unwrap();
        assert_eq!(found.0, Address::new(expected.to_bytes()));
    }
    assert!(find_fee_account(&creator, &key(10)) != find_fee_account(&creator, &key(20)));
    assert!(find_fee_account(&creator, &key(10)) != find_fee_account(&key(2), &key(10)));
}

#[test]
fn fee_account_is_derived_for_the_associated_token_program() {
    let token_program: [u8; 32] = [
        6, 221, 246, 225, 215, 101, 161, 147, 217, 203, 225, 70, 206, 235, 121, 172, 28, 180,
        133, 237, 95, 91, 55, 145, 58, 140, 245, 133, 126, 255, 0, 169,
    ];
    let associated_program: [u8; 32] = [
        140, 151, 37, 143, 78, 36, 137, 241, 187, 61, 16, 41, 20, 142, 13, 131, 11, 90, 19, 153,
        218, 255, 16, 132, 4, 142, 123, 216, 219, 233, 248, 89,
    ];
    assert_eq!(spl_associated_token_account::id().to_bytes(), associated_program);
    let (creator, mint) = (key(1), key(10));
    let (address, nonce) = Pubkey::find_program_address(
        &[&creator.bytes, &token_program, &mint.bytes],
        &Pubkey::new_from_array(associated_program),
    );
    assert_eq!(find_fee_account(&creator, &mint), Some((Address::new(address.to_bytes()), nonce)));
}

#[test]
fn authority_is_proved_by_the_seed_and_the_byte_of_the_derivation() {
    let program = Address::new(PROGRAM);
    let (address, authorization) = prove_authority(&program, b"transform-3".to_vec()).unwrap();
    assert_eq!(Some((address, authorization.nonce)), Tokenitis::find_transform_address(&program, 3));
    assert_eq!(authorization.seed, b"transform-3".to_vec());
    // The ledger derives the same address from the seed and the byte.
    let again = Pubkey::create_program_address(
        &[authorization.seed.as_slice(), &[authorization.nonce]],
        &pubkey(&program),
    )
    .unwrap();
    assert_eq!(Address::new(again.to_bytes()), address);
    assert_eq!(prove_authority(&program, vec![0u8; 33]), None);
}

#[test]
fn create_pda_prepares_the_allocation() {
    let program = Address::new(PROGRAM);
    let creator = Account { key: key(1), data: vec![] };
    let registry = Tokenitis::find_tokenitis_address(&program).unwrap();
    let pda = Account { key: registry.0, data: vec![] };
    let allocation = create_pda(&program, 8, &creator, &pda, b"tokenitis").unwrap();
    assert_eq!(allocation.payer, key(1));
    assert_eq!(allocation.account, registry.0);
    assert_eq!(allocation.space, 8);
    assert_eq!(allocation.owner, program);
    assert_eq!(allocation.authorization.seed, b"tokenitis".to_vec());
    assert_eq!(allocation.authorization.nonce, registry.1);
    // A seed longer than the ledger accepts derives nothing.
    assert_eq!(
        create_pda(&program, 8, &creator, &pda, &[1u8; 33]),
        Err(TokenitisError::InvalidSeeds)
    );
}

#[test]
fn registry_is_stored_as_its_counter() {
    assert_eq!(Tokenitis { num_transforms: 0 }.serialize(), vec![0u8; 8]);
    assert_eq!(Tokenitis { num_transforms: 258 }.serialize(), vec![2, 1, 0, 0, 0, 0, 0, 0]);
    assert_eq!(Tokenitis { num_transforms: u64::MAX }.serialize(), vec![255u8; 8]);
    for n in [0u64, 1, 255, 256, 1 << 32, u64::MAX] {
        let registry = Tokenitis { num_transforms: n };
        assert_eq!(registry.serialize(), borsh::to_vec(&n).unwrap());
        assert_eq!(Tokenitis::deserialize(&registry.serialize()), Ok(registry));
    }
    assert_eq!(Tokenitis::deserialize(&[1, 0, 0, 0, 0, 0, 0]), Err(TokenitisError::BorshIoError));
    assert_eq!(Tokenitis::deserialize(&[]), Err(TokenitisError::BorshIoError));
    // What follows the counter is left alone.
    assert_eq!(
        Tokenitis::deserialize(&[3, 0, 0, 0, 0, 0, 0, 0, 9, 9]),
        Ok(Tokenitis { num_transforms: 3 })
    );
    assert_eq!(Tokenitis::load_count(&[]), Ok(0));
    assert_eq!(Tokenitis::load_count(&[3, 0, 0, 0, 0, 0, 0, 0]), Ok(3));
    assert_eq!(Tokenitis::load_count(&[3]), Err(TokenitisError::BorshIoError));
    assert_eq!(Tokenitis::load_next_id(&[]), Ok(1));
    assert_eq!(Tokenitis::load_next_id(&[3, 0, 0, 0, 0, 0, 0, 0]), Ok(4));
    assert_eq!(Tokenitis::load_next_id(&[255u8; 8]), Err(TokenitisError::ArithmeticOverflow));
}

#[test]
fn transform_is_stored_field_by_field() {
    let t = transform();
    let bytes = t.serialize().unwrap();
    let mut expected: Vec<u8> = Vec::new();
    expected.extend(borsh::to_vec(&true).unwrap());
    expected.extend(borsh::to_vec(&258u64).unwrap());
    expected.extend(borsh::to_vec(&"gold".to_string()).unwrap());
    expected.extend(borsh::to_vec(&"é".to_string()).unwrap());
    expected.extend(borsh::to_vec(&2u32).unwrap());
    expected.extend([10u8; 32]);
    expected.extend([11u8; 32]);
    expected.extend(borsh::to_vec(&300u64).unwrap());
    expected.extend([20u8; 32]);
    expected.extend([21u8; 32]);
    expected.extend(borsh::to_vec(&7u64).unwrap());
    expected.extend(borsh::to_vec(&1u32).unwrap());
    expected.extend([30u8; 32]);
    expected.extend([31u8; 32]);
    expected.extend(borsh::to_vec(&u64::MAX).unwrap());
    expected.extend(borsh::to_vec(&Some(5u64)).unwrap());
    expected.extend([1u8; 32]);
    assert_eq!(bytes, expected);
    assert_eq!(bytes.len(), 1 + 8 + 8 + 6 + 4 + 144 + 4 + 72 + 9 + 32);
}

#[test]
fn transform_that_was_stored_is_read_back() {
    let t = transform();
    let bytes = t.serialize().unwrap();
    assert_eq!(Transform::deserialize(&bytes), Ok(t.clone()));
    let mut longer = bytes.clone();
    longer.extend([1, 2, 3]);
    assert_eq!(Transform::deserialize(&longer), Ok(t.clone()));
    let mut plain = transform();
    plain.fee = None;
    plain.initialized = false;
    plain.inputs = Basket::new();
    plain.metadata.name = String::new();
    let bytes = plain.serialize().unwrap();
    assert_eq!(Transform::deserialize(&bytes), Ok(plain));
}

#[test]
fn transform_that_is_cut_short_or_malformed_is_refused() {
    let bytes = transform().serialize().unwrap();
    for cut in 0..bytes.len() {
        assert_eq!(Transform::deserialize(&bytes[..cut]), Err(TokenitisError::BorshIoError));
    }
    // A flag that is neither 0 nor 1.
    let mut bad = bytes.clone();
    bad[0] = 2;
    assert_eq!(Transform::deserialize(&bad), Err(TokenitisError::BorshIoError));
    // Text that is not UTF-8: the first byte of the name.
    let mut bad = bytes.clone();
    bad[13] = 0xff;
    assert_eq!(Transform::deserialize(&bad), Err(TokenitisError::BorshIoError));
    // A fee tag that is neither 0 nor 1.
    let mut bad = bytes.clone();
    let tag = bad.len() - 32 - 9;
    assert_eq!(bad[tag], 1);
    bad[tag] = 3;
    assert_eq!(Transform::deserialize(&bad), Err(TokenitisError::BorshIoError));
    // Basket entries out of order: the two input mints exchanged.
    let mut bad = bytes.clone();
    let first = 1 + 8 + 8 + 6 + 4;
    for i in 0..32 {
        bad.swap(first + i, first + 72 + i);
    }
    assert_eq!(Transform::deserialize(&bad), Err(TokenitisError::BorshIoError));
    // One token type twice.
    let mut bad = bytes.clone();
    for i in 0..32 {
        bad[first + 72 + i] = bad[first + i];
    }
    assert_eq!(Transform::deserialize(&bad), Err(TokenitisError::BorshIoError));
}

#[test]
fn transform_len_is_the_length_of_the_stored_form() {
    let t = transform();
    let args = CreateTransformArgs {
        metadata: t.metadata.clone(),
        inputs: t.inputs.clone(),
        outputs: t.outputs.clone(),
        fee: t.fee,
    };
    assert_eq!(Transform::transform_len(args.clone()), Ok(t.serialize().unwrap().len()));
    assert_eq!(Transform::transform_len(args.clone()), Ok(288));
    let empty = CreateTransformArgs {
        metadata: TransformMetadata { name: String::new(), image: String::new() },
        inputs: Basket::new(),
        outputs: Basket::new(),
        fee: None,
    };
    assert_eq!(Transform::transform_len(empty), Ok(58));
}

#[test]
fn basket_keeps_its_entries_in_ascending_order() {
    let mut basket = Basket::new();
    assert_eq!(basket.len(), 0);
    assert_eq!(basket.insert(key(30), Token { account: key(31), amount: 3 }), None);
    assert_eq!(basket.insert(key(10), Token { account: key(11), amount: 1 }), None);
    assert_eq!(basket.insert(key(20), Token { account: key(21), amount: 2 }), None);
    assert_eq!(basket.len(), 3);
    assert_eq!(basket.leg(0), Leg { mint: key(10), token: Token { account: key(11), amount: 1 } });
    assert_eq!(basket.leg(1), Leg { mint: key(20), token: Token { account: key(21), amount: 2 } });
    assert_eq!(basket.leg(2), Leg { mint: key(30), token: Token { account: key(31), amount: 3 } });
    assert_eq!(basket.legs().len(), 3);
    assert_eq!(basket.get(&key(20)), Some(Token { account: key(21), amount: 2 }));
    assert_eq!(basket.get(&key(25)), None);
    // Setting a token type again replaces its entry.
    assert_eq!(
        basket.insert(key(20), Token { account: key(22), amount: 9 }),
        Some(Token { account: key(21), amount: 2 })
    );
    assert_eq!(basket.len(), 3);
    assert_eq!(basket.get(&key(20)), Some(Token { account: key(22), amount: 9 }));
    assert_eq!(basket.clone(), basket);
}

#[test]
fn addresses_are_ordered_byte_by_byte() {
    let mut low = [0u8; 32];
    let mut high = [0u8; 32];
    low[31] = 255;
    high[0] = 1;
    let (low, high) = (Address::new(low), Address::new(high));
    assert!(low.precedes(&high));
    assert!(!high.precedes(&low));
    assert!(!low.precedes(&low));
    assert!(low.same(&low));
    assert!(!low.same(&high));
    assert!(low == low);
    assert!(low != high);
    assert_eq!(low.to_vec().len(), 32);
    assert_eq!(high.to_vec()[0], 1);
    // The order is the one of the ledger's own address type.
    for (a, b) in [(key(1), key(2)), (low, high), (key(200), key(100)), (key(7), key(7))] {
        assert_eq!(a.precedes(&b), pubkey(&a) < pubkey(&b));
    }
    let mut basket = Basket::new();
    basket.insert(high, Token { account: key(1), amount: 1 });
    basket.insert(low, Token { account: key(2), amount: 1 });
    assert_eq!(basket.leg(0).mint, low);
    assert_eq!(basket.leg(1).mint, high);
}
