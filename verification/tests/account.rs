use amm_contract::{initialize, AmmAccount, AmmError, MintKey};

fn key(tag: u8) -> MintKey {
    MintKey::new([tag; 32])
}

#[test]
fn initialize_binds_the_mints_and_starts_empty() {
    let amm = initialize(key(1), key(2), 254);
    assert_eq!(
        amm,
        AmmAccount { token_a: key(1), token_b: key(2), reserve_a: 0, reserve_b: 0, bump: 254 }
    );
}

#[test]
fn mint_keys_compare_by_all_their_bytes() {
    let mut bytes = [0u8; 32];
    let zero = MintKey::new(bytes);
    assert_eq!(zero, MintKey::new([0u8; 32]));
    for i in 0..32 {
        bytes[i] = 1;
        assert_ne!(MintKey::new(bytes), zero, "byte {} differs", i);
        bytes[i] = 0;
    }
    assert_eq!(MintKey::new(bytes), zero);
}

#[test]
fn mint_key_keeps_its_bytes() {
    let mut bytes = [0u8; 32];
    for i in 0..32 {
        bytes[i] = i as u8;
    }
    assert_eq!(MintKey::new(bytes).bytes, bytes);
}

#[test]
fn error_kinds_are_distinct() {
    let kinds = [
        AmmError::SlippageExceeded,
        AmmError::InvalidAmount,
        AmmError::Overflow,
        AmmError::InvalidRatio,
        AmmError::InvalidToken,
    ];
    for i in 0..kinds.len() {
        for j in 0..kinds.len() {
            assert_eq!(kinds[i] == kinds[j], i == j);
        }
    }
}
