use arbitrage::errors::Error;
use arbitrage::layout::vault_discriminator;
use arbitrage::state::{CreateVaultArgs, Vault, VAULT_SPACE};

fn sample() -> Vault {
    Vault {
        bump: 254,
        name: [b'n'; 32],
        pubkey: [1u8; 32],
        manager: [2u8; 32],
        token_account: [3u8; 32],
        total_shares: 0x0102_0304_0506_0708_090a_0b0c_0d0e_0f10,
        fee: -2,
        ts: 1_700_000_000,
        total_deposits: 5,
        total_withdraws: u64::MAX,
        min_deposit_amount: 256,
    }
}

#[test]
fn discriminator_is_hash_of_account_name() {
    assert_eq!(vault_discriminator(), vec![211, 8, 232, 43, 2, 152, 117, 119]);
}

#[test]
fn record_bytes_follow_field_order() {
    let b = sample().to_bytes();
    assert_eq!(b.len(), 193);
    assert_eq!(&b[0..8], &[211, 8, 232, 43, 2, 152, 117, 119]);
    assert_eq!(b[8], 254);
    assert_eq!(&b[9..41], &[b'n'; 32]);
    assert_eq!(&b[41..73], &[1u8; 32]);
    assert_eq!(&b[73..105], &[2u8; 32]);
    assert_eq!(&b[105..137], &[3u8; 32]);
    assert_eq!(&b[137..153], &[16, 15, 14, 13, 12, 11, 10, 9, 8, 7, 6, 5, 4, 3, 2, 1]);
    assert_eq!(&b[153..161], &[254, 255, 255, 255, 255, 255, 255, 255]);
    assert_eq!(&b[161..169], &1_700_000_000i64.to_le_bytes());
    assert_eq!(&b[169..177], &[5, 0, 0, 0, 0, 0, 0, 0]);
    assert_eq!(&b[177..185], &[255u8; 8]);
    assert_eq!(&b[185..193], &[0, 1, 0, 0, 0, 0, 0, 0]);
}

#[test]
fn record_size_does_not_depend_on_contents() {
    let zero = Vault::new(&CreateVaultArgs { name: [0u8; 32], profit_share: 0, fee: 0 }, 0, &[0u8; 32], &[0u8; 32], &[0u8; 32], 0);
    assert_eq!(zero.to_bytes().len(), VAULT_SPACE);
    assert_eq!(sample().to_bytes().len(), VAULT_SPACE);
}

#[test]
fn record_round_trips() {
    let v = sample();
    let back = Vault::try_from_bytes(&v.to_bytes()).unwrap();
    assert_eq!(back.to_bytes(), v.to_bytes());
    assert_eq!(back.fee, -2);
    assert_eq!(back.total_shares, v.total_shares);
    assert_eq!(back.total_withdraws, u64::MAX);
    assert_eq!(back.name, v.name);
    assert_eq!(back.ts, 1_700_000_000);
}

#[test]
fn record_with_trailing_bytes_reads() {
    let mut b = sample().to_bytes();
    b.extend_from_slice(&[9u8; 7]);
    let back = Vault::try_from_bytes(&b).unwrap();
    assert_eq!(back.min_deposit_amount, 256);
}

#[test]
fn short_data_is_not_a_record() {
    let b = sample().to_bytes();
    assert_eq!(Vault::try_from_bytes(&b[..192]).unwrap_err(), Error::InvalidAccount);
    assert_eq!(Vault::try_from_bytes(&[]).unwrap_err(), Error::InvalidAccount);
}

#[test]
fn wrong_tag_is_not_a_record() {
    let mut b = sample().to_bytes();
    b[7] ^= 1;
    assert_eq!(Vault::try_from_bytes(&b).unwrap_err(), Error::InvalidAccount);
}
