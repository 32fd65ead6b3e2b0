use person_token::sizing::{metadata_tlv_len_checked, space_and_rent};
use person_token::ledger::min_balance;
use solana_program::rent::Rent;
use spl_pod::optional_keys::OptionalNonZeroPubkey;
use spl_token_2022::extension::ExtensionType;
use spl_token_2022::state::Mint;
use spl_token_metadata_interface::state::TokenMetadata;

fn spl_tlv_size(name: &str, symbol: &str, uri: &str) -> usize {
    let metadata = TokenMetadata {
        update_authority: OptionalNonZeroPubkey::default(),
        mint: solana_program::pubkey::Pubkey::default(),
        name: name.to_string(),
        symbol: symbol.to_string(),
        uri: uri.to_string(),
        additional_metadata: vec![
            ("issuer".to_string(), "metf".to_string()),
            ("version".to_string(), "1".to_string()),
        ],
    };
    metadata.tlv_size_of().unwrap()
}

#[test]
fn quote_matches_exact_figures() {
    let name = b"Alice".to_vec();
    let symbol = b"ALC".to_vec();
    let uri = b"https://x/1.json".to_vec();
    let q = space_and_rent(&name, &symbol, &uri).unwrap();
    assert_eq!(q.account_len, 302);
    assert_eq!(q.metadata_len, 126 + 5 + 3 + 16);
    assert_eq!(q.lamports, (128 + 452) * 3480 * 2);
}

#[test]
fn quote_matches_the_token_program() {
    // The account length, straight from the token program.
    let len = ExtensionType::try_calculate_account_len::<Mint>(&[
        ExtensionType::MetadataPointer,
        ExtensionType::TransferHook,
    ])
    .unwrap();
    assert_eq!(len, 302);

    // The metadata record's serialized size, straight from the interface.
    for (name, symbol, uri) in [
        ("Alice", "ALC", "https://x/1.json"),
        ("", "", ""),
        ("a-very-much-longer-token-name", "SYM", "ipfs://bafy/some/longer/path.json"),
    ] {
        let q = space_and_rent(&name.as_bytes().to_vec(), &symbol.as_bytes().to_vec(),
            &uri.as_bytes().to_vec())
            .unwrap();
        assert_eq!(q.metadata_len as usize, spl_tlv_size(name, symbol, uri));
        // And the rent figure, straight from the rent schedule.
        assert_eq!(
            q.lamports,
            Rent::default().minimum_balance(len + spl_tlv_size(name, symbol, uri))
        );
    }
}

#[test]
fn model_arithmetic_matches_the_bridge() {
    let name = b"Alice".to_vec();
    let symbol = b"ALC".to_vec();
    let uri = b"https://x/1.json".to_vec();
    let tlv = metadata_tlv_len_checked(&name, &symbol, &uri).unwrap();
    assert_eq!(tlv, 150);
    let q = space_and_rent(&name, &symbol, &uri).unwrap();
    assert_eq!(q.metadata_len, tlv);
    assert_eq!(min_balance(3480, 302 + tlv), Some(q.lamports));
}

#[test]
fn oversized_metadata_is_refused() {
    let name = b"Alice".to_vec();
    let symbol = b"ALC".to_vec();
    let uri = vec![b'a'; 10_485_760];
    assert!(space_and_rent(&name, &symbol, &uri).is_none());
}

#[test]
fn invalid_text_is_refused() {
    let name = vec![0xFFu8, 0xFE];
    let symbol = b"ALC".to_vec();
    let uri = b"https://x/1.json".to_vec();
    assert!(space_and_rent(&name, &symbol, &uri).is_none());
}

#[test]
fn rent_minimum_matches_the_schedule() {
    for len in [0usize, 105, 165, 302, 452, 10_485_760] {
        assert_eq!(
            min_balance(3480, len as u64),
            Some(Rent::default().minimum_balance(len))
        );
    }
}
