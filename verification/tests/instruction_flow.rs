use person_token::addr::Addr;
use person_token::account::{Account, AccountData};
use person_token::instruction::{
    clear_mint_authority, create_mint_account, create_vault, init_metadata_pointer,
    init_transfer_hook, init_person_token, initialize_mint2, mint_to, write_token_metadata,
    InitPersonToken, InitPersonTokenParams, TokenError, TOKEN_LIMIT_AMOUNT, SUPPLY_SCALING,
};
use person_token::ledger::Ledger;

const RATE: u64 = 3480;

fn genesis(signer: u64, lamports: u64) -> Ledger {
    let mut l = Ledger { entries: Vec::new(), lamports_per_byte_year: RATE };
    l.set_account(Addr::Key(signer), Account { lamports, data: AccountData::System });
    l
}

fn alice_params() -> InitPersonTokenParams {
    InitPersonTokenParams {
        name: b"Alice".to_vec(),
        symbol: b"ALC".to_vec(),
        uri: b"https://x/1.json".to_vec(),
    }
}

#[test]
fn successful_initialization() {
    let ledger = genesis(1, 10_000_000);
    let accounts = InitPersonToken { signer: 1, mint: 2, person_bump: 254 };
    let next = init_person_token(&ledger, &accounts, &alice_params()).unwrap();

    // Person record: all four fields, written once.
    let person = next.get_account(Addr::PersonPda(1)).unwrap();
    match &person.data {
        AccountData::Person(p) => {
            assert_eq!(p.signer, Addr::Key(1));
            assert_eq!(p.mint, Addr::Key(2));
            assert_eq!(p.authority, Addr::PersonPda(1));
            assert_eq!(p.bump, 254);
        },
        other => panic!("person record has wrong data: {:?}", other),
    }
    assert_eq!(person.lamports, (128 + 105) * RATE * 2);

    // Mint: sealed, fixed supply, extensions configured, metadata attached.
    let mint = next.get_account(Addr::Key(2)).unwrap();
    match &mint.data {
        AccountData::Mint(md) => {
            assert!(md.is_initialized);
            assert_eq!(md.decimals, 6);
            assert_eq!(md.supply, TOKEN_LIMIT_AMOUNT * SUPPLY_SCALING);
            assert_eq!(md.mint_authority, None);
            assert_eq!(md.freeze_authority, None);
            assert_eq!(md.transfer_hook_authority, Some(Addr::PersonPda(1)));
            assert_eq!(md.transfer_hook_program, None);
            assert_eq!(md.metadata_pointer_authority, Some(Addr::Key(2)));
            assert_eq!(md.metadata_pointer, Some(Addr::Key(2)));
            assert_eq!(md.len, 302 + 126 + 5 + 3 + 16);
            let record = md.metadata.as_ref().unwrap();
            assert_eq!(record.update_authority, Some(Addr::Key(1)));
            assert_eq!(record.mint, Addr::Key(2));
            assert_eq!(record.name, b"Alice".to_vec());
            assert_eq!(record.symbol, b"ALC".to_vec());
            assert_eq!(record.uri, b"https://x/1.json".to_vec());
            assert_eq!(record.additional.len(), 2);
            assert_eq!(record.additional[0].key, b"issuer".to_vec());
            assert_eq!(record.additional[0].value, b"metf".to_vec());
            assert_eq!(record.additional[1].key, b"version".to_vec());
            assert_eq!(record.additional[1].value, b"1".to_vec());
        },
        other => panic!("mint has wrong data: {:?}", other),
    }
    assert_eq!(mint.lamports, (128 + 452) * RATE * 2);

    // Vault: owned by the person record, holding the whole supply.
    let vault = next.get_account(Addr::VaultAta(1, 2)).unwrap();
    match &vault.data {
        AccountData::Token(t) => {
            assert_eq!(t.owner, Addr::PersonPda(1));
            assert_eq!(t.mint, Addr::Key(2));
            assert_eq!(t.amount, 1_000_000_000_000);
        },
        other => panic!("vault has wrong data: {:?}", other),
    }
    assert_eq!(vault.lamports, (128 + 165) * RATE * 2);

    // The signer paid exactly the three rents.
    let signer = next.get_account(Addr::Key(1)).unwrap();
    let cost = (128 + 105) * RATE * 2 + (128 + 452) * RATE * 2 + (128 + 165) * RATE * 2;
    assert_eq!(signer.lamports, 10_000_000 - cost);
}

#[test]
fn second_attempt_fails_on_person_record() {
    let ledger = genesis(1, 100_000_000);
    let first = InitPersonToken { signer: 1, mint: 2, person_bump: 254 };
    let next = init_person_token(&ledger, &first, &alice_params()).unwrap();

    // Same signer, fresh mint identity: the person record already exists.
    let second = InitPersonToken { signer: 1, mint: 3, person_bump: 254 };
    let err = init_person_token(&next, &second, &alice_params()).unwrap_err();
    assert_eq!(err, TokenError::PersonAlreadyInitialized);
    // The failed attempt left no trace of the second mint.
    assert!(next.get_account(Addr::Key(3)).is_none());
    assert!(next.get_account(Addr::VaultAta(1, 3)).is_none());
}

#[test]
fn oversized_uri_fails_at_sizing() {
    let ledger = genesis(1, u64::MAX);
    let accounts = InitPersonToken { signer: 1, mint: 2, person_bump: 254 };
    let params = InitPersonTokenParams {
        name: b"Alice".to_vec(),
        symbol: b"ALC".to_vec(),
        uri: vec![b'a'; 10_485_760],
    };
    let err = init_person_token(&ledger, &accounts, &params).unwrap_err();
    assert_eq!(err, TokenError::MetadataTooLarge);
    // Pre-flight: even an unfunded signer sees the sizing error first.
    let empty = Ledger { entries: Vec::new(), lamports_per_byte_year: RATE };
    let err = init_person_token(&empty, &accounts, &params).unwrap_err();
    assert_eq!(err, TokenError::MetadataTooLarge);
}

#[test]
fn largest_fitting_uri_succeeds() {
    let ledger = genesis(1, u64::MAX);
    let accounts = InitPersonToken { signer: 1, mint: 2, person_bump: 254 };
    // 302 + 126 + len == 10_485_760 at the boundary.
    let fitting = 10_485_760 - 302 - 126;
    let params = InitPersonTokenParams {
        name: Vec::new(),
        symbol: Vec::new(),
        uri: vec![b'a'; fitting],
    };
    assert!(init_person_token(&ledger, &accounts, &params).is_ok());
    let params = InitPersonTokenParams {
        name: Vec::new(),
        symbol: Vec::new(),
        uri: vec![b'a'; fitting + 1],
    };
    assert_eq!(
        init_person_token(&ledger, &accounts, &params).unwrap_err(),
        TokenError::MetadataTooLarge
    );
}

#[test]
fn missing_signer_account_is_rejected() {
    let ledger = Ledger { entries: Vec::new(), lamports_per_byte_year: RATE };
    let accounts = InitPersonToken { signer: 1, mint: 2, person_bump: 254 };
    let err = init_person_token(&ledger, &accounts, &alice_params()).unwrap_err();
    assert_eq!(err, TokenError::InvalidSignerAccount);
}

#[test]
fn underfunded_signer_is_rejected() {
    let ledger = genesis(1, 1_000);
    let accounts = InitPersonToken { signer: 1, mint: 2, person_bump: 254 };
    let err = init_person_token(&ledger, &accounts, &alice_params()).unwrap_err();
    assert_eq!(err, TokenError::InsufficientFunds);
}

#[test]
fn used_mint_identity_is_rejected() {
    let mut ledger = genesis(1, 100_000_000);
    ledger.set_account(Addr::Key(2), Account { lamports: 5, data: AccountData::System });
    let accounts = InitPersonToken { signer: 1, mint: 2, person_bump: 254 };
    let err = init_person_token(&ledger, &accounts, &alice_params()).unwrap_err();
    assert_eq!(err, TokenError::MintAccountInUse);
}

#[test]
fn stage_errors_surface_by_cause() {
    // A hook write against a missing mint.
    let mut ledger = genesis(1, 100_000_000);
    assert_eq!(
        init_transfer_hook(&mut ledger, 2, Addr::PersonPda(1)).unwrap_err(),
        TokenError::UninitializedAccount
    );

    // Provision a mint sized only for its fixed layout.
    create_mint_account(&mut ledger, 1, 2, 302, 302).unwrap();
    init_transfer_hook(&mut ledger, 2, Addr::PersonPda(1)).unwrap();
    assert_eq!(
        init_transfer_hook(&mut ledger, 2, Addr::PersonPda(1)).unwrap_err(),
        TokenError::ExtensionAlreadyInitialized
    );
    // Metadata pointer aimed elsewhere: the metadata write later refuses.
    init_metadata_pointer(&mut ledger, 2, Addr::Key(2), Addr::Key(9)).unwrap();
    initialize_mint2(&mut ledger, 2, 6, Addr::Key(1)).unwrap();
    assert_eq!(
        initialize_mint2(&mut ledger, 2, 6, Addr::Key(1)).unwrap_err(),
        TokenError::MintAlreadyInitialized
    );
    let name = b"n".to_vec();
    let sym = b"s".to_vec();
    let uri = b"u".to_vec();
    assert_eq!(
        write_token_metadata(&mut ledger, 2, Addr::Key(1), &name, &sym, &uri).unwrap_err(),
        TokenError::MetadataPointerMismatch
    );

    // A correctly pointed mint, but funded only for the bare layout.
    create_mint_account(&mut ledger, 1, 3, 302, 302).unwrap();
    init_metadata_pointer(&mut ledger, 3, Addr::Key(3), Addr::Key(3)).unwrap();
    initialize_mint2(&mut ledger, 3, 6, Addr::Key(1)).unwrap();
    assert_eq!(
        write_token_metadata(&mut ledger, 3, Addr::Key(1), &name, &sym, &uri).unwrap_err(),
        TokenError::NotRentExempt
    );

    // Minting with the wrong authority, into the wrong vault, and past the cap.
    create_vault(&mut ledger, 1, 1, 3).unwrap();
    assert_eq!(
        create_vault(&mut ledger, 1, 1, 3).unwrap_err(),
        TokenError::VaultAccountInUse
    );
    assert_eq!(
        mint_to(&mut ledger, 3, Addr::VaultAta(1, 3), Addr::Key(9), 10).unwrap_err(),
        TokenError::AuthorityMismatch
    );
    mint_to(&mut ledger, 3, Addr::VaultAta(1, 3), Addr::Key(1), 10).unwrap();
    assert_eq!(
        mint_to(&mut ledger, 3, Addr::VaultAta(1, 3), Addr::Key(1), u64::MAX).unwrap_err(),
        TokenError::SupplyOverflow
    );
    create_vault(&mut ledger, 1, 4, 3).unwrap();
    assert_eq!(
        mint_to(&mut ledger, 2, Addr::VaultAta(4, 3), Addr::Key(1), 1).unwrap_err(),
        TokenError::MintMismatch
    );

    // The seal is one-way: once cleared, no authority matches again.
    clear_mint_authority(&mut ledger, 3, Addr::Key(1)).unwrap();
    assert_eq!(
        clear_mint_authority(&mut ledger, 3, Addr::Key(1)).unwrap_err(),
        TokenError::AuthorityMismatch
    );
    assert_eq!(
        mint_to(&mut ledger, 3, Addr::VaultAta(1, 3), Addr::Key(1), 1).unwrap_err(),
        TokenError::AuthorityMismatch
    );
}

#[test]
fn metadata_is_written_once() {
    let mut ledger = genesis(1, 100_000_000);
    // Funded for the grown size: 302 + 126 + 3 one-byte strings.
    create_mint_account(&mut ledger, 1, 5, 302, 431).unwrap();
    init_metadata_pointer(&mut ledger, 5, Addr::Key(5), Addr::Key(5)).unwrap();
    initialize_mint2(&mut ledger, 5, 6, Addr::Key(1)).unwrap();
    let name = b"n".to_vec();
    let sym = b"s".to_vec();
    let uri = b"u".to_vec();
    write_token_metadata(&mut ledger, 5, Addr::Key(1), &name, &sym, &uri).unwrap();
    assert_eq!(
        write_token_metadata(&mut ledger, 5, Addr::Key(1), &name, &sym, &uri).unwrap_err(),
        TokenError::MetadataAlreadyInitialized
    );
}

#[test]
fn person_field_write_needs_the_record() {
    let mut ledger = genesis(1, 100_000_000);
    let accounts = InitPersonToken { signer: 1, mint: 2, person_bump: 7 };
    assert_eq!(
        accounts.initialize(&mut ledger).unwrap_err(),
        TokenError::UninitializedAccount
    );
}

#[test]
fn wrong_sized_mint_account_is_refused_at_finalization() {
    let mut ledger = genesis(1, 100_000_000);
    create_mint_account(&mut ledger, 1, 2, 300, 300).unwrap();
    assert_eq!(
        initialize_mint2(&mut ledger, 2, 6, Addr::Key(1)).unwrap_err(),
        TokenError::InvalidAccountSize
    );
}
