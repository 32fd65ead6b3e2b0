use vstd::prelude::*;
use crate::addr::Addr;
use crate::account::{
    Account, AccountData, AccountV, AccountDataV, MetadataPair, MetadataPairV, MintData, MintDataV,
    Person, TokenData, TokenMetadataRecord, TokenMetadataRecordV, dup_bytes,
};
use crate::ledger::{Ledger, LedgerV, min_balance_spec, min_balance};
use crate::sizing::{
    MINT_ACCOUNT_LEN, MAX_MINT_ACCOUNT_LEN, metadata_tlv_len, sizing_fits,
    metadata_tlv_len_checked, issuer_key, issuer_value, version_key, version_value,
    issuer_key_bytes, issuer_value_bytes, version_key_bytes, version_value_bytes,
};

verus! {

/// Fixed decimal precision of the person token.
pub const TOKEN_DECIMALS: u8 = 6;

/// Policy cap on the issued amount, before scaling.
pub const TOKEN_LIMIT_AMOUNT: u64 = 1000;

/// The fixed scaling applied to the cap when minting.
pub const SUPPLY_SCALING: u64 = 1000000000;

/// The entire supply ever minted: the cap times the scaling.
pub const TOTAL_SUPPLY: u64 = TOKEN_LIMIT_AMOUNT * SUPPLY_SCALING;

/// Byte length of a person record account: an 8-byte discriminator, three
/// 32-byte addresses and the derivation bump.
pub const PERSON_ACCOUNT_LEN: u64 = 105;

/// Byte length of a token holding account.
pub const TOKEN_ACCOUNT_LEN: u64 = 165;

/// Why the instruction failed. Every error aborts the whole instruction;
/// the enclosing transaction is atomic, so no partial state survives.
#[derive(Clone, Copy, PartialEq, Eq, Structural, Debug)]
pub enum TokenError {
    /// The signer account is missing or not a plain system account.
    InvalidSignerAccount,
    /// A person record already exists at the signer's derived address.
    PersonAlreadyInitialized,
    /// The metadata record would not fit an allocatable account.
    MetadataTooLarge,
    /// The mint address already holds an account.
    MintAccountInUse,
    /// The payer cannot fund a rent-exempt account.
    InsufficientFunds,
    /// An account expected at an address is missing or of the wrong kind.
    UninitializedAccount,
    /// The mint was already finalized; its layout and extensions are sealed.
    MintAlreadyInitialized,
    /// The extension was already configured on this mint.
    ExtensionAlreadyInitialized,
    /// The mint account's size does not match its fixed extension layout.
    InvalidAccountSize,
    /// The account's balance does not cover rent exemption at its new size.
    NotRentExempt,
    /// The mint does not store its own metadata.
    MetadataPointerMismatch,
    /// The metadata record was already written.
    MetadataAlreadyInitialized,
    /// The vault address already holds an account.
    VaultAccountInUse,
    /// The acting authority is not the mint's current authority.
    AuthorityMismatch,
    /// The token account belongs to a different mint.
    MintMismatch,
    /// Minting would overflow the supply or the destination balance.
    SupplyOverflow,
}

/// The user-supplied metadata fields, embedded verbatim.
pub struct InitPersonTokenParams {
    pub name: Vec<u8>,
    pub symbol: Vec<u8>,
    pub uri: Vec<u8>,
}

/// The instruction's account context: the paying signer, the fresh
/// co-signing mint identity, and the person record's derivation bump.
pub struct InitPersonToken {
    pub signer: u64,
    pub mint: u64,
    pub person_bump: u8,
}

// ------------------------------------------------------------------
// Spec-level conditions
// ------------------------------------------------------------------

pub open spec fn signer_ok(l: LedgerV, s: u64) -> bool {
    l.accounts.contains_key(Addr::Key(s)) && l.accounts[Addr::Key(s)].data is System
}

pub open spec fn person_exists(l: LedgerV, s: u64) -> bool {
    l.accounts.contains_key(Addr::PersonPda(s))
}

pub open spec fn mint_in_use(l: LedgerV, m: u64) -> bool {
    l.accounts.contains_key(Addr::Key(m))
}

/// Every vault address in use belongs to an existing mint; the associated
/// account program only creates vaults for mints that exist.
pub open spec fn vaults_consistent(l: LedgerV) -> bool {
    forall|s: u64, m: u64| #[trigger] l.accounts.contains_key(Addr::VaultAta(s, m))
        ==> l.accounts.contains_key(Addr::Key(m))
}

/// The mint account's total size once the metadata record is written.
pub open spec fn mint_total_len(nm: Seq<u8>, sy: Seq<u8>, ur: Seq<u8>) -> int {
    MINT_ACCOUNT_LEN + metadata_tlv_len(nm, sy, ur)
}

/// Everything the signer pays: rent for the person record, the grown mint
/// account, and the vault.
pub open spec fn total_cost(rate: u64, nm: Seq<u8>, sy: Seq<u8>, ur: Seq<u8>) -> int {
    min_balance_spec(rate, PERSON_ACCOUNT_LEN) + min_balance_spec(
        rate,
        mint_total_len(nm, sy, ur) as u64,
    ) + min_balance_spec(rate, TOKEN_ACCOUNT_LEN)
}

/// The inputs on which the whole instruction succeeds: the metadata fits,
/// the signer is a funded system account, no person record exists for the
/// signer yet, the mint identity is fresh, and the signer can pay all rent.
pub open spec fn ok_inputs(l: LedgerV, s: u64, m: u64, nm: Seq<u8>, sy: Seq<u8>, ur: Seq<u8>) -> bool {
    &&& sizing_fits(nm, sy, ur)
    &&& signer_ok(l, s)
    &&& !person_exists(l, s)
    &&& !mint_in_use(l, m)
    &&& l.accounts[Addr::Key(s)].lamports >= total_cost(l.lamports_per_byte_year, nm, sy, ur)
}

/// The first failing stage's error, in execution order: sizing is checked
/// pre-flight, then the account context, then the person record's creation,
/// then the mint provisioning; all remaining failures are rent funding.
pub open spec fn expected_error(l: LedgerV, s: u64, m: u64, nm: Seq<u8>, sy: Seq<u8>, ur: Seq<u8>) -> TokenError {
    if !sizing_fits(nm, sy, ur) {
        TokenError::MetadataTooLarge
    } else if !signer_ok(l, s) {
        TokenError::InvalidSignerAccount
    } else if person_exists(l, s) {
        TokenError::PersonAlreadyInitialized
    } else if l.accounts[Addr::Key(s)].lamports < min_balance_spec(
        l.lamports_per_byte_year,
        PERSON_ACCOUNT_LEN,
    ) {
        TokenError::InsufficientFunds
    } else if mint_in_use(l, m) {
        TokenError::MintAccountInUse
    } else {
        TokenError::InsufficientFunds
    }
}

/// A person record as created, before its fields are written.
pub open spec fn is_mint(l: LedgerV, m: u64) -> bool {
    l.accounts.contains_key(Addr::Key(m)) && l.accounts[Addr::Key(m)].data is Mint
}

pub open spec fn mint_data_of(l: LedgerV, m: u64) -> MintDataV {
    l.accounts[Addr::Key(m)].data->Mint_0
}

pub open spec fn mint_lamports_of(l: LedgerV, m: u64) -> u64 {
    l.accounts[Addr::Key(m)].lamports
}

pub open spec fn zero_person() -> Person {
    Person { signer: Addr::Key(0), mint: Addr::Key(0), authority: Addr::Key(0), bump: 0 }
}

/// A freshly provisioned mint account: sized, zero-filled, nothing
/// configured.
pub open spec fn fresh_mint(space: u64) -> MintDataV {
    MintDataV {
        len: space,
        is_initialized: false,
        decimals: 0,
        supply: 0,
        mint_authority: None,
        freeze_authority: None,
        transfer_hook_authority: None,
        transfer_hook_program: None,
        metadata_pointer_authority: None,
        metadata_pointer: None,
        metadata: None,
    }
}

/// The metadata record this protocol writes: the supplied fields verbatim,
/// the signer as update authority, and the fixed annotations.
pub open spec fn metadata_record_spec(ua: Addr, m: u64, nm: Seq<u8>, sy: Seq<u8>, ur: Seq<u8>) -> TokenMetadataRecordV {
    TokenMetadataRecordV {
        update_authority: Some(ua),
        mint: Addr::Key(m),
        name: nm,
        symbol: sy,
        uri: ur,
        additional: seq![
            MetadataPairV { key: issuer_key_bytes(), value: issuer_value_bytes() },
            MetadataPairV { key: version_key_bytes(), value: version_value_bytes() },
        ],
    }
}

/// The sealed mint as the instruction leaves it.
pub open spec fn final_mint(s: u64, m: u64, nm: Seq<u8>, sy: Seq<u8>, ur: Seq<u8>) -> MintDataV {
    MintDataV {
        len: mint_total_len(nm, sy, ur) as u64,
        is_initialized: true,
        decimals: TOKEN_DECIMALS,
        supply: TOTAL_SUPPLY,
        mint_authority: None,
        freeze_authority: None,
        transfer_hook_authority: Some(Addr::PersonPda(s)),
        transfer_hook_program: None,
        metadata_pointer_authority: Some(Addr::Key(m)),
        metadata_pointer: Some(Addr::Key(m)),
        metadata: Some(metadata_record_spec(Addr::Key(s), m, nm, sy, ur)),
    }
}

/// Accounts outside `touched` are exactly as before.
pub open spec fn unchanged_outside(
    pre: Map<Addr, AccountV>,
    post: Map<Addr, AccountV>,
    touched: Set<Addr>,
) -> bool {
    &&& forall|a: Addr| #[trigger] post.contains_key(a) && !touched.contains(a)
        ==> pre.contains_key(a) && post[a] == pre[a]
    &&& forall|a: Addr| #[trigger] pre.contains_key(a) && !touched.contains(a)
        ==> post.contains_key(a)
}

/// What the whole instruction guarantees of the ledger it returns.
pub open spec fn success_post(
    pre: LedgerV,
    post: LedgerV,
    s: u64,
    m: u64,
    bump: u8,
    nm: Seq<u8>,
    sy: Seq<u8>,
    ur: Seq<u8>,
) -> bool {
    let rate = pre.lamports_per_byte_year;
    let signer_a = Addr::Key(s);
    let mint_a = Addr::Key(m);
    let person_a = Addr::PersonPda(s);
    let vault_a = Addr::VaultAta(s, m);
    &&& post.lamports_per_byte_year == rate
    &&& post.accounts.contains_key(person_a)
    &&& post.accounts[person_a] == AccountV {
        lamports: min_balance_spec(rate, PERSON_ACCOUNT_LEN) as u64,
        data: AccountDataV::Person(
            Person { signer: signer_a, mint: mint_a, authority: person_a, bump },
        ),
    }
    &&& post.accounts.contains_key(mint_a)
    &&& post.accounts[mint_a] == AccountV {
        lamports: min_balance_spec(rate, mint_total_len(nm, sy, ur) as u64) as u64,
        data: AccountDataV::Mint(final_mint(s, m, nm, sy, ur)),
    }
    &&& post.accounts.contains_key(vault_a)
    &&& post.accounts[vault_a] == AccountV {
        lamports: min_balance_spec(rate, TOKEN_ACCOUNT_LEN) as u64,
        data: AccountDataV::Token(
            TokenData { owner: person_a, mint: mint_a, amount: TOTAL_SUPPLY },
        ),
    }
    &&& person_a != signer_a
    &&& post.accounts.contains_key(signer_a)
    &&& post.accounts[signer_a].data is System
    &&& post.accounts[signer_a].lamports == pre.accounts[signer_a].lamports - total_cost(
        rate,
        nm,
        sy,
        ur,
    )
    &&& unchanged_outside(
        pre.accounts,
        post.accounts,
        set![signer_a, mint_a, person_a, vault_a],
    )
}

// ------------------------------------------------------------------
// Stages
// ------------------------------------------------------------------

/// Create the person record account at the signer's derived address, paid
/// by the signer; its fields are written afterwards, exactly once.
pub fn create_person_account(ledger: &mut Ledger, s: u64) -> (r: Result<(), TokenError>)
    requires
        old(ledger).wf(),
    ensures
        final(ledger).wf(),
        final(ledger)@.lamports_per_byte_year == old(ledger)@.lamports_per_byte_year,
        r is Ok <==> signer_ok(old(ledger)@, s) && !person_exists(old(ledger)@, s) && old(
            ledger,
        )@.accounts[Addr::Key(s)].lamports >= min_balance_spec(
            old(ledger)@.lamports_per_byte_year,
            PERSON_ACCOUNT_LEN,
        ),
        r is Ok ==> {
            let rate = old(ledger)@.lamports_per_byte_year;
            let rent = min_balance_spec(rate, PERSON_ACCOUNT_LEN) as u64;
            &&& final(ledger)@.accounts == old(ledger)@.accounts.insert(
                Addr::Key(s),
                AccountV {
                    lamports: (old(ledger)@.accounts[Addr::Key(s)].lamports - rent) as u64,
                    data: AccountDataV::System,
                },
            ).insert(
                Addr::PersonPda(s),
                AccountV { lamports: rent, data: AccountDataV::Person(zero_person()) },
            )
        },
        r is Err ==> final(ledger)@ == old(ledger)@ && r->Err_0 == (if !signer_ok(
            old(ledger)@,
            s,
        ) {
            TokenError::InvalidSignerAccount
        } else if person_exists(old(ledger)@, s) {
            TokenError::PersonAlreadyInitialized
        } else {
            TokenError::InsufficientFunds
        }),
{
    let rate = ledger.lamports_per_byte_year;
    let signer_lamports: u64 = match ledger.get_account(Addr::Key(s)) {
        Some(acc) => match &acc.data {
            AccountData::System => acc.lamports,
            _ => {
                return Err(TokenError::InvalidSignerAccount);
            },
        },
        None => {
            return Err(TokenError::InvalidSignerAccount);
        },
    };
    if ledger.contains_account(Addr::PersonPda(s)) {
        return Err(TokenError::PersonAlreadyInitialized);
    }
    let rent: u64 = match min_balance(rate, PERSON_ACCOUNT_LEN) {
        Some(v) => v,
        None => {
            return Err(TokenError::InsufficientFunds);
        },
    };
    if signer_lamports < rent {
        return Err(TokenError::InsufficientFunds);
    }
    ledger.set_account(
        Addr::Key(s),
        Account { lamports: signer_lamports - rent, data: AccountData::System },
    );
    ledger.set_account(
        Addr::PersonPda(s),
        Account {
            lamports: rent,
            data: AccountData::Person(
                Person {
                    signer: Addr::Key(0),
                    mint: Addr::Key(0),
                    authority: Addr::Key(0),
                    bump: 0,
                },
            ),
        },
    );
    Ok(())
}

/// Provision the raw mint account: sized to the fixed extension layout,
/// funded by the payer to stay rent-exempt even after the metadata record
/// grows it to `rent_len` bytes, owned by the token program.
pub fn create_mint_account(
    ledger: &mut Ledger,
    payer: u64,
    m: u64,
    space: u64,
    rent_len: u64,
) -> (r: Result<(), TokenError>)
    requires
        old(ledger).wf(),
    ensures
        final(ledger).wf(),
        final(ledger)@.lamports_per_byte_year == old(ledger)@.lamports_per_byte_year,
        r is Ok <==> signer_ok(old(ledger)@, payer) && !mint_in_use(old(ledger)@, m) && old(
            ledger,
        )@.accounts[Addr::Key(payer)].lamports >= min_balance_spec(
            old(ledger)@.lamports_per_byte_year,
            rent_len,
        ),
        r is Ok ==> {
            let rate = old(ledger)@.lamports_per_byte_year;
            let rent = min_balance_spec(rate, rent_len) as u64;
            &&& final(ledger)@.accounts == old(ledger)@.accounts.insert(
                Addr::Key(payer),
                AccountV {
                    lamports: (old(ledger)@.accounts[Addr::Key(payer)].lamports - rent) as u64,
                    data: AccountDataV::System,
                },
            ).insert(
                Addr::Key(m),
                AccountV { lamports: rent, data: AccountDataV::Mint(fresh_mint(space)) },
            )
        },
        r is Err ==> final(ledger)@ == old(ledger)@ && r->Err_0 == (if !signer_ok(
            old(ledger)@,
            payer,
        ) {
            TokenError::InvalidSignerAccount
        } else if mint_in_use(old(ledger)@, m) {
            TokenError::MintAccountInUse
        } else {
            TokenError::InsufficientFunds
        }),
{
    let rate = ledger.lamports_per_byte_year;
    let payer_lamports: u64 = match ledger.get_account(Addr::Key(payer)) {
        Some(acc) => match &acc.data {
            AccountData::System => acc.lamports,
            _ => {
                return Err(TokenError::InvalidSignerAccount);
            },
        },
        None => {
            return Err(TokenError::InvalidSignerAccount);
        },
    };
    if ledger.contains_account(Addr::Key(m)) {
        return Err(TokenError::MintAccountInUse);
    }
    let rent: u64 = match min_balance(rate, rent_len) {
        Some(v) => v,
        None => {
            return Err(TokenError::InsufficientFunds);
        },
    };
    if payer_lamports < rent {
        return Err(TokenError::InsufficientFunds);
    }
    ledger.set_account(
        Addr::Key(payer),
        Account { lamports: payer_lamports - rent, data: AccountData::System },
    );
    ledger.set_account(
        Addr::Key(m),
        Account {
            lamports: rent,
            data: AccountData::Mint(
                MintData {
                    len: space,
                    is_initialized: false,
                    decimals: 0,
                    supply: 0,
                    mint_authority: None,
                    freeze_authority: None,
                    transfer_hook_authority: None,
                    transfer_hook_program: None,
                    metadata_pointer_authority: None,
                    metadata_pointer: None,
                    metadata: None,
                },
            ),
        },
    );
    Ok(())
}

/// Configure the transfer-hook extension on a freshly provisioned, not yet
/// initialized mint: set the hook authority, leave the hook program unset.
pub fn init_transfer_hook(ledger: &mut Ledger, m: u64, authority: Addr) -> (r: Result<
    (),
    TokenError,
>)
    requires
        old(ledger).wf(),
    ensures
        final(ledger).wf(),
        final(ledger)@.lamports_per_byte_year == old(ledger)@.lamports_per_byte_year,
        r is Ok <==> is_mint(old(ledger)@, m) && !mint_data_of(old(ledger)@, m).is_initialized
            && mint_data_of(old(ledger)@, m).transfer_hook_authority is None && mint_data_of(
            old(ledger)@,
            m,
        ).transfer_hook_program is None,
        r is Ok ==> final(ledger)@.accounts == old(ledger)@.accounts.insert(
            Addr::Key(m),
            AccountV {
                lamports: mint_lamports_of(old(ledger)@, m),
                data: AccountDataV::Mint(
                    MintDataV {
                        transfer_hook_authority: Some(authority),
                        ..mint_data_of(old(ledger)@, m)
                    },
                ),
            },
        ),
        r is Err ==> final(ledger)@ == old(ledger)@ && r->Err_0 == (if !is_mint(
            old(ledger)@,
            m,
        ) {
            TokenError::UninitializedAccount
        } else if mint_data_of(old(ledger)@, m).is_initialized {
            TokenError::MintAlreadyInitialized
        } else {
            TokenError::ExtensionAlreadyInitialized
        }),
{
    let (lamports, updated) = match ledger.get_account(Addr::Key(m)) {
        Some(acc) => match &acc.data {
            AccountData::Mint(md) => {
                if md.is_initialized {
                    return Err(TokenError::MintAlreadyInitialized);
                }
                if md.transfer_hook_authority.is_some() || md.transfer_hook_program.is_some() {
                    return Err(TokenError::ExtensionAlreadyInitialized);
                }
                let mut c = md.duplicate();
                c.transfer_hook_authority = Some(authority);
                (acc.lamports, c)
            },
            _ => {
                return Err(TokenError::UninitializedAccount);
            },
        },
        None => {
            return Err(TokenError::UninitializedAccount);
        },
    };
    ledger.set_account(Addr::Key(m), Account { lamports, data: AccountData::Mint(updated) });
    Ok(())
}

/// Configure the metadata-pointer extension on a freshly provisioned, not
/// yet initialized mint: both the pointer authority and the storage
/// location are set.
pub fn init_metadata_pointer(
    ledger: &mut Ledger,
    m: u64,
    authority: Addr,
    metadata_address: Addr,
) -> (r: Result<(), TokenError>)
    requires
        old(ledger).wf(),
    ensures
        final(ledger).wf(),
        final(ledger)@.lamports_per_byte_year == old(ledger)@.lamports_per_byte_year,
        r is Ok <==> is_mint(old(ledger)@, m) && !mint_data_of(old(ledger)@, m).is_initialized
            && mint_data_of(old(ledger)@, m).metadata_pointer_authority is None && mint_data_of(
            old(ledger)@,
            m,
        ).metadata_pointer is None,
        r is Ok ==> final(ledger)@.accounts == old(ledger)@.accounts.insert(
            Addr::Key(m),
            AccountV {
                lamports: mint_lamports_of(old(ledger)@, m),
                data: AccountDataV::Mint(
                    MintDataV {
                        metadata_pointer_authority: Some(authority),
                        metadata_pointer: Some(metadata_address),
                        ..mint_data_of(old(ledger)@, m)
                    },
                ),
            },
        ),
        r is Err ==> final(ledger)@ == old(ledger)@ && r->Err_0 == (if !is_mint(
            old(ledger)@,
            m,
        ) {
            TokenError::UninitializedAccount
        } else if mint_data_of(old(ledger)@, m).is_initialized {
            TokenError::MintAlreadyInitialized
        } else {
            TokenError::ExtensionAlreadyInitialized
        }),
{
    let (lamports, updated) = match ledger.get_account(Addr::Key(m)) {
        Some(acc) => match &acc.data {
            AccountData::Mint(md) => {
                if md.is_initialized {
                    return Err(TokenError::MintAlreadyInitialized);
                }
                if md.metadata_pointer_authority.is_some() || md.metadata_pointer.is_some() {
                    return Err(TokenError::ExtensionAlreadyInitialized);
                }
                let mut c = md.duplicate();
                c.metadata_pointer_authority = Some(authority);
                c.metadata_pointer = Some(metadata_address);
                (acc.lamports, c)
            },
            _ => {
                return Err(TokenError::UninitializedAccount);
            },
        },
        None => {
            return Err(TokenError::UninitializedAccount);
        },
    };
    ledger.set_account(Addr::Key(m), Account { lamports, data: AccountData::Mint(updated) });
    Ok(())
}

/// Finalize the account as a well-formed mint: fixed decimals, a temporary
/// mint authority, no freeze authority. The extension layout is sealed from
/// here on. Fails if the account was not sized to the fixed layout or is
/// not rent-exempt at that size.
pub fn initialize_mint2(ledger: &mut Ledger, m: u64, decimals: u8, authority: Addr) -> (r: Result<
    (),
    TokenError,
>)
    requires
        old(ledger).wf(),
    ensures
        final(ledger).wf(),
        final(ledger)@.lamports_per_byte_year == old(ledger)@.lamports_per_byte_year,
        r is Ok <==> is_mint(old(ledger)@, m) && !mint_data_of(old(ledger)@, m).is_initialized
            && mint_data_of(old(ledger)@, m).len == MINT_ACCOUNT_LEN && mint_lamports_of(
            old(ledger)@,
            m,
        ) >= min_balance_spec(old(ledger)@.lamports_per_byte_year, MINT_ACCOUNT_LEN),
        r is Ok ==> final(ledger)@.accounts == old(ledger)@.accounts.insert(
            Addr::Key(m),
            AccountV {
                lamports: mint_lamports_of(old(ledger)@, m),
                data: AccountDataV::Mint(
                    MintDataV {
                        is_initialized: true,
                        decimals,
                        supply: 0,
                        mint_authority: Some(authority),
                        freeze_authority: None,
                        ..mint_data_of(old(ledger)@, m)
                    },
                ),
            },
        ),
        r is Err ==> final(ledger)@ == old(ledger)@ && r->Err_0 == (if !is_mint(
            old(ledger)@,
            m,
        ) {
            TokenError::UninitializedAccount
        } else if mint_data_of(old(ledger)@, m).is_initialized {
            TokenError::MintAlreadyInitialized
        } else if mint_data_of(old(ledger)@, m).len != MINT_ACCOUNT_LEN {
            TokenError::InvalidAccountSize
        } else {
            TokenError::NotRentExempt
        }),
{
    let rate = ledger.lamports_per_byte_year;
    let (lamports, updated) = match ledger.get_account(Addr::Key(m)) {
        Some(acc) => match &acc.data {
            AccountData::Mint(md) => {
                if md.is_initialized {
                    return Err(TokenError::MintAlreadyInitialized);
                }
                if md.len != MINT_ACCOUNT_LEN {
                    return Err(TokenError::InvalidAccountSize);
                }
                if !crate::ledger::balance_sufficient(rate, MINT_ACCOUNT_LEN, acc.lamports) {
                    return Err(TokenError::NotRentExempt);
                }
                let mut c = md.duplicate();
                c.is_initialized = true;
                c.decimals = decimals;
                c.supply = 0;
                c.mint_authority = Some(authority);
                c.freeze_authority = None;
                (acc.lamports, c)
            },
            _ => {
                return Err(TokenError::UninitializedAccount);
            },
        },
        None => {
            return Err(TokenError::UninitializedAccount);
        },
    };
    ledger.set_account(Addr::Key(m), Account { lamports, data: AccountData::Mint(updated) });
    Ok(())
}

/// Write the token metadata record into the mint's own extension storage,
/// growing the account; the mint must store its own metadata (its pointer
/// names itself) and must still be rent-exempt at the grown size.
pub fn write_token_metadata(
    ledger: &mut Ledger,
    m: u64,
    update_authority: Addr,
    name: &Vec<u8>,
    symbol: &Vec<u8>,
    uri: &Vec<u8>,
) -> (r: Result<(), TokenError>)
    requires
        old(ledger).wf(),
    ensures
        final(ledger).wf(),
        final(ledger)@.lamports_per_byte_year == old(ledger)@.lamports_per_byte_year,
        r is Ok <==> is_mint(old(ledger)@, m) && mint_data_of(old(ledger)@, m).is_initialized
            && mint_data_of(old(ledger)@, m).metadata_pointer == Some(Addr::Key(m))
            && mint_data_of(old(ledger)@, m).metadata is None && mint_data_of(old(ledger)@, m).len
            + metadata_tlv_len(name@, symbol@, uri@) <= u64::MAX && mint_lamports_of(
            old(ledger)@,
            m,
        ) >= min_balance_spec(
            old(ledger)@.lamports_per_byte_year,
            (mint_data_of(old(ledger)@, m).len + metadata_tlv_len(name@, symbol@, uri@)) as u64,
        ),
        r is Ok ==> final(ledger)@.accounts == old(ledger)@.accounts.insert(
            Addr::Key(m),
            AccountV {
                lamports: mint_lamports_of(old(ledger)@, m),
                data: AccountDataV::Mint(
                    MintDataV {
                        len: (mint_data_of(old(ledger)@, m).len + metadata_tlv_len(
                            name@,
                            symbol@,
                            uri@,
                        )) as u64,
                        metadata: Some(metadata_record_spec(update_authority, m, name@, symbol@, uri@)),
                        ..mint_data_of(old(ledger)@, m)
                    },
                ),
            },
        ),
        r is Err ==> final(ledger)@ == old(ledger)@ && r->Err_0 == (if !is_mint(
            old(ledger)@,
            m,
        ) || !mint_data_of(old(ledger)@, m).is_initialized {
            TokenError::UninitializedAccount
        } else if mint_data_of(old(ledger)@, m).metadata_pointer != Some(Addr::Key(m)) {
            TokenError::MetadataPointerMismatch
        } else if mint_data_of(old(ledger)@, m).metadata is Some {
            TokenError::MetadataAlreadyInitialized
        } else if mint_data_of(old(ledger)@, m).len + metadata_tlv_len(name@, symbol@, uri@)
            > u64::MAX {
            TokenError::MetadataTooLarge
        } else {
            TokenError::NotRentExempt
        }),
{
    let rate = ledger.lamports_per_byte_year;
    let (lamports, updated) = match ledger.get_account(Addr::Key(m)) {
        Some(acc) => match &acc.data {
            AccountData::Mint(md) => {
                if !md.is_initialized {
                    return Err(TokenError::UninitializedAccount);
                }
                let points_to_self = match md.metadata_pointer {
                    Some(p) => p == Addr::Key(m),
                    None => false,
                };
                if !points_to_self {
                    return Err(TokenError::MetadataPointerMismatch);
                }
                if md.metadata.is_some() {
                    return Err(TokenError::MetadataAlreadyInitialized);
                }
                let tlv: u64 = match metadata_tlv_len_checked(name, symbol, uri) {
                    Some(v) => v,
                    None => {
                        return Err(TokenError::MetadataTooLarge);
                    },
                };
                let new_len: u64 = match md.len.checked_add(tlv) {
                    Some(v) => v,
                    None => {
                        return Err(TokenError::MetadataTooLarge);
                    },
                };
                if !crate::ledger::balance_sufficient(rate, new_len, acc.lamports) {
                    return Err(TokenError::NotRentExempt);
                }
                let mut pairs: Vec<MetadataPair> = Vec::new();
                pairs.push(MetadataPair { key: issuer_key(), value: issuer_value() });
                pairs.push(MetadataPair { key: version_key(), value: version_value() });
                let record = TokenMetadataRecord {
                    update_authority: Some(update_authority),
                    mint: Addr::Key(m),
                    name: dup_bytes(name),
                    symbol: dup_bytes(symbol),
                    uri: dup_bytes(uri),
                    additional: pairs,
                };
                proof {
                    assert(record@.additional =~= metadata_record_spec(
                        update_authority,
                        m,
                        name@,
                        symbol@,
                        uri@,
                    ).additional);
                }
                let mut c = md.duplicate();
                c.len = new_len;
                c.metadata = Some(record);
                (acc.lamports, c)
            },
            _ => {
                return Err(TokenError::UninitializedAccount);
            },
        },
        None => {
            return Err(TokenError::UninitializedAccount);
        },
    };
    ledger.set_account(Addr::Key(m), Account { lamports, data: AccountData::Mint(updated) });
    Ok(())
}

/// Create the vault: the associated token account for (person record of the
/// owner's signer, mint), paid by the payer, holding nothing yet.
pub fn create_vault(ledger: &mut Ledger, payer: u64, owner_signer: u64, m: u64) -> (r: Result<
    (),
    TokenError,
>)
    requires
        old(ledger).wf(),
    ensures
        final(ledger).wf(),
        final(ledger)@.lamports_per_byte_year == old(ledger)@.lamports_per_byte_year,
        r is Ok <==> is_mint(old(ledger)@, m) && mint_data_of(old(ledger)@, m).is_initialized
            && !old(ledger)@.accounts.contains_key(Addr::VaultAta(owner_signer, m)) && signer_ok(
            old(ledger)@,
            payer,
        ) && old(ledger)@.accounts[Addr::Key(payer)].lamports >= min_balance_spec(
            old(ledger)@.lamports_per_byte_year,
            TOKEN_ACCOUNT_LEN,
        ),
        r is Ok ==> {
            let rate = old(ledger)@.lamports_per_byte_year;
            let rent = min_balance_spec(rate, TOKEN_ACCOUNT_LEN) as u64;
            &&& final(ledger)@.accounts == old(ledger)@.accounts.insert(
                Addr::Key(payer),
                AccountV {
                    lamports: (old(ledger)@.accounts[Addr::Key(payer)].lamports - rent) as u64,
                    data: AccountDataV::System,
                },
            ).insert(
                Addr::VaultAta(owner_signer, m),
                AccountV {
                    lamports: rent,
                    data: AccountDataV::Token(
                        TokenData {
                            owner: Addr::PersonPda(owner_signer),
                            mint: Addr::Key(m),
                            amount: 0,
                        },
                    ),
                },
            )
        },
        r is Err ==> final(ledger)@ == old(ledger)@ && r->Err_0 == (if !is_mint(old(ledger)@, m)
            || !mint_data_of(old(ledger)@, m).is_initialized {
            TokenError::UninitializedAccount
        } else if old(ledger)@.accounts.contains_key(Addr::VaultAta(owner_signer, m)) {
            TokenError::VaultAccountInUse
        } else if !signer_ok(old(ledger)@, payer) {
            TokenError::InvalidSignerAccount
        } else {
            TokenError::InsufficientFunds
        }),
{
    let rate = ledger.lamports_per_byte_year;
    let mint_ready = match ledger.get_account(Addr::Key(m)) {
        Some(acc) => match &acc.data {
            AccountData::Mint(md) => md.is_initialized,
            _ => false,
        },
        None => false,
    };
    if !mint_ready {
        return Err(TokenError::UninitializedAccount);
    }
    if ledger.contains_account(Addr::VaultAta(owner_signer, m)) {
        return Err(TokenError::VaultAccountInUse);
    }
    let payer_lamports: u64 = match ledger.get_account(Addr::Key(payer)) {
        Some(acc) => match &acc.data {
            AccountData::System => acc.lamports,
            _ => {
                return Err(TokenError::InvalidSignerAccount);
            },
        },
        None => {
            return Err(TokenError::InvalidSignerAccount);
        },
    };
    let rent: u64 = match min_balance(rate, TOKEN_ACCOUNT_LEN) {
        Some(v) => v,
        None => {
            return Err(TokenError::InsufficientFunds);
        },
    };
    if payer_lamports < rent {
        return Err(TokenError::InsufficientFunds);
    }
    ledger.set_account(
        Addr::Key(payer),
        Account { lamports: payer_lamports - rent, data: AccountData::System },
    );
    ledger.set_account(
        Addr::VaultAta(owner_signer, m),
        Account {
            lamports: rent,
            data: AccountData::Token(
                TokenData { owner: Addr::PersonPda(owner_signer), mint: Addr::Key(m), amount: 0 },
            ),
        },
    );
    Ok(())
}

/// Mint `amount` into a token account, authorized by the mint's current
/// authority.
pub fn mint_to(ledger: &mut Ledger, m: u64, to: Addr, authority: Addr, amount: u64) -> (r: Result<
    (),
    TokenError,
>)
    requires
        old(ledger).wf(),
    ensures
        final(ledger).wf(),
        final(ledger)@.lamports_per_byte_year == old(ledger)@.lamports_per_byte_year,
        r is Ok <==> is_mint(old(ledger)@, m) && mint_data_of(old(ledger)@, m).is_initialized
            && mint_data_of(old(ledger)@, m).mint_authority == Some(authority) && old(
            ledger,
        )@.accounts.contains_key(to) && old(ledger)@.accounts[to].data is Token && old(
            ledger,
        )@.accounts[to].data->Token_0.mint == Addr::Key(m) && mint_data_of(old(ledger)@, m).supply
            + amount <= u64::MAX && old(ledger)@.accounts[to].data->Token_0.amount + amount
            <= u64::MAX,
        r is Ok ==> final(ledger)@.accounts == old(ledger)@.accounts.insert(
            Addr::Key(m),
            AccountV {
                lamports: mint_lamports_of(old(ledger)@, m),
                data: AccountDataV::Mint(
                    MintDataV {
                        supply: (mint_data_of(old(ledger)@, m).supply + amount) as u64,
                        ..mint_data_of(old(ledger)@, m)
                    },
                ),
            },
        ).insert(
            to,
            AccountV {
                lamports: old(ledger)@.accounts[to].lamports,
                data: AccountDataV::Token(
                    TokenData {
                        amount: (old(ledger)@.accounts[to].data->Token_0.amount + amount) as u64,
                        ..old(ledger)@.accounts[to].data->Token_0
                    },
                ),
            },
        ),
        r is Err ==> final(ledger)@ == old(ledger)@ && r->Err_0 == (if !is_mint(old(ledger)@, m)
            || !mint_data_of(old(ledger)@, m).is_initialized {
            TokenError::UninitializedAccount
        } else if mint_data_of(old(ledger)@, m).mint_authority != Some(authority) {
            TokenError::AuthorityMismatch
        } else if !(old(ledger)@.accounts.contains_key(to) && old(ledger)@.accounts[to].data
            is Token) {
            TokenError::UninitializedAccount
        } else if old(ledger)@.accounts[to].data->Token_0.mint != Addr::Key(m) {
            TokenError::MintMismatch
        } else {
            TokenError::SupplyOverflow
        }),
{
    let (mint_lamports, mut mint_updated) = match ledger.get_account(Addr::Key(m)) {
        Some(acc) => match &acc.data {
            AccountData::Mint(md) => {
                if !md.is_initialized {
                    return Err(TokenError::UninitializedAccount);
                }
                let authorized = match md.mint_authority {
                    Some(a) => a == authority,
                    None => false,
                };
                if !authorized {
                    return Err(TokenError::AuthorityMismatch);
                }
                (acc.lamports, md.duplicate())
            },
            _ => {
                return Err(TokenError::UninitializedAccount);
            },
        },
        None => {
            return Err(TokenError::UninitializedAccount);
        },
    };
    let (to_lamports, to_updated) = match ledger.get_account(to) {
        Some(acc) => match &acc.data {
            AccountData::Token(t) => {
                if t.mint != Addr::Key(m) {
                    return Err(TokenError::MintMismatch);
                }
                let new_amount: u64 = match t.amount.checked_add(amount) {
                    Some(v) => v,
                    None => {
                        return Err(TokenError::SupplyOverflow);
                    },
                };
                (acc.lamports, TokenData { owner: t.owner, mint: t.mint, amount: new_amount })
            },
            _ => {
                return Err(TokenError::UninitializedAccount);
            },
        },
        None => {
            return Err(TokenError::UninitializedAccount);
        },
    };
    let new_supply: u64 = match mint_updated.supply.checked_add(amount) {
        Some(v) => v,
        None => {
            return Err(TokenError::SupplyOverflow);
        },
    };
    mint_updated.supply = new_supply;
    ledger.set_account(
        Addr::Key(m),
        Account { lamports: mint_lamports, data: AccountData::Mint(mint_updated) },
    );
    ledger.set_account(to, Account { lamports: to_lamports, data: AccountData::Token(to_updated) });
    Ok(())
}

/// Clear the mint authority: the one-way transition that fixes the supply
/// forever. No operation of this library re-sets the authority of an
/// initialized mint.
pub fn clear_mint_authority(ledger: &mut Ledger, m: u64, current: Addr) -> (r: Result<
    (),
    TokenError,
>)
    requires
        old(ledger).wf(),
    ensures
        final(ledger).wf(),
        final(ledger)@.lamports_per_byte_year == old(ledger)@.lamports_per_byte_year,
        r is Ok <==> is_mint(old(ledger)@, m) && mint_data_of(old(ledger)@, m).is_initialized
            && mint_data_of(old(ledger)@, m).mint_authority == Some(current),
        r is Ok ==> final(ledger)@.accounts == old(ledger)@.accounts.insert(
            Addr::Key(m),
            AccountV {
                lamports: mint_lamports_of(old(ledger)@, m),
                data: AccountDataV::Mint(
                    MintDataV { mint_authority: None, ..mint_data_of(old(ledger)@, m) },
                ),
            },
        ),
        r is Err ==> final(ledger)@ == old(ledger)@ && r->Err_0 == (if !is_mint(old(ledger)@, m)
            || !mint_data_of(old(ledger)@, m).is_initialized {
            TokenError::UninitializedAccount
        } else {
            TokenError::AuthorityMismatch
        }),
{
    let (lamports, updated) = match ledger.get_account(Addr::Key(m)) {
        Some(acc) => match &acc.data {
            AccountData::Mint(md) => {
                if !md.is_initialized {
                    return Err(TokenError::UninitializedAccount);
                }
                let authorized = match md.mint_authority {
                    Some(a) => a == current,
                    None => false,
                };
                if !authorized {
                    return Err(TokenError::AuthorityMismatch);
                }
                let mut c = md.duplicate();
                c.mint_authority = None;
                (acc.lamports, c)
            },
            _ => {
                return Err(TokenError::UninitializedAccount);
            },
        },
        None => {
            return Err(TokenError::UninitializedAccount);
        },
    };
    ledger.set_account(Addr::Key(m), Account { lamports, data: AccountData::Mint(updated) });
    Ok(())
}

pub proof fn lemma_min_balance_mono(rate: u64, l1: u64, l2: u64)
    requires
        l1 <= l2,
    ensures
        min_balance_spec(rate, l1) <= min_balance_spec(rate, l2),
{
    assert((128 + l1) * rate * 2 <= (128 + l2) * rate * 2) by (nonlinear_arith)
        requires
            l1 <= l2,
    ;
}

// ------------------------------------------------------------------
// The instruction's two entry points and the atomic wrapper
// ------------------------------------------------------------------

/// What `init_token_mint` alone needs of the ledger it starts from, and the
/// error it reports otherwise, in execution order.
pub open spec fn mint_stage_ok(l: LedgerV, s: u64, m: u64, nm: Seq<u8>, sy: Seq<u8>, ur: Seq<u8>) -> bool {
    &&& sizing_fits(nm, sy, ur)
    &&& signer_ok(l, s)
    &&& !mint_in_use(l, m)
    &&& !l.accounts.contains_key(Addr::VaultAta(s, m))
    &&& l.accounts[Addr::Key(s)].lamports >= min_balance_spec(
        l.lamports_per_byte_year,
        mint_total_len(nm, sy, ur) as u64,
    ) + min_balance_spec(l.lamports_per_byte_year, TOKEN_ACCOUNT_LEN)
}

pub open spec fn mint_stage_error(l: LedgerV, s: u64, m: u64, nm: Seq<u8>, sy: Seq<u8>, ur: Seq<u8>) -> TokenError {
    if !sizing_fits(nm, sy, ur) {
        TokenError::MetadataTooLarge
    } else if !signer_ok(l, s) {
        TokenError::InvalidSignerAccount
    } else if mint_in_use(l, m) {
        TokenError::MintAccountInUse
    } else if l.accounts[Addr::Key(s)].lamports < min_balance_spec(
        l.lamports_per_byte_year,
        mint_total_len(nm, sy, ur) as u64,
    ) {
        TokenError::InsufficientFunds
    } else if l.accounts.contains_key(Addr::VaultAta(s, m)) {
        TokenError::VaultAccountInUse
    } else {
        TokenError::InsufficientFunds
    }
}

/// What `init_token_mint` guarantees of the ledger when it succeeds.
pub open spec fn mint_stage_post(
    pre: LedgerV,
    post: LedgerV,
    s: u64,
    m: u64,
    nm: Seq<u8>,
    sy: Seq<u8>,
    ur: Seq<u8>,
) -> bool {
    let rate = pre.lamports_per_byte_year;
    let signer_a = Addr::Key(s);
    let mint_a = Addr::Key(m);
    let vault_a = Addr::VaultAta(s, m);
    &&& post.lamports_per_byte_year == rate
    &&& post.accounts.contains_key(mint_a)
    &&& post.accounts[mint_a] == AccountV {
        lamports: min_balance_spec(rate, mint_total_len(nm, sy, ur) as u64) as u64,
        data: AccountDataV::Mint(final_mint(s, m, nm, sy, ur)),
    }
    &&& post.accounts.contains_key(vault_a)
    &&& post.accounts[vault_a] == AccountV {
        lamports: min_balance_spec(rate, TOKEN_ACCOUNT_LEN) as u64,
        data: AccountDataV::Token(
            TokenData { owner: Addr::PersonPda(s), mint: mint_a, amount: TOTAL_SUPPLY },
        ),
    }
    &&& post.accounts.contains_key(signer_a)
    &&& post.accounts[signer_a].data is System
    &&& post.accounts[signer_a].lamports == pre.accounts[signer_a].lamports - min_balance_spec(
        rate,
        mint_total_len(nm, sy, ur) as u64,
    ) - min_balance_spec(rate, TOKEN_ACCOUNT_LEN)
    &&& unchanged_outside(pre.accounts, post.accounts, set![signer_a, mint_a, vault_a])
}

impl InitPersonToken {
    /// Write the person record's fields, exactly once at its creation: the
    /// owning signer, the governed mint, the self-referential authority and
    /// the derivation bump.
    pub fn initialize(&self, ledger: &mut Ledger) -> (r: Result<(), TokenError>)
        requires
            old(ledger).wf(),
        ensures
            final(ledger).wf(),
            final(ledger)@.lamports_per_byte_year == old(ledger)@.lamports_per_byte_year,
            r is Ok <==> old(ledger)@.accounts.contains_key(Addr::PersonPda(self.signer)) && old(
                ledger,
            )@.accounts[Addr::PersonPda(self.signer)].data is Person,
            r is Ok ==> final(ledger)@.accounts == old(ledger)@.accounts.insert(
                Addr::PersonPda(self.signer),
                AccountV {
                    lamports: old(ledger)@.accounts[Addr::PersonPda(self.signer)].lamports,
                    data: AccountDataV::Person(
                        Person {
                            signer: Addr::Key(self.signer),
                            mint: Addr::Key(self.mint),
                            authority: Addr::PersonPda(self.signer),
                            bump: self.person_bump,
                        },
                    ),
                },
            ),
            r is Err ==> final(ledger)@ == old(ledger)@ && r->Err_0
                == TokenError::UninitializedAccount,
    {
        let lamports: u64 = match ledger.get_account(Addr::PersonPda(self.signer)) {
            Some(acc) => match &acc.data {
                AccountData::Person(_) => acc.lamports,
                _ => {
                    return Err(TokenError::UninitializedAccount);
                },
            },
            None => {
                return Err(TokenError::UninitializedAccount);
            },
        };
        ledger.set_account(
            Addr::PersonPda(self.signer),
            Account {
                lamports,
                data: AccountData::Person(
                    Person {
                        signer: Addr::Key(self.signer),
                        mint: Addr::Key(self.mint),
                        authority: Addr::PersonPda(self.signer),
                        bump: self.person_bump,
                    },
                ),
            },
        );
        Ok(())
    }

    /// Provision, configure, finalize and seal the mint: compute the space
    /// and rent, create the account, write the two extensions, initialize
    /// the mint, write the metadata record, create the vault, mint the whole
    /// fixed supply into it, and clear the mint authority forever. On
    /// failure the ledger may hold partial effects, which the enclosing
    /// atomic wrapper discards — and even those touch only the signer, the
    /// mint account and the vault address; in particular the person record
    /// is never written here.
    pub fn init_token_mint(&self, ledger: &mut Ledger, params: &InitPersonTokenParams) -> (r:
        Result<(), TokenError>)
        requires
            old(ledger).wf(),
            vaults_consistent(old(ledger)@),
        ensures
            final(ledger).wf(),
            final(ledger)@.lamports_per_byte_year == old(ledger)@.lamports_per_byte_year,
            r is Ok <==> mint_stage_ok(
                old(ledger)@,
                self.signer,
                self.mint,
                params.name@,
                params.symbol@,
                params.uri@,
            ),
            r is Ok ==> mint_stage_post(
                old(ledger)@,
                final(ledger)@,
                self.signer,
                self.mint,
                params.name@,
                params.symbol@,
                params.uri@,
            ),
            r is Err ==> r->Err_0 == mint_stage_error(
                old(ledger)@,
                self.signer,
                self.mint,
                params.name@,
                params.symbol@,
                params.uri@,
            ),
            r is Err ==> unchanged_outside(
                old(ledger)@.accounts,
                final(ledger)@.accounts,
                set![
                    Addr::Key(self.signer),
                    Addr::Key(self.mint),
                    Addr::VaultAta(self.signer, self.mint),
                ],
            ),
    {
        let s = self.signer;
        let m = self.mint;
        let ghost rate = ledger@.lamports_per_byte_year;
        // Stage 1: space and rent.
        let tlv: u64 = match metadata_tlv_len_checked(&params.name, &params.symbol, &params.uri) {
            Some(v) => v,
            None => {
                return Err(TokenError::MetadataTooLarge);
            },
        };
        let total: u64 = match MINT_ACCOUNT_LEN.checked_add(tlv) {
            Some(v) => v,
            None => {
                return Err(TokenError::MetadataTooLarge);
            },
        };
        if total > MAX_MINT_ACCOUNT_LEN {
            return Err(TokenError::MetadataTooLarge);
        }
        // Stage 2: provision the mint account, funded for the grown size.
        match create_mint_account(ledger, s, m, MINT_ACCOUNT_LEN, total) {
            Ok(()) => {},
            Err(e) => {
                return Err(e);
            },
        }
        proof {
            lemma_min_balance_mono(rate, MINT_ACCOUNT_LEN, total);
        }
        // Stage 3: the two extensions, before the mint is finalized.
        match init_transfer_hook(ledger, m, Addr::PersonPda(s)) {
            Ok(()) => {},
            Err(e) => {
                return Err(e);
            },
        }
        match init_metadata_pointer(ledger, m, Addr::Key(m), Addr::Key(m)) {
            Ok(()) => {},
            Err(e) => {
                return Err(e);
            },
        }
        // Stage 4: finalize the mint, signer as temporary authority.
        match initialize_mint2(ledger, m, TOKEN_DECIMALS, Addr::Key(s)) {
            Ok(()) => {},
            Err(e) => {
                return Err(e);
            },
        }
        // Stage 5: metadata, vault, full supply, and the one-way seal.
        match write_token_metadata(ledger, m, Addr::Key(s), &params.name, &params.symbol,
            &params.uri) {
            Ok(()) => {},
            Err(e) => {
                return Err(e);
            },
        }
        match create_vault(ledger, s, s, m) {
            Ok(()) => {},
            Err(e) => {
                return Err(e);
            },
        }
        match mint_to(ledger, m, Addr::VaultAta(s, m), Addr::Key(s), TOTAL_SUPPLY) {
            Ok(()) => {},
            Err(e) => {
                return Err(e);
            },
        }
        match clear_mint_authority(ledger, m, Addr::Key(s)) {
            Ok(()) => {},
            Err(e) => {
                return Err(e);
            },
        }
        Ok(())
    }
}

/// The whole instruction as one atomic unit of work: pre-flight sizing,
/// person record creation and field write, then the mint provisioning
/// sequence. It never mutates the ledger it is given; on success it returns
/// the successor ledger, and on failure the first failing stage's error,
/// the caller keeping the old ledger — the atomic commit boundary.
pub fn init_person_token(
    ledger: &Ledger,
    accounts: &InitPersonToken,
    params: &InitPersonTokenParams,
) -> (r: Result<Ledger, TokenError>)
    requires
        ledger.wf(),
        vaults_consistent(ledger@),
    ensures
        r is Ok <==> ok_inputs(
            ledger@,
            accounts.signer,
            accounts.mint,
            params.name@,
            params.symbol@,
            params.uri@,
        ),
        r matches Ok(next) ==> next.wf() && vaults_consistent(next@) && success_post(
            ledger@,
            next@,
            accounts.signer,
            accounts.mint,
            accounts.person_bump,
            params.name@,
            params.symbol@,
            params.uri@,
        ),
        r matches Err(e) ==> e == expected_error(
            ledger@,
            accounts.signer,
            accounts.mint,
            params.name@,
            params.symbol@,
            params.uri@,
        ),
{
    let s = accounts.signer;
    let m = accounts.mint;
    // Stage 1 pre-flight: nothing is provisioned on the failing path.
    let tlv: u64 = match metadata_tlv_len_checked(&params.name, &params.symbol, &params.uri) {
        Some(v) => v,
        None => {
            return Err(TokenError::MetadataTooLarge);
        },
    };
    let total: u64 = match MINT_ACCOUNT_LEN.checked_add(tlv) {
        Some(v) => v,
        None => {
            return Err(TokenError::MetadataTooLarge);
        },
    };
    if total > MAX_MINT_ACCOUNT_LEN {
        return Err(TokenError::MetadataTooLarge);
    }
    let mut work = ledger.duplicate();
    match create_person_account(&mut work, s) {
        Ok(()) => {},
        Err(e) => {
            return Err(e);
        },
    }
    let ghost l1 = work@;
    match accounts.initialize(&mut work) {
        Ok(()) => {},
        Err(e) => {
            return Err(e);
        },
    }
    let ghost l2 = work@;
    match accounts.init_token_mint(&mut work, params) {
        Ok(()) => {},
        Err(e) => {
            return Err(e);
        },
    }
    proof {
        let pre = ledger@;
        let post = work@;
        let rate = pre.lamports_per_byte_year;
        let nm = params.name@;
        let sy = params.symbol@;
        let ur = params.uri@;
        let signer_a = Addr::Key(s);
        let mint_a = Addr::Key(m);
        let person_a = Addr::PersonPda(s);
        let vault_a = Addr::VaultAta(s, m);
        let touched = set![signer_a, mint_a, vault_a];
        // The person record survives the mint stages untouched.
        assert(l2.accounts.contains_key(person_a));
        assert(!touched.contains(person_a));
        assert(post.accounts.contains_key(person_a) && post.accounts[person_a]
            == l2.accounts[person_a]);
        assert(post.accounts[person_a] == AccountV {
            lamports: min_balance_spec(rate, PERSON_ACCOUNT_LEN) as u64,
            data: AccountDataV::Person(
                Person {
                    signer: signer_a,
                    mint: mint_a,
                    authority: person_a,
                    bump: accounts.person_bump,
                },
            ),
        });
        // The signer's balance: three rent debits in sequence.
        assert(l2.accounts[signer_a] == l1.accounts[signer_a]);
        assert(l2.accounts[signer_a].lamports == pre.accounts[signer_a].lamports
            - min_balance_spec(rate, PERSON_ACCOUNT_LEN));
        assert(post.accounts[signer_a].lamports == pre.accounts[signer_a].lamports - total_cost(
            rate,
            nm,
            sy,
            ur,
        ));
        // Nothing else moved.
        assert forall|a: Addr| #[trigger] post.accounts.contains_key(a) && !set![
            signer_a,
            mint_a,
            person_a,
            vault_a,
        ].contains(a) implies pre.accounts.contains_key(a) && post.accounts[a]
            == pre.accounts[a] by {
            assert(!touched.contains(a));
            assert(l2.accounts.contains_key(a) && post.accounts[a] == l2.accounts[a]);
        }
        assert forall|a: Addr| #[trigger] pre.accounts.contains_key(a) && !set![
            signer_a,
            mint_a,
            person_a,
            vault_a,
        ].contains(a) implies post.accounts.contains_key(a) by {
            assert(l2.accounts.contains_key(a));
            assert(!touched.contains(a));
        }
        assert(success_post(pre, post, s, m, accounts.person_bump, nm, sy, ur));
        // Vault bookkeeping stays consistent: the new vault's mint exists,
        // and every older vault's mint survives.
        assert forall|s2: u64, m2: u64| #[trigger] post.accounts.contains_key(
            Addr::VaultAta(s2, m2),
        ) implies post.accounts.contains_key(Addr::Key(m2)) by {
            if s2 == s && m2 == m {
            } else {
                assert(!touched.contains(Addr::VaultAta(s2, m2)));
                assert(l2.accounts.contains_key(Addr::VaultAta(s2, m2)));
                assert(pre.accounts.contains_key(Addr::VaultAta(s2, m2)));
                assert(pre.accounts.contains_key(Addr::Key(m2)));
                if m2 == m || m2 == s {
                } else {
                    assert(l2.accounts.contains_key(Addr::Key(m2)));
                    assert(!touched.contains(Addr::Key(m2)));
                }
            }
        }
    }
    Ok(work)
}

// ------------------------------------------------------------------
// Laws
// ------------------------------------------------------------------

/// After a successful initialization the vault holds the entire fixed
/// supply — the policy cap times the fixed scaling — and the mint's
/// authority is gone, so the supply can never grow.
pub proof fn lemma_supply_fixed(
    pre: LedgerV,
    post: LedgerV,
    s: u64,
    m: u64,
    bump: u8,
    nm: Seq<u8>,
    sy: Seq<u8>,
    ur: Seq<u8>,
)
    requires
        success_post(pre, post, s, m, bump, nm, sy, ur),
    ensures
        post.accounts[Addr::VaultAta(s, m)].data->Token_0.amount == TOKEN_LIMIT_AMOUNT
            * SUPPLY_SCALING,
        post.accounts[Addr::Key(m)].data->Mint_0.supply == TOKEN_LIMIT_AMOUNT * SUPPLY_SCALING,
        post.accounts[Addr::Key(m)].data->Mint_0.mint_authority is None,
{
}

/// A second attempt for the same signer cannot succeed: the person record
/// already stands at the derived address, and that is the reported error
/// whenever the new metadata is not itself oversized (oversized metadata
/// sees the pre-flight sizing error, which precedes everything else). The
/// failed attempt also leaves the first run's state untouched:
/// `init_person_token` borrows the ledger immutably and yields a successor
/// ledger only on success, so a rejected call changes nothing.
pub proof fn lemma_second_attempt_fails(
    pre: LedgerV,
    post: LedgerV,
    s: u64,
    m: u64,
    bump: u8,
    nm: Seq<u8>,
    sy: Seq<u8>,
    ur: Seq<u8>,
    m2: u64,
    nm2: Seq<u8>,
    sy2: Seq<u8>,
    ur2: Seq<u8>,
)
    requires
        success_post(pre, post, s, m, bump, nm, sy, ur),
    ensures
        !ok_inputs(post, s, m2, nm2, sy2, ur2),
        sizing_fits(nm2, sy2, ur2) ==> expected_error(post, s, m2, nm2, sy2, ur2)
            == TokenError::PersonAlreadyInitialized,
{
    assert(post.accounts.contains_key(Addr::PersonPda(s)));
}

/// The stored metadata record holds the supplied name, symbol and uri
/// verbatim; oversized fields are instead rejected at the sizing stage,
/// before anything is provisioned.
pub proof fn lemma_metadata_verbatim(
    pre: LedgerV,
    post: LedgerV,
    s: u64,
    m: u64,
    bump: u8,
    nm: Seq<u8>,
    sy: Seq<u8>,
    ur: Seq<u8>,
)
    requires
        success_post(pre, post, s, m, bump, nm, sy, ur),
    ensures
        post.accounts[Addr::Key(m)].data->Mint_0.metadata matches Some(r) && r.name == nm
            && r.symbol == sy && r.uri == ur && r.update_authority == Some(Addr::Key(s))
            && r.mint == Addr::Key(m),
{
}

/// Oversized metadata fails at the sizing stage, whatever else the ledger
/// holds: the instruction reports it and succeeds on no such input.
pub proof fn lemma_oversized_rejected(l: LedgerV, s: u64, m: u64, nm: Seq<u8>, sy: Seq<u8>, ur: Seq<u8>)
    requires
        !sizing_fits(nm, sy, ur),
    ensures
        !ok_inputs(l, s, m, nm, sy, ur),
        expected_error(l, s, m, nm, sy, ur) == TokenError::MetadataTooLarge,
{
}

/// After success the mint's transfer-hook authority is the person record's
/// address, and the metadata pointer names the mint itself, both as
/// authority and as storage location.
pub proof fn lemma_extension_configuration(
    pre: LedgerV,
    post: LedgerV,
    s: u64,
    m: u64,
    bump: u8,
    nm: Seq<u8>,
    sy: Seq<u8>,
    ur: Seq<u8>,
)
    requires
        success_post(pre, post, s, m, bump, nm, sy, ur),
    ensures
        post.accounts[Addr::Key(m)].data->Mint_0.transfer_hook_authority == Some(
            Addr::PersonPda(s),
        ),
        post.accounts[Addr::Key(m)].data->Mint_0.transfer_hook_program is None,
        post.accounts[Addr::Key(m)].data->Mint_0.metadata_pointer_authority == Some(Addr::Key(m)),
        post.accounts[Addr::Key(m)].data->Mint_0.metadata_pointer == Some(Addr::Key(m)),
{
}

/// The vault is owned by the person record, never by the human signer's
/// own key.
pub proof fn lemma_vault_owned_by_person(
    pre: LedgerV,
    post: LedgerV,
    s: u64,
    m: u64,
    bump: u8,
    nm: Seq<u8>,
    sy: Seq<u8>,
    ur: Seq<u8>,
)
    requires
        success_post(pre, post, s, m, bump, nm, sy, ur),
    ensures
        post.accounts[Addr::VaultAta(s, m)].data->Token_0.owner == Addr::PersonPda(s),
        post.accounts[Addr::VaultAta(s, m)].data->Token_0.owner != Addr::Key(s),
{
}

} // verus!
