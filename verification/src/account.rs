use vstd::prelude::*;
use crate::addr::Addr;

verus! {

// ------------------------------------------------------------------
// Spec-level account model
// ------------------------------------------------------------------

/// One additional metadata annotation, at the spec level.
pub struct MetadataPairV {
    pub key: Seq<u8>,
    pub value: Seq<u8>,
}

/// The token metadata record, at the spec level.
pub struct TokenMetadataRecordV {
    pub update_authority: Option<Addr>,
    pub mint: Addr,
    pub name: Seq<u8>,
    pub symbol: Seq<u8>,
    pub uri: Seq<u8>,
    pub additional: Seq<MetadataPairV>,
}

/// A mint account, at the spec level.
pub struct MintDataV {
    pub len: u64,
    pub is_initialized: bool,
    pub decimals: u8,
    pub supply: u64,
    pub mint_authority: Option<Addr>,
    pub freeze_authority: Option<Addr>,
    pub transfer_hook_authority: Option<Addr>,
    pub transfer_hook_program: Option<Addr>,
    pub metadata_pointer_authority: Option<Addr>,
    pub metadata_pointer: Option<Addr>,
    pub metadata: Option<TokenMetadataRecordV>,
}

/// What an account's data holds, at the spec level.
pub enum AccountDataV {
    System,
    Mint(MintDataV),
    Person(Person),
    Token(TokenData),
}

/// An account, at the spec level.
pub struct AccountV {
    pub lamports: u64,
    pub data: AccountDataV,
}

// ------------------------------------------------------------------
// Executable account model
// ------------------------------------------------------------------

/// One additional metadata annotation: a key and a value, both byte strings.
#[derive(PartialEq, Eq, Debug)]
pub struct MetadataPair {
    pub key: Vec<u8>,
    pub value: Vec<u8>,
}

/// The token metadata record embedded in the mint's extension storage.
#[derive(PartialEq, Eq, Debug)]
pub struct TokenMetadataRecord {
    /// Who may edit the record later; set to the human signer.
    pub update_authority: Option<Addr>,
    /// Back-reference to the mint the record belongs to.
    pub mint: Addr,
    pub name: Vec<u8>,
    pub symbol: Vec<u8>,
    pub uri: Vec<u8>,
    /// The fixed annotation pairs (issuer tag, schema version).
    pub additional: Vec<MetadataPair>,
}

/// A mint account owned by the token program. Freshly provisioned mints are
/// `is_initialized == false`; extensions may only be configured while in that
/// state, and the layout is sealed when the mint is initialized.
#[derive(PartialEq, Eq, Debug)]
pub struct MintData {
    /// Allocated data length in bytes; grows when the metadata record is
    /// written.
    pub len: u64,
    pub is_initialized: bool,
    pub decimals: u8,
    pub supply: u64,
    /// `None` forever once cleared: supply is then fixed.
    pub mint_authority: Option<Addr>,
    pub freeze_authority: Option<Addr>,
    pub transfer_hook_authority: Option<Addr>,
    pub transfer_hook_program: Option<Addr>,
    pub metadata_pointer_authority: Option<Addr>,
    pub metadata_pointer: Option<Addr>,
    pub metadata: Option<TokenMetadataRecord>,
}

/// The per-signer person record.
#[derive(Clone, Copy, PartialEq, Eq, Structural, Debug)]
pub struct Person {
    pub signer: Addr,
    pub mint: Addr,
    pub authority: Addr,
    pub bump: u8,
}

/// A token holding account: the vault.
#[derive(Clone, Copy, PartialEq, Eq, Structural, Debug)]
pub struct TokenData {
    /// The owner whose authority gates movement out of the account.
    pub owner: Addr,
    pub mint: Addr,
    pub amount: u64,
}

/// What an account's data holds.
#[derive(PartialEq, Eq, Debug)]
pub enum AccountData {
    /// A plain system-owned account (a wallet); no data.
    System,
    Mint(MintData),
    Person(Person),
    Token(TokenData),
}

/// An account: its balance and its data.
#[derive(PartialEq, Eq, Debug)]
pub struct Account {
    pub lamports: u64,
    pub data: AccountData,
}

// ------------------------------------------------------------------
// Views
// ------------------------------------------------------------------

impl View for MetadataPair {
    type V = MetadataPairV;

    open spec fn view(&self) -> MetadataPairV {
        MetadataPairV { key: self.key@, value: self.value@ }
    }
}

impl View for TokenMetadataRecord {
    type V = TokenMetadataRecordV;

    open spec fn view(&self) -> TokenMetadataRecordV {
        TokenMetadataRecordV {
            update_authority: self.update_authority,
            mint: self.mint,
            name: self.name@,
            symbol: self.symbol@,
            uri: self.uri@,
            additional: self.additional@.map_values(|p: MetadataPair| p@),
        }
    }
}

impl View for MintData {
    type V = MintDataV;

    open spec fn view(&self) -> MintDataV {
        MintDataV {
            len: self.len,
            is_initialized: self.is_initialized,
            decimals: self.decimals,
            supply: self.supply,
            mint_authority: self.mint_authority,
            freeze_authority: self.freeze_authority,
            transfer_hook_authority: self.transfer_hook_authority,
            transfer_hook_program: self.transfer_hook_program,
            metadata_pointer_authority: self.metadata_pointer_authority,
            metadata_pointer: self.metadata_pointer,
            metadata: if self.metadata is Some {
                Some(self.metadata->Some_0@)
            } else {
                None
            },
        }
    }
}

impl View for AccountData {
    type V = AccountDataV;

    open spec fn view(&self) -> AccountDataV {
        match self {
            AccountData::System => AccountDataV::System,
            AccountData::Mint(m) => AccountDataV::Mint(m@),
            AccountData::Person(p) => AccountDataV::Person(*p),
            AccountData::Token(t) => AccountDataV::Token(*t),
        }
    }
}

impl View for Account {
    type V = AccountV;

    open spec fn view(&self) -> AccountV {
        AccountV { lamports: self.lamports, data: self.data@ }
    }
}

// ------------------------------------------------------------------
// Deep copies with known views
// ------------------------------------------------------------------

/// Copy a byte string; the copy's view equals the original's.
pub fn dup_bytes(v: &Vec<u8>) -> (r: Vec<u8>)
    ensures
        r@ == v@,
{
    let r = v.clone();
    proof {
        assert(r@ =~= v@);
    }
    r
}

impl MetadataPair {
    pub fn duplicate(&self) -> (r: MetadataPair)
        ensures
            r@ == self@,
    {
        MetadataPair { key: dup_bytes(&self.key), value: dup_bytes(&self.value) }
    }
}

impl TokenMetadataRecord {
    pub fn duplicate(&self) -> (r: TokenMetadataRecord)
        ensures
            r@ == self@,
    {
        let mut additional: Vec<MetadataPair> = Vec::new();
        let mut i: usize = 0;
        while i < self.additional.len()
            invariant
                i <= self.additional.len(),
                additional@.len() == i as int,
                forall|k: int| 0 <= k < i ==> additional@[k]@ == self.additional@[k]@,
            decreases self.additional.len() - i,
        {
            additional.push(self.additional[i].duplicate());
            i = i + 1;
        }
        let r = TokenMetadataRecord {
            update_authority: self.update_authority,
            mint: self.mint,
            name: dup_bytes(&self.name),
            symbol: dup_bytes(&self.symbol),
            uri: dup_bytes(&self.uri),
            additional,
        };
        proof {
            assert(r@.additional =~= self@.additional);
        }
        r
    }
}

impl MintData {
    pub fn duplicate(&self) -> (r: MintData)
        ensures
            r@ == self@,
    {
        MintData {
            len: self.len,
            is_initialized: self.is_initialized,
            decimals: self.decimals,
            supply: self.supply,
            mint_authority: self.mint_authority,
            freeze_authority: self.freeze_authority,
            transfer_hook_authority: self.transfer_hook_authority,
            transfer_hook_program: self.transfer_hook_program,
            metadata_pointer_authority: self.metadata_pointer_authority,
            metadata_pointer: self.metadata_pointer,
            metadata: match &self.metadata {
                Some(m) => Some(m.duplicate()),
                None => None,
            },
        }
    }
}

impl Account {
    pub fn duplicate(&self) -> (r: Account)
        ensures
            r@ == self@,
    {
        Account {
            lamports: self.lamports,
            data: match &self.data {
                AccountData::System => AccountData::System,
                AccountData::Mint(m) => AccountData::Mint(m.duplicate()),
                AccountData::Person(p) => AccountData::Person(*p),
                AccountData::Token(t) => AccountData::Token(*t),
            },
        }
    }
}

} // verus!
