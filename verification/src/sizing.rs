use vstd::prelude::*;
use crate::ledger::min_balance_spec;
use solana_program::pubkey::Pubkey;
use solana_program::rent::Rent;
use spl_pod::optional_keys::OptionalNonZeroPubkey;
use spl_token_2022::extension::ExtensionType;
use spl_token_2022::state::Mint;
use spl_token_metadata_interface::state::TokenMetadata;

verus! {

/// Byte length of a mint account carrying exactly the metadata-pointer and
/// transfer-hook extensions: 165 base bytes, 1 account-type byte, and two
/// type-length-value entries of 2 + 2 + 64 bytes each.
pub const MINT_ACCOUNT_LEN: u64 = 302;

/// Bytes the metadata record adds beyond its three variable strings: 12 for
/// the record's own type-length-value header, 64 for the two keys, 12 for
/// the three string length prefixes, 4 for the annotation list length, 16
/// for the four annotation length prefixes, and 18 for the fixed annotation
/// text itself.
pub const METADATA_TLV_OVERHEAD: u64 = 126;

/// The largest data length the base account-creation program will allocate.
pub const MAX_MINT_ACCOUNT_LEN: u64 = 10485760;

/// The default rent schedule's lamports per byte-year.
pub const DEFAULT_LAMPORTS_PER_BYTE_YEAR: u64 = 3480;

/// Serialized length of the metadata record's trailing variable-length
/// field, for this protocol's fixed annotation set.
pub open spec fn metadata_tlv_len(name: Seq<u8>, symbol: Seq<u8>, uri: Seq<u8>) -> int {
    METADATA_TLV_OVERHEAD + name.len() + symbol.len() + uri.len()
}

/// Whether a metadata record of these field lengths still fits in an
/// account the base program can allocate.
pub open spec fn sizing_fits(name: Seq<u8>, symbol: Seq<u8>, uri: Seq<u8>) -> bool {
    MINT_ACCOUNT_LEN + metadata_tlv_len(name, symbol, uri) <= MAX_MINT_ACCOUNT_LEN
}

pub open spec fn ascii_bytes(s: Seq<u8>) -> bool {
    forall|i: int| 0 <= i < s.len() ==> s[i] < 128
}

// ------------------------------------------------------------------
// The fixed annotation pairs: issuer tag and schema version.
// ------------------------------------------------------------------

pub open spec fn issuer_key_bytes() -> Seq<u8> {
    seq![105u8, 115u8, 115u8, 117u8, 101u8, 114u8]
}

pub open spec fn issuer_value_bytes() -> Seq<u8> {
    seq![109u8, 101u8, 116u8, 102u8]
}

pub open spec fn version_key_bytes() -> Seq<u8> {
    seq![118u8, 101u8, 114u8, 115u8, 105u8, 111u8, 110u8]
}

pub open spec fn version_value_bytes() -> Seq<u8> {
    seq![49u8]
}

/// The annotation key "issuer", as bytes.
pub fn issuer_key() -> (r: Vec<u8>)
    ensures
        r@ == issuer_key_bytes(),
{
    let mut v: Vec<u8> = Vec::new();
    v.push(105u8);
    v.push(115u8);
    v.push(115u8);
    v.push(117u8);
    v.push(101u8);
    v.push(114u8);
    proof {
        assert(v@ =~= issuer_key_bytes());
    }
    v
}

/// The annotation value "metf", as bytes.
pub fn issuer_value() -> (r: Vec<u8>)
    ensures
        r@ == issuer_value_bytes(),
{
    let mut v: Vec<u8> = Vec::new();
    v.push(109u8);
    v.push(101u8);
    v.push(116u8);
    v.push(102u8);
    proof {
        assert(v@ =~= issuer_value_bytes());
    }
    v
}

/// The annotation key "version", as bytes.
pub fn version_key() -> (r: Vec<u8>)
    ensures
        r@ == version_key_bytes(),
{
    let mut v: Vec<u8> = Vec::new();
    v.push(118u8);
    v.push(101u8);
    v.push(114u8);
    v.push(115u8);
    v.push(105u8);
    v.push(111u8);
    v.push(110u8);
    proof {
        assert(v@ =~= version_key_bytes());
    }
    v
}

/// The annotation value "1", as bytes.
pub fn version_value() -> (r: Vec<u8>)
    ensures
        r@ == version_value_bytes(),
{
    let mut v: Vec<u8> = Vec::new();
    v.push(49u8);
    proof {
        assert(v@ =~= version_value_bytes());
    }
    v
}

/// The metadata record's serialized length, by the model's arithmetic.
pub fn metadata_tlv_len_checked(name: &Vec<u8>, symbol: &Vec<u8>, uri: &Vec<u8>) -> (r: Option<
    u64,
>)
    ensures
        match r {
            Some(v) => v == metadata_tlv_len(name@, symbol@, uri@),
            None => metadata_tlv_len(name@, symbol@, uri@) > u64::MAX,
        },
{
    let n = name.len() as u64;
    let s = symbol.len() as u64;
    let u = uri.len() as u64;
    match n.checked_add(s) {
        Some(ns) => match ns.checked_add(u) {
            Some(nsu) => nsu.checked_add(METADATA_TLV_OVERHEAD),
            None => None,
        },
        None => None,
    }
}

// ------------------------------------------------------------------
// Trusted bridge to the token program's own size and rent arithmetic.
// ------------------------------------------------------------------

#[verifier::external_type_specification]
#[verifier::external_body]
pub struct ExPubkey(Pubkey);

#[verifier::external_type_specification]
#[verifier::external_body]
pub struct ExOptionalNonZeroPubkey(OptionalNonZeroPubkey);

/// The extension set a mint can be provisioned with here.
#[derive(Clone, Copy, PartialEq, Eq, Structural, Debug)]
pub enum MintExtensionKind {
    MetadataPointer,
    TransferHook,
}

/// Relies on `Pubkey::default` (the all-zero address); used only to fill the
/// key fields of a record whose serialized size is being measured, which
/// does not depend on them.
#[verifier::external_body]
fn zero_pubkey() -> Pubkey {
    Pubkey::default()
}

/// Relies on `OptionalNonZeroPubkey::default` (the absent key); used the
/// same way.
#[verifier::external_body]
fn no_update_authority() -> OptionalNonZeroPubkey {
    OptionalNonZeroPubkey::default()
}

/// Relies on `ExtensionType::try_calculate_account_len::<Mint>`: for the
/// fixed {metadata pointer, transfer hook} set it returns 165 (base account
/// length) + 1 (account type) + 2 * (2 + 2 + 64) = 302, the two extensions
/// being fixed-length records of two 32-byte keys each.
#[verifier::external_body]
fn spl_mint_account_len(exts: &Vec<MintExtensionKind>) -> (r: Option<u64>)
    ensures
        exts@ == seq![MintExtensionKind::MetadataPointer, MintExtensionKind::TransferHook]
            ==> r == Some(MINT_ACCOUNT_LEN),
{
    let mapped: Vec<ExtensionType> = exts.iter().map(|e| match e {
        MintExtensionKind::MetadataPointer => ExtensionType::MetadataPointer,
        MintExtensionKind::TransferHook => ExtensionType::TransferHook,
    }).collect();
    match ExtensionType::try_calculate_account_len::<Mint>(&mapped) {
        Ok(n) => u64::try_from(n).ok(),
        Err(_) => None,
    }
}

/// Relies on `TokenMetadata::tlv_size_of`: 12 header bytes plus the
/// borsh-serialized record, whose length is 32 + 32 for the two keys and a
/// 4-byte length prefix plus the bytes themselves for each of the three
/// strings, the annotation list and each annotation string — 108 bytes plus
/// the seven byte strings, counted in bytes. `None` only when a string is
/// not valid UTF-8 (the record cannot be built) or the total overflows.
#[verifier::external_body]
fn spl_metadata_tlv_size(
    update_authority: &OptionalNonZeroPubkey,
    mint: &Pubkey,
    name: &Vec<u8>,
    symbol: &Vec<u8>,
    uri: &Vec<u8>,
    key1: &Vec<u8>,
    val1: &Vec<u8>,
    key2: &Vec<u8>,
    val2: &Vec<u8>,
) -> (r: Option<u64>)
    ensures
        r matches Some(n) ==> n == 108 + name@.len() + symbol@.len() + uri@.len() + key1@.len()
            + val1@.len() + key2@.len() + val2@.len(),
        (ascii_bytes(name@) && ascii_bytes(symbol@) && ascii_bytes(uri@) && ascii_bytes(key1@)
            && ascii_bytes(val1@) && ascii_bytes(key2@) && ascii_bytes(val2@) && name@.len()
            + symbol@.len() + uri@.len() + key1@.len() + val1@.len() + key2@.len() + val2@.len()
            < 0x10000000) ==> r is Some,
{
    let s = |v: &Vec<u8>| String::from_utf8(v.clone()).ok();
    let metadata = TokenMetadata {
        update_authority: *update_authority,
        mint: *mint,
        name: s(name)?,
        symbol: s(symbol)?,
        uri: s(uri)?,
        additional_metadata: vec![(s(key1)?, s(val1)?), (s(key2)?, s(val2)?)],
    };
    match metadata.tlv_size_of() {
        Ok(n) => u64::try_from(n).ok(),
        Err(_) => None,
    }
}

/// Relies on `Rent::default` and `Rent::minimum_balance`: under the default
/// schedule (3480 lamports per byte-year, 2.0-year exemption threshold) the
/// minimum balance is (128 + data_len) * 3480 * 2; the length bound keeps
/// the double-precision step of that computation exact.
#[verifier::external_body]
fn spl_default_rent_minimum(data_len: u64) -> (r: u64)
    requires
        data_len <= MAX_MINT_ACCOUNT_LEN,
    ensures
        r == min_balance_spec(DEFAULT_LAMPORTS_PER_BYTE_YEAR, data_len),
{
    Rent::default().minimum_balance(data_len as usize)
}

// ------------------------------------------------------------------
// The space & rent calculator, proved to agree with the model.
// ------------------------------------------------------------------

/// What the account provisioner needs: the mint account's initial size, the
/// extra bytes the metadata record will occupy, and the lamports that keep
/// the grown account rent-exempt under the default schedule.
pub struct SpaceQuote {
    pub account_len: u64,
    pub metadata_len: u64,
    pub lamports: u64,
}

/// Compute the exact account size and rent-exemption balance for a mint
/// carrying the fixed extension set and a metadata record with these
/// fields, using the token program's own arithmetic, proved equal to the
/// model's. `None` exactly when the record does not fit an allocatable
/// account, and also when a field is not valid UTF-8 text.
pub fn space_and_rent(name: &Vec<u8>, symbol: &Vec<u8>, uri: &Vec<u8>) -> (r: Option<SpaceQuote>)
    ensures
        r matches Some(q) ==> sizing_fits(name@, symbol@, uri@) && q.account_len
            == MINT_ACCOUNT_LEN && q.metadata_len == metadata_tlv_len(name@, symbol@, uri@)
            && q.lamports == min_balance_spec(
            DEFAULT_LAMPORTS_PER_BYTE_YEAR,
            (MINT_ACCOUNT_LEN + metadata_tlv_len(name@, symbol@, uri@)) as u64,
        ),
        !sizing_fits(name@, symbol@, uri@) ==> r is None,
        ascii_bytes(name@) && ascii_bytes(symbol@) && ascii_bytes(uri@) && sizing_fits(
            name@,
            symbol@,
            uri@,
        ) ==> r is Some,
{
    let mut exts: Vec<MintExtensionKind> = Vec::new();
    exts.push(MintExtensionKind::MetadataPointer);
    exts.push(MintExtensionKind::TransferHook);
    proof {
        assert(exts@ =~= seq![
            MintExtensionKind::MetadataPointer,
            MintExtensionKind::TransferHook,
        ]);
    }
    let account_len = match spl_mint_account_len(&exts) {
        Some(n) => n,
        None => {
            return None;
        },
    };
    let ua = no_update_authority();
    let zk = zero_pubkey();
    let ik = issuer_key();
    let iv = issuer_value();
    let vk = version_key();
    let vv = version_value();
    let tlv = match spl_metadata_tlv_size(&ua, &zk, name, symbol, uri, &ik, &iv, &vk, &vv) {
        Some(n) => n,
        None => {
            return None;
        },
    };
    let total = match account_len.checked_add(tlv) {
        Some(t) => t,
        None => {
            return None;
        },
    };
    if total > MAX_MINT_ACCOUNT_LEN {
        return None;
    }
    let lamports = spl_default_rent_minimum(total);
    Some(SpaceQuote { account_len, metadata_len: tlv, lamports })
}

} // verus!
