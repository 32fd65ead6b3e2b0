use vstd::prelude::*;

verus! {

/// An on-ledger address. The protocol never inspects the raw 32 bytes of an
/// address; it only compares addresses and derives two kinds of them
/// deterministically. The derivation scheme's collision avoidance is modelled
/// by making each derived form its own constructor, disjoint from plain keys
/// by construction.
#[derive(Clone, Copy, PartialEq, Eq, Structural, Debug)]
pub enum Addr {
    /// An address held by an ordinary keypair, identified by a key id.
    Key(u64),
    /// The person record address, derived from the fixed person seed and the
    /// signer's key.
    PersonPda(u64),
    /// The associated token address of the vault, derived from the person
    /// record of the signer and the mint key.
    VaultAta(u64, u64),
}

} // verus!
