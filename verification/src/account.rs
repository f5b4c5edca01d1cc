//! Account addresses and transaction signatures.
//!
//! Both are fixed-size binary identifiers. The detection logic only compares
//! accounts and carries signatures through; their base58 text forms come from
//! `solana_sdk` and are named here, not restated.

use solana_sdk::pubkey::{ParsePubkeyError, Pubkey};
use solana_sdk::signature::Signature;
use std::str::FromStr;
use vstd::prelude::*;

verus! {

/// An account, identified by its 32-byte public key.
#[derive(Clone, Copy, Debug, PartialEq, Eq, Hash)]
pub struct Account {
    pub bytes: [u8; 32],
}

/// The signature that identifies a transaction in reports.
#[derive(Clone, Copy, Debug, PartialEq, Eq, Hash)]
pub struct TransactionSignature {
    pub bytes: [u8; 64],
}

/// Why an address string is not an account address.
#[derive(Clone, Copy, Debug, PartialEq, Eq, Structural)]
pub enum AddressError {
    /// The string is too long, or does not decode to exactly 32 bytes.
    WrongSize,
    /// The string is not base58.
    Invalid,
}

impl View for Account {
    type V = Seq<u8>;

    open spec fn view(&self) -> Seq<u8> {
        self.bytes@
    }
}

impl View for TransactionSignature {
    type V = Seq<u8>;

    open spec fn view(&self) -> Seq<u8> {
        self.bytes@
    }
}

/// What `Pubkey::from_str` makes of an address string: the account with the
/// key's 32 bytes, or the reason the string is refused.
pub uninterp spec fn parsed_address(text: Seq<char>) -> Result<Account, AddressError>;

/// The base58 text that `Pubkey`'s `Display` gives for the 32 bytes of a key.
pub uninterp spec fn address_text(bytes: Seq<u8>) -> Seq<char>;

/// The base58 text that `Signature`'s `Display` gives for the 64 bytes of a
/// signature.
pub uninterp spec fn signature_text(bytes: Seq<u8>) -> Seq<char>;

/// Two accounts with the same bytes are the same account.
pub proof fn lemma_account_by_bytes(a: Account, b: Account)
    requires
        a@ == b@,
    ensures
        a == b,
{
    broadcast use vstd::array::group_array_axioms;

    assert(a.bytes =~= b.bytes);
}

impl Account {
    pub fn new(bytes: [u8; 32]) -> (account: Account)
        ensures
            account.bytes == bytes,
    {
        Account { bytes }
    }

    /// Reads an account from its base58 address.
    ///
    /// Calls `Pubkey::from_str`; the contract names its result and tells the
    /// two refusals of `ParsePubkeyError` apart.
    #[verifier::external_body]
    pub(crate) fn parse(text: &str) -> (r: Result<Account, AddressError>)
        ensures
            r == parsed_address(text@),
    {
        match Pubkey::from_str(text) {
            Ok(key) => Ok(Account { bytes: key.to_bytes() }),
            Err(ParsePubkeyError::WrongSize) => Err(AddressError::WrongSize),
            Err(ParsePubkeyError::Invalid) => Err(AddressError::Invalid),
        }
    }

    /// The base58 address of the account.
    ///
    /// Calls `Pubkey`'s `Display` through `to_string`; the contract names its
    /// result.
    #[verifier::external_body]
    pub(crate) fn address(&self) -> (text: String)
        ensures
            text@ == address_text(self@),
    {
        Pubkey::new_from_array(self.bytes).to_string()
    }
}

impl TransactionSignature {
    pub fn new(bytes: [u8; 64]) -> (signature: TransactionSignature)
        ensures
            signature.bytes == bytes,
    {
        TransactionSignature { bytes }
    }

    /// The base58 text of the signature.
    ///
    /// Calls `Signature`'s `Display` through `to_string`; the contract names
    /// its result.
    #[verifier::external_body]
    pub(crate) fn text(&self) -> (text: String)
        ensures
            text@ == signature_text(self@),
    {
        Signature::from(self.bytes).to_string()
    }
}

} // verus!
