//! Transaction identifiers: the 64-byte signatures that the ledger issues.

use solana_sdk::signature::Signature;
use std::str::FromStr;
use vstd::prelude::*;

verus! {

/// The bytes that a signature text stands for, or `None` where the text is
/// no signature in the ledger's base58 format.
pub uninterp spec fn decoded_signature(text: Seq<char>) -> Option<Seq<u8>>;

/// The identifier that the ledger assigns to a transaction.
#[derive(Clone, Copy, Debug, PartialEq, Eq, Hash)]
pub struct TransactionId {
    pub bytes: [u8; 64],
}

impl View for TransactionId {
    type V = Seq<u8>;

    open spec fn view(&self) -> Seq<u8> {
        self.bytes@
    }
}

/// Calls `Signature::from_str` of solana-sdk, which decodes base58 text and
/// accepts it only where it holds exactly 64 bytes. The contract claims that
/// the bytes handed back are a function of the text alone, and names it.
#[verifier::external_body]
fn decode_signature(text: &str) -> (decoded: Option<[u8; 64]>)
    ensures
        decoded matches Some(bytes) ==> decoded_signature(text@) == Some(bytes@),
        decoded is None ==> decoded_signature(text@) is None,
{
    match Signature::from_str(text) {
        Ok(signature) => Some(signature.into()),
        Err(_) => None,
    }
}

impl TransactionId {
    /// Reads an identifier from its text form.
    pub fn parse(text: &str) -> (parsed: Option<TransactionId>)
        ensures
            parsed matches Some(id) ==> decoded_signature(text@) == Some(id@),
            parsed is None <==> decoded_signature(text@) is None,
    {
        match decode_signature(text) {
            Some(bytes) => Some(TransactionId { bytes }),
            None => None,
        }
    }

    /// Whether two identifiers hold the same bytes.
    pub fn same(&self, other: &TransactionId) -> (equal: bool)
        ensures
            equal == (self@ == other@),
    {
        let mut i: usize = 0;
        while i < 64
            invariant
                i <= 64,
                forall|k: int| 0 <= k < i ==> self@[k] == other@[k],
            decreases 64 - i,
        {
            if self.bytes[i] != other.bytes[i] {
                return false;
            }
            i += 1;
        }
        assert(self@ =~= other@);
        true
    }
}

} // verus!
