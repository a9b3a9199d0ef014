//! The record kept for each ingested transaction.

use vstd::prelude::*;

verus! {

/// The mathematical value of a [`TransactionDetails`].
pub struct DetailsView {
    pub sender: Seq<char>,
    pub receiver: Seq<char>,
    pub data: Seq<char>,
    pub timestamp: int,
}

/// What is known of one transaction: who sent it, who received it, its
/// payload, and when the ledger recorded it, in seconds since the Unix epoch.
#[derive(Debug)]
pub struct TransactionDetails {
    pub sender: String,
    pub receiver: String,
    pub data: String,
    pub timestamp: i64,
}

impl View for TransactionDetails {
    type V = DetailsView;

    open spec fn view(&self) -> DetailsView {
        DetailsView {
            sender: self.sender@,
            receiver: self.receiver@,
            data: self.data@,
            timestamp: self.timestamp as int,
        }
    }
}

impl Clone for TransactionDetails {
    fn clone(&self) -> (copy: Self)
        ensures
            copy@ == self@,
    {
        TransactionDetails {
            sender: self.sender.clone(),
            receiver: self.receiver.clone(),
            data: self.data.clone(),
            timestamp: self.timestamp,
        }
    }
}

} // verus!
