//! Packets handed over by the upstream source.

use vstd::prelude::*;
use solana_sdk::transaction::VersionedTransaction;
use crate::address::Destination;

verus! {

/// `solana_sdk::transaction::VersionedTransaction`: a signed transaction.
/// This crate carries it and never looks inside.
#[verifier::external_type_specification]
#[verifier::external_body]
pub struct ExVersionedTransaction(VersionedTransaction);

/// Transactions bound for one destination.
#[derive(Clone, Debug)]
pub struct ForwardPacket {
    pub tpu_address: Destination,
    pub transactions: Vec<VersionedTransaction>,
}

/// The transactions of `packets`, joined in the order the packets stand in.
pub open spec fn concat_transactions(packets: Seq<ForwardPacket>) -> Seq<VersionedTransaction>
    decreases packets.len(),
{
    if packets.len() == 0 {
        Seq::empty()
    } else {
        concat_transactions(packets.drop_last()) + packets.last().transactions@
    }
}

/// Whether every packet of `packets` is bound for `destination`.
pub open spec fn all_bound_for(packets: Seq<ForwardPacket>, destination: Destination) -> bool {
    forall|i: int| 0 <= i < packets.len() ==> (#[trigger] packets[i]).tpu_address == destination
}

} // verus!
