//! The types of the `quiche` crate that pass through this library. Each is
//! opaque to the verifier: a value is carried from one call to the next and
//! nothing is known of what it holds.

use vstd::prelude::*;

verus! {

/// `quiche::Error`, the failure of any engine call.
#[verifier::external_type_specification]
#[verifier::external_body]
pub struct ExError(quiche::Error);

/// `quiche::Config`, the transport configuration in the form the engine reads.
#[verifier::external_type_specification]
#[verifier::external_body]
pub struct ExConfig(quiche::Config);

/// `quiche::RecvInfo`, the pair of addresses a datagram travelled between.
#[verifier::external_type_specification]
#[verifier::external_body]
pub struct ExRecvInfo(quiche::RecvInfo);

/// `quiche::SendInfo`, the addresses and pacing time of an outgoing packet.
#[verifier::external_type_specification]
#[verifier::external_body]
pub struct ExSendInfo(quiche::SendInfo);

} // verus!
