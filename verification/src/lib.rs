//! Verified core of the RemitWise contracts: remittance splitting, bill
//! payments, insurance policies, savings goals and a multi-signature family
//! wallet, each modelled as a state machine over plain values.
use vstd::prelude::*;

pub mod address;
pub mod admin;
pub mod bill_payments;
pub mod events;
pub mod family_wallet;
pub mod id_map;
pub mod insurance;
pub mod remittance_split;
pub mod savings_goals;
pub mod schedule;

verus! {

} // verus!
