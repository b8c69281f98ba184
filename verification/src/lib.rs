//! Economically backed block authors: enrolment, funding, rewards and
//! penalties, probation, and the storage side of elections.

pub mod perbill;
pub mod keys;
pub mod table;
pub mod types;
pub mod adapter;
pub mod pallet;
pub mod hooks;
pub mod probation;
pub mod compensation;
pub mod roles;
pub mod funding;
pub mod election;
pub mod calls;
pub mod laws;
