//! How the voting ledger presents itself to the host.

use vstd::prelude::*;

use crate::crypto::Digest;
use crate::schema::SwarmSchema;

verus! {

/// The number under which the host files the service.
pub const SERVICE_ID: u16 = 128;

/// The name under which the host files the service.
pub const SERVICE_NAME: &'static str = "voting";

/// The voting service.
#[derive(Debug)]
pub struct VotingService;

impl VotingService {
    /// The name of the service.
    pub fn service_name(&self) -> (name: &'static str)
        ensures
            name@ == SERVICE_NAME@,
    {
        SERVICE_NAME
    }

    /// The number of the service.
    pub fn service_id(&self) -> (id: u16)
        ensures
            id == SERVICE_ID,
    {
        SERVICE_ID
    }

    /// What the service contributes to the host's state commitment, where
    /// `votings_root` is the root that the host computed over all records.
    pub fn state_hash(&self, votings_root: &Digest) -> (roots: Vec<Digest>)
        ensures
            roots@ == seq![*votings_root],
    {
        SwarmSchema::state_hash(votings_root)
    }
}

/// Makes the voting service for a host.
#[derive(Debug)]
pub struct ServiceFactory;

impl ServiceFactory {
    /// The name of the service that the factory makes.
    pub fn service_name(&self) -> (name: &'static str)
        ensures
            name@ == SERVICE_NAME@,
    {
        SERVICE_NAME
    }
}

} // verus!
