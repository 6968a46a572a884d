//! A ledger of votings: drones open votings on subjects, validators vote on
//! them once each, and every change is entered in the subject's history log.

use vstd::prelude::*;

pub mod api;
pub mod crypto;
pub mod invariants;
pub mod schema;
pub mod service;
pub mod transactions;
pub mod voting;
