//! The two transactions that change the ledger, and the errors they raise.

use vstd::prelude::*;

use crate::crypto::{Digest, PublicKey};
use crate::invariants::{create_voting_keeps_wf, vote_keeps_wf};
use crate::schema::{LedgerView, SwarmSchema};
use crate::voting::{has_voted, VotingAction, VotingView, Voting};

verus! {

/// Why a transaction was not applied.
#[derive(Clone, Copy, Debug, PartialEq, Eq, Structural)]
pub enum Error {
    /// A voting on the subject is already open.
    VotingAlreadyExists,
    /// No voting on the subject is open.
    VotingNotFound,
    /// Reserved: no transaction raises it.
    ValidatorNotFound,
    /// The validator has already voted on the subject.
    ValidatorAlreadyVoted,
}

impl Error {
    /// The stable number under which the host reports this error.
    pub open spec fn spec_code(self) -> u8 {
        match self {
            Error::VotingAlreadyExists => 0,
            Error::VotingNotFound => 1,
            Error::ValidatorNotFound => 2,
            Error::ValidatorAlreadyVoted => 3,
        }
    }

    /// The text that goes with this error.
    pub open spec fn spec_description(self) -> Seq<char> {
        match self {
            Error::VotingAlreadyExists => "Voting already exists"@,
            Error::VotingNotFound => "Voting doesn't exist"@,
            Error::ValidatorNotFound => "Validator doesn't exist"@,
            Error::ValidatorAlreadyVoted => "Validator already voted"@,
        }
    }

    /// The stable number under which the host reports this error.
    pub fn code(&self) -> (code: u8)
        ensures
            code == self.spec_code(),
    {
        match self {
            Error::VotingAlreadyExists => 0,
            Error::VotingNotFound => 1,
            Error::ValidatorNotFound => 2,
            Error::ValidatorAlreadyVoted => 3,
        }
    }

    /// The text that goes with this error.
    pub fn description(&self) -> (text: String)
        ensures
            text@ == self.spec_description(),
    {
        match self {
            Error::VotingAlreadyExists => "Voting already exists".to_owned(),
            Error::VotingNotFound => "Voting doesn't exist".to_owned(),
            Error::ValidatorNotFound => "Validator doesn't exist".to_owned(),
            Error::ValidatorAlreadyVoted => "Validator already voted".to_owned(),
        }
    }
}

/// Opens a voting on `pub_key` in the name of `drone`.
#[derive(Clone, Copy, Debug, PartialEq, Eq)]
pub struct CreateVoting {
    pub pub_key: PublicKey,
    pub drone: PublicKey,
}

impl CreateVoting {
    /// The transaction that opens a voting on `pub_key` for `drone`.
    pub fn new(pub_key: &PublicKey, drone: &PublicKey) -> (tx: Self)
        ensures
            tx == (CreateVoting { pub_key: *pub_key, drone: *drone }),
    {
        CreateVoting { pub_key: *pub_key, drone: *drone }
    }

    /// The subject of the voting.
    pub fn pub_key(&self) -> (key: &PublicKey)
        ensures
            *key == self.pub_key,
    {
        &self.pub_key
    }

    /// The party that opens the voting.
    pub fn drone(&self) -> (key: &PublicKey)
        ensures
            *key == self.drone,
    {
        &self.drone
    }

    /// How the transaction ends on `ledger`: it is refused iff the subject
    /// already has a record.
    pub open spec fn outcome(self, ledger: LedgerView) -> Result<(), Error> {
        if ledger.votings.contains_key(self.pub_key) {
            Err(Error::VotingAlreadyExists)
        } else {
            Ok(())
        }
    }

    /// The ledger that the transaction leaves behind, where `hash` is its
    /// reference and `history_hash` the root that the host reports for the
    /// subject's history log with that reference appended. A refused
    /// transaction leaves the ledger as it was.
    pub open spec fn applied(
        self,
        ledger: LedgerView,
        hash: Digest,
        history_hash: Digest,
    ) -> LedgerView {
        if self.outcome(ledger) is Ok {
            ledger.create_voting(self.pub_key, self.drone, hash, history_hash)
        } else {
            ledger
        }
    }

    /// Authenticity is the host's concern: every transaction passes.
    pub fn verify(&self) -> (ok: bool)
        ensures
            ok,
    {
        true
    }

    /// Decides on the record that the subject has now: the voting can be
    /// opened iff there is none.
    pub fn check(&self, existing: &Option<Voting>) -> (result: Result<(), Error>)
        ensures
            result == if existing is Some {
                Err::<(), Error>(Error::VotingAlreadyExists)
            } else {
                Ok(())
            },
    {
        if existing.is_none() {
            Ok(())
        } else {
            Err(Error::VotingAlreadyExists)
        }
    }

    /// Applies the transaction to `schema`. `hash` is the transaction's
    /// reference, `history_hash` the root that the host reports for the
    /// subject's history log with that reference appended.
    pub fn execute(
        &self,
        schema: &mut SwarmSchema,
        hash: &Digest,
        history_hash: &Digest,
    ) -> (result: Result<(), Error>)
        ensures
            result == self.outcome(old(schema)@),
            final(schema)@ == self.applied(old(schema)@, *hash, *history_hash),
            result is Err ==> final(schema)@ == old(schema)@,
            old(schema)@.wf() ==> final(schema)@.wf(),
            old(schema)@.wf() && result is Ok ==> final(schema)@.voting(self.pub_key) == Some(
                VotingView::opened(self.pub_key, self.drone, 1, *history_hash),
            ),
    {
        proof {
            if schema@.wf() {
                create_voting_keeps_wf(schema@, *self, *hash, *history_hash);
                assert(!schema@.votings.contains_key(self.pub_key)
                    ==> !schema@.histories.contains_key(self.pub_key));
            }
        }
        let existing = schema.voting(&self.pub_key);
        match self.check(&existing) {
            Ok(()) => {
                schema.create_voting(&self.pub_key, &self.drone, hash, history_hash);
                Ok(())
            },
            Err(error) => Err(error),
        }
    }
}

/// Casts the vote of `validator` on the voting on `pub_key`.
#[derive(Clone, Copy, Debug, PartialEq, Eq)]
pub struct Vote {
    pub action_id: u64,
    pub pub_key: PublicKey,
    pub validator: PublicKey,
    pub voting_status: bool,
    pub seed: u64,
}

impl Vote {
    /// The transaction by which `validator` votes on `pub_key`, approving iff
    /// `voting_status`. `seed` only tells otherwise equal transactions apart.
    pub fn new(
        action_id: u64,
        pub_key: &PublicKey,
        validator: &PublicKey,
        voting_status: bool,
        seed: u64,
    ) -> (tx: Self)
        ensures
            tx == (Vote {
                action_id,
                pub_key: *pub_key,
                validator: *validator,
                voting_status,
                seed,
            }),
    {
        Vote { action_id, pub_key: *pub_key, validator: *validator, voting_status, seed }
    }

    /// The identifier that the client gave to the vote.
    pub fn action_id(&self) -> (id: u64)
        ensures
            id == self.action_id,
    {
        self.action_id
    }

    /// The subject of the voting.
    pub fn pub_key(&self) -> (key: &PublicKey)
        ensures
            *key == self.pub_key,
    {
        &self.pub_key
    }

    /// The validator that votes.
    pub fn validator(&self) -> (key: &PublicKey)
        ensures
            *key == self.validator,
    {
        &self.validator
    }

    /// True iff the vote approves.
    pub fn voting_status(&self) -> (status: bool)
        ensures
            status == self.voting_status,
    {
        self.voting_status
    }

    /// The number that tells otherwise equal transactions apart.
    pub fn seed(&self) -> (seed: u64)
        ensures
            seed == self.seed,
    {
        self.seed
    }

    /// The vote that the transaction adds to the record.
    pub open spec fn spec_action(self) -> VotingAction {
        VotingAction {
            action_id: self.action_id,
            validator: self.validator,
            voting_status: self.voting_status,
        }
    }

    /// How the transaction ends on `ledger`: it is refused iff the subject has
    /// no record, or has one in which the validator has already voted.
    pub open spec fn outcome(self, ledger: LedgerView) -> Result<(), Error> {
        if !ledger.votings.contains_key(self.pub_key) {
            Err(Error::VotingNotFound)
        } else if has_voted(ledger.votings[self.pub_key].actions, self.validator) {
            Err(Error::ValidatorAlreadyVoted)
        } else {
            Ok(())
        }
    }

    /// The ledger that the transaction leaves behind, where `hash` is its
    /// reference and `history_hash` the root that the host reports for the
    /// subject's history log with that reference appended. A refused
    /// transaction leaves the ledger as it was.
    pub open spec fn applied(
        self,
        ledger: LedgerView,
        hash: Digest,
        history_hash: Digest,
    ) -> LedgerView {
        if self.outcome(ledger) is Ok {
            ledger.vote(ledger.votings[self.pub_key], self.spec_action(), hash, history_hash)
        } else {
            ledger
        }
    }

    /// True iff the superseding record's approval count and history length
    /// fit their integer types.
    pub open spec fn fits(self, ledger: LedgerView) -> bool {
        self.outcome(ledger) is Ok ==> ledger.votings[self.pub_key].has_room(self.voting_status)
    }

    /// Authenticity is the host's concern: every transaction passes.
    pub fn verify(&self) -> (ok: bool)
        ensures
            ok,
    {
        true
    }

    /// The vote that the transaction adds to the record.
    pub fn action(&self) -> (action: VotingAction)
        ensures
            action == self.spec_action(),
    {
        VotingAction::new(self.action_id, &self.validator, self.voting_status)
    }

    /// True iff what the transaction would write on `schema` fits its integer
    /// types: the test to make before `execute`.
    pub fn fits_in(&self, schema: &SwarmSchema) -> (fits: bool)
        ensures
            fits == self.fits(schema@),
    {
        match schema.voting(&self.pub_key) {
            Some(voting) => {
                voting.has_voted(&self.validator) || voting.has_room(self.voting_status)
            },
            None => true,
        }
    }

    /// Decides on the record that the subject has now: the vote is accepted
    /// iff there is a record and the validator does not occur in it. An
    /// accepted vote hands the record back.
    pub fn check(&self, existing: Option<Voting>) -> (result: Result<Voting, Error>)
        ensures
            match existing {
                None => result == Err::<Voting, Error>(Error::VotingNotFound),
                Some(voting) => if has_voted(voting@.actions, self.validator) {
                    result == Err::<Voting, Error>(Error::ValidatorAlreadyVoted)
                } else {
                    result == Ok::<Voting, Error>(voting)
                },
            },
    {
        match existing {
            None => Err(Error::VotingNotFound),
            Some(voting) => {
                if voting.has_voted(&self.validator) {
                    Err(Error::ValidatorAlreadyVoted)
                } else {
                    Ok(voting)
                }
            },
        }
    }

    /// Applies the transaction to `schema`. `hash` is the transaction's
    /// reference, `history_hash` the root that the host reports for the
    /// subject's history log with that reference appended.
    pub fn execute(
        &self,
        schema: &mut SwarmSchema,
        hash: &Digest,
        history_hash: &Digest,
    ) -> (result: Result<(), Error>)
        requires
            self.fits(old(schema)@),
        ensures
            result == self.outcome(old(schema)@),
            final(schema)@ == self.applied(old(schema)@, *hash, *history_hash),
            result is Err ==> final(schema)@ == old(schema)@,
            old(schema)@.wf() ==> final(schema)@.wf(),
    {
        proof {
            if schema@.wf() {
                vote_keeps_wf(schema@, *self, *hash, *history_hash);
            }
        }
        let existing = schema.voting(&self.pub_key);
        match self.check(existing) {
            Ok(voting) => {
                schema.vote(voting, self.action(), hash, history_hash);
                Ok(())
            },
            Err(error) => Err(error),
        }
    }
}

/// The transactions of the voting service.
#[derive(Clone, Copy, Debug, PartialEq, Eq)]
pub enum VotingTransactions {
    CreateVoting(CreateVoting),
    Vote(Vote),
}

impl VotingTransactions {
    /// The subject that the transaction touches.
    pub open spec fn subject(self) -> PublicKey {
        match self {
            VotingTransactions::CreateVoting(tx) => tx.pub_key,
            VotingTransactions::Vote(tx) => tx.pub_key,
        }
    }

    /// How the transaction ends on `ledger`.
    pub open spec fn outcome(self, ledger: LedgerView) -> Result<(), Error> {
        match self {
            VotingTransactions::CreateVoting(tx) => tx.outcome(ledger),
            VotingTransactions::Vote(tx) => tx.outcome(ledger),
        }
    }

    /// The ledger that the transaction leaves behind.
    pub open spec fn applied(
        self,
        ledger: LedgerView,
        hash: Digest,
        history_hash: Digest,
    ) -> LedgerView {
        match self {
            VotingTransactions::CreateVoting(tx) => tx.applied(ledger, hash, history_hash),
            VotingTransactions::Vote(tx) => tx.applied(ledger, hash, history_hash),
        }
    }

    /// True iff what the transaction writes fits its integer types.
    pub open spec fn fits(self, ledger: LedgerView) -> bool {
        match self {
            VotingTransactions::CreateVoting(_) => true,
            VotingTransactions::Vote(tx) => tx.fits(ledger),
        }
    }

    /// True iff what the transaction would write on `schema` fits its integer
    /// types: the test to make before `execute`.
    pub fn fits_in(&self, schema: &SwarmSchema) -> (fits: bool)
        ensures
            fits == self.fits(schema@),
    {
        match self {
            VotingTransactions::CreateVoting(_) => true,
            VotingTransactions::Vote(tx) => tx.fits_in(schema),
        }
    }

    /// Authenticity is the host's concern: every transaction passes.
    pub fn verify(&self) -> (ok: bool)
        ensures
            ok,
    {
        true
    }

    /// Applies the transaction to `schema`. `hash` is the transaction's
    /// reference, `history_hash` the root that the host reports for the
    /// subject's history log with that reference appended.
    pub fn execute(
        &self,
        schema: &mut SwarmSchema,
        hash: &Digest,
        history_hash: &Digest,
    ) -> (result: Result<(), Error>)
        requires
            self.fits(old(schema)@),
        ensures
            result == self.outcome(old(schema)@),
            final(schema)@ == self.applied(old(schema)@, *hash, *history_hash),
            result is Err ==> final(schema)@ == old(schema)@,
            old(schema)@.wf() ==> final(schema)@.wf(),
    {
        match self {
            VotingTransactions::CreateVoting(tx) => tx.execute(schema, hash, history_hash),
            VotingTransactions::Vote(tx) => tx.execute(schema, hash, history_hash),
        }
    }
}

} // verus!
