//! The voting record and the votes it collects.

use vstd::prelude::*;
use vstd::std_specs::cmp::PartialEqSpecImpl;

use crate::crypto::{Digest, PublicKey};

verus! {

/// Approval count of a voting on which nobody has voted yet.
pub const INITIAL_AMOUNT: u64 = 0;

/// One accepted vote.
#[derive(Clone, Copy, Debug, Eq)]
pub struct VotingAction {
    pub action_id: u64,
    pub validator: PublicKey,
    pub voting_status: bool,
}

impl VotingAction {
    /// The vote of `validator`, approving iff `voting_status`, under the
    /// client's identifier `action_id`.
    pub fn new(action_id: u64, validator: &PublicKey, voting_status: bool) -> (action: Self)
        ensures
            action == (VotingAction { action_id, validator: *validator, voting_status }),
    {
        VotingAction { action_id, validator: *validator, voting_status }
    }

    /// The identifier that the client gave to this vote.
    pub fn action_id(&self) -> (id: u64)
        ensures
            id == self.action_id,
    {
        self.action_id
    }

    /// The validator that cast this vote.
    pub fn validator(&self) -> (key: &PublicKey)
        ensures
            *key == self.validator,
    {
        &self.validator
    }

    /// True iff this vote approves.
    pub fn voting_status(&self) -> (status: bool)
        ensures
            status == self.voting_status,
    {
        self.voting_status
    }
}

impl PartialEq for VotingAction {
    fn eq(&self, other: &Self) -> (r: bool) {
        self.action_id == other.action_id && self.validator == other.validator
            && self.voting_status == other.voting_status
    }
}

impl PartialEqSpecImpl for VotingAction {
    open spec fn obeys_eq_spec() -> bool {
        true
    }

    open spec fn eq_spec(&self, other: &Self) -> bool {
        *self == *other
    }
}

/// Number of approving votes among `actions`.
pub open spec fn approvals(actions: Seq<VotingAction>) -> nat {
    actions.filter(|a: VotingAction| a.voting_status).len()
}

/// True iff some vote among `actions` was cast by `validator`.
pub open spec fn has_voted(actions: Seq<VotingAction>, validator: PublicKey) -> bool {
    exists|i: int| 0 <= i < actions.len() && (#[trigger] actions[i]).validator == validator
}

/// True iff no two votes among `actions` were cast by the same validator.
pub open spec fn distinct_validators(actions: Seq<VotingAction>) -> bool {
    forall|i: int, j: int|
        0 <= i < j < actions.len() ==> (#[trigger] actions[i]).validator != (
        #[trigger] actions[j]).validator
}

/// A voting record as a mathematical value.
pub struct VotingView {
    pub pub_key: PublicKey,
    pub drone: PublicKey,
    pub actions: Seq<VotingAction>,
    pub amount: nat,
    pub history_len: nat,
    pub history_hash: Digest,
}

impl VotingView {
    /// The record of a voting on `pub_key` that `drone` has just opened, when the
    /// subject's history log holds `history_len` entries and has the root
    /// `history_hash`.
    pub open spec fn opened(
        pub_key: PublicKey,
        drone: PublicKey,
        history_len: nat,
        history_hash: Digest,
    ) -> VotingView {
        VotingView {
            pub_key,
            drone,
            actions: Seq::empty(),
            amount: INITIAL_AMOUNT as nat,
            history_len,
            history_hash,
        }
    }

    /// The record that supersedes this one when `action` is accepted and the
    /// subject's history log has grown by one entry to the root `history_hash`.
    pub open spec fn voted(self, action: VotingAction, history_hash: Digest) -> VotingView {
        VotingView {
            pub_key: self.pub_key,
            drone: self.drone,
            actions: self.actions.push(action),
            amount: if action.voting_status {
                self.amount + 1
            } else {
                self.amount
            },
            history_len: self.history_len + 1,
            history_hash,
        }
    }

    /// True iff the record counts its approvals rightly, no validator occurs
    /// twice in it, and its history has one entry for the opening and one for
    /// each vote.
    pub open spec fn wf(self) -> bool {
        &&& self.amount == approvals(self.actions)
        &&& distinct_validators(self.actions)
        &&& self.history_len == self.actions.len() + 1
    }

    /// True iff the executable record has room for one more vote with the
    /// given decision: neither the approval count nor the history length
    /// would leave its 64-bit integer.
    pub open spec fn has_room(self, voting_status: bool) -> bool {
        &&& self.history_len < u64::MAX
        &&& voting_status ==> self.amount < u64::MAX
    }
}

/// The state of one voting: who opened it, who has voted how, and where its
/// history log stands. Two records are equal iff they have the same content.
#[derive(Debug, Eq)]
pub struct Voting {
    pub pub_key: PublicKey,
    pub drone: PublicKey,
    pub actions: Vec<VotingAction>,
    pub amount: u64,
    pub history_len: u64,
    pub history_hash: Digest,
}

impl View for Voting {
    type V = VotingView;

    open spec fn view(&self) -> VotingView {
        VotingView {
            pub_key: self.pub_key,
            drone: self.drone,
            actions: self.actions@,
            amount: self.amount as nat,
            history_len: self.history_len as nat,
            history_hash: self.history_hash,
        }
    }
}

/// A copy of `actions`.
fn copy_actions(actions: &Vec<VotingAction>) -> (copy: Vec<VotingAction>)
    ensures
        copy@ == actions@,
{
    let mut copy: Vec<VotingAction> = Vec::new();
    let mut i: usize = 0;
    while i < actions.len()
        invariant
            i <= actions.len(),
            copy@ == actions@.take(i as int),
        decreases actions.len() - i,
    {
        copy.push(actions[i]);
        i += 1;
    }
    copy
}

/// True iff the two lists hold the same votes in the same order.
fn same_actions(a: &Vec<VotingAction>, b: &Vec<VotingAction>) -> (r: bool)
    ensures
        r == (a@ == b@),
{
    if a.len() != b.len() {
        return false;
    }
    let mut i: usize = 0;
    while i < a.len()
        invariant
            i <= a.len(),
            a.len() == b.len(),
            forall|j: int| 0 <= j < i ==> a@[j] == b@[j],
        decreases a.len() - i,
    {
        if a[i] != b[i] {
            return false;
        }
        i += 1;
    }
    proof {
        assert(a@ =~= b@);
    }
    true
}

impl PartialEq for Voting {
    fn eq(&self, other: &Self) -> (r: bool) {
        self.pub_key == other.pub_key && self.drone == other.drone && same_actions(
            &self.actions,
            &other.actions,
        ) && self.amount == other.amount && self.history_len == other.history_len
            && self.history_hash == other.history_hash
    }
}

impl PartialEqSpecImpl for Voting {
    open spec fn obeys_eq_spec() -> bool {
        true
    }

    open spec fn eq_spec(&self, other: &Self) -> bool {
        self@ == other@
    }
}

impl Clone for Voting {
    fn clone(&self) -> (copy: Self)
        ensures
            copy@ == self@,
    {
        Voting {
            pub_key: self.pub_key,
            drone: self.drone,
            actions: copy_actions(&self.actions),
            amount: self.amount,
            history_len: self.history_len,
            history_hash: self.history_hash,
        }
    }
}

impl Voting {
    /// The record with exactly the given content.
    pub fn new(
        pub_key: &PublicKey,
        drone: &PublicKey,
        actions: Vec<VotingAction>,
        amount: u64,
        history_len: u64,
        history_hash: &Digest,
    ) -> (voting: Self)
        ensures
            voting@ == (VotingView {
                pub_key: *pub_key,
                drone: *drone,
                actions: actions@,
                amount: amount as nat,
                history_len: history_len as nat,
                history_hash: *history_hash,
            }),
    {
        Voting {
            pub_key: *pub_key,
            drone: *drone,
            actions,
            amount,
            history_len,
            history_hash: *history_hash,
        }
    }

    /// The subject of the voting.
    pub fn pub_key(&self) -> (key: &PublicKey)
        ensures
            *key == self@.pub_key,
    {
        &self.pub_key
    }

    /// The party that opened the voting.
    pub fn drone(&self) -> (key: &PublicKey)
        ensures
            *key == self@.drone,
    {
        &self.drone
    }

    /// The accepted votes, oldest first.
    pub fn actions(&self) -> (actions: Vec<VotingAction>)
        ensures
            actions@ == self@.actions,
    {
        copy_actions(&self.actions)
    }

    /// The recorded number of approvals.
    pub fn amount(&self) -> (amount: u64)
        ensures
            amount == self@.amount,
    {
        self.amount
    }

    /// The recorded length of the subject's history log.
    pub fn history_len(&self) -> (len: u64)
        ensures
            len == self@.history_len,
    {
        self.history_len
    }

    /// The recorded root of the subject's history log.
    pub fn history_hash(&self) -> (hash: &Digest)
        ensures
            *hash == self@.history_hash,
    {
        &self.history_hash
    }

    /// The record that supersedes this one after one more entry of the history
    /// log: subject and drone stay, votes, approval count and history root are
    /// the given ones, and the history is one entry longer.
    pub fn set_amount(
        self,
        actions: Vec<VotingAction>,
        amount: u64,
        history_hash: &Digest,
    ) -> (voting: Self)
        requires
            self@.history_len < u64::MAX,
        ensures
            voting@ == (VotingView {
                pub_key: self@.pub_key,
                drone: self@.drone,
                actions: actions@,
                amount: amount as nat,
                history_len: self@.history_len + 1,
                history_hash: *history_hash,
            }),
    {
        Voting::new(
            &self.pub_key,
            &self.drone,
            actions,
            amount,
            self.history_len + 1,
            history_hash,
        )
    }

    /// The record of a voting on `pub_key` that `drone` has just opened: no
    /// votes, no approvals, and the history log as the host reports it after
    /// appending the opening transaction.
    pub fn opened(
        pub_key: &PublicKey,
        drone: &PublicKey,
        history_len: u64,
        history_hash: &Digest,
    ) -> (voting: Self)
        ensures
            voting@ == VotingView::opened(*pub_key, *drone, history_len as nat, *history_hash),
    {
        Voting::new(pub_key, drone, Vec::new(), INITIAL_AMOUNT, history_len, history_hash)
    }

    /// True iff the record has room for one more vote with the given
    /// decision: neither the approval count nor the history length would
    /// leave its 64-bit integer.
    pub fn has_room(&self, voting_status: bool) -> (room: bool)
        ensures
            room == self@.has_room(voting_status),
    {
        self.history_len < u64::MAX && (!voting_status || self.amount < u64::MAX)
    }

    /// True iff `validator` has already voted on this voting.
    pub fn has_voted(&self, validator: &PublicKey) -> (voted: bool)
        ensures
            voted == has_voted(self@.actions, *validator),
    {
        let mut i: usize = 0;
        while i < self.actions.len()
            invariant
                i <= self.actions.len(),
                forall|j: int| 0 <= j < i ==> (#[trigger] self.actions@[j]).validator != *validator,
            decreases self.actions.len() - i,
        {
            if self.actions[i].validator == *validator {
                return true;
            }
            i += 1;
        }
        false
    }

    /// The record that supersedes this one when `action` is accepted: the vote
    /// is appended, an approval is counted, and the history is one entry
    /// longer, with the root `history_hash` that the host reports for it.
    pub fn voted(self, action: VotingAction, history_hash: &Digest) -> (voting: Self)
        requires
            self@.has_room(action.voting_status),
        ensures
            voting@ == self@.voted(action, *history_hash),
    {
        let mut amount = self.amount;
        if action.voting_status {
            amount = amount + 1;
        }
        let mut actions = copy_actions(&self.actions);
        actions.push(action);
        self.set_amount(actions, amount, history_hash)
    }
}

/// There is no approval among no votes.
pub proof fn lemma_no_approvals()
    ensures
        approvals(Seq::empty()) == 0,
{
    Seq::<VotingAction>::empty().lemma_filter_len(|a: VotingAction| a.voting_status);
}

/// Appending a vote adds one approval iff the vote approves.
pub proof fn lemma_approvals_push(actions: Seq<VotingAction>, action: VotingAction)
    ensures
        approvals(actions.push(action)) == approvals(actions) + if action.voting_status {
            1nat
        } else {
            0nat
        },
{
    actions.lemma_filter_len_push(|a: VotingAction| a.voting_status, action);
}

/// A well-formed record counts fewer approvals than its history has entries:
/// where the history length has room for one more, so has the count.
pub proof fn lemma_wf_has_room(voting: VotingView, voting_status: bool)
    requires
        voting.wf(),
        voting.history_len < u64::MAX,
    ensures
        voting.amount < voting.history_len,
        voting.has_room(voting_status),
{
    voting.actions.lemma_filter_len(|a: VotingAction| a.voting_status);
}

/// A record stays well formed when a validator that has not voted yet votes.
pub proof fn lemma_voted_wf(voting: VotingView, action: VotingAction, history_hash: Digest)
    requires
        voting.wf(),
        !has_voted(voting.actions, action.validator),
    ensures
        voting.voted(action, history_hash).wf(),
{
    lemma_approvals_push(voting.actions, action);
}

} // verus!
