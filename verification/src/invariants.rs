//! What holds of every ledger that transactions have built.

use vstd::prelude::*;

use crate::crypto::{Digest, PublicKey};
use crate::schema::LedgerView;
use crate::transactions::{CreateVoting, Error, Vote, VotingTransactions};
use crate::voting::{
    approvals, has_voted, lemma_no_approvals, lemma_voted_wf, VotingAction, VotingView,
};

verus! {

/// One transaction as the host hands it to the ledger: the transaction, its
/// reference, and the root that the host reports for the subject's history
/// log with that reference appended.
pub struct Step {
    pub tx: VotingTransactions,
    pub hash: Digest,
    pub history_hash: Digest,
}

/// The ledger after the transactions `steps` were applied to `ledger` in
/// order.
pub open spec fn run(ledger: LedgerView, steps: Seq<Step>) -> LedgerView
    decreases steps.len(),
{
    if steps.len() == 0 {
        ledger
    } else {
        steps.last().tx.applied(
            run(ledger, steps.drop_last()),
            steps.last().hash,
            steps.last().history_hash,
        )
    }
}

/// The vote that `step` casts, where it casts one.
pub open spec fn vote_of(step: Step) -> Vote {
    step.tx->Vote_0
}

/// Number of approving votes among `votes`.
pub open spec fn approving(votes: Seq<Step>) -> nat {
    votes.filter(|s: Step| vote_of(s).voting_status).len()
}

/// True iff every transaction of `votes` is a vote on `key` and no two of them
/// come from the same validator.
pub open spec fn distinct_votes_on(votes: Seq<Step>, key: PublicKey) -> bool {
    &&& forall|i: int|
        0 <= i < votes.len() ==> (#[trigger] votes[i]).tx is Vote && vote_of(votes[i]).pub_key
            == key
    &&& forall|i: int, j: int|
        0 <= i < j < votes.len() ==> vote_of(#[trigger] votes[i]).validator != vote_of(
            #[trigger] votes[j],
        ).validator
}

/// Opening a voting keeps the ledger consistent.
pub proof fn create_voting_keeps_wf(
    ledger: LedgerView,
    tx: CreateVoting,
    hash: Digest,
    history_hash: Digest,
)
    requires
        ledger.wf(),
    ensures
        tx.applied(ledger, hash, history_hash).wf(),
{
    if tx.outcome(ledger) is Ok {
        lemma_no_approvals();
    }
}

/// Casting a vote keeps the ledger consistent.
pub proof fn vote_keeps_wf(ledger: LedgerView, tx: Vote, hash: Digest, history_hash: Digest)
    requires
        ledger.wf(),
    ensures
        tx.applied(ledger, hash, history_hash).wf(),
{
    if tx.outcome(ledger) is Ok {
        lemma_voted_wf(ledger.votings[tx.pub_key], tx.spec_action(), history_hash);
    }
}

/// Every transaction keeps the ledger consistent, whether it is applied or
/// refused.
pub proof fn transaction_keeps_wf(
    ledger: LedgerView,
    tx: VotingTransactions,
    hash: Digest,
    history_hash: Digest,
)
    requires
        ledger.wf(),
    ensures
        tx.applied(ledger, hash, history_hash).wf(),
{
    match tx {
        VotingTransactions::CreateVoting(tx) => {
            create_voting_keeps_wf(ledger, tx, hash, history_hash)
        },
        VotingTransactions::Vote(tx) => vote_keeps_wf(ledger, tx, hash, history_hash),
    }
}

/// Every ledger that transactions have built from a consistent one is
/// consistent.
pub proof fn run_keeps_wf(ledger: LedgerView, steps: Seq<Step>)
    requires
        ledger.wf(),
    ensures
        run(ledger, steps).wf(),
    decreases steps.len(),
{
    if steps.len() > 0 {
        run_keeps_wf(ledger, steps.drop_last());
        transaction_keeps_wf(
            run(ledger, steps.drop_last()),
            steps.last().tx,
            steps.last().hash,
            steps.last().history_hash,
        );
    }
}

/// A record is never deleted and its drone never changes: whatever
/// transaction is applied to a consistent ledger, each subject that had a
/// record still has one, opened by the same drone.
pub proof fn record_keeps_drone(
    ledger: LedgerView,
    tx: VotingTransactions,
    hash: Digest,
    history_hash: Digest,
    key: PublicKey,
)
    requires
        ledger.wf(),
        ledger.votings.contains_key(key),
    ensures
        tx.applied(ledger, hash, history_hash).votings.contains_key(key),
        tx.applied(ledger, hash, history_hash).votings[key].drone == ledger.votings[key].drone,
{
}

/// A record appears only by a `CreateVoting` on its subject that was
/// accepted: when a subject has a record after a transaction and had none
/// before, the transaction opened a voting on that subject, for the drone
/// that the record names.
pub proof fn record_comes_from_create(
    ledger: LedgerView,
    tx: VotingTransactions,
    hash: Digest,
    history_hash: Digest,
    key: PublicKey,
)
    requires
        ledger.wf(),
        !ledger.votings.contains_key(key),
        tx.applied(ledger, hash, history_hash).votings.contains_key(key),
    ensures
        tx.outcome(ledger) is Ok,
        tx matches VotingTransactions::CreateVoting(create) && create.pub_key == key
            && tx.applied(ledger, hash, history_hash).votings[key] == VotingView::opened(
            key,
            create.drone,
            1,
            history_hash,
        ),
{
}

/// A transaction touches its own subject only: the record and the history
/// log of every other subject stay as they were.
pub proof fn other_subjects_untouched(
    ledger: LedgerView,
    tx: VotingTransactions,
    hash: Digest,
    history_hash: Digest,
    key: PublicKey,
)
    requires
        ledger.wf(),
        key != tx.subject(),
    ensures
        tx.applied(ledger, hash, history_hash).voting(key) == ledger.voting(key),
        tx.applied(ledger, hash, history_hash).history(key) == ledger.history(key),
{
}

/// The seed of a vote does not reach the ledger: votes that differ in nothing
/// else end alike and leave the same ledger behind.
pub proof fn seed_changes_nothing(
    ledger: LedgerView,
    tx: Vote,
    seed: u64,
    hash: Digest,
    history_hash: Digest,
)
    ensures
        (Vote { seed, ..tx }).outcome(ledger) == tx.outcome(ledger),
        (Vote { seed, ..tx }).applied(ledger, hash, history_hash) == tx.applied(
            ledger,
            hash,
            history_hash,
        ),
{
}

/// True iff every record of `ledger` holds, as its history root, what
/// `root_of` makes of the subject's history log.
pub open spec fn authenticated_by(
    ledger: LedgerView,
    root_of: spec_fn(Seq<Digest>) -> Digest,
) -> bool {
    forall|key: PublicKey| #[trigger]
        ledger.votings.contains_key(key) ==> ledger.votings[key].history_hash == root_of(
            ledger.history(key),
        )
}

/// True iff, as `steps` are applied to `ledger` in order, the root that comes
/// with each of them is what `root_of` makes of the subject's history log
/// with the transaction's reference appended.
pub open spec fn roots_given_by(
    ledger: LedgerView,
    steps: Seq<Step>,
    root_of: spec_fn(Seq<Digest>) -> Digest,
) -> bool {
    forall|i: int|
        0 <= i < steps.len() ==> (#[trigger] steps[i]).history_hash == root_of(
            run(ledger, steps.take(i)).history(steps[i].tx.subject()).push(steps[i].hash),
        )
}

/// When the root that comes with a transaction is a function of the grown
/// history log, the records keep holding the roots of their logs.
pub proof fn transaction_keeps_roots(
    ledger: LedgerView,
    tx: VotingTransactions,
    hash: Digest,
    history_hash: Digest,
    root_of: spec_fn(Seq<Digest>) -> Digest,
)
    requires
        ledger.wf(),
        authenticated_by(ledger, root_of),
        history_hash == root_of(ledger.history(tx.subject()).push(hash)),
    ensures
        authenticated_by(tx.applied(ledger, hash, history_hash), root_of),
{
}

/// The history root is a function of the history log.
///
/// Let the transactions `steps` be applied in order to the empty ledger, and
/// let the root that comes with each of them be what `root_of` makes of the
/// subject's history log with the transaction's reference appended. Then the
/// ledger is consistent, and every record holds what `root_of` makes of its
/// subject's whole history log.
pub proof fn roots_follow_logs(steps: Seq<Step>, root_of: spec_fn(Seq<Digest>) -> Digest)
    requires
        roots_given_by(LedgerView::empty(), steps, root_of),
    ensures
        run(LedgerView::empty(), steps).wf(),
        authenticated_by(run(LedgerView::empty(), steps), root_of),
    decreases steps.len(),
{
    let start = LedgerView::empty();
    if steps.len() > 0 {
        let prefix = steps.drop_last();
        let last = steps.last();
        assert(roots_given_by(start, prefix, root_of)) by {
            assert forall|i: int| 0 <= i < prefix.len() implies (#[trigger] prefix[i]).history_hash
                == root_of(
                run(start, prefix.take(i)).history(prefix[i].tx.subject()).push(prefix[i].hash),
            ) by {
                assert(prefix.take(i) =~= steps.take(i));
                assert(steps[i].history_hash == root_of(
                    run(start, steps.take(i)).history(steps[i].tx.subject()).push(steps[i].hash),
                ));
            }
        }
        roots_follow_logs(prefix, root_of);
        let middle = run(start, prefix);
        assert(steps[steps.len() - 1].history_hash == root_of(
            run(start, steps.take(steps.len() - 1)).history(
                steps[steps.len() - 1].tx.subject(),
            ).push(steps[steps.len() - 1].hash),
        ));
        transaction_keeps_wf(middle, last.tx, last.hash, last.history_hash);
        transaction_keeps_roots(middle, last.tx, last.hash, last.history_hash, root_of);
    }
}

/// Replays that leave a subject with the same history log leave it with the
/// same history root.
///
/// Let `first` and `second` be applied each to an empty ledger of its own,
/// with roots that `root_of` makes of the history logs. Where both ledgers
/// hold a record of `key` and the same history log of `key`, the two records
/// hold the same history root.
pub proof fn equal_logs_have_equal_roots(
    first: Seq<Step>,
    second: Seq<Step>,
    root_of: spec_fn(Seq<Digest>) -> Digest,
    key: PublicKey,
)
    requires
        roots_given_by(LedgerView::empty(), first, root_of),
        roots_given_by(LedgerView::empty(), second, root_of),
        run(LedgerView::empty(), first).votings.contains_key(key),
        run(LedgerView::empty(), second).votings.contains_key(key),
        run(LedgerView::empty(), first).history(key) == run(LedgerView::empty(), second).history(
            key,
        ),
    ensures
        run(LedgerView::empty(), first).votings[key].history_hash == run(
            LedgerView::empty(),
            second,
        ).votings[key].history_hash,
{
    roots_follow_logs(first, root_of);
    roots_follow_logs(second, root_of);
}

/// Opening a voting on a subject that has a record is refused as
/// `VotingAlreadyExists`, and the ledger stays as it was.
pub proof fn create_on_existing_is_refused(
    ledger: LedgerView,
    tx: CreateVoting,
    hash: Digest,
    history_hash: Digest,
)
    requires
        ledger.votings.contains_key(tx.pub_key),
    ensures
        tx.outcome(ledger) == Err::<(), Error>(Error::VotingAlreadyExists),
        tx.applied(ledger, hash, history_hash) == ledger,
{
}

/// A vote on a subject without a record is refused as `VotingNotFound`, and
/// the ledger stays as it was: no record and no history log appears.
pub proof fn vote_on_absent_is_refused(
    ledger: LedgerView,
    tx: Vote,
    hash: Digest,
    history_hash: Digest,
)
    requires
        !ledger.votings.contains_key(tx.pub_key),
    ensures
        tx.outcome(ledger) == Err::<(), Error>(Error::VotingNotFound),
        tx.applied(ledger, hash, history_hash) == ledger,
{
}

/// A vote of a validator that the record already holds is refused as
/// `ValidatorAlreadyVoted`, and the ledger stays as it was.
pub proof fn repeated_vote_is_refused(
    ledger: LedgerView,
    tx: Vote,
    hash: Digest,
    history_hash: Digest,
)
    requires
        ledger.votings.contains_key(tx.pub_key),
        has_voted(ledger.votings[tx.pub_key].actions, tx.validator),
    ensures
        tx.outcome(ledger) == Err::<(), Error>(Error::ValidatorAlreadyVoted),
        tx.applied(ledger, hash, history_hash) == ledger,
{
}

/// After an accepted vote, every further vote of the same validator on the
/// same subject is refused as `ValidatorAlreadyVoted` and changes nothing.
pub proof fn second_vote_is_refused(
    ledger: LedgerView,
    first: Vote,
    first_hash: Digest,
    first_history_hash: Digest,
    second: Vote,
    second_hash: Digest,
    second_history_hash: Digest,
)
    requires
        ledger.wf(),
        first.outcome(ledger) is Ok,
        second.pub_key == first.pub_key,
        second.validator == first.validator,
    ensures
        second.outcome(first.applied(ledger, first_hash, first_history_hash)) == Err::<(), Error>(
            Error::ValidatorAlreadyVoted,
        ),
        second.applied(
            first.applied(ledger, first_hash, first_history_hash),
            second_hash,
            second_history_hash,
        ) == first.applied(ledger, first_hash, first_history_hash),
{
    let key = first.pub_key;
    let after = first.applied(ledger, first_hash, first_history_hash);
    let actions = after.votings[key].actions;
    assert(actions[actions.len() - 1].validator == second.validator);
}

/// What a run of votes makes of a record.
///
/// Let `ledger` be consistent and hold a record of `key` without votes. When
/// the votes `votes`, all on `key` and from pairwise distinct validators, are
/// applied in order, each one is accepted, and in the end the ledger is still
/// consistent and the record of `key` holds one action for each vote, in
/// order; counts exactly the approving ones; has a history one entry longer
/// for each vote; keeps its drone; and holds the root that came with the last
/// vote. The history log of `key` has grown by the votes' references, in
/// order.
pub proof fn votes_on_opened(ledger: LedgerView, key: PublicKey, votes: Seq<Step>)
    requires
        ledger.wf(),
        ledger.votings.contains_key(key),
        ledger.votings[key].actions.len() == 0,
        distinct_votes_on(votes, key),
    ensures
        run(ledger, votes).wf(),
        run(ledger, votes).votings.contains_key(key),
        run(ledger, votes).votings[key].actions == votes.map_values(
            |s: Step| vote_of(s).spec_action(),
        ),
        run(ledger, votes).votings[key].amount == approving(votes),
        run(ledger, votes).votings[key].history_len == ledger.votings[key].history_len
            + votes.len(),
        run(ledger, votes).votings[key].drone == ledger.votings[key].drone,
        run(ledger, votes).votings[key].history_hash == if votes.len() == 0 {
            ledger.votings[key].history_hash
        } else {
            votes.last().history_hash
        },
        run(ledger, votes).history(key) == ledger.history(key) + votes.map_values(
            |s: Step| s.hash,
        ),
        forall|i: int|
            0 <= i < votes.len() ==> (#[trigger] votes[i]).tx.outcome(run(ledger, votes.take(i)))
                is Ok,
    decreases votes.len(),
{
    let action_of = |s: Step| vote_of(s).spec_action();
    let hash_of = |s: Step| s.hash;
    let approves = |s: Step| vote_of(s).voting_status;
    if votes.len() == 0 {
        votes.lemma_filter_len(approves);
        lemma_no_approvals();
    } else {
        let prefix = votes.drop_last();
        let last = votes.last();
        let vote = vote_of(last);
        assert(votes =~= prefix.push(last));
        assert(distinct_votes_on(prefix, key)) by {
            assert forall|i: int| 0 <= i < prefix.len() implies (#[trigger] prefix[i]).tx is Vote
                && vote_of(prefix[i]).pub_key == key by {}
            assert forall|i: int, j: int| 0 <= i < j < prefix.len() implies vote_of(
                #[trigger] prefix[i],
            ).validator != vote_of(#[trigger] prefix[j]).validator by {}
        }
        votes_on_opened(ledger, key, prefix);
        let middle = run(ledger, prefix);
        let record = middle.votings[key];
        assert(last.tx is Vote && vote.pub_key == key) by {
            assert(votes[votes.len() - 1].tx is Vote && vote_of(votes[votes.len() - 1]).pub_key
                == key);
        }
        assert(!has_voted(record.actions, vote.validator)) by {
            assert forall|i: int| 0 <= i < record.actions.len() implies
                (#[trigger] record.actions[i]).validator != vote.validator by {}
        }
        vote_keeps_wf(middle, vote, last.hash, last.history_hash);
        let end = run(ledger, votes);
        assert(end.votings[key].actions =~= votes.map_values(action_of));
        prefix.lemma_filter_len_push(approves, last);
        assert(end.history(key) =~= ledger.history(key) + votes.map_values(hash_of));
        assert forall|i: int| 0 <= i < votes.len() implies (#[trigger] votes[i]).tx.outcome(
            run(ledger, votes.take(i)),
        ) is Ok by {
            if i < prefix.len() {
                assert(votes.take(i) =~= prefix.take(i));
            }
        }
    }
}

/// What a voting holds after it was opened and voted on.
///
/// Let `ledger` be consistent and hold no record of the subject of `create`.
/// When `create` is applied, and then the votes `votes`, all on that subject
/// and from pairwise distinct validators, every one of these transactions is
/// accepted. In the end the record counts exactly the approving votes, holds
/// one action for each vote, and states a history of one entry more than
/// there were votes, which is the length of the subject's history log: the
/// reference of `create` followed by those of the votes. The record's history
/// root is the one that came with the last of these transactions.
pub proof fn votes_are_tallied(
    ledger: LedgerView,
    create: CreateVoting,
    hash: Digest,
    history_hash: Digest,
    votes: Seq<Step>,
)
    requires
        ledger.wf(),
        !ledger.votings.contains_key(create.pub_key),
        distinct_votes_on(votes, create.pub_key),
    ensures
        create.outcome(ledger) is Ok,
        forall|i: int|
            0 <= i < votes.len() ==> (#[trigger] votes[i]).tx.outcome(
                run(create.applied(ledger, hash, history_hash), votes.take(i)),
            ) is Ok,
        ({
            let end = run(create.applied(ledger, hash, history_hash), votes);
            &&& end.wf()
            &&& end.votings.contains_key(create.pub_key)
            &&& end.votings[create.pub_key].amount == approving(votes)
            &&& end.votings[create.pub_key].amount == approvals(end.votings[create.pub_key].actions)
            &&& end.votings[create.pub_key].actions.len() == votes.len()
            &&& end.votings[create.pub_key].history_len == votes.len() + 1
            &&& end.votings[create.pub_key].drone == create.drone
            &&& end.votings[create.pub_key].history_hash == if votes.len() == 0 {
                history_hash
            } else {
                votes.last().history_hash
            }
            &&& end.history(create.pub_key) == seq![hash] + votes.map_values(|s: Step| s.hash)
        }),
{
    let opened = create.applied(ledger, hash, history_hash);
    create_voting_keeps_wf(ledger, create, hash, history_hash);
    votes_on_opened(opened, create.pub_key, votes);
}

} // verus!
