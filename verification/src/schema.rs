//! The ledger store: for each subject its current voting record and its
//! append-only history log.
//!
//! The store holds plain values. The authenticators of the host's storage (the
//! root of a history log, the root of the whole table) are computed by the
//! host alone and reach the store as arguments.

use vstd::prelude::*;

use crate::crypto::{Digest, PublicKey};
use crate::voting::{VotingAction, VotingView, Voting};

verus! {

/// The name of the host's table of records.
pub const VOTINGS_TABLE: &'static str = "swarm.votings";

/// The name of the host's family of history logs, one for each subject.
pub const VOTING_HISTORY_TABLE: &'static str = "swarm.voting_history";

/// Where the root of the table of records stands among the roots that the
/// ledger contributes to the host's state commitment.
pub const VOTINGS_TABLE_INDEX: usize = 0;

/// The ledger as a mathematical value: the record of each subject, and the
/// history log of each subject.
pub struct LedgerView {
    pub votings: Map<PublicKey, VotingView>,
    pub histories: Map<PublicKey, Seq<Digest>>,
}

impl LedgerView {
    /// The ledger without any record or history log.
    pub open spec fn empty() -> LedgerView {
        LedgerView { votings: Map::empty(), histories: Map::empty() }
    }

    /// The record of `key`, if there is one.
    pub open spec fn voting(self, key: PublicKey) -> Option<VotingView> {
        if self.votings.contains_key(key) {
            Some(self.votings[key])
        } else {
            None
        }
    }

    /// The history log of `key`: the references of the transactions that
    /// touched it, oldest first. A subject that nothing touched has the empty
    /// log.
    pub open spec fn history(self, key: PublicKey) -> Seq<Digest> {
        if self.histories.contains_key(key) {
            self.histories[key]
        } else {
            Seq::empty()
        }
    }

    /// The ledger after `transaction` is appended to the history log of `key`
    /// and `record` replaces whatever record `key` had.
    pub open spec fn replaced(
        self,
        key: PublicKey,
        transaction: Digest,
        record: VotingView,
    ) -> LedgerView {
        LedgerView {
            votings: self.votings.insert(key, record),
            histories: self.histories.insert(key, self.history(key).push(transaction)),
        }
    }

    /// The ledger after `drone` opens a voting on `key` by `transaction`, when
    /// the host reports `history_hash` as the root of the grown history log.
    pub open spec fn create_voting(
        self,
        key: PublicKey,
        drone: PublicKey,
        transaction: Digest,
        history_hash: Digest,
    ) -> LedgerView {
        self.replaced(
            key,
            transaction,
            VotingView::opened(key, drone, self.history(key).len() + 1, history_hash),
        )
    }

    /// The ledger after `action` is added to `voting` by `transaction`, when
    /// the host reports `history_hash` as the root of the grown history log.
    pub open spec fn vote(
        self,
        voting: VotingView,
        action: VotingAction,
        transaction: Digest,
        history_hash: Digest,
    ) -> LedgerView {
        self.replaced(voting.pub_key, transaction, voting.voted(action, history_hash))
    }

    /// True iff the ledger is consistent: each record is filed under its own
    /// subject, is well formed, and states the length of its history log; and
    /// only subjects with a record have a history log.
    pub open spec fn wf(self) -> bool {
        &&& forall|key: PublicKey| #[trigger]
            self.votings.contains_key(key) ==> {
                &&& self.votings[key].pub_key == key
                &&& self.votings[key].wf()
                &&& self.votings[key].history_len == self.history(key).len()
            }
        &&& forall|key: PublicKey| #[trigger]
            self.histories.contains_key(key) ==> self.votings.contains_key(key)
    }
}

/// True iff `records` lists each record of `votings` exactly once, and nothing
/// else.
pub open spec fn lists(records: Seq<VotingView>, votings: Map<PublicKey, VotingView>) -> bool {
    &&& forall|i: int|
        0 <= i < records.len() ==> votings.contains_key((#[trigger] records[i]).pub_key)
            && votings[records[i].pub_key] == records[i]
    &&& forall|key: PublicKey| #[trigger]
        votings.contains_key(key) ==> exists|i: int|
            0 <= i < records.len() && (#[trigger] records[i]).pub_key == key
    &&& forall|i: int, j: int|
        0 <= i < j < records.len() ==> (#[trigger] records[i]).pub_key != (
        #[trigger] records[j]).pub_key
}

/// What the store keeps for one subject.
#[derive(Debug)]
struct Entry {
    voting: Voting,
    history: Vec<Digest>,
}

spec fn distinct_keys(entries: Seq<Entry>) -> bool {
    forall|i: int, j: int|
        0 <= i < j < entries.len() ==> (#[trigger] entries[i]).voting.pub_key != (
        #[trigger] entries[j]).voting.pub_key
}

spec fn holds(entries: Seq<Entry>, key: PublicKey) -> bool {
    exists|i: int| 0 <= i < entries.len() && (#[trigger] entries[i]).voting.pub_key == key
}

spec fn position(entries: Seq<Entry>, key: PublicKey) -> int {
    choose|i: int| 0 <= i < entries.len() && (#[trigger] entries[i]).voting.pub_key == key
}

spec fn ledger_of(entries: Seq<Entry>) -> LedgerView {
    LedgerView {
        votings: Map::new(
            |key: PublicKey| holds(entries, key),
            |key: PublicKey| entries[position(entries, key)].voting@,
        ),
        histories: Map::new(
            |key: PublicKey| holds(entries, key),
            |key: PublicKey| entries[position(entries, key)].history@,
        ),
    }
}

proof fn lemma_position(entries: Seq<Entry>, i: int)
    requires
        distinct_keys(entries),
        0 <= i < entries.len(),
    ensures
        holds(entries, entries[i].voting.pub_key),
        position(entries, entries[i].voting.pub_key) == i,
{
    let key = entries[i].voting.pub_key;
    let p = position(entries, key);
    assert(0 <= p < entries.len() && entries[p].voting.pub_key == key);
    if p < i {
        assert(entries[p].voting.pub_key != entries[i].voting.pub_key);
    }
    if i < p {
        assert(entries[i].voting.pub_key != entries[p].voting.pub_key);
    }
}

proof fn lemma_held(entries: Seq<Entry>, key: PublicKey)
    requires
        holds(entries, key),
    ensures
        0 <= position(entries, key) < entries.len(),
        entries[position(entries, key)].voting.pub_key == key,
{
}

proof fn lemma_pushed(entries: Seq<Entry>, entry: Entry)
    requires
        distinct_keys(entries),
        !holds(entries, entry.voting.pub_key),
    ensures
        distinct_keys(entries.push(entry)),
        ledger_of(entries.push(entry)).votings == ledger_of(entries).votings.insert(
            entry.voting.pub_key,
            entry.voting@,
        ),
        ledger_of(entries.push(entry)).histories == ledger_of(entries).histories.insert(
            entry.voting.pub_key,
            entry.history@,
        ),
{
    let after = entries.push(entry);
    let key = entry.voting.pub_key;
    assert forall|i: int, j: int| 0 <= i < j < after.len() implies
        (#[trigger] after[i]).voting.pub_key != (#[trigger] after[j]).voting.pub_key by {
        if j == entries.len() {
            assert(entries[i].voting.pub_key != key);
        } else {
            assert(entries[i].voting.pub_key != entries[j].voting.pub_key);
        }
    }
    assert forall|k: PublicKey| holds(after, k) == (k == key || holds(entries, k)) by {
        if holds(after, k) {
            let p = position(after, k);
            if p < entries.len() {
                assert(entries[p].voting.pub_key == k);
            }
        }
        if k == key {
            assert(after[entries.len() as int].voting.pub_key == k);
        }
        if holds(entries, k) {
            let p = position(entries, k);
            assert(after[p].voting.pub_key == k);
        }
    }
    assert forall|k: PublicKey| holds(after, k) implies after[position(after, k)] == (if k == key {
        entry
    } else {
        entries[position(entries, k)]
    }) by {
        if k == key {
            lemma_position(after, entries.len() as int);
        } else {
            let p = position(entries, k);
            assert(after[p].voting.pub_key == k);
            lemma_position(after, p);
        }
    }
    assert(ledger_of(after).votings =~= ledger_of(entries).votings.insert(key, entry.voting@));
    assert(ledger_of(after).histories =~= ledger_of(entries).histories.insert(key, entry.history@));
}

proof fn lemma_updated(entries: Seq<Entry>, i: int, entry: Entry)
    requires
        distinct_keys(entries),
        0 <= i < entries.len(),
        entry.voting.pub_key == entries[i].voting.pub_key,
    ensures
        distinct_keys(entries.update(i, entry)),
        ledger_of(entries.update(i, entry)).votings == ledger_of(entries).votings.insert(
            entry.voting.pub_key,
            entry.voting@,
        ),
        ledger_of(entries.update(i, entry)).histories == ledger_of(entries).histories.insert(
            entry.voting.pub_key,
            entry.history@,
        ),
{
    let after = entries.update(i, entry);
    let key = entry.voting.pub_key;
    assert forall|a: int, b: int| 0 <= a < b < after.len() implies
        (#[trigger] after[a]).voting.pub_key != (#[trigger] after[b]).voting.pub_key by {
        assert(entries[a].voting.pub_key != entries[b].voting.pub_key);
    }
    assert forall|k: PublicKey| holds(after, k) == holds(entries, k) by {
        if holds(after, k) {
            let p = position(after, k);
            assert(entries[p].voting.pub_key == k);
        }
        if holds(entries, k) {
            let p = position(entries, k);
            assert(after[p].voting.pub_key == k);
        }
    }
    assert(holds(entries, key)) by {
        assert(entries[i].voting.pub_key == key);
    }
    assert forall|k: PublicKey| holds(after, k) implies after[position(after, k)] == (if k == key {
        entry
    } else {
        entries[position(entries, k)]
    }) by {
        if k == key {
            lemma_position(after, i);
        } else {
            let p = position(entries, k);
            assert(after[p].voting.pub_key == k);
            lemma_position(after, p);
        }
    }
    assert(ledger_of(after).votings =~= ledger_of(entries).votings.insert(key, entry.voting@));
    assert(ledger_of(after).histories =~= ledger_of(entries).histories.insert(key, entry.history@));
}

/// Where `key` is kept among `entries`, if anywhere.
fn find(entries: &Vec<Entry>, key: &PublicKey) -> (at: Option<usize>)
    ensures
        match at {
            Some(i) => i < entries.len() && entries@[i as int].voting.pub_key == *key,
            None => !holds(entries@, *key),
        },
{
    let mut i: usize = 0;
    while i < entries.len()
        invariant
            i <= entries.len(),
            forall|j: int| 0 <= j < i ==> (#[trigger] entries@[j]).voting.pub_key != *key,
        decreases entries.len() - i,
    {
        if entries[i].voting.pub_key == *key {
            return Some(i);
        }
        i += 1;
    }
    None
}

/// A copy of `log`.
fn copy_log(log: &Vec<Digest>) -> (copy: Vec<Digest>)
    ensures
        copy@ == log@,
{
    let mut copy: Vec<Digest> = Vec::new();
    let mut i: usize = 0;
    while i < log.len()
        invariant
            i <= log.len(),
            copy@ == log@.take(i as int),
        decreases log.len() - i,
    {
        copy.push(log[i]);
        i += 1;
    }
    copy
}

/// The ledger store.
#[derive(Debug)]
pub struct SwarmSchema {
    entries: Vec<Entry>,
}

impl View for SwarmSchema {
    type V = LedgerView;

    closed spec fn view(&self) -> LedgerView {
        ledger_of(self.entries@)
    }
}

impl SwarmSchema {
    #[verifier::type_invariant]
    spec fn inv(self) -> bool {
        distinct_keys(self.entries@)
    }

    /// The store without any record or history log.
    pub fn new() -> (schema: Self)
        ensures
            schema@ == LedgerView::empty(),
            schema@.wf(),
    {
        let schema = SwarmSchema { entries: Vec::new() };
        proof {
            assert(schema@.votings =~= Map::empty());
            assert(schema@.histories =~= Map::empty());
        }
        schema
    }

    /// The current record of `pub_key`, if there is one.
    pub fn voting(&self, pub_key: &PublicKey) -> (voting: Option<Voting>)
        ensures
            voting is Some <==> self@.votings.contains_key(*pub_key),
            voting is Some ==> voting->0@ == self@.votings[*pub_key],
    {
        proof {
            use_type_invariant(self);
        }
        match find(&self.entries, pub_key) {
            Some(i) => {
                proof {
                    lemma_position(self.entries@, i as int);
                }
                Some(self.entries[i].voting.clone())
            },
            None => None,
        }
    }

    /// The history log of `pub_key`, oldest entry first.
    pub fn voting_history(&self, pub_key: &PublicKey) -> (log: Vec<Digest>)
        ensures
            log@ == self@.history(*pub_key),
    {
        proof {
            use_type_invariant(self);
        }
        match find(&self.entries, pub_key) {
            Some(i) => {
                proof {
                    lemma_position(self.entries@, i as int);
                }
                copy_log(&self.entries[i].history)
            },
            None => Vec::new(),
        }
    }

    /// All records, each exactly once.
    pub fn votings(&self) -> (records: Vec<Voting>)
        ensures
            lists(records@.map_values(|v: Voting| v@), self@.votings),
    {
        proof {
            use_type_invariant(self);
        }
        let mut records: Vec<Voting> = Vec::new();
        let mut i: usize = 0;
        while i < self.entries.len()
            invariant
                i <= self.entries.len(),
                records@.len() == i,
                forall|j: int| 0 <= j < i ==> (#[trigger] records@[j])@ == self.entries@[j].voting@,
            decreases self.entries.len() - i,
        {
            records.push(self.entries[i].voting.clone());
            i += 1;
        }
        proof {
            let views = records@.map_values(|v: Voting| v@);
            let entries = self.entries@;
            assert forall|j: int| 0 <= j < views.len() implies self@.votings.contains_key(
                (#[trigger] views[j]).pub_key,
            ) && self@.votings[views[j].pub_key] == views[j] by {
                lemma_position(entries, j);
            }
            assert forall|key: PublicKey| #[trigger] self@.votings.contains_key(key) implies exists|
                j: int,
            |
                0 <= j < views.len() && (#[trigger] views[j]).pub_key == key by {
                lemma_held(entries, key);
                assert(views[position(entries, key)].pub_key == key);
            }
            assert forall|a: int, b: int| 0 <= a < b < views.len() implies
                (#[trigger] views[a]).pub_key != (#[trigger] views[b]).pub_key by {}
        }
        records
    }

    /// Appends `transaction` to the history log of `record`'s subject and puts
    /// `record` in place of the subject's record.
    fn replace(&mut self, transaction: &Digest, record: Voting)
        ensures
            final(self)@ == old(self)@.replaced(record@.pub_key, *transaction, record@),
    {
        proof {
            use_type_invariant(&*self);
        }
        let mut entries: Vec<Entry> = Vec::new();
        std::mem::swap(&mut entries, &mut self.entries);
        let ghost before = entries@;
        match find(&entries, &record.pub_key) {
            Some(i) => {
                proof {
                    lemma_position(before, i as int);
                }
                entries[i].history.push(*transaction);
                entries[i].voting = record;
                proof {
                    assert(entries@ =~= before.update(i as int, entries@[i as int]));
                    lemma_updated(before, i as int, entries@[i as int]);
                }
            },
            None => {
                let mut history: Vec<Digest> = Vec::new();
                history.push(*transaction);
                let entry = Entry { voting: record, history };
                proof {
                    lemma_pushed(before, entry);
                }
                entries.push(entry);
            },
        }
        self.entries = entries;
    }

    /// Opens a voting on `key` for `drone`: appends `transaction` to the
    /// history log of `key` and files a record without votes, which holds the
    /// length of the log and `history_hash`, the root that the host reports for
    /// the log after the append.
    pub fn create_voting(
        &mut self,
        key: &PublicKey,
        drone: &PublicKey,
        transaction: &Digest,
        history_hash: &Digest,
    )
        ensures
            final(self)@ == old(self)@.create_voting(*key, *drone, *transaction, *history_hash),
    {
        proof {
            use_type_invariant(&*self);
        }
        let mut entries: Vec<Entry> = Vec::new();
        std::mem::swap(&mut entries, &mut self.entries);
        let ghost before = entries@;
        match find(&entries, key) {
            Some(i) => {
                proof {
                    lemma_position(before, i as int);
                }
                entries[i].history.push(*transaction);
                let history_len = entries[i].history.len() as u64;
                entries[i].voting = Voting::opened(key, drone, history_len, history_hash);
                proof {
                    assert(entries@ =~= before.update(i as int, entries@[i as int]));
                    lemma_updated(before, i as int, entries@[i as int]);
                }
            },
            None => {
                let mut history: Vec<Digest> = Vec::new();
                history.push(*transaction);
                let entry = Entry { voting: Voting::opened(key, drone, 1, history_hash), history };
                proof {
                    lemma_pushed(before, entry);
                }
                entries.push(entry);
            },
        }
        self.entries = entries;
    }

    /// Adds `action` to `voting`: appends `transaction` to the history log of
    /// the subject and files the record that supersedes `voting`, with
    /// `history_hash`, the root that the host reports for the log after the
    /// append.
    pub fn vote(
        &mut self,
        voting: Voting,
        action: VotingAction,
        transaction: &Digest,
        history_hash: &Digest,
    )
        requires
            voting@.has_room(action.voting_status),
        ensures
            final(self)@ == old(self)@.vote(voting@, action, *transaction, *history_hash),
    {
        let voting = voting.voted(action, history_hash);
        self.replace(transaction, voting);
    }

    /// The authenticators that the ledger contributes to the host's state
    /// commitment: exactly one, the root `votings_root` that the host computed
    /// over all records.
    pub fn state_hash(votings_root: &Digest) -> (roots: Vec<Digest>)
        ensures
            roots@ == seq![*votings_root],
            roots@[VOTINGS_TABLE_INDEX as int] == *votings_root,
    {
        let mut roots: Vec<Digest> = Vec::new();
        roots.push(*votings_root);
        roots
    }

    /// Number of entries in the history log of `pub_key`.
    pub fn history_len(&self, pub_key: &PublicKey) -> (len: u64)
        ensures
            len == self@.history(*pub_key).len(),
    {
        proof {
            use_type_invariant(self);
        }
        match find(&self.entries, pub_key) {
            Some(i) => {
                proof {
                    lemma_position(self.entries@, i as int);
                }
                self.entries[i].history.len() as u64
            },
            None => 0,
        }
    }
}

} // verus!
