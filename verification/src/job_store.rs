//! JobStore. A lock-less in-memory data store designed for messaging.
//!
//! The store itself is a plain value: an ordered list of envelopes
//! with pairwise distinct keys, seen in contracts as a map from key to
//! envelope content. A host program gives it the actor shape: it owns
//! a request channel, receives commands one at a time, and hands each
//! to [`JobStore::handle_command`], which mutates the map, broadcasts
//! a [`JobEvent`] to the current subscribers, or resolves a one-time
//! reply slot, depending on the command.

use crate::models::jobs::{Job, JobEvent, JobV};
use crate::models::{Model, ModelV};
use tokio::sync::broadcast;
use tokio::sync::oneshot;
use vstd::prelude::*;
use vstd::string::StringExecFns;

verus! {

#[verifier::external_type_specification]
#[verifier::external_body]
#[verifier::reject_recursive_types(T)]
pub struct ExBroadcastSender<T>(broadcast::Sender<T>);

#[verifier::external_type_specification]
#[verifier::external_body]
#[verifier::reject_recursive_types(T)]
pub struct ExBroadcastReceiver<T>(broadcast::Receiver<T>);

#[verifier::external_type_specification]
#[verifier::external_body]
#[verifier::reject_recursive_types(T)]
pub struct ExOneshotSender<T>(oneshot::Sender<T>);

/// How many queued events a slow subscriber may fall behind before it
/// starts losing the oldest unread ones.
pub const EVENT_CHANNEL_CAPACITY: usize = 64;

/// Relies on tokio::sync::broadcast::channel: a fresh broadcast
/// channel handle pair with the given per-subscriber capacity. It
/// panics when the capacity is 0 or above `usize::MAX / 2`, so those
/// capacities are excluded here.
#[verifier::external_body]
fn new_event_channel(capacity: usize) -> (r: (
    broadcast::Sender<JobEvent>,
    broadcast::Receiver<JobEvent>,
))
    requires
        1 <= capacity <= usize::MAX / 2,
{
    broadcast::channel(capacity)
}

/// Relies on tokio::sync::broadcast::Sender::receiver_count: how many
/// receivers are subscribed at the moment of the call.
#[verifier::external_body]
fn receiver_count(tx: &broadcast::Sender<JobEvent>) -> usize {
    tx.receiver_count()
}

/// Relies on tokio::sync::broadcast::Sender::send: queues the event
/// for every currently subscribed receiver; `false` when there is
/// none. It never blocks; a subscriber over capacity loses its oldest
/// unread events instead.
#[verifier::external_body]
fn send_event(tx: &broadcast::Sender<JobEvent>, event: JobEvent) -> bool {
    match tx.send(event) {
        Ok(_) => true,
        Err(_) => false,
    }
}

/// Relies on tokio::sync::oneshot::Sender::send: resolves the one-time
/// reply slot with the value; `false` when the receiver was already
/// dropped, which the store treats as best-effort, not as a fault.
#[verifier::external_body]
fn send_reply(tx: oneshot::Sender<Option<Model<Job>>>, reply: Option<Model<Job>>) -> bool {
    match tx.send(reply) {
        Ok(_) => true,
        Err(_) => false,
    }
}

/// A request to the store. Every variant is total over its inputs: an
/// absent key is an ordinary outcome, never a failure.
#[derive(Debug)]
pub enum Command {
    Insert(Model<Job>),
    Find(String),
    Remove(String),
    ListKeys(usize, usize),
    Callback(String, oneshot::Sender<Option<Model<Job>>>),
}

/// Does some envelope in the list carry this key?
pub open spec fn seq_contains_key(s: Seq<Model<Job>>, k: Seq<char>) -> bool {
    exists|i: int| 0 <= i < s.len() && s[i].key@ == k
}

/// The position of the envelope that carries this key.
pub open spec fn seq_index_of(s: Seq<Model<Job>>, k: Seq<char>) -> int {
    choose|i: int| 0 <= i < s.len() && s[i].key@ == k
}

/// The keys are pairwise distinct: at most one envelope per key.
pub open spec fn seq_wf(s: Seq<Model<Job>>) -> bool {
    forall|i: int, j: int| 0 <= i < j < s.len() ==> s[i].key@ != s[j].key@
}

/// The list of envelopes read as a map from key to envelope content.
pub open spec fn map_of(s: Seq<Model<Job>>) -> Map<Seq<char>, ModelV<JobV>> {
    Map::new(|k: Seq<char>| seq_contains_key(s, k), |k: Seq<char>| s[seq_index_of(s, k)]@)
}

/// The keys in list order.
pub open spec fn seq_keys(s: Seq<Model<Job>>) -> Seq<Seq<char>> {
    Seq::new(s.len(), |i: int| s[i].key@)
}

proof fn lemma_index_of(s: Seq<Model<Job>>, k: Seq<char>)
    requires
        seq_contains_key(s, k),
    ensures
        0 <= seq_index_of(s, k) < s.len(),
        s[seq_index_of(s, k)].key@ == k,
        seq_wf(s) ==> forall|i: int|
            0 <= i < s.len() && s[i].key@ == k ==> i == seq_index_of(s, k),
{
    let idx = seq_index_of(s, k);
    assert(0 <= idx < s.len() && s[idx].key@ == k);
    if seq_wf(s) {
        assert forall|i: int| 0 <= i < s.len() && s[i].key@ == k implies i == idx by {
            if i < idx {
                assert(s[i].key@ != s[idx].key@);
            } else if idx < i {
                assert(s[idx].key@ != s[i].key@);
            }
        }
    }
}

proof fn lemma_map_of_push_fresh(s: Seq<Model<Job>>, m: Model<Job>)
    requires
        seq_wf(s),
        !seq_contains_key(s, m.key@),
    ensures
        seq_wf(s.push(m)),
        map_of(s.push(m)) == map_of(s).insert(m.key@, m@),
{
    let t = s.push(m);
    assert forall|i: int, j: int| 0 <= i < j < t.len() implies t[i].key@ != t[j].key@ by {
        if j == s.len() {
            assert(t[i] == s[i]);
            if t[i].key@ == m.key@ {
                assert(seq_contains_key(s, m.key@));
            }
        } else {
            assert(t[i] == s[i] && t[j] == s[j]);
        }
    }
    let lhs = map_of(t);
    let rhs = map_of(s).insert(m.key@, m@);
    assert forall|k: Seq<char>| #[trigger] lhs.dom().contains(k) implies rhs.dom().contains(k)
        && lhs[k] == rhs[k] by {
        let i = seq_index_of(t, k);
        lemma_index_of(t, k);
        if k == m.key@ {
            assert(i == s.len()) by {
                if i < s.len() {
                    assert(s[i] == t[i]);
                    assert(seq_contains_key(s, m.key@));
                }
            }
            assert(lhs[k] == m@);
        } else {
            assert(i < s.len() && s[i] == t[i]);
            assert(seq_contains_key(s, k));
            lemma_index_of(s, k);
            assert(seq_index_of(s, k) == i);
            assert(lhs[k] == s[i]@ && rhs[k] == map_of(s)[k]);
        }
    }
    assert forall|k: Seq<char>| #[trigger] rhs.dom().contains(k) implies lhs.dom().contains(
        k,
    ) by {
        if k == m.key@ {
            assert(t[s.len() as int].key@ == k);
        } else {
            assert(seq_contains_key(s, k));
            let i = seq_index_of(s, k);
            lemma_index_of(s, k);
            assert(t[i].key@ == k);
        }
    }
    assert(lhs =~= rhs);
}

proof fn lemma_map_of_update(s: Seq<Model<Job>>, i: int, m: Model<Job>)
    requires
        seq_wf(s),
        0 <= i < s.len(),
        s[i].key@ == m.key@,
    ensures
        seq_wf(s.update(i, m)),
        map_of(s.update(i, m)) == map_of(s).insert(m.key@, m@),
{
    let t = s.update(i, m);
    assert forall|p: int, q: int| 0 <= p < q < t.len() implies t[p].key@ != t[q].key@ by {
        assert(t[p].key@ == s[p].key@ && t[q].key@ == s[q].key@);
    }
    let lhs = map_of(t);
    let rhs = map_of(s).insert(m.key@, m@);
    assert forall|k: Seq<char>| #[trigger] lhs.dom().contains(k) implies rhs.dom().contains(k)
        && lhs[k] == rhs[k] by {
        let p = seq_index_of(t, k);
        lemma_index_of(t, k);
        assert(t[p].key@ == s[p].key@);
        assert(seq_contains_key(s, k));
        if k == m.key@ {
            lemma_index_of(s, k);
            assert(p == i);
            assert(lhs[k] == m@);
        } else {
            assert(p != i);
            assert(t[p] == s[p]);
            lemma_index_of(s, k);
            assert(seq_index_of(s, k) == p);
        }
    }
    assert forall|k: Seq<char>| #[trigger] rhs.dom().contains(k) implies lhs.dom().contains(
        k,
    ) by {
        if k == m.key@ {
            assert(t[i].key@ == k);
        } else {
            assert(seq_contains_key(s, k));
            let p = seq_index_of(s, k);
            lemma_index_of(s, k);
            assert(p != i);
            assert(t[p].key@ == k);
        }
    }
    assert(lhs =~= rhs);
}

proof fn lemma_map_of_remove(s: Seq<Model<Job>>, i: int)
    requires
        seq_wf(s),
        0 <= i < s.len(),
    ensures
        seq_wf(s.remove(i)),
        map_of(s.remove(i)) == map_of(s).remove(s[i].key@),
{
    let t = s.remove(i);
    assert forall|p: int, q: int| 0 <= p < q < t.len() implies t[p].key@ != t[q].key@ by {
        let p0 = if p < i {
            p
        } else {
            p + 1
        };
        let q0 = if q < i {
            q
        } else {
            q + 1
        };
        assert(t[p] == s[p0] && t[q] == s[q0]);
    }
    let lhs = map_of(t);
    let rhs = map_of(s).remove(s[i].key@);
    assert forall|k: Seq<char>| #[trigger] lhs.dom().contains(k) implies rhs.dom().contains(k)
        && lhs[k] == rhs[k] by {
        let p = seq_index_of(t, k);
        lemma_index_of(t, k);
        let p0 = if p < i {
            p
        } else {
            p + 1
        };
        assert(t[p] == s[p0]);
        assert(seq_contains_key(s, k));
        lemma_index_of(s, k);
        assert(seq_index_of(s, k) == p0);
        if k == s[i].key@ {
            assert(p0 == i);
            assert(false);
        }
    }
    assert forall|k: Seq<char>| #[trigger] rhs.dom().contains(k) implies lhs.dom().contains(
        k,
    ) by {
        assert(seq_contains_key(s, k));
        let p0 = seq_index_of(s, k);
        lemma_index_of(s, k);
        assert(p0 != i);
        let p = if p0 < i {
            p0
        } else {
            p0 - 1
        };
        assert(t[p] == s[p0]);
        assert(t[p].key@ == k);
    }
    assert(lhs =~= rhs);
}

/// The page of keys that `ListKeys` reports: at most `limit` keys
/// after skipping the first `offset` of the current key list.
pub open spec fn spec_page(keys: Seq<Seq<char>>, offset: int, limit: int) -> Seq<Seq<char>> {
    let start = if offset <= keys.len() {
        offset
    } else {
        keys.len() as int
    };
    let end = if offset + limit <= keys.len() {
        offset + limit
    } else {
        keys.len() as int
    };
    keys.subrange(start, end)
}

/// The comma-joined rendering of a list of keys, exactly as the store
/// builds it: a separator before every key except ones appended while
/// the string is still empty.
pub open spec fn spec_join_keys(keys: Seq<Seq<char>>) -> Seq<char>
    decreases keys.len(),
{
    if keys.len() == 0 {
        Seq::empty()
    } else {
        let prefix = spec_join_keys(keys.drop_last());
        if prefix.len() == 0 {
            prefix + keys.last()
        } else {
            prefix + seq![','] + keys.last()
        }
    }
}

proof fn lemma_join_step(ks: Seq<Seq<char>>, j: int)
    requires
        0 <= j < ks.len(),
    ensures
        spec_join_keys(ks.take(j + 1)) == ({
            let prefix = spec_join_keys(ks.take(j));
            if prefix.len() == 0 {
                prefix + ks[j]
            } else {
                prefix + seq![','] + ks[j]
            }
        }),
{
    assert(ks.take(j + 1).drop_last() =~= ks.take(j));
    assert(ks.take(j + 1).last() == ks[j]);
}

/// The map a list of envelopes loads to: inserted in order, the last
/// writer winning on a repeated key.
pub open spec fn spec_store_of(s: Seq<Model<Job>>) -> Map<Seq<char>, ModelV<JobV>>
    decreases s.len(),
{
    if s.len() == 0 {
        Map::empty()
    } else {
        spec_store_of(s.drop_last()).insert(s.last()@.key, s.last()@)
    }
}

/// A lock-less, in-memory key→envelope store, together with the
/// broadcast channel its events fan out on.
pub struct JobStore {
    jobs: Vec<Model<Job>>,
    broadcaster: broadcast::Sender<JobEvent>,
}

impl View for JobStore {
    type V = Map<Seq<char>, ModelV<JobV>>;

    /// The store read as a map from key to envelope content.
    closed spec fn view(&self) -> Map<Seq<char>, ModelV<JobV>> {
        map_of(self.jobs@)
    }
}

impl JobStore {
    /// At most one envelope per key.
    pub closed spec fn wf(self) -> bool {
        seq_wf(self.jobs@)
    }

    /// How many envelopes the store holds.
    pub closed spec fn spec_len(self) -> nat {
        self.jobs@.len()
    }

    /// The keys in insertion order; replacement keeps the position.
    pub closed spec fn key_list(self) -> Seq<Seq<char>> {
        seq_keys(self.jobs@)
    }

    /// The broadcast channel the store's events fan out on.
    pub closed spec fn spec_broadcaster(self) -> broadcast::Sender<JobEvent> {
        self.broadcaster
    }

    /// create and return a valid store with an empty map
    pub fn new() -> (store: JobStore)
        ensures
            store.wf(),
            store@ == Map::<Seq<char>, ModelV<JobV>>::empty(),
            store.spec_len() == 0,
            store.key_list() == Seq::<Seq<char>>::empty(),
    {
        let job_list: Vec<Model<Job>> = Vec::new();
        let store = JobStore::with_list(job_list);
        proof {
            assert(store.key_list() =~= Seq::<Seq<char>>::empty());
        }
        store
    }

    /// create with a list of jobs, loaded in order with the last
    /// writer winning on a repeated key
    pub fn with_list(job_list: Vec<Model<Job>>) -> (store: JobStore)
        ensures
            store.wf(),
            store@ == spec_store_of(job_list@),
            store.spec_len() <= job_list@.len(),
    {
        let channel = new_event_channel(EVENT_CHANNEL_CAPACITY);
        let broadcaster = channel.0;
        let _subscriber = channel.1;

        let mut store = JobStore { jobs: Vec::new(), broadcaster };
        proof {
            assert(store@ =~= Map::<Seq<char>, ModelV<JobV>>::empty());
            assert(job_list@.take(0) =~= Seq::<Model<Job>>::empty());
        }
        let mut i: usize = 0;
        while i < job_list.len()
            invariant
                i <= job_list@.len(),
                store.wf(),
                store@ == spec_store_of(job_list@.take(i as int)),
                store.spec_len() <= i,
            decreases job_list@.len() - i,
        {
            let job = job_list[i].clone();
            store.put(job);
            proof {
                assert(job_list@.take(i + 1).drop_last() =~= job_list@.take(i as int));
                assert(job_list@.take(i + 1).last() == job_list@[i as int]);
            }
            i += 1;
        }
        proof {
            assert(job_list@.take(job_list@.len() as int) =~= job_list@);
        }
        store
    }

    /// How many envelopes the store holds.
    pub fn len(&self) -> (n: usize)
        ensures
            n == self.spec_len(),
    {
        self.jobs.len()
    }

    fn find_index(&self, key: &String) -> (r: Option<usize>)
        ensures
            match r {
                Some(i) => i < self.jobs@.len() && self.jobs@[i as int].key@ == key@,
                None => !seq_contains_key(self.jobs@, key@),
            },
    {
        let mut i: usize = 0;
        while i < self.jobs.len()
            invariant
                i <= self.jobs@.len(),
                forall|j: int| 0 <= j < i ==> self.jobs@[j].key@ != key@,
            decreases self.jobs@.len() - i,
        {
            if self.jobs[i].key == *key {
                return Some(i);
            }
            i += 1;
        }
        None
    }

    /// Upsert into the map alone: replace in place when the key is
    /// present, append when it is absent.
    fn put(&mut self, model: Model<Job>)
        requires
            old(self).wf(),
        ensures
            final(self).wf(),
            final(self)@ == old(self)@.insert(model@.key, model@),
            final(self).spec_broadcaster() == old(self).spec_broadcaster(),
            old(self)@.contains_key(model@.key) ==> final(self).key_list() == old(self).key_list()
                && final(self).spec_len() == old(self).spec_len(),
            !old(self)@.contains_key(model@.key) ==> final(self).key_list() == old(
                self,
            ).key_list().push(model@.key) && final(self).spec_len() == old(self).spec_len() + 1,
    {
        let ghost old_jobs = self.jobs@;
        let idx = self.find_index(&model.key);
        match idx {
            Some(i) => {
                let ghost m = model;
                self.jobs.remove(i);
                self.jobs.insert(i, model);
                proof {
                    assert(self.jobs@ =~= old_jobs.update(i as int, m));
                    lemma_map_of_update(old_jobs, i as int, m);
                    assert(self.key_list() =~= old(self).key_list());
                }
            },
            None => {
                let ghost m = model;
                self.jobs.push(model);
                proof {
                    lemma_map_of_push_fresh(old_jobs, m);
                    assert(self.key_list() =~= old(self).key_list().push(m@.key));
                }
            },
        }
    }

    /// Upsert by key: replace when present, append when absent.
    /// Returns the event the store broadcasts for the operation.
    pub fn insert(&mut self, model: Model<Job>) -> (e: JobEvent)
        requires
            old(self).wf(),
        ensures
            final(self).wf(),
            final(self)@ == old(self)@.insert(model@.key, model@),
            final(self).spec_broadcaster() == old(self).spec_broadcaster(),
            old(self)@.contains_key(model@.key) ==> final(self).key_list() == old(self).key_list()
                && final(self).spec_len() == old(self).spec_len(),
            !old(self)@.contains_key(model@.key) ==> final(self).key_list() == old(
                self,
            ).key_list().push(model@.key) && final(self).spec_len() == old(self).spec_len() + 1,
            e.message@ == "inserted job, id: "@ + model@.key,
            e.model matches Some(snap) && snap@ == model@,
            e.mid@.len() >= 1,
    {
        let snapshot = model.clone();
        let mut msg = String::from_str("inserted job, id: ");
        msg.append(model.key.as_str());
        self.put(model);
        JobEvent::new(msg.as_str(), Some(snapshot))
    }

    /// Read-only lookup. Returns the event the store broadcasts: the
    /// snapshot when the key is present, an empty result when not.
    pub fn find(&self, key: &String) -> (e: JobEvent)
        requires
            self.wf(),
        ensures
            self@.contains_key(key@) ==> (e.model matches Some(m) && m@ == self@[key@])
                && e.message@ == "found job id: "@ + key@,
            !self@.contains_key(key@) ==> e.model is None && e.message@ == "job not found for id: "@
                + key@,
            e.mid@.len() >= 1,
    {
        match self.find_index(key) {
            Some(i) => {
                proof {
                    lemma_index_of(self.jobs@, key@);
                }
                let mut msg = String::from_str("found job id: ");
                msg.append(self.jobs[i].key.as_str());
                JobEvent::new(msg.as_str(), Some(self.jobs[i].clone()))
            },
            None => {
                let mut msg = String::from_str("job not found for id: ");
                msg.append(key.as_str());
                JobEvent::new(msg.as_str(), None)
            },
        }
    }

    /// Delete by key when present; an absent key is an ordinary
    /// outcome that leaves the store unchanged, size included.
    /// Returns the event the store broadcasts: the removed snapshot,
    /// or "job not found" with no snapshot.
    pub fn remove(&mut self, key: &String) -> (e: JobEvent)
        requires
            old(self).wf(),
        ensures
            final(self).wf(),
            final(self)@ == old(self)@.remove(key@),
            final(self).spec_broadcaster() == old(self).spec_broadcaster(),
            old(self)@.contains_key(key@) ==> (e.model matches Some(m) && m@ == old(self)@[key@])
                && e.message@ == "job removed"@ && final(self).spec_len() + 1 == old(
                self,
            ).spec_len(),
            !old(self)@.contains_key(key@) ==> e.model is None && e.message@ == "job not found"@
                && *final(self) == *old(self),
            e.mid@.len() >= 1,
    {
        let ghost old_jobs = self.jobs@;
        match self.find_index(key) {
            Some(i) => {
                proof {
                    lemma_index_of(old_jobs, key@);
                    lemma_map_of_remove(old_jobs, i as int);
                }
                let job = self.jobs.remove(i);
                JobEvent::new("job removed", Some(job))
            },
            None => {
                proof {
                    assert(old(self)@.remove(key@) =~= old(self)@);
                }
                JobEvent::new("job not found", None)
            },
        }
    }

    /// Point query for resolving a one-time reply slot: the envelope
    /// filed under the key, or `None`.
    pub fn callback(&self, key: &String) -> (r: Option<Model<Job>>)
        requires
            self.wf(),
        ensures
            self@.contains_key(key@) ==> (r matches Some(m) && m@ == self@[key@]),
            !self@.contains_key(key@) ==> r is None,
    {
        match self.find_index(key) {
            Some(i) => {
                proof {
                    lemma_index_of(self.jobs@, key@);
                }
                Some(self.jobs[i].clone())
            },
            None => None,
        }
    }

    /// Read-only pagination. Returns the event the store broadcasts:
    /// a synthetic job whose results field carries the comma-joined
    /// page of at most `limit` keys after skipping `offset`.
    pub fn list_keys(&self, offset: usize, limit: usize) -> (e: JobEvent)
        requires
            self.wf(),
        ensures
            e.message@ == "list keys"@,
            e.model matches Some(m) && m@.value == (JobV {
                topic: "keys"@,
                description: Seq::empty(),
                run_at: None,
                action: ""@,
                results: Some(
                    spec_join_keys(spec_page(self.key_list(), offset as int, limit as int)),
                ),
                log: Seq::empty(),
                errors: Seq::empty(),
            }),
            e.mid@.len() >= 1,
    {
        let len = self.jobs.len();
        let start = if offset < len {
            offset
        } else {
            len
        };
        let remaining = len - start;
        let count = if limit < remaining {
            limit
        } else {
            remaining
        };
        let ghost page = spec_page(self.key_list(), offset as int, limit as int);
        proof {
            assert(page =~= seq_keys(self.jobs@).subrange(start as int, start + count));
            assert(page.take(0) =~= Seq::<Seq<char>>::empty());
        }

        let mut keys = String::new();
        let mut j: usize = 0;
        while j < count
            invariant
                len == self.jobs@.len(),
                start + count <= len,
                j <= count,
                count == page.len(),
                page == seq_keys(self.jobs@).subrange(start as int, start + count),
                keys@ == spec_join_keys(page.take(j as int)),
            decreases count - j,
        {
            if !keys.as_str().is_empty() {
                keys.push(',');
            }
            keys.append(self.jobs[start + j].key.as_str());
            proof {
                lemma_join_step(page, j as int);
                assert(page[j as int] == self.jobs@[start + j].key@);
            }
            j += 1;
        }
        proof {
            assert(page.take(count as int) =~= page);
        }

        let mut job = Job::new("keys", "");
        job.results = Some(keys);
        proof {
            assert(job@ =~= (JobV {
                topic: "keys"@,
                description: Seq::empty(),
                run_at: None,
                action: ""@,
                results: Some(spec_join_keys(page)),
                log: Seq::empty(),
                errors: Seq::empty(),
            }));
        }
        let model = Job::create_model(&job);
        JobEvent::new("list keys", Some(model))
    }

    /// broadcast the job event; skipped entirely when there is no
    /// current subscriber
    fn fire(&self, event: JobEvent) {
        if receiver_count(&self.broadcaster) > 0 {
            let _ = send_event(&self.broadcaster, event);
        }
    }

    /// Process one command: mutate the map and broadcast the matching
    /// event, or resolve the command's one-time reply slot.
    pub fn handle_command(&mut self, cmd: Command)
        requires
            old(self).wf(),
        ensures
            final(self).wf(),
            final(self).spec_broadcaster() == old(self).spec_broadcaster(),
            match cmd {
                Command::Insert(m) => final(self)@ == old(self)@.insert(m@.key, m@),
                Command::Remove(k) => final(self)@ == old(self)@.remove(k@),
                Command::Find(_) => *final(self) == *old(self),
                Command::ListKeys(_, _) => *final(self) == *old(self),
                Command::Callback(_, _) => *final(self) == *old(self),
            },
    {
        match cmd {
            Command::Insert(job) => {
                let event = self.insert(job);
                self.fire(event);
            },
            Command::Find(key) => {
                let event = self.find(&key);
                self.fire(event);
            },
            Command::Remove(key) => {
                let event = self.remove(&key);
                self.fire(event);
            },
            Command::ListKeys(offset, limit) => {
                let event = self.list_keys(offset, limit);
                self.fire(event);
            },
            Command::Callback(key, tx) => {
                let model = self.callback(&key);
                let _ = send_reply(tx, model);
            },
        }
    }

    /// subscribe to job events
    ///
    /// Relies on tokio::sync::broadcast::Sender::subscribe: a new
    /// receiver that observes only events published after this call,
    /// with no replay of history.
    #[verifier::external_body]
    pub fn subscribe(&self) -> broadcast::Receiver<JobEvent> {
        self.broadcaster.subscribe()
    }

    /// Another handle to the store's event channel, for a host program
    /// that hands the store itself to a worker task.
    ///
    /// Relies on tokio::sync::broadcast::Sender::clone: a sender to
    /// the same channel.
    #[verifier::external_body]
    pub fn event_sender(&self) -> broadcast::Sender<JobEvent> {
        self.broadcaster.clone()
    }

    /// load jobs from a remote json file; loading is not implemented,
    /// so the list comes back empty
    pub fn load_jobs(_filename: &str) -> (jobs: Vec<Model<Job>>)
        ensures
            jobs@.len() == 0,
    {
        Vec::new()
    }
}

/// Law: inserting an envelope and then finding its key always yields
/// a present entry whose wrapped value equals the inserted one.
pub proof fn lemma_insert_then_find(store: Map<Seq<char>, ModelV<JobV>>, m: ModelV<JobV>)
    ensures
        store.insert(m.key, m).contains_key(m.key),
        store.insert(m.key, m)[m.key] == m,
        store.insert(m.key, m)[m.key].value == m.value,
{
}

/// Law: removing a key that was never inserted is an absent outcome
/// that leaves the store exactly as it was.
pub proof fn lemma_remove_absent(store: Map<Seq<char>, ModelV<JobV>>, k: Seq<char>)
    requires
        !store.contains_key(k),
    ensures
        store.remove(k) == store,
{
    assert(store.remove(k) =~= store);
}

/// Law: inserting two envelopes under the same key leaves exactly one
/// entry under that key, the second envelope; the first might as well
/// never have been inserted.
pub proof fn lemma_insert_same_key(
    store: Map<Seq<char>, ModelV<JobV>>,
    m1: ModelV<JobV>,
    m2: ModelV<JobV>,
)
    requires
        m1.key == m2.key,
    ensures
        store.insert(m1.key, m1).insert(m2.key, m2) == store.insert(m2.key, m2),
        store.insert(m1.key, m1).insert(m2.key, m2).dom() == store.dom().insert(m2.key),
{
    assert(store.insert(m1.key, m1).insert(m2.key, m2) =~= store.insert(m2.key, m2));
    assert(store.insert(m1.key, m1).insert(m2.key, m2).dom() =~= store.dom().insert(m2.key));
}

/// Law: a ListKeys page never holds more than `limit` keys, and skips
/// at most `offset` keys from the start of the current key list.
pub proof fn lemma_page_limit(keys: Seq<Seq<char>>, offset: int, limit: int)
    requires
        0 <= offset,
        0 <= limit,
    ensures
        spec_page(keys, offset, limit).len() <= limit,
        spec_page(keys, offset, limit) == keys.skip(
            if offset <= keys.len() {
                offset
            } else {
                keys.len() as int
            },
        ).take(spec_page(keys, offset, limit).len() as int),
{
    let start = if offset <= keys.len() {
        offset
    } else {
        keys.len() as int
    };
    let end = if offset + limit <= keys.len() {
        offset + limit
    } else {
        keys.len() as int
    };
    assert(spec_page(keys, offset, limit) =~= keys.skip(start).take(end - start));
}

} // verus!
