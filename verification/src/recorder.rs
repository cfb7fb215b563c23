//! The recorder: the single collector that merges the batches of all scans
//! into one snapshot.
//!
//! The recorder is a state machine. Whoever owns the channel hands it each
//! message as it arrives and does what the returned action says; the recorder
//! itself never waits. [`file_recorder`] runs the machine over a complete
//! sequence of messages.

use crate::crawl::{Crawl, TOOL_REVISION};
use crate::entry::{EntryInfo, EntryModel};
use crate::distinct::{absorb, lemma_absorb};
use crate::entry_set::{models, EntrySet};
use vstd::prelude::*;

verus! {

/// A message to the recorder.
#[derive(Debug)]
pub enum RecorderSignal {
    /// The batch of one scanned directory.
    EntriesVec(Vec<EntryInfo>),
    /// No further batches will be sent.
    Close,
}

impl RecorderSignal {
    /// The batch that the message carries, if it carries one.
    pub open spec fn batch(self) -> Option<Seq<EntryModel>> {
        match self {
            RecorderSignal::EntriesVec(entries) => Some(models(entries@)),
            RecorderSignal::Close => None,
        }
    }
}

/// What the owner of the channel does after a message was handled.
#[derive(Clone, Copy, Debug, PartialEq, Eq, Structural)]
pub enum RecorderAction {
    /// Wait for the next message.
    Receive,
    /// Close the receiving end, then keep draining what is buffered.
    CloseReceiver,
    /// Stop consuming: every expected batch has arrived.
    Finish,
}

/// The entries that occur in at least one of the batches.
pub open spec fn observed(batches: Seq<Seq<EntryModel>>) -> Set<EntryModel> {
    Set::new(
        |e: EntryModel|
            exists|i: int, j: int|
                0 <= i < batches.len() && 0 <= j < batches[i].len() && batches[i][j] == e,
    )
}

/// The entries of the batches in order of first arrival, each once.
pub open spec fn merged(batches: Seq<Seq<EntryModel>>) -> Seq<EntryModel>
    decreases batches.len(),
{
    if batches.len() == 0 {
        Seq::empty()
    } else {
        absorb(merged(batches.drop_last()), batches.last())
    }
}

/// The batches among a sequence of messages, in order of arrival.
pub open spec fn signal_batches(signals: Seq<RecorderSignal>) -> Seq<Seq<EntryModel>>
    decreases signals.len(),
{
    if signals.len() == 0 {
        Seq::empty()
    } else {
        match signals.last().batch() {
            Some(batch) => signal_batches(signals.drop_last()).push(batch),
            None => signal_batches(signals.drop_last()),
        }
    }
}

/// The batches that a recorder expecting `jobs_working` of them holds while
/// a run is under way, once `batches` have arrived: all of them, and no more
/// than it expects.
spec fn taken_in(batches: Seq<Seq<EntryModel>>, jobs_working: nat) -> Seq<Seq<EntryModel>> {
    if batches.len() <= jobs_working {
        batches
    } else {
        batches.take(jobs_working as int)
    }
}

/// One more batch adds exactly its entries to what was observed.
pub proof fn lemma_observed_push(batches: Seq<Seq<EntryModel>>, batch: Seq<EntryModel>)
    ensures
        observed(batches.push(batch)) == observed(batches).union(batch.to_set()),
{
    let more = batches.push(batch);
    assert forall|e: EntryModel| observed(more).contains(e) implies observed(batches).union(
        batch.to_set(),
    ).contains(e) by {
        let (i, j) = choose|i: int, j: int|
            0 <= i < more.len() && 0 <= j < more[i].len() && more[i][j] == e;
        if i < batches.len() {
            assert(batches[i][j] == e);
        } else {
            assert(batch[j] == e);
        }
    }
    assert forall|e: EntryModel| observed(batches).union(batch.to_set()).contains(
        e,
    ) implies observed(more).contains(e) by {
        if observed(batches).contains(e) {
            let (i, j) = choose|i: int, j: int|
                0 <= i < batches.len() && 0 <= j < batches[i].len() && batches[i][j] == e;
            assert(more[i][j] == e);
        } else {
            let j = choose|j: int| 0 <= j < batch.len() && batch[j] == e;
            assert(more[batches.len() as int][j] == e);
        }
    }
    assert(observed(more) =~= observed(batches).union(batch.to_set()));
}

/// Merging holds every observed entry exactly once.
pub proof fn lemma_merged(batches: Seq<Seq<EntryModel>>)
    ensures
        merged(batches).no_duplicates(),
        merged(batches).to_set() == observed(batches),
        merged(batches).len() == observed(batches).len(),
    decreases batches.len(),
{
    if batches.len() == 0 {
        assert(merged(batches).to_set() =~= observed(batches));
    } else {
        let front = batches.drop_last();
        lemma_merged(front);
        lemma_absorb(merged(front), batches.last());
        lemma_observed_push(front, batches.last());
        assert(batches =~= front.push(batches.last()));
    }
    merged(batches).unique_seq_to_set();
}

/// An entry that several batches report is held once.
pub proof fn lemma_overlap_held_once(
    batches: Seq<Seq<EntryModel>>,
    first: int,
    i: int,
    second: int,
    j: int,
)
    requires
        0 <= first < batches.len(),
        0 <= i < batches[first].len(),
        0 <= second < batches.len(),
        0 <= j < batches[second].len(),
        batches[first][i] == batches[second][j],
    ensures
        merged(batches).to_multiset().count(batches[first][i]) == 1,
{
    lemma_merged(batches);
    let e = batches[first][i];
    assert(observed(batches).contains(e));
    assert(merged(batches).contains(e));
    merged(batches).lemma_multiset_has_no_duplicates();
    vstd::seq_lib::to_multiset_contains(merged(batches), e);
}

/// What is observed does not depend on the order in which the batches arrive.
pub proof fn lemma_observed_order_free(a: Seq<Seq<EntryModel>>, b: Seq<Seq<EntryModel>>)
    requires
        a.to_multiset() == b.to_multiset(),
    ensures
        observed(a) == observed(b),
        merged(a).to_set() == merged(b).to_set(),
        merged(a).len() == merged(b).len(),
{
    lemma_observed_subset(a, b);
    lemma_observed_subset(b, a);
    assert(observed(a) =~= observed(b));
    lemma_merged(a);
    lemma_merged(b);
}

proof fn lemma_observed_subset(a: Seq<Seq<EntryModel>>, b: Seq<Seq<EntryModel>>)
    requires
        a.to_multiset() == b.to_multiset(),
    ensures
        observed(a).subset_of(observed(b)),
{
    assert forall|e: EntryModel| observed(a).contains(e) implies observed(b).contains(e) by {
        let (i, j) = choose|i: int, j: int|
            0 <= i < a.len() && 0 <= j < a[i].len() && a[i][j] == e;
        assert(a.contains(a[i]));
        vstd::seq_lib::to_multiset_contains(a, a[i]);
        vstd::seq_lib::to_multiset_contains(b, a[i]);
        assert(b.contains(a[i]));
        let k = choose|k: int| 0 <= k < b.len() && b[k] == a[i];
        assert(b[k][j] == e);
    }
}

/// A batch without entries changes nothing of what is observed, wherever
/// among the others it arrives.
pub proof fn lemma_empty_batch_adds_nothing(batches: Seq<Seq<EntryModel>>, at: int)
    requires
        0 <= at <= batches.len(),
    ensures
        observed(batches.insert(at, Seq::empty())) == observed(batches),
        merged(batches.insert(at, Seq::empty())).len() == merged(batches).len(),
{
    let more = batches.insert(at, Seq::empty());
    assert forall|e: EntryModel| observed(more).contains(e) implies observed(batches).contains(
        e,
    ) by {
        let (i, j) = choose|i: int, j: int|
            0 <= i < more.len() && 0 <= j < more[i].len() && more[i][j] == e;
        if i < at {
            assert(batches[i][j] == e);
        } else {
            assert(batches[i - 1][j] == e);
        }
    }
    assert forall|e: EntryModel| observed(batches).contains(e) implies observed(more).contains(
        e,
    ) by {
        let (i, j) = choose|i: int, j: int|
            0 <= i < batches.len() && 0 <= j < batches[i].len() && batches[i][j] == e;
        if i < at {
            assert(more[i][j] == e);
        } else {
            assert(more[i + 1][j] == e);
        }
    }
    assert(observed(more) =~= observed(batches));
    lemma_merged(more);
    lemma_merged(batches);
}

/// The batches of a sequence of messages with one more message at its end.
pub proof fn lemma_signal_batches_push(signals: Seq<RecorderSignal>, signal: RecorderSignal)
    ensures
        signal_batches(signals.push(signal)) == match signal.batch() {
            Some(batch) => signal_batches(signals).push(batch),
            None => signal_batches(signals),
        },
{
    assert(signals.push(signal).drop_last() =~= signals);
}

/// A run in which exactly the expected batches arrive takes in the same
/// entries in whatever order they arrive.
pub proof fn lemma_run_order_free(
    a: Seq<RecorderSignal>,
    b: Seq<RecorderSignal>,
    jobs_working: nat,
)
    requires
        signal_batches(a).to_multiset() == signal_batches(b).to_multiset(),
        signal_batches(a).len() == jobs_working,
    ensures
        signal_batches(b).len() == jobs_working,
        observed(signal_batches(a).take(jobs_working as int)) == observed(
            signal_batches(b).take(jobs_working as int),
        ),
        merged(signal_batches(a).take(jobs_working as int)).len() == merged(
            signal_batches(b).take(jobs_working as int),
        ).len(),
{
    vstd::seq_lib::to_multiset_len(signal_batches(a));
    vstd::seq_lib::to_multiset_len(signal_batches(b));
    assert(signal_batches(a).take(jobs_working as int) =~= signal_batches(a));
    assert(signal_batches(b).take(jobs_working as int) =~= signal_batches(b));
    lemma_observed_order_free(signal_batches(a), signal_batches(b));
}

/// The collector of one run.
///
/// It is told how many batches to expect, takes in that many, and is then
/// finished. With nothing to expect it is finished from the start.
pub struct Recorder {
    jobs_working: usize,
    jobs_done: usize,
    entries_info: EntrySet,
    received: Ghost<Seq<Seq<EntryModel>>>,
}

impl Recorder {
    #[verifier::type_invariant]
    spec fn coherent(self) -> bool {
        &&& self.jobs_done == self.received@.len()
        &&& self.jobs_done <= self.jobs_working
        &&& self.entries_info.order() == merged(self.received@)
    }

    /// The number of batches that the recorder waits for in all.
    pub closed spec fn expected(self) -> usize {
        self.jobs_working
    }

    /// The batches taken in so far, in order of arrival.
    pub closed spec fn received(self) -> Seq<Seq<EntryModel>> {
        self.received@
    }

    /// True when every expected batch has been taken in.
    pub open spec fn finished(self) -> bool {
        self.received().len() >= self.expected()
    }

    /// The batches taken in once `signal` was handled: a batch is taken in
    /// unless the recorder is finished, anything else changes nothing.
    pub open spec fn received_with(self, signal: RecorderSignal) -> Seq<Seq<EntryModel>> {
        match signal.batch() {
            Some(batch) if !self.finished() => self.received().push(batch),
            _ => self.received(),
        }
    }

    /// The action that handling `signal` asks for.
    pub open spec fn action_on(self, signal: RecorderSignal) -> RecorderAction {
        if self.finished() {
            RecorderAction::Finish
        } else {
            match signal.batch() {
                Some(_) => if self.received().len() + 1 >= self.expected() {
                    RecorderAction::Finish
                } else {
                    RecorderAction::Receive
                },
                None => RecorderAction::CloseReceiver,
            }
        }
    }

    /// A recorder that waits for `jobs_working` batches and holds nothing yet.
    pub fn new(jobs_working: usize) -> (r: Recorder)
        ensures
            r.expected() == jobs_working,
            r.received() == Seq::<Seq<EntryModel>>::empty(),
    {
        Recorder {
            jobs_working,
            jobs_done: 0,
            entries_info: EntrySet::new(),
            received: Ghost(Seq::empty()),
        }
    }

    /// The number of batches that the recorder waits for in all.
    pub fn jobs_working(&self) -> (r: usize)
        ensures
            r == self.expected(),
    {
        self.jobs_working
    }

    /// The number of batches taken in so far.
    pub fn jobs_done(&self) -> (r: usize)
        ensures
            r == self.received().len(),
            r <= self.expected(),
    {
        proof {
            use_type_invariant(self);
        }
        self.jobs_done
    }

    /// True when every expected batch has been taken in.
    pub fn is_finished(&self) -> (r: bool)
        ensures
            r == self.finished(),
    {
        proof {
            use_type_invariant(self);
        }
        self.jobs_done == self.jobs_working
    }

    /// The entries held so far: every entry of every batch taken in, once.
    pub fn entries(&self) -> (r: &EntrySet)
        ensures
            r.order() == merged(self.received()),
            r@ == observed(self.received()),
    {
        proof {
            use_type_invariant(self);
            lemma_merged(self.received@);
        }
        &self.entries_info
    }

    /// Handles one message and says what to do next.
    ///
    /// A batch is merged into the entries held and counted, unless the
    /// recorder is finished already; the last expected batch finishes it.
    /// `Close` changes nothing and asks for the receiving end to be closed.
    pub fn receive(self, signal: RecorderSignal) -> (r: (Recorder, RecorderAction))
        ensures
            r.0.expected() == self.expected(),
            r.0.received() == self.received_with(signal),
            r.1 == self.action_on(signal),
    {
        proof {
            use_type_invariant(&self);
        }
        if self.jobs_done == self.jobs_working {
            return (self, RecorderAction::Finish);
        }
        match signal {
            RecorderSignal::EntriesVec(entries) => {
                let ghost batch = models(entries@);
                let Recorder { jobs_working, jobs_done, entries_info, received } = self;
                let mut entries_info = entries_info;
                entries_info.insert_all(entries);
                let jobs_done = jobs_done + 1;
                let ghost taken = received@.push(batch);
                assert(taken.drop_last() =~= received@);
                let next = Recorder { jobs_working, jobs_done, entries_info, received: Ghost(taken) };
                let action = if jobs_done == jobs_working {
                    RecorderAction::Finish
                } else {
                    RecorderAction::Receive
                };
                (next, action)
            },
            RecorderSignal::Close => (self, RecorderAction::CloseReceiver),
        }
    }

    /// Freezes what was taken in into a snapshot stamped `date_time`, once
    /// every expected batch has been taken in.
    ///
    /// A recorder that still waits for a batch gives no snapshot. The
    /// snapshot of a finished one holds every observed entry once, and its
    /// count is the number of distinct entries observed.
    pub fn finish(self, date_time: String) -> (r: Option<Crawl>)
        ensures
            r is Some <==> self.finished(),
            r matches Some(crawl) ==> {
                &&& crawl.date_time == date_time
                &&& crawl.used_tool_revision == TOOL_REVISION
                &&& crawl.entries_info.order() == merged(self.received())
                &&& crawl@.entries == observed(self.received())
                &&& crawl.entry_count == observed(self.received()).len()
            },
    {
        proof {
            use_type_invariant(&self);
            lemma_merged(self.received@);
        }
        if self.jobs_done != self.jobs_working {
            return None;
        }
        let Recorder { jobs_working: _, jobs_done: _, entries_info, received: _ } = self;
        Some(Crawl::new(date_time, entries_info))
    }
}

/// Runs a recorder that expects `jobs_working` batches over `signals`, in
/// order, and freezes what it took in into a snapshot stamped `date_time`.
///
/// There is a snapshot exactly when the expected number of batches is among
/// the messages. It holds the entries of the first `jobs_working` batches:
/// what arrives after them is not taken in. With nothing to expect the
/// snapshot is empty.
pub fn file_recorder(signals: Vec<RecorderSignal>, jobs_working: usize, date_time: String) -> (r:
    Option<Crawl>)
    ensures
        r is Some <==> signal_batches(signals@).len() >= jobs_working,
        r matches Some(crawl) ==> {
            &&& crawl.date_time == date_time
            &&& crawl.used_tool_revision == TOOL_REVISION
            &&& crawl.entries_info.order() == merged(
                signal_batches(signals@).take(jobs_working as int),
            )
            &&& crawl@.entries == observed(signal_batches(signals@).take(jobs_working as int))
            &&& crawl.entry_count == observed(
                signal_batches(signals@).take(jobs_working as int),
            ).len()
        },
{
    let ghost all = signals@;
    let mut recorder = Recorder::new(jobs_working);
    for signal in it: signals.into_iter()
        invariant
            it.seq() == all,
            recorder.expected() == jobs_working,
            recorder.received() == taken_in(
                signal_batches(all.take(it.index() as int)),
                jobs_working as nat,
            ),
    {
        proof {
            all.lemma_take_succ_push(it.index() as int);
            lemma_signal_batches_push(all.take(it.index() as int), signal);
        }
        let (next, _action) = recorder.receive(signal);
        recorder = next;
    }
    proof {
        assert(all.take(all.len() as int) =~= all);
        if signal_batches(all).len() == jobs_working {
            assert(signal_batches(all).take(jobs_working as int) =~= signal_batches(all));
        }
    }
    recorder.finish(date_time)
}

} // verus!
