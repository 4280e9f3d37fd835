//! The verification engine: drives a prepared work list through per-item
//! digest checks, counts every outcome in the status sink, and reports
//! mismatches, failures and completion over a channel.
//!
//! The run state is explicit.  A sequential caller checks items one at a
//! time with `step`, in list order, and ends with `finish`.  A parallel
//! caller splits the run into one consumable check per item, fans those out
//! over workers in no promised order, and ends with the finisher once its
//! pool has joined.  Either way every item is counted exactly once, and the
//! completion event comes after all of them.

use std::sync::Arc;
use std::time::{Duration, Instant};

use vstd::prelude::*;
use vstd::seq_lib::group_to_multiset_ensures;

use crate::hash_pair::{pairs_sorted, sort_pairs, HashPair, HashPairModel};
use crate::status::{arc_clone, StatusWrapper};

verus! {

/// Run configuration, captured once when a run starts; later edits of a live
/// settings object do not reach a run already under way.
#[derive(Debug, Clone, Copy)]
pub struct Setting {
    pub parallel: bool,
    pub sort: bool,
    pub block_size: usize,
}

impl Setting {
    /// Accepted configurations read files at least a kibibyte at a time.
    pub open spec fn wf(self) -> bool {
        self.block_size >= 1024
    }

    /// Raise the block size by a step, holding at the type's ceiling.
    pub fn increase_block_size(&mut self, step: usize)
        ensures
            final(self).block_size == if old(self).block_size + step <= usize::MAX {
                (old(self).block_size + step) as usize
            } else {
                usize::MAX
            },
            final(self).parallel == old(self).parallel,
            final(self).sort == old(self).sort,
            old(self).wf() ==> final(self).wf(),
    {
        if self.block_size <= usize::MAX - step {
            self.block_size = self.block_size + step;
        } else {
            self.block_size = usize::MAX;
        }
    }

    /// Lower the block size by a step, never below the smallest accepted
    /// size.
    pub fn decrease_block_size(&mut self, step: usize)
        ensures
            final(self).block_size == if old(self).block_size - step >= 1024 {
                (old(self).block_size - step) as usize
            } else {
                1024usize
            },
            final(self).parallel == old(self).parallel,
            final(self).sort == old(self).sort,
            final(self).wf(),
    {
        let reduced: usize = if self.block_size >= step {
            self.block_size - step
        } else {
            0
        };
        self.block_size = if reduced < 1024 {
            1024
        } else {
            reduced
        };
    }
}

impl Default for Setting {
    /// Parallel checking of an unsorted list, eight kibibytes at a time.
    fn default() -> (r: Setting)
        ensures
            r.parallel == true,
            r.sort == false,
            r.block_size == 8192,
            r.wf(),
    {
        Setting { parallel: true, sort: false, block_size: 8192 }
    }
}

/// One entry of a run's outbound event stream, in arrival order: a mismatch,
/// a failure, the final completion, or the idle placeholder a consumer may
/// seed its log with.  Matches stay silent to keep the stream actionable.
#[derive(Debug)]
pub enum Message {
    Incorrect(String),
    Error(String),
    Completed(Duration),
    Empty,
}

/// What computing one file's digest yielded: the digest in lowercase hex, or
/// the description of the failure that prevented it.
#[derive(Debug, Clone)]
pub enum DigestOutcome {
    Computed(String),
    Failed(String),
}

impl View for DigestOutcome {
    type V = Result<Seq<char>, Seq<char>>;

    open spec fn view(&self) -> Result<Seq<char>, Seq<char>> {
        match self {
            DigestOutcome::Computed(h) => Ok(h@),
            DigestOutcome::Failed(e) => Err(e@),
        }
    }
}

/// The classification of one checked work item.
#[derive(Debug, Clone, Copy, PartialEq, Eq, Structural)]
pub enum Outcome {
    Correct,
    Incorrect,
    Error,
}

/// How one item is classified: a failed digest is an error; a digest equal
/// to the expected one is correct; any other digest is incorrect.
pub open spec fn outcome_of(item: HashPairModel, digest: Result<Seq<char>, Seq<char>>) -> Outcome {
    match digest {
        Ok(h) => if h == item.expected_hash {
            Outcome::Correct
        } else {
            Outcome::Incorrect
        },
        Err(_) => Outcome::Error,
    }
}

/// An entry of the event stream, shorn of wall-clock time: what contracts
/// and laws speak of.
pub enum Event {
    Incorrect(Seq<char>),
    Error(Seq<char>),
    Completed,
    Empty,
}

/// The events one checked item contributes: nothing when correct, one
/// mismatch naming the file, or one failure carrying the description.
pub open spec fn event_of(item: HashPairModel, digest: Result<Seq<char>, Seq<char>>) -> Seq<
    Event,
> {
    match digest {
        Ok(h) => if h == item.expected_hash {
            Seq::empty()
        } else {
            seq![Event::Incorrect(item.file_path)]
        },
        Err(e) => seq![Event::Error(e)],
    }
}

/// The events of checking a work list item by item, in list order.
pub open spec fn events_of(
    items: Seq<HashPairModel>,
    digests: Seq<Result<Seq<char>, Seq<char>>>,
) -> Seq<Event>
    decreases items.len(),
{
    if items.len() == 0 || digests.len() == 0 {
        Seq::empty()
    } else {
        events_of(items.drop_last(), digests.drop_last()) + event_of(
            items.last(),
            digests.last(),
        )
    }
}

/// The classifications of a work list checked item by item, in list order.
pub open spec fn outcomes_of(
    items: Seq<HashPairModel>,
    digests: Seq<Result<Seq<char>, Seq<char>>>,
) -> Seq<Outcome>
    decreases items.len(),
{
    if items.len() == 0 || digests.len() == 0 {
        Seq::empty()
    } else {
        outcomes_of(items.drop_last(), digests.drop_last()).push(
            outcome_of(items.last(), digests.last()),
        )
    }
}

/// Counts of correct, incorrect and failed outcomes.
pub struct Tally {
    pub correct: nat,
    pub incorrect: nat,
    pub error: nat,
}

/// The counts a sequence of outcomes leaves behind.
pub open spec fn tally_of(outcomes: Seq<Outcome>) -> Tally
    decreases outcomes.len(),
{
    if outcomes.len() == 0 {
        Tally { correct: 0, incorrect: 0, error: 0 }
    } else {
        let t = tally_of(outcomes.drop_last());
        match outcomes.last() {
            Outcome::Correct => Tally {
                correct: t.correct + 1,
                incorrect: t.incorrect,
                error: t.error,
            },
            Outcome::Incorrect => Tally {
                correct: t.correct,
                incorrect: t.incorrect + 1,
                error: t.error,
            },
            Outcome::Error => Tally {
                correct: t.correct,
                incorrect: t.incorrect,
                error: t.error + 1,
            },
        }
    }
}

/// Every checked item lands in exactly one of the three counts: after a
/// whole run the counts sum to the number of work items, never more, never
/// less.
pub proof fn lemma_counts_complete(outcomes: Seq<Outcome>)
    ensures
        tally_of(outcomes).correct + tally_of(outcomes).incorrect + tally_of(outcomes).error
            == outcomes.len(),
    decreases outcomes.len(),
{
    if outcomes.len() > 0 {
        lemma_counts_complete(outcomes.drop_last());
    }
}

/// Each count equals how often its outcome occurs, regardless of order.
proof fn lemma_tally_counts_occurrences(outcomes: Seq<Outcome>)
    ensures
        tally_of(outcomes).correct == outcomes.to_multiset().count(Outcome::Correct),
        tally_of(outcomes).incorrect == outcomes.to_multiset().count(Outcome::Incorrect),
        tally_of(outcomes).error == outcomes.to_multiset().count(Outcome::Error),
    decreases outcomes.len(),
{
    broadcast use group_to_multiset_ensures;

    if outcomes.len() > 0 {
        lemma_tally_counts_occurrences(outcomes.drop_last());
        assert(outcomes =~= outcomes.drop_last().push(outcomes.last()));
        assert(outcomes.to_multiset() =~= outcomes.drop_last().to_multiset().insert(
            outcomes.last(),
        ));
    }
}

/// The counts do not depend on the order outcomes arrive in: any two
/// interleavings of the same per-item outcomes — as the parallel strategy's
/// workers produce them — leave the same counts.
pub proof fn lemma_counts_order_free(a: Seq<Outcome>, b: Seq<Outcome>)
    requires
        a.to_multiset() == b.to_multiset(),
    ensures
        tally_of(a) == tally_of(b),
{
    lemma_tally_counts_occurrences(a);
    lemma_tally_counts_occurrences(b);
}

/// The digest results a fixed file set determines: the digest of the bytes
/// wherever content could be read, the failure text where it could not.
pub open spec fn digests_of(contents: Seq<Result<Seq<u8>, Seq<char>>>) -> Seq<
    Result<Seq<char>, Seq<char>>,
> {
    contents.map_values(
        |c: Result<Seq<u8>, Seq<char>>|
            match c {
                Ok(b) => Result::<Seq<char>, Seq<char>>::Ok(crate::digest::md5_hex_of(b)),
                Err(e) => Result::<Seq<char>, Seq<char>>::Err(e),
            },
    )
}

/// Checking the same immutable file set against the same work list twice
/// yields the same digests, the same classifications and the same events
/// both times.
pub proof fn lemma_rerun_identical(
    items: Seq<HashPairModel>,
    contents: Seq<Result<Seq<u8>, Seq<char>>>,
    first: Seq<Result<Seq<char>, Seq<char>>>,
    second: Seq<Result<Seq<char>, Seq<char>>>,
)
    requires
        first == digests_of(contents),
        second == digests_of(contents),
    ensures
        first == second,
        outcomes_of(items, first) == outcomes_of(items, second),
        events_of(items, first) == events_of(items, second),
{
}

/// Under the sequential strategy events appear in work-list order: what a
/// prefix of the run has sent is a prefix of what the whole run sends.
pub proof fn lemma_events_prefix(
    items: Seq<HashPairModel>,
    digests: Seq<Result<Seq<char>, Seq<char>>>,
    n: int,
)
    requires
        items.len() == digests.len(),
        0 <= n <= items.len(),
    ensures
        events_of(items.take(n), digests.take(n)).is_prefix_of(events_of(items, digests)),
    decreases items.len() - n,
{
    if n == items.len() {
        assert(items.take(n) =~= items);
        assert(digests.take(n) =~= digests);
    } else {
        lemma_events_prefix(items, digests, n + 1);
        assert(items.take(n + 1).drop_last() =~= items.take(n));
        assert(digests.take(n + 1).drop_last() =~= digests.take(n));
        assert(events_of(items.take(n + 1), digests.take(n + 1)) == events_of(
            items.take(n),
            digests.take(n),
        ) + event_of(items[n], digests[n]));
    }
}

#[verifier::external_type_specification]
#[verifier::external_body]
#[verifier::reject_recursive_types(T)]
pub struct ExSender<T>(crossbeam::channel::Sender<T>);

#[verifier::external_type_specification]
#[verifier::external_body]
pub struct ExInstant(Instant);

/// Relies on crossbeam's `Sender::send` on an unbounded channel: queues the
/// message for the one consumer without blocking, preserving per-sender
/// order; when the consumer has dropped its receiver the message is simply
/// discarded and the run carries on.
#[verifier::external_body]
fn send_message(tx: &crossbeam::channel::Sender<Message>, message: Message) {
    let _ = tx.send(message);
}

/// Relies on std's `Instant::now` for the moment a run starts.
#[verifier::external_body]
fn instant_now() -> Instant {
    Instant::now()
}

/// Relies on std's `Instant::elapsed` for the wall-clock span since a run
/// started.
#[verifier::external_body]
fn elapsed_since(start: &Instant) -> Duration {
    start.elapsed()
}

/// Check one work item given what its digest computation yielded: classify
/// it, count it in the sink, and send a message for anything a consumer must
/// act on — a mismatch names the file, a failure carries its description,
/// and a match stays silent.
pub fn hash_checker(
    hash_pair: &HashPair,
    digest: DigestOutcome,
    status: &StatusWrapper,
    tx: &crossbeam::channel::Sender<Message>,
) -> (o: Outcome)
    ensures
        o == outcome_of(hash_pair@, digest@),
{
    match digest {
        DigestOutcome::Failed(description) => {
            send_message(tx, Message::Error(description));
            status.inc_error();
            Outcome::Error
        },
        DigestOutcome::Computed(file_hash) => {
            if file_hash != hash_pair.expected_hash {
                send_message(tx, Message::Incorrect(hash_pair.file_path.clone()));
                status.inc_incorrect();
                status.set_text(
                    hash_pair.file_path.clone(),
                    file_hash,
                    hash_pair.expected_hash.clone(),
                );
                Outcome::Incorrect
            } else {
                status.inc_correct();
                status.set_text(
                    hash_pair.file_path.clone(),
                    file_hash,
                    hash_pair.expected_hash.clone(),
                );
                Outcome::Correct
            }
        },
    }
}

/// One verification run over a prepared work list.
///
/// The digest of a file is whatever the caller's reads produced, so the run
/// takes each item's `DigestOutcome` as an argument and is verified for
/// every value of it: the contracts pin the classification, the counts and
/// the event order to the digests actually fed in.
pub struct Run {
    items: Vec<HashPair>,
    next: usize,
    setting: Setting,
    status: StatusWrapper,
    tx: crossbeam::channel::Sender<Message>,
    started: Instant,
    digests: Ghost<Seq<Result<Seq<char>, Seq<char>>>>,
}

impl Run {
    /// The work list of the run, in dispatch order.
    pub closed spec fn spec_items(self) -> Seq<HashPairModel> {
        self.items.deep_view()
    }

    /// How many items have been checked so far.
    pub closed spec fn spec_done(self) -> int {
        self.next as int
    }

    /// The digest results fed in so far, in order.
    pub closed spec fn spec_digests(self) -> Seq<Result<Seq<char>, Seq<char>>> {
        self.digests@
    }

    /// The configuration captured when the run was prepared.
    pub closed spec fn spec_setting(self) -> Setting {
        self.setting
    }

    /// A consistent run: no more items checked than exist, one digest
    /// recorded per checked item.
    pub open spec fn wf(self) -> bool {
        0 <= self.spec_done() <= self.spec_items().len() && self.spec_digests().len()
            == self.spec_done()
    }

    /// The events a sequential run has sent so far, in order.
    pub open spec fn spec_events(self) -> Seq<Event> {
        events_of(self.spec_items().take(self.spec_done()), self.spec_digests())
    }

    /// The classifications of the items checked so far, in order.
    pub open spec fn spec_outcomes(self) -> Seq<Outcome> {
        outcomes_of(self.spec_items().take(self.spec_done()), self.spec_digests())
    }

    /// Number of work items in the run.
    pub fn len(&self) -> (n: usize)
        ensures
            n == self.spec_items().len(),
    {
        self.items.len()
    }

    /// Whether every item has been checked.
    pub fn is_done(&self) -> (b: bool)
        requires
            self.wf(),
        ensures
            b == (self.spec_done() == self.spec_items().len()),
    {
        self.next == self.items.len()
    }

    /// The configuration captured when the run was prepared.
    pub fn setting(&self) -> (s: &Setting)
        ensures
            *s == self.spec_setting(),
    {
        &self.setting
    }

    /// The path of the item `step` will check next, while any remains.
    pub fn next_path(&self) -> (r: Option<&String>)
        requires
            self.wf(),
        ensures
            match r {
                Some(p) => self.spec_done() < self.spec_items().len() && p@ == self.spec_items()[
                    self.spec_done()
                ].file_path,
                None => self.spec_done() == self.spec_items().len(),
            },
    {
        if self.next < self.items.len() {
            Some(&self.items[self.next].file_path)
        } else {
            None
        }
    }

    /// Split a fresh run for the parallel strategy: one consumable check
    /// per work item, in list order, and the finisher that ends the stream.
    /// Each check carries exactly one item and is spent by checking it, so
    /// no item can be checked twice; workers take the checks in any order.
    pub fn into_parallel(self) -> (r: (Vec<ItemCheck>, Finisher))
        requires
            self.wf(),
            self.spec_done() == 0,
        ensures
            r.0@.len() == self.spec_items().len(),
            forall|i: int|
                0 <= i < r.0@.len() ==> (#[trigger] r.0@[i]).spec_pair()
                    == self.spec_items()[i],
            r.1.spec_items() == self.spec_items(),
    {
        let Run { items, status, tx, started, .. } = self;
        let ghost all = items.deep_view();
        let count = items.len();
        let link = Arc::new(WorkerLink { status, tx });
        let mut source = items;
        let mut workers: Vec<ItemCheck> = Vec::new();
        while source.len() > 0
            invariant
                workers@.len() + source@.len() == all.len(),
                forall|k: int|
                    0 <= k < workers@.len() ==> (#[trigger] workers@[k]).spec_pair() == all[k],
                forall|k: int|
                    0 <= k < source@.len() ==> (#[trigger] source@[k])@ == all[
                        workers@.len() + k
                    ],
            decreases source@.len(),
        {
            let pair = source.remove(0);
            workers.push(ItemCheck { pair, shared: arc_clone(&link) });
        }
        (workers, Finisher { shared: link, started, count, items: Ghost(all) })
    }

    /// Check the next item of a sequential run: sink updates and events
    /// happen in list order, one item at a time.
    pub fn step(&mut self, digest: DigestOutcome) -> (o: Outcome)
        requires
            old(self).wf(),
            old(self).spec_done() < old(self).spec_items().len(),
        ensures
            final(self).wf(),
            final(self).spec_items() == old(self).spec_items(),
            final(self).spec_setting() == old(self).spec_setting(),
            final(self).spec_done() == old(self).spec_done() + 1,
            final(self).spec_digests() == old(self).spec_digests().push(digest@),
            o == outcome_of(old(self).spec_items()[old(self).spec_done()], digest@),
            final(self).spec_events() == old(self).spec_events() + event_of(
                old(self).spec_items()[old(self).spec_done()],
                digest@,
            ),
            final(self).spec_outcomes() == old(self).spec_outcomes().push(o),
    {
        let ghost d = digest@;
        let total = self.items.len();
        let o = hash_checker(&self.items[self.next], digest, &self.status, &self.tx);
        assert(self.next < total);
        self.next = self.next + 1;
        proof {
            self.digests@ = self.digests@.push(d);
        }
        proof {
            let items = self.spec_items();
            let n = self.spec_done() - 1;
            assert(items.take(n + 1).drop_last() =~= items.take(n));
            assert(self.spec_digests().drop_last() =~= old(self).spec_digests());
            assert(items.take(n + 1).last() == items[n]);
        }
        o
    }

    /// End the run: after every item has been checked, send the completion
    /// event carrying the elapsed time.  Consuming the run drops its sender,
    /// which closes the stream for a consumer still draining.  The returned
    /// record is the whole event stream, completion included; its counts
    /// account for every work item exactly once.
    pub fn finish(self) -> (log: Ghost<Seq<Event>>)
        requires
            self.wf(),
            self.spec_done() == self.spec_items().len(),
        ensures
            log@ == self.spec_events().push(Event::Completed),
            log@ == events_of(self.spec_items(), self.spec_digests()).push(Event::Completed),
            tally_of(outcomes_of(self.spec_items(), self.spec_digests())).correct + tally_of(
                outcomes_of(self.spec_items(), self.spec_digests()),
            ).incorrect + tally_of(outcomes_of(self.spec_items(), self.spec_digests())).error
                == self.spec_items().len(),
    {
        let elapsed = elapsed_since(&self.started);
        send_message(&self.tx, Message::Completed(elapsed));
        proof {
            assert(self.spec_items().take(self.spec_items().len() as int) =~= self.spec_items());
            lemma_counts_complete(outcomes_of(self.spec_items(), self.spec_digests()));
            lemma_outcomes_len(self.spec_items(), self.spec_digests());
        }
        Ghost(self.spec_events().push(Event::Completed))
    }
}

/// The endpoints every worker of one run reports into: the status sink and
/// the sending side of the event channel, shared by all checks of the run
/// and by its finisher.
struct WorkerLink {
    status: StatusWrapper,
    tx: crossbeam::channel::Sender<Message>,
}

/// One work item of a parallel run, ready to be checked by any worker.
/// Checking consumes it, so the item is checked at most once.
pub struct ItemCheck {
    pair: HashPair,
    shared: Arc<WorkerLink>,
}

impl ItemCheck {
    /// The work item this check carries.
    pub closed spec fn spec_pair(self) -> HashPairModel {
        self.pair@
    }

    /// The path of the file to check, for the caller's digest computation.
    pub fn pair(&self) -> (p: &HashPair)
        ensures
            p@ == self.spec_pair(),
    {
        &self.pair
    }

    /// Check this one item given what its digest computation yielded:
    /// classify it, count it in the shared sink, and send the message a
    /// mismatch or failure owes.  Workers run these in any order; the
    /// counts are exact regardless, each update being one exclusive-lock
    /// update of the shared record.
    pub fn check(self, digest: DigestOutcome) -> (r: CheckReceipt)
        ensures
            r.spec_pair() == self.spec_pair(),
            r.spec_outcome() == outcome_of(self.spec_pair(), digest@),
    {
        let outcome = hash_checker(&self.pair, digest, &self.shared.status, &self.shared.tx);
        CheckReceipt { outcome, pair: Ghost(self.pair@) }
    }
}

/// Evidence that one check of a parallel run has finished: only
/// `ItemCheck::check` makes one, it cannot be copied, and the finisher
/// collects one per work item before the completion event is sent.
pub struct CheckReceipt {
    outcome: Outcome,
    pair: Ghost<HashPairModel>,
}

impl CheckReceipt {
    /// The work item the finished check was for.
    pub closed spec fn spec_pair(self) -> HashPairModel {
        self.pair@
    }

    /// How the item was classified.
    pub closed spec fn spec_outcome(self) -> Outcome {
        self.outcome
    }

    /// How the item was classified.
    pub fn outcome(&self) -> (o: Outcome)
        ensures
            o == self.spec_outcome(),
    {
        self.outcome
    }
}

/// The classifications a batch of receipts reports, in the batch's order.
pub open spec fn receipt_outcomes(receipts: Seq<CheckReceipt>) -> Seq<Outcome> {
    receipts.map_values(|r: CheckReceipt| r.spec_outcome())
}

/// The end of a parallel run: holds the sender until every check is done.
pub struct Finisher {
    shared: Arc<WorkerLink>,
    started: Instant,
    count: usize,
    items: Ghost<Seq<HashPairModel>>,
}

impl Finisher {
    #[verifier::type_invariant]
    spec fn inv(self) -> bool {
        self.count == self.items@.len()
    }

    /// The work items of the run being finished.
    pub closed spec fn spec_items(self) -> Seq<HashPairModel> {
        self.items@
    }

    /// Number of work items in the run, which is the number of receipts
    /// `finish` takes.
    pub fn count(&self) -> (n: usize)
        ensures
            n == self.spec_items().len(),
    {
        proof {
            use_type_invariant(self);
        }
        self.count
    }

    /// End the run: taking one receipt per work item — and a check is the
    /// only way to make one — it sends the completion event only after as
    /// many checks have finished as the run has items, and the receipts'
    /// outcomes account for every one of them exactly once.  Consuming the
    /// finisher then drops its sender, which ends the stream once the
    /// workers' handles are gone too.
    pub fn finish(self, receipts: Vec<CheckReceipt>)
        requires
            receipts@.len() == self.spec_items().len(),
        ensures
            tally_of(receipt_outcomes(receipts@)).correct + tally_of(
                receipt_outcomes(receipts@),
            ).incorrect + tally_of(receipt_outcomes(receipts@)).error
                == self.spec_items().len(),
    {
        let elapsed = elapsed_since(&self.started);
        send_message(&self.shared.tx, Message::Completed(elapsed));
        proof {
            lemma_counts_complete(receipt_outcomes(receipts@));
        }
    }
}

/// One classification per item when every item has a digest result.
proof fn lemma_outcomes_len(
    items: Seq<HashPairModel>,
    digests: Seq<Result<Seq<char>, Seq<char>>>,
)
    requires
        items.len() == digests.len(),
    ensures
        outcomes_of(items, digests).len() == items.len(),
    decreases items.len(),
{
    if items.len() > 0 {
        lemma_outcomes_len(items.drop_last(), digests.drop_last());
    }
}

/// Prepare a run: capture the configuration, sort the work list if asked,
/// and start the clock.  A sequential caller then drives each item through
/// `step` and ends with `finish`; a parallel caller splits the run with
/// `into_parallel`, fans the checks out over workers, and ends with the
/// finisher.
pub fn prepare_hashing(
    hash_list: Vec<HashPair>,
    setting: &Setting,
    status: StatusWrapper,
    tx: crossbeam::channel::Sender<Message>,
) -> (r: Run)
    ensures
        r.wf(),
        r.spec_done() == 0,
        r.spec_setting() == *setting,
        r.spec_events() == Seq::<Event>::empty(),
        r.spec_items().len() == hash_list.deep_view().len(),
        !setting.sort ==> r.spec_items() == hash_list.deep_view(),
        setting.sort ==> pairs_sorted(r.spec_items()) && r.spec_items().to_multiset()
            == hash_list.deep_view().to_multiset(),
{
    let mut items = hash_list;
    if setting.sort {
        sort_pairs(&mut items);
    }
    let r = Run {
        items,
        next: 0,
        setting: *setting,
        status,
        tx,
        started: instant_now(),
        digests: Ghost(Seq::empty()),
    };
    proof {
        assert(r.spec_items().take(0) =~= Seq::<HashPairModel>::empty());
    }
    r
}

} // verus!
