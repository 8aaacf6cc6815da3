//! The pipeline over a whole batch: the choice and order of the input
//! units, the stages of a run, what the ingestion does with each item, and
//! how a finished item is counted.
//!
//! Threads, the queue and the input files belong to the program around this
//! library. The ingestion thread owns an [`Ingestion`]; it is the only one
//! that touches the set of seen bytecodes.

use vstd::prelude::*;
use vstd::string::*;
use vstd::utf8::encode_utf8;
use crate::cache::{bumped, AbiCache, Lookup};
use crate::parquet_reader::plain_texts;
use crate::processor::{is_timeout_message, mentions_timeout, ContractProcessor, ProcessResult};
use crate::seen::SeenSet;
use crate::stats::{added_micros, count_up, next_count, Stats};
use crate::text::{lemma_equal_by_last, matches_at, occurs_at};

verus! {

/// The number of input units that are taken up together.
pub const BATCH_SIZE: usize = 1000;

/// The number of work items that the queue holds before the ingestion
/// blocks.
pub const CHANNEL_BUFFER: usize = 10000;

/// The size above which the set of seen bytecodes is emptied.
pub const SEEN_LIMIT: usize = 1_000_000;

/// The set of seen bytecodes is looked at after every so many input units.
pub const SEEN_CHECK_EVERY: usize = 1000;

/// The stages of a run.
#[derive(Debug, Clone, Copy, PartialEq, Eq)]
pub enum Stage {
    /// The input units are being found.
    Discovering,
    /// The ingestion reads the units and fills the queue.
    Streaming,
    /// The ingestion has finished; the workers empty the queue.
    Draining,
    /// The queue is closed and empty, and every worker has finished.
    Done,
}

/// What moves a run from one stage to the next.
#[derive(Debug, Clone, Copy, PartialEq, Eq)]
pub enum Signal {
    /// The ingestion has read its last unit and closed the queue.
    IngestionFinished,
    /// Every worker has found the queue closed and empty.
    WorkersFinished,
}

/// Why a run cannot start.
#[derive(Debug, Clone, Copy, PartialEq, Eq)]
pub enum PipelineError {
    /// There is no input unit.
    NoSources,
    /// The run has started already.
    AlreadyStarted,
}

/// The stage after a signal: the end of the ingestion turns streaming into
/// draining, the end of the workers turns draining into done, and nothing
/// else changes the stage.
pub open spec fn stage_after(stage: Stage, signal: Signal) -> Stage {
    match (stage, signal) {
        (Stage::Streaming, Signal::IngestionFinished) => Stage::Draining,
        (Stage::Draining, Signal::WorkersFinished) => Stage::Done,
        _ => stage,
    }
}

/// The extension of the input units, with its dot.
pub open spec fn unit_extension() -> Seq<u8> {
    ".parquet".spec_bytes()
}

/// Whether a file name has the extension of the input units: it ends with
/// the extension and has at least one byte in front of it.
pub open spec fn is_unit_name(name: Seq<u8>) -> bool {
    name.len() > unit_extension().len() && occurs_at(
        unit_extension(),
        name,
        name.len() - unit_extension().len(),
    )
}

/// The names of the input units among file names, in the order given.
pub open spec fn unit_names(names: Seq<String>) -> Seq<Seq<char>>
    decreases names.len(),
{
    if names.len() == 0 {
        Seq::empty()
    } else if is_unit_name(encode_utf8(names.last()@)) {
        unit_names(names.drop_last()).push(names.last()@)
    } else {
        unit_names(names.drop_last())
    }
}

/// The order of texts: byte by byte, a text before its extensions.
pub open spec fn text_le(left: Seq<u8>, right: Seq<u8>) -> bool
    decreases left.len(),
{
    if left.len() == 0 {
        true
    } else if right.len() == 0 {
        false
    } else if left[0] != right[0] {
        left[0] < right[0]
    } else {
        text_le(left.skip(1), right.skip(1))
    }
}

/// Every text stands before the ones behind it.
pub open spec fn in_order(names: Seq<String>) -> bool {
    forall|i: int, j: int|
        0 <= i < j < names.len() ==> text_le(
            encode_utf8(#[trigger] names[i]@),
            encode_utf8(#[trigger] names[j]@),
        )
}

/// Sorts with `sort` of the standard library: afterwards the vector holds
/// the same texts as before, each as often as before, in the order of their
/// bytes.
#[verifier::external_body]
fn sort_names(names: &mut Vec<String>)
    ensures
        in_order(final(names)@),
        plain_texts(final(names)@).to_multiset() == plain_texts(old(names)@).to_multiset(),
{
    names.sort();
}

/// Whether a file name has the extension of the input units.
pub fn has_unit_extension(name: &str) -> (b: bool)
    ensures
        b == is_unit_name(name.spec_bytes()),
{
    let bytes = name.as_bytes();
    let extension = ".parquet".as_bytes();
    if bytes.len() <= extension.len() {
        return false;
    }
    matches_at(bytes, extension, bytes.len() - extension.len())
}

/// The state of the ingestion: the bytecodes seen so far and its counters.
pub struct Ingestion {
    /// The bytecodes seen since the set was last emptied.
    pub seen: SeenSet,
    /// The work items that the units read so far held.
    pub total_contracts: usize,
    /// The units that were taken up, readable or not.
    pub processed_files: usize,
    /// The items that were handed to the workers.
    pub unique_count: usize,
    /// The items that were dropped: seen before in this run, or cached.
    pub duplicate_count: usize,
    /// Those of the dropped items that were dropped because the cache holds
    /// them.
    pub cached_count: usize,
}

/// What the ingestion has decided so far: the bytecodes it has seen and how
/// many items it enqueued, dropped, and dropped as cached.
pub struct Tally {
    pub seen: Set<Seq<char>>,
    pub unique: usize,
    pub duplicate: usize,
    pub cached: usize,
}

/// One item as it comes to the ingestion: its bytecode, and the answer that
/// the store gives when it is asked about the bytecode's key.
pub struct Offer {
    pub code: Seq<char>,
    pub lookup: Lookup,
}

/// The tally after a bytecode was taken up: it is remembered, and counted as
/// dropped if it was seen before.
pub open spec fn after_observe(tally: Tally, code: Seq<char>) -> Tally {
    Tally {
        seen: tally.seen.insert(code),
        duplicate: if tally.seen.contains(code) {
            next_count(tally.duplicate)
        } else {
            tally.duplicate
        },
        ..tally
    }
}

/// The tally after the store has answered for a new bytecode: a cached item
/// is dropped, any other is enqueued.
pub open spec fn after_resolve(tally: Tally, lookup: Lookup) -> Tally {
    if lookup is Found {
        Tally {
            duplicate: next_count(tally.duplicate),
            cached: next_count(tally.cached),
            ..tally
        }
    } else {
        Tally { unique: next_count(tally.unique), ..tally }
    }
}

/// The tally after one item: the store is asked only about a bytecode that
/// was not seen before.
pub open spec fn after_offer(tally: Tally, offer: Offer) -> Tally {
    if tally.seen.contains(offer.code) {
        after_observe(tally, offer.code)
    } else {
        after_resolve(after_observe(tally, offer.code), offer.lookup)
    }
}

/// The tally after a stretch of items, one after the other.
pub open spec fn after_run(tally: Tally, items: Seq<Offer>) -> Tally
    decreases items.len(),
{
    if items.len() == 0 {
        tally
    } else {
        after_offer(after_run(tally, items.drop_last()), items.last())
    }
}

/// The bytecodes that are known after a stretch of items.
pub open spec fn seen_after(seen: Set<Seq<char>>, items: Seq<Offer>) -> Set<Seq<char>>
    decreases items.len(),
{
    if items.len() == 0 {
        seen
    } else {
        seen_after(seen, items.drop_last()).insert(items.last().code)
    }
}

/// The item at `at` repeats a bytecode that was known before it came.
pub open spec fn is_repeat(seen: Set<Seq<char>>, items: Seq<Offer>, at: int) -> bool {
    seen_after(seen, items.take(at)).contains(items[at].code)
}

/// The item at `at` is put on the queue: its bytecode is new and the cache
/// does not hold it.
pub open spec fn is_enqueued(seen: Set<Seq<char>>, items: Seq<Offer>, at: int) -> bool {
    !is_repeat(seen, items, at) && !(items[at].lookup is Found)
}

/// The item at `at` is dropped because the cache holds it.
pub open spec fn is_cached_drop(seen: Set<Seq<char>>, items: Seq<Offer>, at: int) -> bool {
    !is_repeat(seen, items, at) && items[at].lookup is Found
}

/// The bytecodes that a stretch of items puts on the queue, in order.
pub open spec fn queue_of(seen: Set<Seq<char>>, items: Seq<Offer>) -> Seq<Seq<char>>
    decreases items.len(),
{
    if items.len() == 0 {
        Seq::empty()
    } else if is_enqueued(seen, items, items.len() - 1) {
        queue_of(seen, items.drop_last()).push(items.last().code)
    } else {
        queue_of(seen, items.drop_last())
    }
}

/// The number of items of a stretch that repeat a known bytecode.
pub open spec fn repeats_in(seen: Set<Seq<char>>, items: Seq<Offer>) -> nat
    decreases items.len(),
{
    if items.len() == 0 {
        0
    } else if is_repeat(seen, items, items.len() - 1) {
        repeats_in(seen, items.drop_last()) + 1
    } else {
        repeats_in(seen, items.drop_last())
    }
}

/// The number of items of a stretch that are dropped because the cache holds
/// them.
pub open spec fn cached_in(seen: Set<Seq<char>>, items: Seq<Offer>) -> nat
    decreases items.len(),
{
    if items.len() == 0 {
        0
    } else if is_cached_drop(seen, items, items.len() - 1) {
        cached_in(seen, items.drop_last()) + 1
    } else {
        cached_in(seen, items.drop_last())
    }
}

/// Every item of a stretch is enqueued, dropped as cached, or dropped as a
/// repeat, and is only one of the three: the enqueued and the cached items
/// together are all items but the repeats.
pub proof fn lemma_every_item_is_accounted_for(seen: Set<Seq<char>>, items: Seq<Offer>)
    ensures
        queue_of(seen, items).len() + cached_in(seen, items) + repeats_in(seen, items)
            == items.len(),
    decreases items.len(),
{
    if items.len() > 0 {
        lemma_every_item_is_accounted_for(seen, items.drop_last());
    }
}

/// Whatever was known stays known, and every bytecode of the stretch is
/// known after it.
pub proof fn lemma_seen_grows(seen: Set<Seq<char>>, items: Seq<Offer>)
    ensures
        seen.subset_of(seen_after(seen, items)),
        forall|i: int| 0 <= i < items.len() ==> seen_after(seen, items).contains(
            (#[trigger] items[i]).code,
        ),
        forall|i: int|
            0 <= i <= items.len() ==> (#[trigger] seen_after(seen, items.take(i))).subset_of(
                seen_after(seen, items),
            ),
    decreases items.len(),
{
    if items.len() == 0 {
        assert forall|i: int| 0 <= i <= items.len() implies (#[trigger] seen_after(
            seen,
            items.take(i),
        )).subset_of(seen_after(seen, items)) by {
            assert(items.take(i) =~= items);
        }
    } else {
        let before = items.drop_last();
        lemma_seen_grows(seen, before);
        assert forall|i: int| 0 <= i < items.len() implies seen_after(seen, items).contains(
            (#[trigger] items[i]).code,
        ) by {
            if i < before.len() {
                assert(before[i] == items[i]);
            }
        }
        assert forall|i: int| 0 <= i <= items.len() implies (#[trigger] seen_after(
            seen,
            items.take(i),
        )).subset_of(seen_after(seen, items)) by {
            if i == items.len() {
                assert(items.take(i) =~= items);
            } else {
                assert(items.take(i) =~= before.take(i));
            }
        }
    }
}

/// No bytecode is put on the queue twice in a stretch, none that was known
/// before the stretch, and none whose item found the cache holding it: the
/// queue holds exactly the first occurrences that the cache did not hold.
pub proof fn lemma_enqueued_at_most_once(seen: Set<Seq<char>>, items: Seq<Offer>)
    ensures
        queue_of(seen, items).no_duplicates(),
        forall|k: int|
            0 <= k < queue_of(seen, items).len() ==> {
                let code = #[trigger] queue_of(seen, items)[k];
                !seen.contains(code) && seen_after(seen, items).contains(code)
            },
        forall|i: int|
            0 <= i < items.len() && is_enqueued(seen, items, i) ==> queue_of(
                seen,
                items,
            ).contains((#[trigger] items[i]).code),
        forall|i: int, j: int|
            0 <= i < j < items.len() && is_enqueued(seen, items, i) ==> !is_enqueued(
                seen,
                items,
                j,
            ) || (#[trigger] items[i]).code != (#[trigger] items[j]).code,
    decreases items.len(),
{
    lemma_seen_grows(seen, items);
    if items.len() > 0 {
        let before = items.drop_last();
        let last = items.len() - 1;
        lemma_enqueued_at_most_once(seen, before);
        lemma_seen_grows(seen, before);
        assert(items.take(last) =~= before);
        let queue = queue_of(seen, items);
        let queue_before = queue_of(seen, before);
        assert forall|i: int| 0 <= i < before.len() implies is_enqueued(seen, before, i)
            == is_enqueued(seen, items, i) by {
            assert(before.take(i) =~= items.take(i));
            assert(before[i] == items[i]);
        }
        assert forall|k: int| 0 <= k < queue.len() implies {
            let code = #[trigger] queue[k];
            !seen.contains(code) && seen_after(seen, items).contains(code)
        } by {
            if k < queue_before.len() {
                assert(queue[k] == queue_before[k]);
            }
        }
        assert(queue.no_duplicates()) by {
            assert forall|a: int, b: int| 0 <= a < queue.len() && 0 <= b < queue.len() && a
                != b implies queue[a] != queue[b] by {
                if a < queue_before.len() && b < queue_before.len() {
                    assert(queue[a] == queue_before[a] && queue[b] == queue_before[b]);
                } else if a < queue_before.len() {
                    assert(queue[a] == queue_before[a]);
                    assert(seen_after(seen, before).contains(queue_before[a]));
                } else if b < queue_before.len() {
                    assert(queue[b] == queue_before[b]);
                    assert(seen_after(seen, before).contains(queue_before[b]));
                }
            }
        }
        assert forall|i: int| 0 <= i < items.len() && is_enqueued(seen, items, i) implies queue.contains(
            (#[trigger] items[i]).code,
        ) by {
            if i < before.len() {
                assert(before[i] == items[i]);
                let k = choose|k: int|
                    0 <= k < queue_before.len() && queue_before[k] == before[i].code;
                assert(queue[k] == queue_before[k]);
            } else {
                assert(queue[queue.len() - 1] == items[i].code);
            }
        }
        assert forall|i: int, j: int|
            0 <= i < j < items.len() && is_enqueued(seen, items, i) implies !is_enqueued(
            seen,
            items,
            j,
        ) || (#[trigger] items[i]).code != (#[trigger] items[j]).code by {
            assert(items.take(j)[i] == items[i]);
            lemma_seen_grows(seen, items.take(j));
        }
    }
}

/// The counters follow the stretch: as long as no counter runs over, the
/// ingestion has enqueued as many items as the queue holds, has dropped the
/// cached items and the repeats, and knows every bytecode of the stretch.
pub proof fn lemma_tally_follows_the_run(tally: Tally, items: Seq<Offer>)
    requires
        tally.unique + items.len() <= usize::MAX,
        tally.duplicate + items.len() <= usize::MAX,
        tally.cached + items.len() <= usize::MAX,
    ensures
        after_run(tally, items).seen == seen_after(tally.seen, items),
        after_run(tally, items).unique == tally.unique + queue_of(tally.seen, items).len(),
        after_run(tally, items).cached == tally.cached + cached_in(tally.seen, items),
        after_run(tally, items).duplicate == tally.duplicate + cached_in(tally.seen, items)
            + repeats_in(tally.seen, items),
        after_run(tally, items).unique + after_run(tally, items).cached + repeats_in(
            tally.seen,
            items,
        ) == tally.unique + tally.cached + items.len(),
    decreases items.len(),
{
    lemma_every_item_is_accounted_for(tally.seen, items);
    if items.len() > 0 {
        let before = items.drop_last();
        lemma_tally_follows_the_run(tally, before);
        lemma_every_item_is_accounted_for(tally.seen, before);
        assert(items.take(items.len() - 1) =~= before);
    }
}

/// The sum of two counts, counted on from zero after the largest count.
pub open spec fn wrapped_sum(a: usize, b: usize) -> usize {
    if a + b > usize::MAX {
        (a + b - usize::MAX - 1) as usize
    } else {
        (a + b) as usize
    }
}

/// The tally at the start of a run: nothing seen, nothing counted.
pub open spec fn start_tally() -> Tally {
    Tally { seen: Set::empty(), unique: 0, duplicate: 0, cached: 0 }
}

/// A run from the start in which exactly one item repeats a bytecode of an
/// earlier item: the repeated bytecode is on the queue at most once, and the
/// enqueued and the cached items together are all items but one.
pub proof fn lemma_run_with_one_repeat(items: Seq<Offer>)
    requires
        items.len() <= usize::MAX,
        repeats_in(Set::empty(), items) == 1,
    ensures
        queue_of(Set::empty(), items).no_duplicates(),
        after_run(start_tally(), items).unique == queue_of(Set::empty(), items).len(),
        after_run(start_tally(), items).unique + after_run(start_tally(), items).cached
            == items.len() - 1,
        after_run(start_tally(), items).duplicate == after_run(start_tally(), items).cached + 1,
{
    lemma_enqueued_at_most_once(Set::empty(), items);
    lemma_tally_follows_the_run(start_tally(), items);
}

impl Ingestion {
    /// The set of seen bytecodes is well formed.
    pub open spec fn wf(&self) -> bool {
        self.seen.wf()
    }

    /// The bytecodes seen since the set was last emptied.
    pub open spec fn seen(&self) -> Set<Seq<char>> {
        self.seen@
    }

    /// What the ingestion has decided so far.
    pub open spec fn tally(&self) -> Tally {
        Tally {
            seen: self.seen@,
            unique: self.unique_count,
            duplicate: self.duplicate_count,
            cached: self.cached_count,
        }
    }

    /// The state at the start of a run: nothing seen, all counters zero.
    pub fn new() -> (ingestion: Ingestion)
        ensures
            ingestion.wf(),
            ingestion.seen() == Set::<Seq<char>>::empty(),
            ingestion.total_contracts == 0,
            ingestion.processed_files == 0,
            ingestion.unique_count == 0,
            ingestion.duplicate_count == 0,
            ingestion.cached_count == 0,
            ingestion.tally() == start_tally(),
    {
        Ingestion {
            seen: SeenSet::new(),
            total_contracts: 0,
            processed_files: 0,
            unique_count: 0,
            duplicate_count: 0,
            cached_count: 0,
        }
    }

    /// Takes up the bytecode of one item. A bytecode that was seen before is
    /// a duplicate: it is counted as dropped and goes no further. Any other
    /// bytecode is remembered, and the cache is to be asked about it next.
    pub fn observe(&mut self, code: &str) -> (fresh: bool)
        requires
            old(self).wf(),
        ensures
            final(self).wf(),
            fresh == !old(self).seen().contains(code@),
            final(self).seen() == old(self).seen().insert(code@),
            final(self).duplicate_count == if fresh {
                old(self).duplicate_count
            } else {
                next_count(old(self).duplicate_count)
            },
            final(self).unique_count == old(self).unique_count,
            final(self).cached_count == old(self).cached_count,
            final(self).total_contracts == old(self).total_contracts,
            final(self).processed_files == old(self).processed_files,
            final(self).tally() == after_observe(old(self).tally(), code@),
    {
        let fresh = self.seen.insert(String::from_str(code));
        if !fresh {
            self.duplicate_count = count_up(self.duplicate_count);
        }
        fresh
    }

    /// Decides about an item that was not seen before, from the store's
    /// answer to the lookup of its key. The answer is counted in the cache.
    /// An item that the cache holds is dropped and never reaches a worker;
    /// any other item is to be put on the queue.
    pub fn resolve(&mut self, cache: &mut AbiCache, lookup: Lookup) -> (enqueue: bool)
        requires
            old(self).wf(),
        ensures
            final(self).wf(),
            enqueue == !(lookup is Found),
            final(self).seen() == old(self).seen(),
            final(self).unique_count == if enqueue {
                next_count(old(self).unique_count)
            } else {
                old(self).unique_count
            },
            final(self).duplicate_count == if enqueue {
                old(self).duplicate_count
            } else {
                next_count(old(self).duplicate_count)
            },
            final(self).cached_count == if enqueue {
                old(self).cached_count
            } else {
                next_count(old(self).cached_count)
            },
            final(self).total_contracts == old(self).total_contracts,
            final(self).processed_files == old(self).processed_files,
            final(self).tally() == after_resolve(old(self).tally(), lookup),
            final(cache).stats.hits == if lookup is Found {
                bumped(old(cache).stats.hits)
            } else {
                old(cache).stats.hits
            },
            final(cache).stats.misses == if lookup is Missing {
                bumped(old(cache).stats.misses)
            } else {
                old(cache).stats.misses
            },
            final(cache).stats.errors == if lookup is Unavailable {
                bumped(old(cache).stats.errors)
            } else {
                old(cache).stats.errors
            },
            final(cache).stats.writes == old(cache).stats.writes,
    {
        if cache.is_cached(lookup) {
            self.duplicate_count = count_up(self.duplicate_count);
            self.cached_count = count_up(self.cached_count);
            false
        } else {
            self.unique_count = count_up(self.unique_count);
            true
        }
    }

    /// Closes an input unit: `contracts` is the number of work items that it
    /// held, or `None` if it could not be read. After every
    /// [`SEEN_CHECK_EVERY`] units the set of seen bytecodes is emptied if it
    /// has grown beyond [`SEEN_LIMIT`].
    pub fn file_done(&mut self, contracts: Option<usize>)
        requires
            old(self).wf(),
        ensures
            final(self).wf(),
            final(self).processed_files == next_count(old(self).processed_files),
            final(self).total_contracts == match contracts {
                Some(n) => wrapped_sum(old(self).total_contracts, n),
                None => old(self).total_contracts,
            },
            final(self).seen() == if final(self).processed_files % SEEN_CHECK_EVERY == 0 && old(
                self,
            ).seen().len() > SEEN_LIMIT {
                Set::<Seq<char>>::empty()
            } else {
                old(self).seen()
            },
            final(self).unique_count == old(self).unique_count,
            final(self).duplicate_count == old(self).duplicate_count,
            final(self).cached_count == old(self).cached_count,
    {
        match contracts {
            Some(n) => {
                self.total_contracts = if n > usize::MAX - self.total_contracts {
                    n - (usize::MAX - self.total_contracts) - 1
                } else {
                    self.total_contracts + n
                };
            },
            None => {},
        }
        self.processed_files = count_up(self.processed_files);
        if self.processed_files % SEEN_CHECK_EVERY == 0 {
            if self.seen.len() > SEEN_LIMIT {
                self.seen.clear();
            }
        }
    }
}

/// The settings of a run and the stage it is in.
#[derive(Debug, Clone)]
pub struct StreamProcessor {
    pub workers: usize,
    pub timeout_secs: u64,
    pub skip_resolving: bool,
    pub extract_storage: bool,
    pub stage: Stage,
}

impl StreamProcessor {
    /// A run that has not started.
    pub fn new(
        workers: usize,
        timeout_secs: u64,
        skip_resolving: bool,
        extract_storage: bool,
    ) -> (processor: StreamProcessor)
        ensures
            processor.workers == workers,
            processor.timeout_secs == timeout_secs,
            processor.skip_resolving == skip_resolving,
            processor.extract_storage == extract_storage,
            processor.stage == Stage::Discovering,
    {
        StreamProcessor {
            workers,
            timeout_secs,
            skip_resolving,
            extract_storage,
            stage: Stage::Discovering,
        }
    }

    /// Picks the input units among the file names of a directory and puts
    /// them in order.
    pub fn find_parquet_files(names: &Vec<String>) -> (units: Vec<String>)
        ensures
            in_order(units@),
            plain_texts(units@).to_multiset() == unit_names(names@).to_multiset(),
            units@.len() == unit_names(names@).len(),
    {
        let mut units: Vec<String> = Vec::new();
        let n: usize = names.len();
        let mut i: usize = 0;
        assert(plain_texts(units@) =~= unit_names(names@.take(0)));
        while i < n
            invariant
                n == names@.len(),
                i <= n,
                plain_texts(units@) == unit_names(names@.take(i as int)),
            decreases n - i,
        {
            assert(names@.take(i + 1).drop_last() =~= names@.take(i as int));
            if has_unit_extension(names[i].as_str()) {
                let ghost before = units@;
                units.push(names[i].clone());
                proof {
                    assert(units@.drop_last() =~= before);
                    assert(plain_texts(units@).drop_last() =~= plain_texts(before));
                    assert(unit_names(names@.take(i + 1)).drop_last() =~= unit_names(
                        names@.take(i as int),
                    ));
                    lemma_equal_by_last(plain_texts(units@), unit_names(names@.take(i + 1)));
                }
            }
            i = i + 1;
        }
        assert(names@.take(n as int) =~= names@);
        let ghost picked = plain_texts(units@);
        sort_names(&mut units);
        proof {
            picked.to_multiset_ensures();
            plain_texts(units@).to_multiset_ensures();
        }
        units
    }

    /// Starts the run on the file names of the input directory: the input
    /// units among them are put in order and the run goes on to streaming.
    /// Without any input unit the run fails at once and stays where it was.
    pub fn process_all_parquets(&mut self, names: &Vec<String>) -> (result: Result<
        Vec<String>,
        PipelineError,
    >)
        ensures
            match result {
                Ok(units) => {
                    &&& old(self).stage == Stage::Discovering
                    &&& final(self).stage == Stage::Streaming
                    &&& units@.len() > 0
                    &&& unit_names(names@).len() > 0
                    &&& in_order(units@)
                    &&& plain_texts(units@).to_multiset() == unit_names(names@).to_multiset()
                },
                Err(PipelineError::NoSources) => {
                    &&& old(self).stage == Stage::Discovering
                    &&& final(self).stage == Stage::Discovering
                    &&& unit_names(names@).len() == 0
                },
                Err(PipelineError::AlreadyStarted) => {
                    &&& old(self).stage != Stage::Discovering
                    &&& final(self).stage == old(self).stage
                },
            },
            final(self).workers == old(self).workers,
            final(self).timeout_secs == old(self).timeout_secs,
            final(self).skip_resolving == old(self).skip_resolving,
            final(self).extract_storage == old(self).extract_storage,
    {
        match self.stage {
            Stage::Discovering => {},
            _ => {
                return Err(PipelineError::AlreadyStarted);
            },
        }
        let units = StreamProcessor::find_parquet_files(names);
        if units.len() == 0 {
            return Err(PipelineError::NoSources);
        }
        self.stage = Stage::Streaming;
        Ok(units)
    }

    /// Moves the run on when the ingestion or the workers have finished.
    pub fn advance(&mut self, signal: Signal)
        ensures
            final(self).stage == stage_after(old(self).stage, signal),
            final(self).workers == old(self).workers,
            final(self).timeout_secs == old(self).timeout_secs,
            final(self).skip_resolving == old(self).skip_resolving,
            final(self).extract_storage == old(self).extract_storage,
    {
        match (self.stage, signal) {
            (Stage::Streaming, Signal::IngestionFinished) => {
                self.stage = Stage::Draining;
            },
            (Stage::Draining, Signal::WorkersFinished) => {
                self.stage = Stage::Done;
            },
            _ => {},
        }
    }

    /// The per-item settings that every worker uses.
    pub fn worker(&self) -> (processor: ContractProcessor)
        ensures
            processor.timeout_secs == self.timeout_secs,
            processor.skip_resolving == self.skip_resolving,
            processor.extract_storage == self.extract_storage,
    {
        ContractProcessor::new(self.timeout_secs, self.skip_resolving, self.extract_storage)
    }

    /// Counts a finished item. A failure whose text speaks of a timeout is
    /// counted as a timeout.
    pub fn record_outcome(stats: &mut Stats, result: &ProcessResult)
        ensures
            final(stats).total_contracts == old(stats).total_contracts,
            final(stats).processed == next_count(old(stats).processed),
            final(stats).cached == if result.cached {
                next_count(old(stats).cached)
            } else {
                old(stats).cached
            },
            final(stats).successes == if !result.cached && result.success {
                next_count(old(stats).successes)
            } else {
                old(stats).successes
            },
            final(stats).errors == if !result.cached && !result.success {
                next_count(old(stats).errors)
            } else {
                old(stats).errors
            },
            final(stats).timeouts == if !result.cached && !result.success && failed_by_timeout(
                *result,
            ) {
                next_count(old(stats).timeouts)
            } else {
                old(stats).timeouts
            },
            final(stats).total_processing_time == added_micros(
                old(stats).total_processing_time,
                result.duration_micros,
            ),
    {
        let is_timeout = match &result.error {
            Some(message) => is_timeout_message(message.as_str()),
            None => false,
        };
        stats.record_result(result.cached, result.success, is_timeout, result.duration_micros);
    }
}

/// Whether the failure of a result speaks of a timeout.
pub open spec fn failed_by_timeout(result: ProcessResult) -> bool {
    match result.error {
        Some(message) => mentions_timeout(message@),
        None => false,
    }
}

} // verus!
