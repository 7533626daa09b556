//! Coordination of the enumeration: a producer that turns responses into
//! queue items, a consumer that decodes and indexes them, and the two ways of
//! running both, one item at a time or through a queue.

use vstd::prelude::*;
use crate::index::{insert_all, lemma_with_records_joined, with_records, ParentChildIndex};
use crate::record::{
    decode,
    decode_spec,
    FileRecordView,
    MalformedRecordError,
    RawBuffer,
    TOKEN_LEN,
};
use crate::source::{
    classify,
    start_after,
    CursorView,
    EnumerationCursor,
    EnumerationError,
    FetchResponse,
    JournalDescriptor,
    END_OF_DATA,
};
use crate::wire::{le_u64, lemma_le_ranges};

verus! {

/// A count that stops at the largest `u64` instead of wrapping.
pub open spec fn capped(n: int) -> u64 {
    if n > u64::MAX {
        u64::MAX
    } else {
        n as u64
    }
}

/// A fault found while decoding, with the number of the buffer it was in
/// (the first buffer is number 0).
#[derive(Clone, Copy, Debug, PartialEq, Eq, Structural)]
pub struct MalformedReport {
    pub buffer_index: u64,
    pub error: MalformedRecordError,
}

/// What travels from the producer to the consumer.
#[derive(Debug)]
pub enum QueueItem {
    /// A buffer to decode.
    Buffer(RawBuffer),
    /// Nothing follows.
    EndOfStream,
}

/// What a `QueueItem` stands for in contracts.
pub enum ItemView {
    Buffer(Seq<u8>),
    EndOfStream,
}

impl View for QueueItem {
    type V = ItemView;

    open spec fn view(&self) -> ItemView {
        match *self {
            QueueItem::Buffer(buffer) => ItemView::Buffer(buffer@),
            QueueItem::EndOfStream => ItemView::EndOfStream,
        }
    }
}

/// The views of a queue's items, in the same order.
pub open spec fn item_views(queue: Seq<QueueItem>) -> Seq<ItemView> {
    Seq::new(queue.len(), |i: int| queue[i]@)
}

/// What a `Producer` stands for in contracts.
pub struct ProducerView {
    pub cursor: CursorView,
    pub sent: u64,
    pub failure: Option<EnumerationError>,
    pub finished: bool,
}

/// The side that makes the requests: it owns the cursor, counts the buffers
/// it has handed on and keeps the failure that ended the enumeration.
pub struct Producer {
    cursor: EnumerationCursor,
    sent: u64,
    failure: Option<EnumerationError>,
    finished: bool,
}

impl View for Producer {
    type V = ProducerView;

    closed spec fn view(&self) -> ProducerView {
        ProducerView {
            cursor: self.cursor@,
            sent: self.sent,
            failure: self.failure,
            finished: self.finished,
        }
    }
}

/// The producer at the start of an enumeration.
pub open spec fn fresh_producer(journal: JournalDescriptor) -> ProducerView {
    ProducerView {
        cursor: CursorView { start_file_reference_number: 0, low_usn: 0, high_usn: journal.max_usn },
        sent: 0,
        failure: None,
        finished: false,
    }
}

/// The producer after a response. Once finished it changes no more.
pub open spec fn produce_spec(p: ProducerView, response: FetchResponse) -> ProducerView {
    if p.finished {
        p
    } else {
        match classify(p.cursor.start_file_reference_number, response) {
            Ok(Some(valid)) => ProducerView {
                cursor: CursorView {
                    start_file_reference_number: start_after(
                        p.cursor.start_file_reference_number,
                        response,
                    ),
                    ..p.cursor
                },
                sent: capped(p.sent + 1),
                ..p
            },
            Ok(None) => ProducerView { finished: true, ..p },
            Err(e) => ProducerView { finished: true, failure: Some(e), ..p },
        }
    }
}

/// What the producer puts on the queue for a response: the buffer, or the
/// end-of-stream marker when the enumeration ended or failed, or nothing
/// when the marker has gone out before.
pub open spec fn emitted(p: ProducerView, response: FetchResponse) -> Option<ItemView> {
    if p.finished {
        None
    } else {
        match classify(p.cursor.start_file_reference_number, response) {
            Ok(Some(valid)) => Some(ItemView::Buffer(valid)),
            _ => Some(ItemView::EndOfStream),
        }
    }
}

/// The view of an item that may be absent.
pub open spec fn emitted_view(item: Option<QueueItem>) -> Option<ItemView> {
    match item {
        Some(item) => Some(item@),
        None => None,
    }
}

impl Producer {
    /// A producer at the start of an enumeration.
    pub fn new(journal: &JournalDescriptor) -> (p: Producer)
        ensures
            p@ == fresh_producer(*journal),
    {
        Producer { cursor: EnumerationCursor::new(journal), sent: 0, failure: None, finished: false }
    }

    /// The cursor with which the next request is to be made.
    pub fn cursor(&self) -> (c: EnumerationCursor)
        ensures
            c@ == self@.cursor,
    {
        self.cursor
    }

    /// Whether the end-of-stream marker has gone out.
    pub fn is_finished(&self) -> (b: bool)
        ensures
            b == self@.finished,
    {
        self.finished
    }

    /// The number of buffers handed on.
    pub fn sent(&self) -> (n: u64)
        ensures
            n == self@.sent,
    {
        self.sent
    }

    /// The failure that ended the enumeration, if one did.
    pub fn failure(&self) -> (e: Option<EnumerationError>)
        ensures
            e == self@.failure,
    {
        self.failure
    }

    /// Takes the response to the request made with `cursor()` and gives the
    /// item to enqueue. The marker goes out exactly once; after it, nothing.
    pub fn offer(&mut self, response: FetchResponse) -> (item: Option<QueueItem>)
        ensures
            final(self)@ == produce_spec(old(self)@, response),
            emitted_view(item) == emitted(old(self)@, response),
    {
        if self.finished {
            return None;
        }
        match self.cursor.next_buffer(response) {
            Ok(Some(buffer)) => {
                self.sent = self.sent.saturating_add(1);
                Some(QueueItem::Buffer(buffer))
            },
            Ok(None) => {
                self.finished = true;
                Some(QueueItem::EndOfStream)
            },
            Err(e) => {
                self.finished = true;
                self.failure = Some(e);
                Some(QueueItem::EndOfStream)
            },
        }
    }
}

/// What a `Consumer` stands for in contracts.
pub struct ConsumerView {
    pub lists: Map<u64, Seq<FileRecordView>>,
    pub buffers: u64,
    pub records: u64,
    pub malformed: Seq<MalformedReport>,
    pub finished: bool,
}

/// The side that decodes: it owns the index and counts what it has seen.
pub struct Consumer {
    index: ParentChildIndex,
    buffers: u64,
    records: u64,
    malformed: Vec<MalformedReport>,
    finished: bool,
}

impl View for Consumer {
    type V = ConsumerView;

    closed spec fn view(&self) -> ConsumerView {
        ConsumerView {
            lists: self.index@,
            buffers: self.buffers,
            records: self.records,
            malformed: self.malformed@,
            finished: self.finished,
        }
    }
}

/// The consumer before the first item.
pub open spec fn fresh_consumer() -> ConsumerView {
    ConsumerView {
        lists: Map::empty(),
        buffers: 0,
        records: 0,
        malformed: Seq::empty(),
        finished: false,
    }
}

/// The consumer after an item. A buffer is decoded and its records are
/// indexed in order; a fault in it is noted under the buffer's number and
/// costs only the rest of that buffer. After the marker nothing changes.
pub open spec fn consume_spec(c: ConsumerView, item: ItemView) -> ConsumerView {
    if c.finished {
        c
    } else {
        match item {
            ItemView::EndOfStream => ConsumerView { finished: true, ..c },
            ItemView::Buffer(valid) => {
                let decoded = decode_spec(valid);
                ConsumerView {
                    lists: with_records(c.lists, decoded.records),
                    buffers: capped(c.buffers + 1),
                    records: capped(c.records + decoded.records.len()),
                    malformed: match decoded.error {
                        Some(error) => c.malformed.push(
                            MalformedReport { buffer_index: c.buffers, error },
                        ),
                        None => c.malformed,
                    },
                    finished: false,
                }
            },
        }
    }
}

impl Consumer {
    /// Well-formedness: that of the index.
    pub closed spec fn wf(&self) -> bool {
        self.index.wf()
    }

    /// A consumer with an empty index.
    pub fn new() -> (c: Consumer)
        ensures
            c.wf(),
            c@ == fresh_consumer(),
    {
        Consumer {
            index: ParentChildIndex::new(),
            buffers: 0,
            records: 0,
            malformed: Vec::new(),
            finished: false,
        }
    }

    /// Whether the end-of-stream marker has been seen.
    pub fn is_finished(&self) -> (b: bool)
        ensures
            b == self@.finished,
    {
        self.finished
    }

    /// The index built so far.
    pub fn index(&self) -> (index: &ParentChildIndex)
        requires
            self.wf(),
        ensures
            index.wf(),
            index@ == self@.lists,
    {
        &self.index
    }

    /// Decodes and indexes a buffer, or takes note of the marker.
    pub fn accept(&mut self, item: QueueItem)
        requires
            old(self).wf(),
        ensures
            final(self).wf(),
            final(self)@ == consume_spec(old(self)@, item@),
    {
        if self.finished {
            return ;
        }
        match item {
            QueueItem::EndOfStream => {
                self.finished = true;
            },
            QueueItem::Buffer(buffer) => {
                let decoded = decode(&buffer);
                let count: usize = decoded.records.len();
                match decoded.error {
                    Some(error) => {
                        self.malformed.push(MalformedReport { buffer_index: self.buffers, error });
                    },
                    None => {},
                }
                insert_all(&mut self.index, decoded.records);
                self.records = self.records.saturating_add(count as u64);
                self.buffers = self.buffers.saturating_add(1);
            },
        }
    }
}

/// The producer after a run of responses, first to last.
pub open spec fn produced(p: ProducerView, responses: Seq<FetchResponse>) -> ProducerView
    decreases responses.len(),
{
    if responses.len() == 0 {
        p
    } else {
        produce_spec(produced(p, responses.drop_last()), responses.last())
    }
}

/// The queue that the producer fills over a run of responses.
pub open spec fn queue_of(p: ProducerView, responses: Seq<FetchResponse>) -> Seq<ItemView>
    decreases responses.len(),
{
    if responses.len() == 0 {
        Seq::empty()
    } else {
        let queue = queue_of(p, responses.drop_last());
        match emitted(produced(p, responses.drop_last()), responses.last()) {
            Some(item) => queue.push(item),
            None => queue,
        }
    }
}

/// The consumer after a run of items, first to last.
pub open spec fn consumed(c: ConsumerView, items: Seq<ItemView>) -> ConsumerView
    decreases items.len(),
{
    if items.len() == 0 {
        c
    } else {
        consume_spec(consumed(c, items.drop_last()), items.last())
    }
}

/// Both sides after a run of responses in which each item is consumed as
/// soon as it is produced.
pub open spec fn interleaved(
    p: ProducerView,
    c: ConsumerView,
    responses: Seq<FetchResponse>,
) -> (ProducerView, ConsumerView)
    decreases responses.len(),
{
    if responses.len() == 0 {
        (p, c)
    } else {
        let before = interleaved(p, c, responses.drop_last());
        (
            produce_spec(before.0, responses.last()),
            match emitted(before.0, responses.last()) {
                Some(item) => consume_spec(before.1, item),
                None => before.1,
            },
        )
    }
}

/// What a `Summary` stands for in contracts.
pub struct SummaryView {
    pub lists: Map<u64, Seq<FileRecordView>>,
    pub buffers_sent: u64,
    pub buffers_processed: u64,
    pub records_indexed: u64,
    pub malformed: Seq<MalformedReport>,
    pub failure: Option<EnumerationError>,
    pub completed: bool,
}

/// The result of a run: the index, the counters of both sides, the faults
/// met while decoding, the failure that ended the enumeration if one did,
/// and whether the end of the stream was reached at all.
pub struct Summary {
    index: ParentChildIndex,
    buffers_sent: u64,
    buffers_processed: u64,
    records_indexed: u64,
    malformed: Vec<MalformedReport>,
    failure: Option<EnumerationError>,
    completed: bool,
}

impl View for Summary {
    type V = SummaryView;

    closed spec fn view(&self) -> SummaryView {
        SummaryView {
            lists: self.index@,
            buffers_sent: self.buffers_sent,
            buffers_processed: self.buffers_processed,
            records_indexed: self.records_indexed,
            malformed: self.malformed@,
            failure: self.failure,
            completed: self.completed,
        }
    }
}

/// The summary of a run that left the two sides as given.
pub open spec fn summary_of(p: ProducerView, c: ConsumerView) -> SummaryView {
    SummaryView {
        lists: c.lists,
        buffers_sent: p.sent,
        buffers_processed: c.buffers,
        records_indexed: c.records,
        malformed: c.malformed,
        failure: p.failure,
        completed: c.finished,
    }
}

impl Summary {
    /// Well-formedness: that of the index.
    pub closed spec fn wf(&self) -> bool {
        self.index.wf()
    }

    /// The index that the run built.
    pub fn index(&self) -> (index: &ParentChildIndex)
        requires
            self.wf(),
        ensures
            index.wf(),
            index@ == self@.lists,
    {
        &self.index
    }

    /// The index alone, for a caller that wants to keep it.
    pub fn into_index(self) -> (index: ParentChildIndex)
        requires
            self.wf(),
        ensures
            index.wf(),
            index@ == self@.lists,
    {
        self.index
    }

    /// The number of buffers that the producer handed on.
    pub fn buffers_sent(&self) -> (n: u64)
        ensures
            n == self@.buffers_sent,
    {
        self.buffers_sent
    }

    /// The number of buffers that the consumer decoded.
    pub fn buffers_processed(&self) -> (n: u64)
        ensures
            n == self@.buffers_processed,
    {
        self.buffers_processed
    }

    /// The number of records that were indexed.
    pub fn records_indexed(&self) -> (n: u64)
        ensures
            n == self@.records_indexed,
    {
        self.records_indexed
    }

    /// The faults met while decoding, in the order in which they were met.
    pub fn malformed(&self) -> (list: &Vec<MalformedReport>)
        ensures
            list@ == self@.malformed,
    {
        &self.malformed
    }

    /// The failure that ended the enumeration, if one did.
    pub fn failure(&self) -> (e: Option<EnumerationError>)
        ensures
            e == self@.failure,
    {
        self.failure
    }

    /// Whether the consumer saw the end of the stream.
    pub fn completed(&self) -> (b: bool)
        ensures
            b == self@.completed,
    {
        self.completed
    }
}

/// Puts the two sides of a finished run together.
pub fn summarize(producer: Producer, consumer: Consumer) -> (s: Summary)
    requires
        consumer.wf(),
    ensures
        s.wf(),
        s@ == summary_of(producer@, consumer@),
{
    Summary {
        index: consumer.index,
        buffers_sent: producer.sent,
        buffers_processed: consumer.buffers,
        records_indexed: consumer.records,
        malformed: consumer.malformed,
        failure: producer.failure,
        completed: consumer.finished,
    }
}

/// The queue holds what the interleaved run consumes: whether each item is
/// consumed at once or only after the whole queue is filled, both sides end
/// in the same state, with the same index and the same counters.
pub proof fn lemma_modes_agree(p: ProducerView, c: ConsumerView, responses: Seq<FetchResponse>)
    ensures
        interleaved(p, c, responses) == (
            produced(p, responses),
            consumed(c, queue_of(p, responses)),
        ),
    decreases responses.len(),
{
    if responses.len() > 0 {
        let earlier = responses.drop_last();
        lemma_modes_agree(p, c, earlier);
        let queue = queue_of(p, earlier);
        match emitted(produced(p, earlier), responses.last()) {
            Some(item) => {
                assert(queue.push(item).drop_last() =~= queue);
                assert(queue.push(item).last() == item);
            },
            None => {},
        }
    }
}

/// No buffer is lost: from a fresh start the consumer has processed as many
/// buffers as the producer has sent, after any run of responses, and it has
/// seen the marker exactly when the producer has sent it. A failure is only
/// ever kept together with the marker.
pub proof fn lemma_no_buffer_lost(journal: JournalDescriptor, responses: Seq<FetchResponse>)
    ensures
        interleaved(fresh_producer(journal), fresh_consumer(), responses).1.buffers
            == interleaved(fresh_producer(journal), fresh_consumer(), responses).0.sent,
        interleaved(fresh_producer(journal), fresh_consumer(), responses).1.finished
            == interleaved(fresh_producer(journal), fresh_consumer(), responses).0.finished,
        interleaved(fresh_producer(journal), fresh_consumer(), responses).0.failure is Some
            ==> interleaved(fresh_producer(journal), fresh_consumer(), responses).0.finished,
    decreases responses.len(),
{
    if responses.len() > 0 {
        lemma_no_buffer_lost(journal, responses.drop_last());
    }
}

/// Whether a queue holds the end-of-stream marker.
pub open spec fn has_marker(items: Seq<ItemView>) -> bool
    decreases items.len(),
{
    items.len() > 0 && (has_marker(items.drop_last()) || items.last() is EndOfStream)
}

/// The records in the buffers that a queue holds before its first marker, in
/// the order of the queue and, within a buffer, of the buffer.
pub open spec fn records_queued(items: Seq<ItemView>) -> Seq<FileRecordView>
    decreases items.len(),
{
    if items.len() == 0 {
        Seq::empty()
    } else {
        let earlier = records_queued(items.drop_last());
        match items.last() {
            ItemView::Buffer(valid) => if has_marker(items.drop_last()) {
                earlier
            } else {
                earlier + decode_spec(valid).records
            },
            ItemView::EndOfStream => earlier,
        }
    }
}

/// The consumer processes every buffer queued before the marker, in order,
/// and nothing after it: its index is the one it had with the records of
/// those buffers inserted first to last, and it has finished exactly when the
/// queue held the marker.
pub proof fn lemma_consumer_indexes_queue(c: ConsumerView, items: Seq<ItemView>)
    requires
        !c.finished,
    ensures
        consumed(c, items).lists == with_records(c.lists, records_queued(items)),
        consumed(c, items).finished == has_marker(items),
    decreases items.len(),
{
    if items.len() > 0 {
        let earlier = items.drop_last();
        lemma_consumer_indexes_queue(c, earlier);
        match items.last() {
            ItemView::Buffer(valid) => {
                lemma_with_records_joined(
                    c.lists,
                    records_queued(earlier),
                    decode_spec(valid).records,
                );
            },
            ItemView::EndOfStream => {},
        }
    }
}

/// The next request starts at the continuation token of the last buffer:
/// where a response puts a buffer on the queue, the cursor moves to the
/// integer in the first eight bytes of that buffer.
pub proof fn lemma_next_request_starts_at_token(p: ProducerView, response: FetchResponse)
    requires
        emitted(p, response) is Some,
        emitted(p, response).unwrap() is Buffer,
    ensures
        emitted(p, response).unwrap()->Buffer_0.len() >= TOKEN_LEN,
        produce_spec(p, response).cursor.start_file_reference_number == le_u64(
            emitted(p, response).unwrap()->Buffer_0,
            0,
        ),
        produce_spec(p, response).cursor.low_usn == p.cursor.low_usn,
        produce_spec(p, response).cursor.high_usn == p.cursor.high_usn,
{
    lemma_le_ranges(emitted(p, response).unwrap()->Buffer_0, 0);
}

/// The cursor never moves back, and its bounds never change, whatever the
/// responses are.
pub proof fn lemma_cursor_never_goes_back(p: ProducerView, responses: Seq<FetchResponse>)
    ensures
        produced(p, responses).cursor.start_file_reference_number
            >= p.cursor.start_file_reference_number,
        produced(p, responses).cursor.low_usn == p.cursor.low_usn,
        produced(p, responses).cursor.high_usn == p.cursor.high_usn,
    decreases responses.len(),
{
    if responses.len() > 0 {
        lemma_cursor_never_goes_back(p, responses.drop_last());
        let before = produced(p, responses.drop_last());
        match classify(before.cursor.start_file_reference_number, responses.last()) {
            Ok(Some(valid)) => {
                lemma_le_ranges(valid, 0);
            },
            _ => {},
        }
    }
}

/// The end-of-data status completes a run normally: where it comes while
/// the enumeration is still under way, the run ends completed and without a
/// failure, and the consumer has processed every buffer that the producer
/// sent. This holds in both modes.
pub proof fn lemma_end_of_data_completes(journal: JournalDescriptor, earlier: Seq<FetchResponse>)
    requires
        !produced(fresh_producer(journal), earlier).finished,
    ensures
        ({
            let responses = earlier.push(FetchResponse::Failed { status: END_OF_DATA });
            let p = produced(fresh_producer(journal), responses);
            let c = consumed(fresh_consumer(), queue_of(fresh_producer(journal), responses));
            &&& interleaved(fresh_producer(journal), fresh_consumer(), responses) == (p, c)
            &&& summary_of(p, c).completed
            &&& summary_of(p, c).failure is None
            &&& summary_of(p, c).buffers_processed == summary_of(p, c).buffers_sent
            &&& summary_of(p, c).buffers_sent == produced(fresh_producer(journal), earlier).sent
        }),
{
    let responses = earlier.push(FetchResponse::Failed { status: END_OF_DATA });
    assert(responses.drop_last() =~= earlier);
    lemma_modes_agree(fresh_producer(journal), fresh_consumer(), responses);
    lemma_modes_agree(fresh_producer(journal), fresh_consumer(), earlier);
    lemma_no_buffer_lost(journal, responses);
    lemma_no_buffer_lost(journal, earlier);
}

/// Runs the enumeration over `responses` one at a time: each response is
/// read, and what it holds is decoded and indexed before the next is looked
/// at. Responses after the one that ends the enumeration are ignored.
pub fn run_synchronous(journal: &JournalDescriptor, responses: Vec<FetchResponse>) -> (s: Summary)
    ensures
        s.wf(),
        s@ == summary_of(
            interleaved(fresh_producer(*journal), fresh_consumer(), responses@).0,
            interleaved(fresh_producer(*journal), fresh_consumer(), responses@).1,
        ),
        s@.buffers_processed == s@.buffers_sent,
{
    let mut producer = Producer::new(journal);
    let mut consumer = Consumer::new();
    let ghost all = responses@;
    let ghost first_producer = producer@;
    let ghost first_consumer = consumer@;
    for response in it: responses.into_iter()
        invariant
            it.seq() == all,
            consumer.wf(),
            (producer@, consumer@) == interleaved(first_producer, first_consumer, all.take(it.index() as int)),
    {
        proof {
            let done = it.index() as int;
            assert(all.take(done + 1).drop_last() =~= all.take(done));
            assert(all.take(done + 1).last() == all[done]);
        }
        match producer.offer(response) {
            Some(item) => {
                consumer.accept(item);
            },
            None => {},
        }
    }
    proof {
        assert(all.take(all.len() as int) =~= all);
        lemma_no_buffer_lost(*journal, all);
    }
    summarize(producer, consumer)
}

/// Runs the enumeration over `responses` in two stages joined by a queue:
/// the producer reads every response and enqueues buffers followed by one
/// marker; then the consumer takes the queue in order, decoding and indexing
/// every buffer before the marker.
pub fn run_queued(journal: &JournalDescriptor, responses: Vec<FetchResponse>) -> (s: Summary)
    ensures
        s.wf(),
        s@ == summary_of(
            produced(fresh_producer(*journal), responses@),
            consumed(fresh_consumer(), queue_of(fresh_producer(*journal), responses@)),
        ),
        s@ == summary_of(
            interleaved(fresh_producer(*journal), fresh_consumer(), responses@).0,
            interleaved(fresh_producer(*journal), fresh_consumer(), responses@).1,
        ),
        s@.buffers_processed == s@.buffers_sent,
{
    let mut producer = Producer::new(journal);
    let ghost all = responses@;
    let ghost first_producer = producer@;
    let mut queue: Vec<QueueItem> = Vec::new();
    for response in it: responses.into_iter()
        invariant
            it.seq() == all,
            producer@ == produced(first_producer, all.take(it.index() as int)),
            item_views(queue@) == queue_of(first_producer, all.take(it.index() as int)),
    {
        proof {
            let done = it.index() as int;
            assert(all.take(done + 1).drop_last() =~= all.take(done));
            assert(all.take(done + 1).last() == all[done]);
        }
        let ghost before = queue@;
        match producer.offer(response) {
            Some(item) => {
                queue.push(item);
                proof {
                    assert(item_views(before.push(item)) =~= item_views(before).push(item@));
                }
            },
            None => {},
        }
    }
    let mut consumer = Consumer::new();
    let ghost first_consumer = consumer@;
    let ghost items = queue@;
    for item in it: queue.into_iter()
        invariant
            it.seq() == items,
            consumer.wf(),
            consumer@ == consumed(first_consumer, item_views(items.take(it.index() as int))),
    {
        proof {
            let done = it.index() as int;
            assert(item_views(items.take(done + 1)).drop_last() =~= item_views(items.take(done)));
            assert(item_views(items.take(done + 1)).last() == items[done]@);
        }
        consumer.accept(item);
    }
    proof {
        assert(all.take(all.len() as int) =~= all);
        assert(items.take(items.len() as int) =~= items);
        lemma_modes_agree(first_producer, first_consumer, all);
        lemma_no_buffer_lost(*journal, all);
    }
    summarize(producer, consumer)
}

/// The two ways of running the enumeration.
#[derive(Clone, Copy, Debug, PartialEq, Eq, Structural)]
pub enum ExecutionMode {
    /// Each buffer is decoded before the next is fetched.
    Synchronous,
    /// Buffers pass through a queue from a producer to a consumer.
    ProducerConsumer,
}

/// Runs the enumeration over `responses` in the given mode. The mode decides
/// how the work is scheduled and nothing else: the summary is the same.
pub fn run(mode: ExecutionMode, journal: &JournalDescriptor, responses: Vec<FetchResponse>) -> (s:
    Summary)
    ensures
        s.wf(),
        s@ == summary_of(
            interleaved(fresh_producer(*journal), fresh_consumer(), responses@).0,
            interleaved(fresh_producer(*journal), fresh_consumer(), responses@).1,
        ),
        s@.buffers_processed == s@.buffers_sent,
{
    match mode {
        ExecutionMode::Synchronous => run_synchronous(journal, responses),
        ExecutionMode::ProducerConsumer => run_queued(journal, responses),
    }
}

} // verus!
