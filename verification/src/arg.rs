//! Recording argument values: one event for each scalar and for each owned
//! string, a run of fixed-size chunks for each string slice.

use vstd::prelude::*;
use vstd::utf8::encode_utf8;
use vstd::utf8::encode_utf8_decode_utf8;
use vstd::utf8::encode_utf8_valid_utf8;
use crate::event::record_event;
use crate::event::Event;
use crate::event::EventLog;
use crate::event::EventView;
use crate::event::STR_PART_LEN;
use crate::grammar::parse_arg;
use crate::grammar::parse_text;
use crate::packet::ValueView;

verus! {

/// `bytes` followed by zeros up to the size of a chunk.
pub open spec fn padded(bytes: Seq<u8>) -> Seq<u8> {
    Seq::new(
        STR_PART_LEN as nat,
        |i: int|
            if i < bytes.len() {
                bytes[i]
            } else {
                0u8
            },
    )
}

/// The events that stand for the bytes of a string slice: consecutive
/// windows of `STR_PART_LEN` bytes, the last of which may be shorter and is
/// recorded with its length.
pub open spec fn text_chunks(bytes: Seq<u8>) -> Seq<EventView>
    decreases bytes.len(),
{
    if bytes.len() <= STR_PART_LEN {
        seq![EventView::StrEnd { len: bytes.len() as u8, bytes: padded(bytes) }]
    } else {
        seq![EventView::StrPart(bytes.take(STR_PART_LEN as int))] + text_chunks(
            bytes.skip(STR_PART_LEN as int),
        )
    }
}

/// Reading the chunks of a string slice back gives its bytes, whatever
/// stands before and after the chunks in the log.
pub proof fn lemma_text_chunks_parse(before: Seq<EventView>, bytes: Seq<u8>, after: Seq<EventView>)
    ensures
        parse_text(before + text_chunks(bytes) + after, before.len() as int) == Some(
            (bytes, (before.len() + text_chunks(bytes).len()) as int),
        ),
    decreases bytes.len(),
{
    let log = before + text_chunks(bytes) + after;
    let pos = before.len() as int;
    if bytes.len() <= STR_PART_LEN {
        assert(log[pos] == text_chunks(bytes)[0]);
        assert(padded(bytes).take(bytes.len() as int) =~= bytes);
    } else {
        let head = EventView::StrPart(bytes.take(STR_PART_LEN as int));
        let tail = bytes.skip(STR_PART_LEN as int);
        assert(log[pos] == text_chunks(bytes)[0]);
        lemma_text_chunks_parse(before.push(head), tail, after);
        assert(before.push(head) + text_chunks(tail) + after =~= log);
        assert(bytes.take(STR_PART_LEN as int) + tail =~= bytes);
    }
}

/// Recording a string slice and reading it back gives the same text, for
/// every text of every length: wherever the chunks of the text's bytes
/// stand in a log, reading an argument at their start gives the text and
/// ends right after them.
pub proof fn lemma_text_round_trip(before: Seq<EventView>, text: Seq<char>, after: Seq<EventView>)
    ensures
        parse_arg(before + text_chunks(encode_utf8(text)) + after, before.len() as int) == Some(
            (
                ValueView::StringValue(text),
                (before.len() + text_chunks(encode_utf8(text)).len()) as int,
            ),
        ),
{
    let bytes = encode_utf8(text);
    lemma_text_chunks_parse(before, bytes, after);
    encode_utf8_valid_utf8(text);
    encode_utf8_decode_utf8(text);
    assert((before + text_chunks(bytes) + after)[before.len() as int] == text_chunks(bytes)[0]);
}

/// A single event `event` stands at the position after `before`.
proof fn lemma_single_event(before: Seq<EventView>, event: EventView, after: Seq<EventView>)
    ensures
        (before + seq![event] + after).len() > before.len(),
        (before + seq![event] + after)[before.len() as int] == event,
{
}

/// Types whose values can be recorded as arguments of a span.
pub trait RecordArg: Sized {
    /// The events that stand for the value in a log.
    spec fn encoding(self) -> Seq<EventView>;

    /// The value that reading the events back gives.
    spec fn decoded(self) -> ValueView;

    /// Appends the value's events to `log`.
    fn record_arg(self, log: &mut EventLog)
        ensures
            final(log)@ == old(log)@ + self.encoding(),
    ;

    /// Recording and reading back preserves the value: wherever the value's
    /// events stand in a log, reading an argument at their start gives the
    /// value and ends right after them.
    proof fn lemma_round_trip(self, before: Seq<EventView>, after: Seq<EventView>)
        ensures
            parse_arg(before + self.encoding() + after, before.len() as int) == Some(
                (self.decoded(), (before.len() + self.encoding().len()) as int),
            ),
    ;
}

impl RecordArg for bool {
    open spec fn encoding(self) -> Seq<EventView> {
        seq![EventView::Bool(self)]
    }

    open spec fn decoded(self) -> ValueView {
        ValueView::BoolValue(self)
    }

    proof fn lemma_round_trip(self, before: Seq<EventView>, after: Seq<EventView>) {
        lemma_single_event(before, EventView::Bool(self), after);
    }

    fn record_arg(self, log: &mut EventLog) {
        record_event(log, Event::Bool(self));
        assert(log@ == old(log)@ + self.encoding());
    }
}

impl RecordArg for u64 {
    open spec fn encoding(self) -> Seq<EventView> {
        seq![EventView::U64(self)]
    }

    open spec fn decoded(self) -> ValueView {
        ValueView::UintValue(self)
    }

    proof fn lemma_round_trip(self, before: Seq<EventView>, after: Seq<EventView>) {
        lemma_single_event(before, EventView::U64(self), after);
    }

    fn record_arg(self, log: &mut EventLog) {
        record_event(log, Event::U64(self));
        assert(log@ == old(log)@ + self.encoding());
    }
}

impl RecordArg for u32 {
    open spec fn encoding(self) -> Seq<EventView> {
        seq![EventView::U64(self as u64)]
    }

    open spec fn decoded(self) -> ValueView {
        ValueView::UintValue(self as u64)
    }

    proof fn lemma_round_trip(self, before: Seq<EventView>, after: Seq<EventView>) {
        lemma_single_event(before, EventView::U64(self as u64), after);
    }

    fn record_arg(self, log: &mut EventLog) {
        record_event(log, Event::U64(self as u64));
        assert(log@ == old(log)@ + self.encoding());
    }
}

impl RecordArg for u16 {
    open spec fn encoding(self) -> Seq<EventView> {
        seq![EventView::U64(self as u64)]
    }

    open spec fn decoded(self) -> ValueView {
        ValueView::UintValue(self as u64)
    }

    proof fn lemma_round_trip(self, before: Seq<EventView>, after: Seq<EventView>) {
        lemma_single_event(before, EventView::U64(self as u64), after);
    }

    fn record_arg(self, log: &mut EventLog) {
        record_event(log, Event::U64(self as u64));
        assert(log@ == old(log)@ + self.encoding());
    }
}

impl RecordArg for u8 {
    open spec fn encoding(self) -> Seq<EventView> {
        seq![EventView::U64(self as u64)]
    }

    open spec fn decoded(self) -> ValueView {
        ValueView::UintValue(self as u64)
    }

    proof fn lemma_round_trip(self, before: Seq<EventView>, after: Seq<EventView>) {
        lemma_single_event(before, EventView::U64(self as u64), after);
    }

    fn record_arg(self, log: &mut EventLog) {
        record_event(log, Event::U64(self as u64));
        assert(log@ == old(log)@ + self.encoding());
    }
}

impl RecordArg for usize {
    open spec fn encoding(self) -> Seq<EventView> {
        seq![EventView::U64(self as u64)]
    }

    open spec fn decoded(self) -> ValueView {
        ValueView::UintValue(self as u64)
    }

    proof fn lemma_round_trip(self, before: Seq<EventView>, after: Seq<EventView>) {
        lemma_single_event(before, EventView::U64(self as u64), after);
    }

    fn record_arg(self, log: &mut EventLog) {
        record_event(log, Event::U64(self as u64));
        assert(log@ == old(log)@ + self.encoding());
    }
}

impl RecordArg for i64 {
    open spec fn encoding(self) -> Seq<EventView> {
        seq![EventView::I64(self)]
    }

    open spec fn decoded(self) -> ValueView {
        ValueView::IntValue(self)
    }

    proof fn lemma_round_trip(self, before: Seq<EventView>, after: Seq<EventView>) {
        lemma_single_event(before, EventView::I64(self), after);
    }

    fn record_arg(self, log: &mut EventLog) {
        record_event(log, Event::I64(self));
        assert(log@ == old(log)@ + self.encoding());
    }
}

impl RecordArg for i32 {
    open spec fn encoding(self) -> Seq<EventView> {
        seq![EventView::I64(self as i64)]
    }

    open spec fn decoded(self) -> ValueView {
        ValueView::IntValue(self as i64)
    }

    proof fn lemma_round_trip(self, before: Seq<EventView>, after: Seq<EventView>) {
        lemma_single_event(before, EventView::I64(self as i64), after);
    }

    fn record_arg(self, log: &mut EventLog) {
        record_event(log, Event::I64(self as i64));
        assert(log@ == old(log)@ + self.encoding());
    }
}

impl RecordArg for i16 {
    open spec fn encoding(self) -> Seq<EventView> {
        seq![EventView::I64(self as i64)]
    }

    open spec fn decoded(self) -> ValueView {
        ValueView::IntValue(self as i64)
    }

    proof fn lemma_round_trip(self, before: Seq<EventView>, after: Seq<EventView>) {
        lemma_single_event(before, EventView::I64(self as i64), after);
    }

    fn record_arg(self, log: &mut EventLog) {
        record_event(log, Event::I64(self as i64));
        assert(log@ == old(log)@ + self.encoding());
    }
}

impl RecordArg for i8 {
    open spec fn encoding(self) -> Seq<EventView> {
        seq![EventView::I64(self as i64)]
    }

    open spec fn decoded(self) -> ValueView {
        ValueView::IntValue(self as i64)
    }

    proof fn lemma_round_trip(self, before: Seq<EventView>, after: Seq<EventView>) {
        lemma_single_event(before, EventView::I64(self as i64), after);
    }

    fn record_arg(self, log: &mut EventLog) {
        record_event(log, Event::I64(self as i64));
        assert(log@ == old(log)@ + self.encoding());
    }
}

impl RecordArg for isize {
    open spec fn encoding(self) -> Seq<EventView> {
        seq![EventView::I64(self as i64)]
    }

    open spec fn decoded(self) -> ValueView {
        ValueView::IntValue(self as i64)
    }

    proof fn lemma_round_trip(self, before: Seq<EventView>, after: Seq<EventView>) {
        lemma_single_event(before, EventView::I64(self as i64), after);
    }

    fn record_arg(self, log: &mut EventLog) {
        record_event(log, Event::I64(self as i64));
        assert(log@ == old(log)@ + self.encoding());
    }
}

/// A double-precision value, held as its IEEE 754 bit pattern: what
/// `f64::to_bits` gives.
#[derive(Clone, Copy, Debug)]
pub struct DoubleBits(pub u64);

impl RecordArg for DoubleBits {
    open spec fn encoding(self) -> Seq<EventView> {
        seq![EventView::F64(self.0)]
    }

    open spec fn decoded(self) -> ValueView {
        ValueView::DoubleValue(self.0)
    }

    proof fn lemma_round_trip(self, before: Seq<EventView>, after: Seq<EventView>) {
        lemma_single_event(before, EventView::F64(self.0), after);
    }

    fn record_arg(self, log: &mut EventLog) {
        record_event(log, Event::F64(self.0));
        assert(log@ == old(log)@ + self.encoding());
    }
}

impl RecordArg for String {
    open spec fn encoding(self) -> Seq<EventView> {
        seq![EventView::String(self@)]
    }

    open spec fn decoded(self) -> ValueView {
        ValueView::StringValue(self@)
    }

    proof fn lemma_round_trip(self, before: Seq<EventView>, after: Seq<EventView>) {
        lemma_single_event(before, EventView::String(self@), after);
    }

    fn record_arg(self, log: &mut EventLog) {
        let ghost text = self@;
        record_event(log, Event::String(self));
        assert(log@ == old(log)@ + seq![EventView::String(text)]);
    }
}

/// Copies `count` bytes of `bytes`, from `start` on, into a chunk and fills
/// the rest of the chunk with zeros.
fn window(bytes: &[u8], start: usize, count: usize) -> (chunk: [u8; STR_PART_LEN])
    requires
        count <= STR_PART_LEN,
        start + count <= bytes@.len(),
    ensures
        chunk@ == padded(bytes@.subrange(start as int, start + count)),
{
    let total = bytes.len();
    let mut chunk = [0u8; STR_PART_LEN];
    let mut i: usize = 0;
    while i < count
        invariant
            i <= count <= STR_PART_LEN,
            start + count <= total == bytes@.len(),
            forall|j: int| 0 <= j < i ==> chunk@[j] == bytes@[start + j],
            forall|j: int| i <= j < STR_PART_LEN ==> chunk@[j] == 0u8,
        decreases count - i,
    {
        chunk[i] = bytes[start + i];
        i += 1;
    }
    assert(chunk@ =~= padded(bytes@.subrange(start as int, start + count)));
    chunk
}

impl<'a> RecordArg for &'a str {
    open spec fn encoding(self) -> Seq<EventView> {
        text_chunks(encode_utf8(self@))
    }

    open spec fn decoded(self) -> ValueView {
        ValueView::StringValue(self@)
    }

    proof fn lemma_round_trip(self, before: Seq<EventView>, after: Seq<EventView>) {
        lemma_text_round_trip(before, self@, after);
    }

    fn record_arg(self, log: &mut EventLog) {
        let bytes = self.as_bytes();
        let len = bytes.len();
        let mut start: usize = 0;
        assert(bytes@.skip(0) =~= bytes@);
        while len - start > STR_PART_LEN
            invariant
                start <= len == bytes@.len(),
                old(log)@ + text_chunks(bytes@) == log@ + text_chunks(bytes@.skip(start as int)),
            decreases len - start,
        {
            let part = window(bytes, start, STR_PART_LEN);
            let ghost before = log@;
            let ghost rest = bytes@.skip(start as int);
            record_event(log, Event::StrPart(part));
            proof {
                assert(rest.take(STR_PART_LEN as int) =~= bytes@.subrange(
                    start as int,
                    start + STR_PART_LEN,
                ));
                assert(padded(rest.take(STR_PART_LEN as int)) =~= rest.take(STR_PART_LEN as int));
                assert(rest.skip(STR_PART_LEN as int) =~= bytes@.skip(start + STR_PART_LEN));
                assert(before + (seq![EventView::StrPart(rest.take(STR_PART_LEN as int))]
                    + text_chunks(rest.skip(STR_PART_LEN as int))) =~= before.push(
                    EventView::StrPart(rest.take(STR_PART_LEN as int)),
                ) + text_chunks(rest.skip(STR_PART_LEN as int)));
            }
            start += STR_PART_LEN;
        }
        let last = window(bytes, start, len - start);
        let ghost before = log@;
        record_event(log, Event::StrEnd { len: (len - start) as u8, bytes: last });
        proof {
            assert(bytes@.skip(start as int) =~= bytes@.subrange(start as int, len as int));
            assert(before + text_chunks(bytes@.skip(start as int)) =~= log@);
        }
    }
}

} // verus!
