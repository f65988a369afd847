//! Reading argument values back out of a log.

use vstd::prelude::*;
use vstd::utf8::decode_utf8;
use vstd::utf8::valid_utf8;
use crate::event::events_view;
use crate::event::Event;
use crate::event::EventView;
use crate::event::STR_PART_LEN;
use crate::clock::Timestamp;
use crate::grammar::lemma_parse_arg_advances;
use crate::grammar::parse_arg;
use crate::grammar::parse_args;
use crate::grammar::parse_marker;
use crate::grammar::parse_text;
use crate::grammar::MarkerView;
use crate::packet::Value;
use crate::packet::ValueView;
use crate::source::SourceInfo;

verus! {

/// Calls `String::from_utf8`, which gives the text that the bytes spell
/// where they are valid UTF-8, and an error where they are not. The
/// contract says this with vstd's definition of UTF-8.
#[verifier::external_body]
fn text_from_utf8(bytes: Vec<u8>) -> (text: Option<String>)
    ensures
        text is Some <==> valid_utf8(bytes@),
        text matches Some(t) ==> t@ == decode_utf8(bytes@),
{
    match String::from_utf8(bytes) {
        Ok(text) => Some(text),
        Err(_) => None,
    }
}

/// Appends the first `count` bytes of `bytes` to `merged`.
fn append_bytes(merged: &mut Vec<u8>, bytes: &[u8; STR_PART_LEN], count: usize)
    requires
        count <= STR_PART_LEN,
    ensures
        final(merged)@ == old(merged)@ + bytes@.take(count as int),
{
    let mut i: usize = 0;
    while i < count
        invariant
            i <= count <= STR_PART_LEN,
            merged@ == old(merged)@ + bytes@.take(i as int),
        decreases count - i,
    {
        merged.push(bytes[i]);
        i += 1;
        assert(bytes@.take(i as int) == bytes@.take(i - 1).push(bytes@[i - 1]));
    }
}

/// What reading a string slice gives where `prefix` was read already and
/// `rest` is what reading on gives.
pub open spec fn with_prefix(prefix: Seq<u8>, rest: Option<(Seq<u8>, int)>) -> Option<
    (Seq<u8>, int),
> {
    match rest {
        Some((bytes, next)) => Some((prefix + bytes, next)),
        None => None,
    }
}

/// Joins the bytes of the string slice that starts at `pos`. Returns them
/// with the position after the slice, or `None` where no complete slice
/// starts there.
pub fn collect_text(events: &Vec<Event>, pos: usize) -> (found: Option<(Vec<u8>, usize)>)
    ensures
        match found {
            Some((bytes, next)) => parse_text(events_view(events@), pos as int) == Some(
                (bytes@, next as int),
            ),
            None => parse_text(events_view(events@), pos as int) is None,
        },
{
    let ghost log = events_view(events@);
    let mut merged: Vec<u8> = Vec::new();
    let mut i: usize = pos;
    assert(merged@ + parse_text(log, pos as int).unwrap().0 =~= parse_text(
        log,
        pos as int,
    ).unwrap().0);
    loop
        invariant
            log == events_view(events@),
            pos <= i,
            parse_text(log, pos as int) == with_prefix(merged@, parse_text(log, i as int)),
        decreases events.len() - i,
    {
        if i >= events.len() {
            return None;
        }
        assert(log[i as int] == events@[i as int]@);
        match &events[i] {
            Event::StrPart(bytes) => {
                let ghost before = merged@;
                append_bytes(&mut merged, bytes, STR_PART_LEN);
                proof {
                    assert(bytes@.take(STR_PART_LEN as int) =~= bytes@);
                    match parse_text(log, i + 1) {
                        Some((rest, next)) => {
                            assert(before + (bytes@ + rest) =~= merged@ + rest);
                        },
                        None => {},
                    }
                }
                i += 1;
            },
            Event::StrEnd { len, bytes } => {
                if *len as usize > STR_PART_LEN {
                    return None;
                }
                append_bytes(&mut merged, bytes, *len as usize);
                return Some((merged, i + 1));
            },
            _ => {
                return None;
            },
        }
    }
}

/// Reads the argument value that starts at `pos`. Returns it with the
/// position after it, or `None` where no complete value starts there.
pub fn convert_next_arg(events: &Vec<Event>, pos: usize) -> (found: Option<(Value, usize)>)
    ensures
        match found {
            Some((value, next)) => parse_arg(events_view(events@), pos as int) == Some(
                (value@, next as int),
            ),
            None => parse_arg(events_view(events@), pos as int) is None,
        },
{
    let ghost log = events_view(events@);
    if pos >= events.len() {
        return None;
    }
    assert(log[pos as int] == events@[pos as int]@);
    match &events[pos] {
        Event::StartSpan(_) => None,
        Event::EndSpan(_) => None,
        Event::Timestamp(_) => None,
        Event::Bool(value) => Some((Value::BoolValue(*value), pos + 1)),
        Event::U64(value) => Some((Value::UintValue(*value), pos + 1)),
        Event::I64(value) => Some((Value::IntValue(*value), pos + 1)),
        Event::F64(bits) => Some((Value::DoubleValue(*bits), pos + 1)),
        Event::String(text) => Some((Value::StringValue(text.clone()), pos + 1)),
        Event::StrPart(_) | Event::StrEnd { .. } => match collect_text(events, pos) {
            Some((bytes, next)) => match text_from_utf8(bytes) {
                Some(text) => Some((Value::StringValue(text), next)),
                None => None,
            },
            None => None,
        },
    }
}

/// The contents of a sequence of values.
pub open spec fn values_view(values: Seq<Value>) -> Seq<ValueView> {
    values.map_values(|value: Value| value@)
}

/// The begin or the end of a span, read from a log.
#[derive(Debug)]
pub struct Marker {
    pub begin: bool,
    pub source: &'static SourceInfo,
    pub stamp: Timestamp,
    /// The values of the arguments, in the order in which the call site
    /// declares them. Empty for the end of a span.
    pub args: Vec<Value>,
}

impl View for Marker {
    type V = MarkerView;

    open spec fn view(&self) -> MarkerView {
        MarkerView {
            begin: self.begin,
            source: self.source@,
            stamp: self.stamp,
            args: values_view(self.args@),
        }
    }
}

/// Reads `count` argument values that start at `pos`. Returns them with
/// the position after the last, or `None` where the log does not hold that
/// many complete values there.
fn read_args(events: &Vec<Event>, pos: usize, count: usize) -> (found: Option<(Vec<Value>, usize)>)
    requires
        pos <= events@.len(),
    ensures
        match found {
            Some((values, next)) => parse_args(events_view(events@), pos as int, count as nat)
                == Some((values_view(values@), next as int)),
            None => parse_args(events_view(events@), pos as int, count as nat) is None,
        },
{
    let ghost log = events_view(events@);
    let mut values: Vec<Value> = Vec::new();
    let mut next: usize = pos;
    let mut i: usize = 0;
    assert(values_view(values@) =~= Seq::<ValueView>::empty());
    while i < count
        invariant
            log == events_view(events@),
            i <= count,
            next <= events@.len(),
            parse_args(log, pos as int, i as nat) == Some((values_view(values@), next as int)),
        decreases count - i,
    {
        match convert_next_arg(events, next) {
            Some((value, after)) => {
                proof {
                    lemma_parse_arg_advances(log, next as int);
                    assert(values_view(values@.push(value)) =~= values_view(values@).push(
                        value@,
                    ));
                }
                values.push(value);
                next = after;
                i += 1;
            },
            None => {
                proof {
                    lemma_parse_args_none(log, pos as int, (i + 1) as nat, count as nat);
                }
                return None;
            },
        }
    }
    Some((values, next))
}

/// Where fewer values than `count` can be read, `count` values cannot.
proof fn lemma_parse_args_none(events: Seq<EventView>, pos: int, fewer: nat, count: nat)
    requires
        fewer <= count,
        parse_args(events, pos, fewer) is None,
    ensures
        parse_args(events, pos, count) is None,
    decreases count,
{
    if fewer < count {
        lemma_parse_args_none(events, pos, fewer, (count - 1) as nat);
    }
}

/// Reads the marker that starts at `pos`. Returns it with the position
/// after it, or `None` where no complete marker starts there.
pub fn read_marker(events: &Vec<Event>, pos: usize) -> (found: Option<(Marker, usize)>)
    ensures
        match found {
            Some((marker, next)) => parse_marker(events_view(events@), pos as int) == Some(
                (marker@, next as int),
            ),
            None => parse_marker(events_view(events@), pos as int) is None,
        },
{
    let ghost log = events_view(events@);
    if events.len() < 2 || pos >= events.len() - 1 {
        return None;
    }
    assert(log[pos as int] == events@[pos as int]@);
    assert(log[pos + 1] == events@[pos + 1]@);
    let stamp = match &events[pos + 1] {
        Event::Timestamp(stamp) => *stamp,
        _ => {
            return None;
        },
    };
    match &events[pos] {
        Event::StartSpan(source) => match read_args(events, pos + 2, source.arg_names.len()) {
            Some((args, next)) => Some((Marker { begin: true, source, stamp, args }, next)),
            None => None,
        },
        Event::EndSpan(source) => {
            let args: Vec<Value> = Vec::new();
            assert(values_view(args@) =~= Seq::<ValueView>::empty());
            Some((Marker { begin: false, source, stamp, args }, pos + 2))
        },
        _ => None,
    }
}

} // verus!
