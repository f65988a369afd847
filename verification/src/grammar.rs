//! What a well-formed log looks like, and what it says: a sequence of span
//! markers, each with its timestamp and, where it begins a span, the values
//! of the arguments that its call site declares.

use vstd::prelude::*;
use vstd::utf8::decode_utf8;
use vstd::utf8::valid_utf8;
use crate::clock::Timestamp;
use crate::event::EventView;
use crate::packet::ValueView;
use crate::source::SourceInfoView;

verus! {

/// The begin or the end of a span, as a log records it.
pub struct MarkerView {
    pub begin: bool,
    pub source: SourceInfoView,
    pub stamp: Timestamp,
    /// The values of the arguments, in the order in which the call site
    /// declares them. Empty for the end of a span.
    pub args: Seq<ValueView>,
}

impl MarkerView {
    /// The names of the arguments whose values the marker holds: those of
    /// its call site where it begins a span, none where it ends one.
    pub open spec fn arg_names(self) -> Seq<Seq<char>> {
        if self.begin {
            self.source.arg_names
        } else {
            Seq::empty()
        }
    }
}

/// Reads the bytes of a string slice that starts at `pos`: any number of
/// `StrPart` events and then one `StrEnd`. Gives the bytes and the position
/// after the `StrEnd`.
pub open spec fn parse_text(events: Seq<EventView>, pos: int) -> Option<(Seq<u8>, int)>
    decreases events.len() - pos,
{
    if 0 <= pos < events.len() {
        match events[pos] {
            EventView::StrPart(bytes) => match parse_text(events, pos + 1) {
                Some((rest, next)) => Some((bytes + rest, next)),
                None => None,
            },
            EventView::StrEnd { len, bytes } => if len <= bytes.len() {
                Some((bytes.take(len as int), pos + 1))
            } else {
                None
            },
            _ => None,
        }
    } else {
        None
    }
}

/// Reads the argument value that starts at `pos`. Gives the value and the
/// position after it.
pub open spec fn parse_arg(events: Seq<EventView>, pos: int) -> Option<(ValueView, int)> {
    if 0 <= pos < events.len() {
        match events[pos] {
            EventView::Bool(value) => Some((ValueView::BoolValue(value), pos + 1)),
            EventView::U64(value) => Some((ValueView::UintValue(value), pos + 1)),
            EventView::I64(value) => Some((ValueView::IntValue(value), pos + 1)),
            EventView::F64(bits) => Some((ValueView::DoubleValue(bits), pos + 1)),
            EventView::String(text) => Some((ValueView::StringValue(text), pos + 1)),
            EventView::StrPart(_) | EventView::StrEnd { .. } => match parse_text(events, pos) {
                Some((bytes, next)) => if valid_utf8(bytes) {
                    Some((ValueView::StringValue(decode_utf8(bytes)), next))
                } else {
                    None
                },
                None => None,
            },
            _ => None,
        }
    } else {
        None
    }
}

/// Reads `count` argument values that start at `pos`.
pub open spec fn parse_args(events: Seq<EventView>, pos: int, count: nat) -> Option<
    (Seq<ValueView>, int),
>
    decreases count,
{
    if count == 0 {
        Some((Seq::empty(), pos))
    } else {
        match parse_args(events, pos, (count - 1) as nat) {
            Some((front, mid)) => match parse_arg(events, mid) {
                Some((value, next)) => Some((front.push(value), next)),
                None => None,
            },
            None => None,
        }
    }
}

/// Reads the marker that starts at `pos`: a `StartSpan` or `EndSpan`, the
/// timestamp that must follow it, and after a `StartSpan` one value for
/// each argument name of its call site.
pub open spec fn parse_marker(events: Seq<EventView>, pos: int) -> Option<(MarkerView, int)> {
    if 0 <= pos && pos + 1 < events.len() {
        match (events[pos], events[pos + 1]) {
            (EventView::StartSpan(source), EventView::Timestamp(stamp)) => match parse_args(
                events,
                pos + 2,
                source.arg_names.len(),
            ) {
                Some((args, next)) => Some(
                    (MarkerView { begin: true, source, stamp, args }, next),
                ),
                None => None,
            },
            (EventView::EndSpan(source), EventView::Timestamp(stamp)) => Some(
                (MarkerView { begin: false, source, stamp, args: Seq::empty() }, pos + 2),
            ),
            _ => None,
        }
    } else {
        None
    }
}

/// Reads markers from `pos` to the end of the log. `None` where the events
/// from `pos` on are not a sequence of complete markers.
pub open spec fn parse_log(events: Seq<EventView>, pos: int) -> Option<Seq<MarkerView>>
    decreases events.len() - pos,
    via parse_log_decreases
{
    if pos >= events.len() {
        Some(Seq::empty())
    } else {
        match parse_marker(events, pos) {
            Some((marker, next)) => match parse_log(events, next) {
                Some(rest) => Some(seq![marker] + rest),
                None => None,
            },
            None => None,
        }
    }
}

#[via_fn]
proof fn parse_log_decreases(events: Seq<EventView>, pos: int) {
    lemma_parse_marker_advances(events, pos);
}

/// A log is well formed where it is a sequence of complete markers.
pub open spec fn well_formed(events: Seq<EventView>) -> bool {
    parse_log(events, 0) is Some
}

/// The markers of a well-formed log.
pub open spec fn markers_of(events: Seq<EventView>) -> Seq<MarkerView> {
    parse_log(events, 0).unwrap()
}

/// A string slice takes at least one event and ends within the log.
pub proof fn lemma_parse_text_advances(events: Seq<EventView>, pos: int)
    ensures
        parse_text(events, pos) matches Some((_, next)) ==> pos < next <= events.len(),
    decreases events.len() - pos,
{
    if 0 <= pos < events.len() {
        lemma_parse_text_advances(events, pos + 1);
    }
}

/// An argument takes at least one event and ends within the log.
pub proof fn lemma_parse_arg_advances(events: Seq<EventView>, pos: int)
    ensures
        parse_arg(events, pos) matches Some((_, next)) ==> pos < next <= events.len(),
{
    lemma_parse_text_advances(events, pos);
}

/// Arguments never end before they start, there are as many values as were
/// asked for, and they end within the log if they start there.
pub proof fn lemma_parse_args_advances(events: Seq<EventView>, pos: int, count: nat)
    ensures
        parse_args(events, pos, count) matches Some((args, next)) ==> pos <= next && args.len()
            == count && (pos <= events.len() ==> next <= events.len()),
    decreases count,
{
    if count > 0 {
        lemma_parse_args_advances(events, pos, (count - 1) as nat);
        match parse_args(events, pos, (count - 1) as nat) {
            Some((_, mid)) => {
                lemma_parse_arg_advances(events, mid);
            },
            None => {},
        }
    }
}

/// A marker takes at least two events and ends within the log.
pub proof fn lemma_parse_marker_advances(events: Seq<EventView>, pos: int)
    ensures
        parse_marker(events, pos) matches Some((_, next)) ==> pos + 2 <= next <= events.len(),
{
    if 0 <= pos && pos + 1 < events.len() {
        match events[pos] {
            EventView::StartSpan(source) => {
                lemma_parse_args_advances(events, pos + 2, source.arg_names.len());
            },
            _ => {},
        }
    }
}

/// A marker that begins a span holds one value for each argument name of
/// its call site; one that ends a span holds none.
pub proof fn lemma_parse_marker_args(events: Seq<EventView>, pos: int)
    ensures
        parse_marker(events, pos) matches Some((marker, _)) ==> marker.args.len()
            == marker.arg_names().len(),
{
    if 0 <= pos && pos + 1 < events.len() {
        match events[pos] {
            EventView::StartSpan(source) => {
                lemma_parse_args_advances(events, pos + 2, source.arg_names.len());
            },
            _ => {},
        }
    }
}

/// What reading a string slice gives does not depend on what the log holds
/// after the slice.
pub proof fn lemma_parse_text_extends(events: Seq<EventView>, more: Seq<EventView>, pos: int)
    requires
        parse_text(events, pos) is Some,
    ensures
        parse_text(events + more, pos) == parse_text(events, pos),
    decreases events.len() - pos,
{
    assert((events + more)[pos] == events[pos]);
    match events[pos] {
        EventView::StrPart(_) => {
            lemma_parse_text_extends(events, more, pos + 1);
        },
        _ => {},
    }
}

/// What reading an argument gives does not depend on what the log holds
/// after the argument.
pub proof fn lemma_parse_arg_extends(events: Seq<EventView>, more: Seq<EventView>, pos: int)
    requires
        parse_arg(events, pos) is Some,
    ensures
        parse_arg(events + more, pos) == parse_arg(events, pos),
{
    assert((events + more)[pos] == events[pos]);
    match events[pos] {
        EventView::StrPart(_) | EventView::StrEnd { .. } => {
            lemma_parse_text_extends(events, more, pos);
        },
        _ => {},
    }
}

/// What reading arguments gives does not depend on what the log holds after
/// them.
pub proof fn lemma_parse_args_extends(
    events: Seq<EventView>,
    more: Seq<EventView>,
    pos: int,
    count: nat,
)
    requires
        parse_args(events, pos, count) is Some,
    ensures
        parse_args(events + more, pos, count) == parse_args(events, pos, count),
    decreases count,
{
    if count > 0 {
        lemma_parse_args_extends(events, more, pos, (count - 1) as nat);
        let mid = parse_args(events, pos, (count - 1) as nat).unwrap().1;
        lemma_parse_arg_extends(events, more, mid);
    }
}

/// What reading a marker gives does not depend on what the log holds after
/// the marker.
pub proof fn lemma_parse_marker_extends(events: Seq<EventView>, more: Seq<EventView>, pos: int)
    requires
        parse_marker(events, pos) is Some,
    ensures
        parse_marker(events + more, pos) == parse_marker(events, pos),
{
    assert((events + more)[pos] == events[pos]);
    assert((events + more)[pos + 1] == events[pos + 1]);
    match events[pos] {
        EventView::StartSpan(source) => {
            lemma_parse_args_extends(events, more, pos + 2, source.arg_names.len());
        },
        _ => {},
    }
}

/// A log that is read from `pos`, with more markers written after it, is
/// read as its own markers followed by those.
pub proof fn lemma_parse_log_extends(events: Seq<EventView>, more: Seq<EventView>, pos: int)
    requires
        0 <= pos <= events.len(),
        parse_log(events, pos) is Some,
        parse_log(events + more, events.len() as int) is Some,
    ensures
        parse_log(events + more, pos) == Some(
            parse_log(events, pos).unwrap() + parse_log(events + more, events.len() as int).unwrap(),
        ),
    decreases events.len() - pos,
{
    let tail = parse_log(events + more, events.len() as int).unwrap();
    if pos == events.len() {
        assert(parse_log(events, pos).unwrap() + tail =~= tail);
    } else {
        lemma_parse_marker_advances(events, pos);
        lemma_parse_marker_extends(events, more, pos);
        let (marker, next) = parse_marker(events, pos).unwrap();
        lemma_parse_log_extends(events, more, next);
        let rest = parse_log(events, next).unwrap();
        assert(seq![marker] + (rest + tail) =~= (seq![marker] + rest) + tail);
    }
}

} // verus!
