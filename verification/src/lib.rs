//! Low-overhead span and counter recording, with a builder that turns the
//! recorded per-thread logs into a sequence of Perfetto trace packets.
//!
//! Recording appends fixed-shape events to a log that its thread owns. At a
//! later point the log is drained into a capture, and captures are merged
//! into a [`TraceBuilder`], which writes the packets of the trace. The
//! state that a program would keep in globals is passed in: the
//! [`Activation`] switch, and each thread's [`EventLog`].

pub mod activation;
pub mod arg;
pub mod builder;
pub mod capture;
pub mod clock;
pub mod counter;
pub mod decode;
pub mod event;
pub mod grammar;
pub mod ident;
pub mod intern;
pub mod laws;
pub mod model;
pub mod packet;
pub mod source;
pub mod span;

pub use crate::activation::is_enabled;
pub use crate::activation::start;
pub use crate::activation::Activation;
pub use crate::activation::TracingDisabled;
pub use crate::activation::TracingDisabledAtBuildTime;
pub use crate::arg::DoubleBits;
pub use crate::arg::RecordArg;
pub use crate::builder::TraceBuilder;
pub use crate::capture::ThreadTraceData;
pub use crate::clock::time;
pub use crate::clock::Timestamp;
pub use crate::counter::CounterTrack;
pub use crate::counter::CounterUnit;
pub use crate::decode::convert_next_arg;
pub use crate::decode::read_marker;
pub use crate::decode::Marker;
pub use crate::event::current_thread_reserve;
pub use crate::event::record_event;
pub use crate::event::Event;
pub use crate::event::EventLog;
pub use crate::event::EVENTS_PER_ARG;
pub use crate::event::EVENTS_PER_SPAN;
pub use crate::event::STR_PART_LEN;
pub use crate::ident::Uuid;
pub use crate::source::SourceInfo;
pub use crate::span::SpanGuard;
