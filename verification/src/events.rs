//! The decoded shape of the event log, as the verified core sees it.
//!
//! The log decoder itself lives outside this crate; it hands the core a
//! finite sequence of pulls, each either a well-formed record or the
//! decoder's failure signal. Numeric samples arrive as order-preserving
//! integer keys (see [`crate::series::ScalarPoint`]), so the core never
//! touches machine floating point.

use vstd::prelude::*;

verus! {

/// The payload attached to one named summary value. Only single-number
/// payloads take part in tag listing and charting; every other payload
/// kind (histogram, image, tensor, ...) is carried as `Other` and
/// ignored, which is not an error.
#[derive(Clone, Copy, Debug, PartialEq, Eq, Structural)]
pub enum Payload {
    /// A single numeric sample, as an order-preserving integer key.
    Scalar(u64),
    /// Any non-scalar payload.
    Other,
}

/// One named value attached to a record. Tag identity is exact
/// string equality: no case folding, no normalization.
#[derive(Clone, Debug)]
pub struct SummaryValue {
    pub tag: String,
    pub payload: Payload,
}

/// One decoded record of the log: a step counter (not guaranteed
/// unique or monotonic) and the values written at that step.
#[derive(Clone, Debug)]
pub struct Event {
    pub step: i64,
    pub summaries: Vec<SummaryValue>,
}

/// One pull from the decoder: a well-formed record, or the decoder's
/// failure signal for a malformed record. Nothing after a `Corrupt`
/// pull is ever looked at, since a real decoder stops there.
#[derive(Clone, Debug)]
pub enum SourceItem {
    Record(Event),
    Corrupt,
}

/// Returned when a malformed record is met while streaming. The shell
/// around the library pairs it with the decoder's own message; the
/// core only records that decoding failed.
#[derive(Clone, Copy, Debug, PartialEq, Eq, Structural)]
pub struct DecodeError;

/// Whether every pull of the stream decoded cleanly.
pub open spec fn all_records(items: Seq<SourceItem>) -> bool {
    forall|i: int| 0 <= i < items.len() ==> items[i] is Record
}

/// Whether one summary value carries the given tag with a scalar payload.
pub open spec fn summary_matches(sv: SummaryValue, tag: Seq<char>) -> bool {
    sv.tag@ == tag && sv.payload is Scalar
}

/// Whether some summary of the record carries the tag with a scalar payload.
pub open spec fn event_has_scalar_tag(e: Event, tag: Seq<char>) -> bool {
    exists|j: int| 0 <= j < e.summaries@.len() && summary_matches(e.summaries@[j], tag)
}

/// Whether one pull contributes the tag to the scalar-tag catalog.
pub open spec fn item_has_scalar_tag(it: SourceItem, tag: Seq<char>) -> bool {
    match it {
        SourceItem::Record(e) => event_has_scalar_tag(e, tag),
        SourceItem::Corrupt => false,
    }
}

/// Whether the tag appears with a scalar payload anywhere in the stream.
pub open spec fn stream_has_scalar_tag(items: Seq<SourceItem>, tag: Seq<char>) -> bool {
    exists|i: int| 0 <= i < items.len() && item_has_scalar_tag(items[i], tag)
}

} // verus!
