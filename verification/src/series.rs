//! Extraction of one tag's (step, value) series from the stream, in
//! encounter order.

use vstd::prelude::*;

use crate::events::DecodeError;
use crate::events::Event;
use crate::events::Payload;
use crate::events::SourceItem;
use crate::events::SummaryValue;
use crate::events::all_records;
use crate::events::summary_matches;

verus! {

/// One charted sample. The value is not held as machine floating
/// point (which nothing here could reason about) but as an integer
/// key whose `<` order agrees with the order of the numbers it
/// encodes; the shell converts on the way in and out. The step is the
/// record's own counter, widened by the shell only when drawing.
#[derive(Clone, Copy, Debug, PartialEq, Eq, Structural)]
pub struct ScalarPoint {
    pub step: i64,
    pub value: u64,
}

/// The value key of a scalar payload; immaterial for `Other`.
pub open spec fn payload_key(p: Payload) -> u64 {
    match p {
        Payload::Scalar(k) => k,
        Payload::Other => 0,
    }
}

/// The points (none or one) that a single summary value contributes.
pub open spec fn summary_point(step: i64, sv: SummaryValue, tag: Seq<char>) -> Seq<ScalarPoint> {
    if summary_matches(sv, tag) {
        seq![ScalarPoint { step, value: payload_key(sv.payload) }]
    } else {
        Seq::empty()
    }
}

/// The points contributed by the first `n` summaries of a record.
pub open spec fn event_points_upto(e: Event, tag: Seq<char>, n: int) -> Seq<ScalarPoint>
    decreases n,
{
    if n <= 0 {
        Seq::empty()
    } else {
        event_points_upto(e, tag, n - 1) + summary_point(e.step, e.summaries@[n - 1], tag)
    }
}

/// The points contributed by one record, in the order its summaries
/// were written.
pub open spec fn event_points(e: Event, tag: Seq<char>) -> Seq<ScalarPoint> {
    event_points_upto(e, tag, e.summaries@.len() as int)
}

/// The points contributed by one pull of the stream.
pub open spec fn item_points(it: SourceItem, tag: Seq<char>) -> Seq<ScalarPoint> {
    match it {
        SourceItem::Record(e) => event_points(e, tag),
        SourceItem::Corrupt => Seq::empty(),
    }
}

/// The series gathered from the first `n` pulls of the stream.
pub open spec fn series_upto(items: Seq<SourceItem>, tag: Seq<char>, n: int) -> Seq<ScalarPoint>
    decreases n,
{
    if n <= 0 {
        Seq::empty()
    } else {
        series_upto(items, tag, n - 1) + item_points(items[n - 1], tag)
    }
}

/// The full series for a tag: for every record in stream order, for
/// every summary in record order, the matching scalar samples.
pub open spec fn series_of(items: Seq<SourceItem>, tag: Seq<char>) -> Seq<ScalarPoint> {
    series_upto(items, tag, items.len() as int)
}

/// Extracts the ordered series of scalar samples carried by `tag`.
///
/// On a clean stream it returns exactly `series_of` the stream: one
/// point per summary whose tag matches exactly and whose payload is
/// scalar, in encounter order — steps are not sorted or deduplicated.
/// An empty result is a valid outcome, not an error. The decoder's
/// failure signal is propagated, never swallowed.
pub fn extract_series(items: &Vec<SourceItem>, tag: &String) -> (r: Result<
    Vec<ScalarPoint>,
    DecodeError,
>)
    ensures
        match r {
            Ok(pts) => all_records(items@) && pts@ == series_of(items@, tag@),
            Err(_) => !all_records(items@),
        },
{
    let mut pts: Vec<ScalarPoint> = Vec::new();
    let n: usize = items.len();
    let mut i: usize = 0;
    while i < n
        invariant
            n == items@.len(),
            i <= n,
            forall|k: int| 0 <= k < i ==> items@[k] is Record,
            pts@ == series_upto(items@, tag@, i as int),
        decreases n - i,
    {
        match &items[i] {
            SourceItem::Corrupt => {
                proof {
                    assert(!(items@[i as int] is Record));
                }
                return Err(DecodeError);
            }
            SourceItem::Record(e) => {
                let m: usize = e.summaries.len();
                let mut j: usize = 0;
                while j < m
                    invariant
                        n == items@.len(),
                        i < n,
                        items@[i as int] == SourceItem::Record(*e),
                        m == e.summaries@.len(),
                        j <= m,
                        pts@ == series_upto(items@, tag@, i as int) + event_points_upto(
                            *e,
                            tag@,
                            j as int,
                        ),
                    decreases m - j,
                {
                    let sv = &e.summaries[j];
                    match &sv.payload {
                        Payload::Scalar(k) => {
                            if sv.tag == *tag {
                                pts.push(ScalarPoint { step: e.step, value: *k });
                                proof {
                                    assert(summary_matches(e.summaries@[j as int], tag@));
                                    assert(pts@ =~= series_upto(items@, tag@, i as int)
                                        + event_points_upto(*e, tag@, j as int + 1));
                                }
                            } else {
                                proof {
                                    assert(!summary_matches(e.summaries@[j as int], tag@));
                                    assert(pts@ =~= series_upto(items@, tag@, i as int)
                                        + event_points_upto(*e, tag@, j as int + 1));
                                }
                            }
                        }
                        Payload::Other => {
                            proof {
                                assert(!summary_matches(e.summaries@[j as int], tag@));
                                assert(pts@ =~= series_upto(items@, tag@, i as int)
                                    + event_points_upto(*e, tag@, j as int + 1));
                            }
                        }
                    }
                    j += 1;
                }
                proof {
                    assert(event_points_upto(*e, tag@, m as int) == event_points(*e, tag@));
                    assert(item_points(items@[i as int], tag@) == event_points(*e, tag@));
                    assert(pts@ == series_upto(items@, tag@, i as int + 1));
                }
            }
        }
        i += 1;
    }
    proof {
        assert(pts@ == series_of(items@, tag@));
    }
    Ok(pts)
}

} // verus!
