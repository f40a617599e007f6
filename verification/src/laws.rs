//! Stream-wide laws of the series extraction, stated and proved once
//! for every possible stream.

use vstd::prelude::*;

use crate::events::Payload;
use crate::events::Event;
use crate::events::SourceItem;
use crate::events::summary_matches;
use crate::series::ScalarPoint;
use crate::series::event_points;
use crate::series::event_points_upto;
use crate::series::item_points;
use crate::series::payload_key;
use crate::series::series_of;
use crate::series::series_upto;

verus! {

/// The first `n` pulls alone decide the series gathered up to `n`.
proof fn lemma_series_upto_agree(a: Seq<SourceItem>, b: Seq<SourceItem>, tag: Seq<char>, n: int)
    requires
        n <= a.len(),
        n <= b.len(),
        forall|k: int| 0 <= k < n ==> a[k] == b[k],
    ensures
        series_upto(a, tag, n) == series_upto(b, tag, n),
    decreases n,
{
    if n > 0 {
        lemma_series_upto_agree(a, b, tag, n - 1);
    }
}

/// Extraction preserves encounter order: the series of one stream
/// followed by another is the first stream's series followed by the
/// second's. Points from earlier records therefore always precede
/// points from later records, whatever the step values say.
pub proof fn lemma_series_split(head: Seq<SourceItem>, tail: Seq<SourceItem>, tag: Seq<char>)
    ensures
        series_of(head + tail, tag) == series_of(head, tag) + series_of(tail, tag),
    decreases tail.len(),
{
    if tail.len() == 0 {
        assert(head + tail =~= head);
        assert(series_of(head, tag) + series_of(tail, tag) =~= series_of(head, tag));
    } else {
        let short = tail.drop_last();
        let whole = head + tail;
        let n = whole.len() as int;
        lemma_series_split(head, short, tag);
        assert(forall|k: int| 0 <= k < n - 1 ==> whole[k] == (head + short)[k]);
        lemma_series_upto_agree(whole, head + short, tag, n - 1);
        assert((head + short).len() == n - 1);
        assert(series_upto(whole, tag, n - 1) == series_of(head + short, tag));
        assert(whole[n - 1] == tail.last());
        assert(forall|k: int| 0 <= k < tail.len() - 1 ==> tail[k] == short[k]);
        lemma_series_upto_agree(tail, short, tag, tail.len() - 1);
        assert(series_upto(tail, tag, tail.len() - 1) == series_of(short, tag));
        assert(series_of(tail, tag) == series_of(short, tag) + item_points(tail.last(), tag));
        assert(series_of(whole, tag) == (series_of(head, tag) + series_of(short, tag))
            + item_points(tail.last(), tag));
        assert((series_of(head, tag) + series_of(short, tag)) + item_points(tail.last(), tag)
            =~= series_of(head, tag) + (series_of(short, tag) + item_points(tail.last(), tag)));
    }
}

/// Whether one pull is a record that carries the sample `p` under the
/// given tag as a scalar payload.
pub open spec fn record_has_sample(it: SourceItem, tag: Seq<char>, p: ScalarPoint) -> bool {
    match it {
        SourceItem::Record(e) => e.step == p.step && exists|j: int|
            0 <= j < e.summaries@.len() && (#[trigger] e.summaries@[j]).tag@ == tag
                && e.summaries@[j].payload == Payload::Scalar(p.value),
        SourceItem::Corrupt => false,
    }
}

/// Whether some record of the stream carries the sample `p` under the
/// given tag as a scalar payload.
pub open spec fn point_from_stream(items: Seq<SourceItem>, tag: Seq<char>, p: ScalarPoint) -> bool {
    exists|i: int| 0 <= i < items.len() && record_has_sample(#[trigger] items[i], tag, p)
}

/// Every point a record contributes is one of its own scalar samples
/// under the exact tag.
proof fn lemma_event_points_samples(e: Event, tag: Seq<char>, n: int)
    requires
        0 <= n <= e.summaries@.len(),
    ensures
        forall|k: int| 0 <= k < event_points_upto(e, tag, n).len()
            ==> record_has_sample(
                SourceItem::Record(e),
                tag,
                #[trigger] event_points_upto(e, tag, n)[k],
            ),
    decreases n,
{
    if n > 0 {
        lemma_event_points_samples(e, tag, n - 1);
        let prev = event_points_upto(e, tag, n - 1);
        let cur = event_points_upto(e, tag, n);
        assert forall|k: int| 0 <= k < cur.len() implies record_has_sample(
            SourceItem::Record(e),
            tag,
            cur[k],
        ) by {
            if k < prev.len() {
                assert(cur[k] == prev[k]);
            } else {
                assert(summary_matches(e.summaries@[n - 1], tag));
                assert(cur[k] == ScalarPoint {
                    step: e.step,
                    value: payload_key(e.summaries@[n - 1].payload),
                });
                assert((e.summaries@[n - 1]).tag@ == tag && e.summaries@[n - 1].payload
                    == Payload::Scalar(cur[k].value));
            }
        }
    }
}

/// No point comes from anywhere but a scalar payload whose tag matches
/// exactly: every extracted point is a scalar sample of some record of
/// the stream, carried under the requested tag. Non-scalar payloads
/// contribute nothing, even when their tag matches.
pub proof fn lemma_series_points_are_scalar_samples(items: Seq<SourceItem>, tag: Seq<char>)
    ensures
        forall|k: int| 0 <= k < series_of(items, tag).len()
            ==> point_from_stream(items, tag, #[trigger] series_of(items, tag)[k]),
{
    lemma_series_upto_samples(items, tag, items.len() as int);
}

/// The same, for the series gathered from the first `n` pulls.
proof fn lemma_series_upto_samples(items: Seq<SourceItem>, tag: Seq<char>, n: int)
    requires
        0 <= n <= items.len(),
    ensures
        forall|k: int| 0 <= k < series_upto(items, tag, n).len()
            ==> point_from_stream(items, tag, #[trigger] series_upto(items, tag, n)[k]),
    decreases n,
{
    if n > 0 {
        lemma_series_upto_samples(items, tag, n - 1);
        let prev = series_upto(items, tag, n - 1);
        let cur = series_upto(items, tag, n);
        assert forall|k: int| 0 <= k < cur.len() implies point_from_stream(
            items,
            tag,
            cur[k],
        ) by {
            if k < prev.len() {
                assert(cur[k] == prev[k]);
                assert(point_from_stream(items, tag, prev[k]));
            } else {
                match items[n - 1] {
                    SourceItem::Record(e) => {
                        lemma_event_points_samples(e, tag, e.summaries@.len() as int);
                        assert(cur[k] == event_points(e, tag)[k - prev.len()]);
                        assert(record_has_sample(items[n - 1], tag, cur[k]));
                    }
                    SourceItem::Corrupt => {
                        assert(item_points(items[n - 1], tag).len() == 0);
                    }
                }
            }
        }
    }
}

} // verus!
