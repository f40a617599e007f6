//! The scalar-tag catalog: every tag that appears at least once with a
//! scalar payload, without duplicates, in lexicographic order.

use vstd::prelude::*;

use crate::events::DecodeError;
use crate::events::Payload;
use crate::events::SourceItem;
use crate::events::all_records;
use crate::events::event_has_scalar_tag;
use crate::events::item_has_scalar_tag;
use crate::events::stream_has_scalar_tag;
use crate::events::summary_matches;
use crate::order::TagOrder;
use crate::order::lemma_lex_lt_ne;
use crate::order::lemma_lex_lt_transitive;
use crate::order::lemma_lex_lt_trichotomy;
use crate::order::lex_lt;
use crate::order::tag_cmp;

verus! {

/// Strict lexicographic ascending order; strictness rules out duplicates.
pub open spec fn tags_sorted(tags: Seq<String>) -> bool {
    forall|i: int, j: int| 0 <= i < j < tags.len() ==> lex_lt(tags[i]@, tags[j]@)
}

/// Whether the catalog holds a tag with the given name.
pub open spec fn tags_contain(tags: Seq<String>, t: Seq<char>) -> bool {
    exists|i: int| 0 <= i < tags.len() && tags[i]@ == t
}

/// The index of the first catalog entry not below `t`.
fn lower_bound(tags: &Vec<String>, t: &String) -> (i: usize)
    requires
        tags_sorted(tags@),
    ensures
        i <= tags@.len(),
        forall|k: int| 0 <= k < i ==> lex_lt(tags@[k]@, t@),
        i < tags@.len() ==> !lex_lt(tags@[i as int]@, t@),
{
    let n: usize = tags.len();
    let mut i: usize = 0;
    while i < n
        invariant
            n == tags@.len(),
            i <= n,
            forall|k: int| 0 <= k < i ==> lex_lt(tags@[k]@, t@),
        decreases n - i,
    {
        match tag_cmp(&tags[i], t) {
            TagOrder::Before => {
                i += 1;
            }
            _ => {
                return i;
            }
        }
    }
    i
}

/// Puts a tag into the catalog, keeping it sorted and duplicate-free:
/// afterwards the catalog holds exactly the old names plus this one.
fn insert_tag(tags: &mut Vec<String>, t: &String)
    requires
        tags_sorted(old(tags)@),
    ensures
        tags_sorted(final(tags)@),
        forall|u: Seq<char>|
            tags_contain(final(tags)@, u) <==> (tags_contain(old(tags)@, u) || u == t@),
{
    let i: usize = lower_bound(tags, t);
    if i < tags.len() {
        match tag_cmp(&tags[i], t) {
            TagOrder::Same => {
                proof {
                    assert(tags@[i as int]@ == t@);
                    assert forall|u: Seq<char>|
                        tags_contain(tags@, u) <==> (tags_contain(tags@, u) || u == t@) by {
                        if u == t@ {
                            assert(tags@[i as int]@ == u);
                        }
                    }
                }
                return ;
            }
            _ => {
            }
        }
    }
    let ghost pre = tags@;
    // Every entry at or past the insertion point lies strictly above `t`.
    proof {
        assert forall|j: int| i <= j < pre.len() implies lex_lt(t@, pre[j]@) by {
            lemma_lex_lt_trichotomy(pre[i as int]@, t@);
            assert(lex_lt(t@, pre[i as int]@));
            if j > i {
                lemma_lex_lt_transitive(t@, pre[i as int]@, pre[j]@);
            }
        }
    }
    let t2 = t.clone();
    let ghost tv = t2;
    tags.insert(i, t2);
    proof {
        assert(tags@ == pre.insert(i as int, tv));
        pre.insert_ensures(i as int, tv);
        assert(tv@ == t@);
        assert forall|p: int, q: int| 0 <= p < q < tags@.len() implies lex_lt(
            tags@[p]@,
            tags@[q]@,
        ) by {
            let ii = i as int;
            if q < ii {
                assert(tags@[p] == pre[p] && tags@[q] == pre[q]);
            } else if p > ii {
                assert(tags@[p] == pre[p - 1] && tags@[q] == pre[q - 1]);
            } else if p < ii && q == ii {
                assert(tags@[p] == pre[p] && tags@[q]@ == t@);
            } else if p == ii {
                assert(tags@[p]@ == t@ && tags@[q] == pre[q - 1]);
            } else {
                assert(tags@[p] == pre[p] && tags@[q] == pre[q - 1]);
            }
        }
        assert forall|u: Seq<char>|
            tags_contain(tags@, u) <==> (tags_contain(pre, u) || u == t@) by {
            let ii = i as int;
            if tags_contain(pre, u) {
                let w = choose|w: int| 0 <= w < pre.len() && pre[w]@ == u;
                if w < ii {
                    assert(tags@[w]@ == u);
                } else {
                    assert(tags@[w + 1]@ == u);
                }
            }
            if u == t@ {
                assert(tags@[ii]@ == u);
            }
            if tags_contain(tags@, u) {
                let w = choose|w: int| 0 <= w < tags@.len() && tags@[w]@ == u;
                if w < ii {
                    assert(pre[w]@ == u);
                } else if w == ii {
                    assert(u == t@);
                } else {
                    assert(pre[w - 1]@ == u);
                }
            }
        }
    }
}

/// Builds the catalog of scalar tags from one pass over the stream.
///
/// On a clean stream it returns exactly the tags that appear with a
/// scalar payload, each once, in strict lexicographic order; tags seen
/// only with non-scalar payloads are left out. The decoder's failure
/// signal is propagated, never swallowed.
pub fn collect_scalar_tags(items: &Vec<SourceItem>) -> (r: Result<Vec<String>, DecodeError>)
    ensures
        match r {
            Ok(tags) => {
                &&& all_records(items@)
                &&& tags_sorted(tags@)
                &&& forall|u: Seq<char>| tags_contain(tags@, u) <==> stream_has_scalar_tag(items@, u)
                &&& forall|p: int, q: int|
                    0 <= p < tags@.len() && 0 <= q < tags@.len() && p != q ==> tags@[p]@ != tags@[q]@
            },
            Err(_) => !all_records(items@),
        },
{
    let mut tags: Vec<String> = Vec::new();
    let n: usize = items.len();
    let mut i: usize = 0;
    while i < n
        invariant
            n == items@.len(),
            i <= n,
            tags_sorted(tags@),
            forall|k: int| 0 <= k < i ==> items@[k] is Record,
            forall|u: Seq<char>|
                tags_contain(tags@, u) <==> stream_has_scalar_tag(items@.take(i as int), u),
        decreases n - i,
    {
        match &items[i] {
            SourceItem::Corrupt => {
                proof {
                    assert(!(items@[i as int] is Record));
                }
                return Err(DecodeError);
            }
            SourceItem::Record(e) => {
                let m: usize = e.summaries.len();
                let mut j: usize = 0;
                while j < m
                    invariant
                        n == items@.len(),
                        i < n,
                        items@[i as int] == SourceItem::Record(*e),
                        m == e.summaries@.len(),
                        j <= m,
                        tags_sorted(tags@),
                        forall|u: Seq<char>|
                            tags_contain(tags@, u) <==> (stream_has_scalar_tag(
                                items@.take(i as int),
                                u,
                            ) || exists|j2: int|
                                0 <= j2 < j && summary_matches(e.summaries@[j2], u)),
                    decreases m - j,
                {
                    let sv = &e.summaries[j];
                    let ghost seen = tags@;
                    match &sv.payload {
                        Payload::Scalar(_) => {
                            insert_tag(&mut tags, &sv.tag);
                            proof {
                                assert forall|u: Seq<char>|
                                    tags_contain(tags@, u) <==> (stream_has_scalar_tag(
                                        items@.take(i as int),
                                        u,
                                    ) || exists|j2: int|
                                        0 <= j2 < j + 1 && summary_matches(
                                            e.summaries@[j2],
                                            u,
                                        )) by {
                                    if u == sv.tag@ {
                                        assert(summary_matches(e.summaries@[j as int], u));
                                    }
                                    if exists|j2: int|
                                        0 <= j2 < j + 1 && summary_matches(e.summaries@[j2], u) {
                                        let w = choose|w: int|
                                            0 <= w < j + 1 && summary_matches(e.summaries@[w], u);
                                        if w == j {
                                            assert(u == sv.tag@);
                                        }
                                    }
                                }
                            }
                        }
                        Payload::Other => {
                            proof {
                                assert forall|u: Seq<char>|
                                    tags_contain(tags@, u) <==> (stream_has_scalar_tag(
                                        items@.take(i as int),
                                        u,
                                    ) || exists|j2: int|
                                        0 <= j2 < j + 1 && summary_matches(
                                            e.summaries@[j2],
                                            u,
                                        )) by {
                                    if exists|j2: int|
                                        0 <= j2 < j + 1 && summary_matches(e.summaries@[j2], u) {
                                        let w = choose|w: int|
                                            0 <= w < j + 1 && summary_matches(e.summaries@[w], u);
                                        assert(w < j);
                                    }
                                }
                            }
                        }
                    }
                    j += 1;
                }
                proof {
                    assert forall|u: Seq<char>|
                        tags_contain(tags@, u) <==> stream_has_scalar_tag(
                            items@.take(i as int + 1),
                            u,
                        ) by {
                        let pre = items@.take(i as int);
                        let cur = items@.take(i as int + 1);
                        assert(cur.len() == i + 1);
                        assert(forall|k: int| 0 <= k <= i ==> cur[k] == items@[k]);
                        if stream_has_scalar_tag(pre, u) {
                            let w = choose|w: int|
                                0 <= w < pre.len() && item_has_scalar_tag(pre[w], u);
                            assert(item_has_scalar_tag(cur[w], u));
                        }
                        if event_has_scalar_tag(*e, u) {
                            assert(item_has_scalar_tag(cur[i as int], u));
                        }
                        if stream_has_scalar_tag(cur, u) {
                            let w = choose|w: int|
                                0 <= w < cur.len() && item_has_scalar_tag(cur[w], u);
                            if w < i {
                                assert(item_has_scalar_tag(pre[w], u));
                            }
                        }
                    }
                }
            }
        }
        i += 1;
    }
    proof {
        assert(items@.take(n as int) =~= items@);
        assert forall|p: int, q: int|
            0 <= p < tags@.len() && 0 <= q < tags@.len() && p != q implies tags@[p]@ != tags@[q]@ by {
            if p < q {
                lemma_lex_lt_ne(tags@[p]@, tags@[q]@);
            } else {
                lemma_lex_lt_ne(tags@[q]@, tags@[p]@);
            }
        }
    }
    Ok(tags)
}

} // verus!
