//! Change-feed polling with watermark de-duplication.
//!
//! The poller periodically reads the contract's list of pending requests
//! and must hand each request downstream exactly once per run. It keeps
//! a watermark: the largest identifier delivered so far, `None` until a
//! first item is delivered (so a fresh run accepts everything, an
//! accepted at-least-once semantics). Within one round every item is
//! filtered against the watermark left by the previous round; afterwards
//! the watermark advances to the largest identifier emitted, and only if
//! something was emitted.

use vstd::prelude::*;

use crate::verification::VerificationRequest;

verus! {

/// Whether an item with identifier `id` passes the watermark: strictly
/// greater, so an identifier equal to the watermark is a duplicate.
pub open spec fn eligible(watermark: Option<u64>, id: u64) -> bool {
    match watermark {
        None => true,
        Some(w) => id > w,
    }
}

/// The items a round emits: those above the watermark, in the order the
/// contract returned them. All items of a round pass the same threshold;
/// siblings emitted earlier in the round do not filter later ones.
pub open spec fn emitted_spec(watermark: Option<u64>, items: Seq<VerificationRequest>) -> Seq<
    VerificationRequest,
> {
    items.filter(|r: VerificationRequest| eligible(watermark, r.id))
}

/// The largest identifier in `items`; zero when there are none.
pub open spec fn max_id(items: Seq<VerificationRequest>) -> u64
    decreases items.len(),
{
    if items.len() == 0 {
        0
    } else {
        let m = max_id(items.drop_last());
        if items.last().id > m {
            items.last().id
        } else {
            m
        }
    }
}

/// The watermark after a round: unchanged when nothing was emitted, else
/// the largest identifier emitted.
pub open spec fn next_watermark(watermark: Option<u64>, items: Seq<VerificationRequest>) -> Option<
    u64,
> {
    let emitted = emitted_spec(watermark, items);
    if emitted.len() == 0 {
        watermark
    } else {
        Some(max_id(emitted))
    }
}

proof fn lemma_max_id_ge(items: Seq<VerificationRequest>, j: int)
    requires
        0 <= j < items.len(),
    ensures
        items[j].id <= max_id(items),
    decreases items.len(),
{
    if j < items.len() - 1 {
        lemma_max_id_ge(items.drop_last(), j);
    }
}

/// One poll round: filters the items the contract returned against the
/// watermark of the previous round and advances the watermark over what
/// was emitted. Emission order matches the contract's order.
pub fn poll_round(watermark: Option<u64>, items: Vec<VerificationRequest>) -> (r: (
    Vec<VerificationRequest>,
    Option<u64>,
))
    ensures
        r.0@ == emitted_spec(watermark, items@),
        r.1 == next_watermark(watermark, items@),
{
    broadcast use vstd::prelude::Seq::lemma_filter_push;

    let ghost orig = items@;
    let mut rest = items;
    let mut out: Vec<VerificationRequest> = Vec::new();
    let mut round_max: Option<u64> = None;
    let ghost mut i: int = 0;
    while rest.len() > 0
        invariant
            0 <= i <= orig.len(),
            rest@ == orig.subrange(i, orig.len() as int),
            out@ == emitted_spec(watermark, orig.subrange(0, i)),
            match round_max {
                None => out@.len() == 0,
                Some(m) => out@.len() > 0 && m == max_id(out@),
            },
        decreases rest@.len(),
    {
        let item = rest.remove(0);
        proof {
            assert(item == orig[i]);
            assert(rest@ =~= orig.subrange(i + 1, orig.len() as int));
            assert(orig.subrange(0, i + 1) =~= orig.subrange(0, i).push(item));
            orig.subrange(0, i).lemma_filter_push(
                item,
                |r: VerificationRequest| eligible(watermark, r.id),
            );
        }
        let keep = match watermark {
            None => true,
            Some(w) => item.id > w,
        };
        if keep {
            let id = item.id;
            let ghost old_out = out@;
            out.push(item);
            proof {
                assert(out@.drop_last() =~= old_out);
                assert(out@.last() == item);
                assert(max_id(out@) == if id > max_id(old_out) {
                    id
                } else {
                    max_id(old_out)
                });
                if old_out.len() == 0 {
                    assert(max_id(old_out) == 0);
                }
            }
            round_max = match round_max {
                None => Some(id),
                Some(m) => if id > m {
                    Some(id)
                } else {
                    Some(m)
                },
            };
        }
        proof {
            i = i + 1;
        }
    }
    proof {
        assert(orig.subrange(0, orig.len() as int) =~= orig);
    }
    let new_watermark = match round_max {
        None => watermark,
        Some(m) => Some(m),
    };
    (out, new_watermark)
}

/// Parse outcomes of one round's items: a request, or `None` for an item
/// that failed to parse and is skipped without blocking the round.
pub open spec fn parsed_spec(items: Seq<Option<VerificationRequest>>) -> Seq<VerificationRequest> {
    items.filter_map(|o: Option<VerificationRequest>| o)
}

/// Drops the items that failed to parse, keeping the rest in order; such
/// items neither advance the watermark nor fail the poll loop.
pub fn filter_parsed(items: Vec<Option<VerificationRequest>>) -> (r: Vec<VerificationRequest>)
    ensures
        r@ == parsed_spec(items@),
{
    let ghost orig = items@;
    let mut rest = items;
    let mut out: Vec<VerificationRequest> = Vec::new();
    let ghost mut i: int = 0;
    while rest.len() > 0
        invariant
            0 <= i <= orig.len(),
            rest@ == orig.subrange(i, orig.len() as int),
            out@ == parsed_spec(orig.subrange(0, i)),
        decreases rest@.len(),
    {
        let item = rest.remove(0);
        proof {
            assert(item == orig[i]);
            assert(rest@ =~= orig.subrange(i + 1, orig.len() as int));
            let prefix = orig.subrange(0, i);
            assert(orig.subrange(0, i + 1) =~= prefix.push(item));
            assert(prefix.push(item).drop_last() =~= prefix);
        }
        match item {
            Some(req) => {
                out.push(req);
            },
            None => {},
        }
        proof {
            i = i + 1;
        }
    }
    proof {
        assert(orig.subrange(0, orig.len() as int) =~= orig);
    }
    out
}

/// The watermark never moves backward: once set it stays set, and a
/// round can only raise it, since everything emitted lies strictly above
/// the watermark the round started with.
pub proof fn lemma_watermark_monotone(watermark: Option<u64>, items: Seq<VerificationRequest>)
    ensures
        watermark matches Some(w) ==> next_watermark(watermark, items) matches Some(w2) && w2 >= w,
{
    broadcast use vstd::seq_lib::group_filter_ensures;

    if watermark matches Some(w) {
        let emitted = emitted_spec(watermark, items);
        if emitted.len() > 0 {
            assert(eligible(watermark, emitted[0].id));
            lemma_max_id_ge(emitted, 0);
        }
    }
}

/// Consecutive rounds never emit the same identifier twice: a round's
/// watermark ends at the largest identifier it emitted, and the next
/// round emits only identifiers strictly above it.
pub proof fn lemma_rounds_emit_disjoint(
    watermark: Option<u64>,
    round1: Seq<VerificationRequest>,
    round2: Seq<VerificationRequest>,
)
    ensures
        forall|i: int, j: int|
            0 <= i < emitted_spec(watermark, round1).len() && 0 <= j < emitted_spec(
                next_watermark(watermark, round1),
                round2,
            ).len() ==> emitted_spec(watermark, round1)[i].id != emitted_spec(
                next_watermark(watermark, round1),
                round2,
            )[j].id,
{
    broadcast use vstd::seq_lib::group_filter_ensures;

    let emitted1 = emitted_spec(watermark, round1);
    let w1 = next_watermark(watermark, round1);
    let emitted2 = emitted_spec(w1, round2);
    assert forall|i: int, j: int|
        0 <= i < emitted1.len() && 0 <= j < emitted2.len() implies emitted1[i].id
        != emitted2[j].id by {
        lemma_max_id_ge(emitted1, i);
        assert(eligible(w1, emitted2[j].id));
    }
}

} // verus!
