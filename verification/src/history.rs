//! Bounded histories: records kept in arrival order, trimmed from the oldest
//! end once they grow past a limit.
use vstd::prelude::*;

verus! {

/// The history after appending `item`: once longer than `limit`, its
/// `drop_count` oldest records are dropped.
pub open spec fn bounded_push<T>(history: Seq<T>, item: T, limit: nat, drop_count: nat) -> Seq<T> {
    let pushed = history.push(item);
    if pushed.len() > limit {
        pushed.skip(drop_count as int)
    } else {
        pushed
    }
}

/// Appends `item`; when the history then holds more than `limit` records, the
/// `drop_count` oldest are removed.
pub fn push_bounded<T>(history: &mut Vec<T>, item: T, limit: usize, drop_count: usize)
    requires
        drop_count <= limit + 1,
    ensures
        final(history)@ == bounded_push(old(history)@, item, limit as nat, drop_count as nat),
{
    history.push(item);
    if history.len() > limit {
        let ghost pushed = history@;
        let mut removed: usize = 0;
        while removed < drop_count
            invariant
                drop_count <= pushed.len(),
                removed <= drop_count,
                history@ == pushed.skip(removed as int),
            decreases drop_count - removed,
        {
            history.remove(0);
            removed = removed + 1;
            proof {
                assert(history@ =~= pushed.skip(removed as int));
            }
        }
    }
}

/// The smaller of two numbers.
pub open spec fn min_nat(a: nat, b: nat) -> nat {
    if a <= b {
        a
    } else {
        b
    }
}

/// Copies of the `count` most recent records (all when fewer), most recent first.
pub fn recent_first<T: Clone>(history: &Vec<T>, count: usize) -> (r: Vec<T>)
    ensures
        r@.len() == min_nat(count as nat, history@.len()),
        forall|i: int| 0 <= i < r@.len() ==> cloned(history@[history@.len() - 1 - i], #[trigger] r@[i]),
{
    let n = history.len();
    let take = if count < n {
        count
    } else {
        n
    };
    let mut r: Vec<T> = Vec::new();
    let mut i: usize = 0;
    while i < take
        invariant
            n == history@.len(),
            take <= n,
            i <= take,
            r@.len() == i,
            forall|j: int| 0 <= j < i ==> cloned(history@[n - 1 - j], #[trigger] r@[j]),
        decreases take - i,
    {
        r.push(history[n - 1 - i].clone());
        i = i + 1;
    }
    r
}

/// A bounded history never holds more than `limit` records when the limit is
/// reached one record at a time, and the newest record is always kept.
pub proof fn lemma_bounded_push_keeps_newest<T>(history: Seq<T>, item: T, limit: nat, drop_count: nat)
    requires
        history.len() <= limit,
        1 <= drop_count <= limit,
    ensures
        bounded_push(history, item, limit, drop_count).len() <= limit,
        bounded_push(history, item, limit, drop_count).last() == item,
{
    let pushed = history.push(item);
    if pushed.len() > limit {
        let kept = pushed.skip(drop_count as int);
        assert(kept.last() == pushed[pushed.len() - 1]);
    }
}

} // verus!
