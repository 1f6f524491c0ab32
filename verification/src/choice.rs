//! Picking among widgets or canvas elements by hit flags: the first hit
//! takes the focus, the last (topmost) hit takes a click.
use vstd::prelude::*;

verus! {

/// `i` is the first index whose flag is set.
pub open spec fn is_first_hit(hits: Seq<bool>, i: int) -> bool {
    0 <= i < hits.len() && hits[i] && forall|j: int| 0 <= j < i ==> !#[trigger] hits[j]
}

/// `i` is the last index below `n` whose flag is set.
pub open spec fn is_last_hit_below(hits: Seq<bool>, n: int, i: int) -> bool {
    0 <= i < n && i < hits.len() && hits[i] && forall|j: int|
        i < j < n && j < hits.len() ==> !#[trigger] hits[j]
}

/// No flag below `n` is set.
pub open spec fn no_hit_below(hits: Seq<bool>, n: int) -> bool {
    forall|j: int| 0 <= j < n && j < hits.len() ==> !#[trigger] hits[j]
}

/// The index of the first set flag, if any.
pub fn first_hit(hits: &Vec<bool>) -> (r: Option<usize>)
    ensures
        match r {
            Some(i) => is_first_hit(hits@, i as int),
            None => no_hit_below(hits@, hits@.len() as int),
        },
{
    let mut i: usize = 0;
    while i < hits.len()
        invariant
            i <= hits@.len(),
            forall|j: int| 0 <= j < i ==> !#[trigger] hits@[j],
        decreases hits@.len() - i,
    {
        if hits[i] {
            return Some(i);
        }
        i = i + 1;
    }
    None
}

/// The index of the last set flag below `n`, if any: the topmost of
/// several stacked elements that a point hits, or the last of several
/// buttons that report a click.
pub fn last_hit_below(hits: &Vec<bool>, n: usize) -> (r: Option<usize>)
    ensures
        match r {
            Some(i) => is_last_hit_below(hits@, n as int, i as int),
            None => no_hit_below(hits@, n as int),
        },
{
    let mut i: usize = if n < hits.len() {
        n
    } else {
        hits.len()
    };
    while i > 0
        invariant
            i <= n,
            i <= hits@.len(),
            forall|j: int| i <= j < n && j < hits@.len() ==> !#[trigger] hits@[j],
        decreases i,
    {
        if hits[i - 1] {
            return Some(i - 1);
        }
        i = i - 1;
    }
    None
}

/// Which of several widgets holds the focus after a press: the first one
/// the press hit, and no other.
pub fn focus_flags(hits: &Vec<bool>) -> (focus: Vec<bool>)
    ensures
        focus@.len() == hits@.len(),
        forall|i: int| 0 <= i < hits@.len() ==> #[trigger] focus@[i] == is_first_hit(hits@, i),
{
    let first = first_hit(hits);
    let mut focus: Vec<bool> = Vec::new();
    let mut i: usize = 0;
    while i < hits.len()
        invariant
            i <= hits@.len(),
            focus@.len() == i,
            first matches Some(f) ==> is_first_hit(hits@, f as int),
            first is None ==> no_hit_below(hits@, hits@.len() as int),
            forall|k: int| 0 <= k < i ==> #[trigger] focus@[k] == is_first_hit(hits@, k),
        decreases hits@.len() - i,
    {
        let on = match first {
            Some(f) => f == i,
            None => false,
        };
        proof {
            if let Some(f) = first {
                if f != i && is_first_hit(hits@, i as int) {
                    if f < i {
                        assert(!hits@[f as int]);
                    } else {
                        assert(!hits@[i as int]);
                    }
                }
            }
        }
        focus.push(on);
        i = i + 1;
    }
    focus
}

/// At most one widget holds the focus.
pub proof fn lemma_focus_unique(hits: Seq<bool>, i: int, j: int)
    requires
        is_first_hit(hits, i),
        is_first_hit(hits, j),
    ensures
        i == j,
{
    if i < j {
        assert(!hits[i]);
    } else if j < i {
        assert(!hits[j]);
    }
}

} // verus!
