//! The engine's guarantees that span more than one operation, stated and
//! proved once over the same models that the operation contracts use.

use crate::generate::{draw_spec, load_spec, swapped, EngineModel};
use crate::lines::{active_lines_of, comment_out_all, commented};
use vstd::prelude::*;

verus! {

/// A draw of `count` entries from a duplicate-free pool, starting from an
/// empty selection, fills the selection with exactly `count` distinct
/// entries, shrinks the pool by exactly `count`, and leaves no entry both
/// selected and in the pool.
pub proof fn lemma_draw_exact(pre: EngineModel, post: EngineModel, count: nat)
    requires
        draw_spec(pre, post, count),
        pre.days.len() == 0,
        count <= pre.pool.len(),
        pre.pool.no_duplicates(),
    ensures
        post.days.len() == count,
        post.pool.len() == pre.pool.len() - count,
        post.days.no_duplicates(),
        forall|x: Seq<char>| post.days.contains(x) ==> pre.pool.contains(x),
        forall|x: Seq<char>| post.days.contains(x) ==> !post.pool.contains(x),
{
    broadcast use vstd::seq_lib::group_to_multiset_ensures;
    broadcast use vstd::multiset::group_multiset_axioms;

    assert(post.days.skip(0) =~= post.days);
    pre.pool.lemma_multiset_has_no_duplicates();
    assert forall|x: Seq<char>| post.days.contains(x) implies pre.pool.contains(x) by {
        assert(post.days.to_multiset().count(x) > 0);
        assert(pre.pool.to_multiset().count(x) > 0);
    }
    assert forall|x: Seq<char>| post.days.contains(x) implies !post.pool.contains(x) by {
        if post.pool.contains(x) {
            assert(post.days.to_multiset().count(x) > 0);
            assert(post.pool.to_multiset().count(x) > 0);
            assert(pre.pool.to_multiset().count(x) >= 2);
            assert(pre.pool.to_multiset().contains(x));
        }
    }
    assert forall|x: Seq<char>|
        post.days.to_multiset().contains(x) implies post.days.to_multiset().count(x) == 1 by {
        assert(post.days.to_multiset().count(x) > 0);
        assert(pre.pool.to_multiset().count(x) > 0);
        assert(pre.pool.to_multiset().contains(x));
    }
    post.days.lemma_multiset_has_no_duplicates_conv();
}

/// A draw of more entries than the pool holds is clamped, never an error: it
/// moves the whole pool into the selection.
pub proof fn lemma_draw_clamped(pre: EngineModel, post: EngineModel, count: nat)
    requires
        draw_spec(pre, post, count),
        pre.days.len() == 0,
        count > pre.pool.len(),
    ensures
        post.days.len() == pre.pool.len(),
        post.pool.len() == 0,
{
}

/// Loading twice from the same, unchanged resources — no reset, with a
/// non-empty persisted selection — yields the same selection and the same
/// pool both times: no draw is made, so nothing is left to chance.
pub proof fn lemma_load_idempotent(
    input: Seq<Seq<char>>,
    prev: Seq<Seq<char>>,
    count: nat,
    first: EngineModel,
    second: EngineModel,
)
    requires
        prev.len() > 0,
        load_spec(input, Some(prev), count, false, first),
        load_spec(input, Some(prev), count, false, second),
    ensures
        first == second,
{
    assert(first =~= second);
}

/// Exchanging the same two selection slots twice restores the original
/// selection: a swap is its own inverse.
pub proof fn lemma_swap_self_inverse(s: Seq<Seq<char>>, i: int, j: int)
    requires
        0 <= i < s.len(),
        0 <= j < s.len(),
    ensures
        swapped(swapped(s, i, j), i, j) == s,
{
    assert(swapped(swapped(s, i, j), i, j) =~= s);
}

/// Once every line equal to `target` has been commented out of the input
/// resource, a later read of that resource's active lines never yields
/// `target` again — so a fresh load cannot re-introduce a removed entry.
pub proof fn lemma_removed_entry_stays_out(raw: Seq<Seq<char>>, target: Seq<char>)
    ensures
        !active_lines_of(comment_out_all(raw, target)).contains(target),
{
    let written = comment_out_all(raw, target);
    if active_lines_of(written).contains(target) {
        crate::lines::lemma_active_lines_membership(written, target);
        let k = choose|k: int| 0 <= k < written.len() && written[k] == target;
        assert(written[k] == (if raw[k] == target {
            commented(raw[k])
        } else {
            raw[k]
        }));
        assert(commented(target).len() == target.len() + 1);
        assert(false);
    }
}

} // verus!
