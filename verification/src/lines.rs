//! Line-level rules of the two backing resources.
//!
//! A resource is an ordered list of text lines. A line whose first character
//! is `#` is a comment: it is invisible to the engine but kept in the
//! resource, so a removed entry stays inspectable and can be re-enabled by
//! hand. This module holds the pure line transformations; reading and writing
//! the named resources themselves is the caller's job.

use crate::line_views;
use vstd::prelude::*;
use vstd::string::StrSliceExecFns;
use vstd::string::StringExecFns;

verus! {

/// A comment line: non-empty and introduced by the `#` marker.
pub open spec fn is_comment_line(l: Seq<char>) -> bool {
    l.len() > 0 && l[0] == '#'
}

/// A line with the comment marker put in front of it.
pub open spec fn commented(l: Seq<char>) -> Seq<char> {
    seq!['#'] + l
}

/// The lines a read of the resource hands to the engine: every line that is
/// not a comment, in resource order.
pub open spec fn active_lines_of(ls: Seq<Seq<char>>) -> Seq<Seq<char>> {
    ls.filter(|l: Seq<char>| !is_comment_line(l))
}

/// The resource contents after every line equal to `target` has been
/// commented out; all other lines are untouched and order is kept.
pub open spec fn comment_out_all(ls: Seq<Seq<char>>, target: Seq<char>) -> Seq<Seq<char>> {
    ls.map_values(|l: Seq<char>| if l == target { commented(l) } else { l })
}

/// Whether `l` is a comment line.
pub fn line_is_comment(l: &String) -> (r: bool)
    ensures
        r == is_comment_line(l@),
{
    let s = l.as_str();
    if s.unicode_len() == 0 {
        false
    } else {
        s.get_char(0) == '#'
    }
}

/// `l` with the comment marker put in front.
pub fn comment_line(l: &String) -> (r: String)
    ensures
        r@ == commented(l@),
{
    let mut out = String::from_str("#");
    out.append(l.as_str());
    proof {
        reveal_strlit("#");
        assert(out@ =~= commented(l@));
    }
    out
}

/// The non-comment lines of `lines`, in order: what a read of a resource
/// yields for the engine.
pub fn active_lines(lines: &Vec<String>) -> (r: Vec<String>)
    ensures
        line_views(r@) == active_lines_of(line_views(lines@)),
{
    let ghost all = line_views(lines@);
    let ghost pred = |l: Seq<char>| !is_comment_line(l);
    let mut out: Vec<String> = Vec::new();
    let mut i: usize = 0;
    while i < lines.len()
        invariant
            i <= lines@.len(),
            all == line_views(lines@),
            pred == (|l: Seq<char>| !is_comment_line(l)),
            line_views(out@) == all.take(i as int).filter(pred),
        decreases lines@.len() - i,
    {
        let keep = !line_is_comment(&lines[i]);
        proof {
            lemma_filter_take_step(all, pred, i as int);
        }
        if keep {
            out.push(lines[i].clone());
            proof {
                assert(line_views(out@) =~= all.take(i + 1).filter(pred));
            }
        } else {
            proof {
                assert(line_views(out@) =~= all.take(i + 1).filter(pred));
            }
        }
        i = i + 1;
    }
    proof {
        assert(all.take(all.len() as int) =~= all);
    }
    out
}

/// The full contents of a resource with every line equal to `target`
/// commented out, ready to be written back.
pub fn comment_out(lines: &Vec<String>, target: &String) -> (r: Vec<String>)
    ensures
        line_views(r@) == comment_out_all(line_views(lines@), target@),
{
    let ghost all = line_views(lines@);
    let ghost full = comment_out_all(all, target@);
    let mut out: Vec<String> = Vec::new();
    let mut i: usize = 0;
    while i < lines.len()
        invariant
            i <= lines@.len(),
            all == line_views(lines@),
            full == comment_out_all(all, target@),
            out@.len() == i,
            line_views(out@) == full.take(i as int),
        decreases lines@.len() - i,
    {
        proof {
            assert(all[i as int] == lines@[i as int]@);
            assert(full[i as int] == (if all[i as int] == target@ {
                commented(all[i as int])
            } else {
                all[i as int]
            }));
        }
        if lines[i].eq(target) {
            out.push(comment_line(&lines[i]));
        } else {
            out.push(lines[i].clone());
        }
        proof {
            assert(out@[i as int]@ == full[i as int]);
            assert(line_views(out@) =~= full.take(i + 1));
        }
        i = i + 1;
    }
    proof {
        assert(full.take(full.len() as int) =~= full);
    }
    out
}

/// Filtering a one-longer prefix keeps the old result and at most appends the
/// newly admitted element.
pub(crate) proof fn lemma_filter_take_step(
    s: Seq<Seq<char>>,
    pred: spec_fn(Seq<char>) -> bool,
    i: int,
)
    requires
        0 <= i < s.len(),
    ensures
        s.take(i + 1).filter(pred) == (if pred(s[i]) {
            s.take(i).filter(pred).push(s[i])
        } else {
            s.take(i).filter(pred)
        }),
{
    assert(s.take(i + 1) =~= s.take(i) + seq![s[i]]);
    Seq::filter_distributes_over_add(s.take(i), seq![s[i]], pred);
    reveal_with_fuel(Seq::filter, 2);
    assert(seq![s[i]].drop_last() =~= Seq::<Seq<char>>::empty());
    if pred(s[i]) {
        assert(s.take(i).filter(pred) + seq![s[i]] =~= s.take(i).filter(pred).push(s[i]));
    } else {
        assert(s.take(i).filter(pred) + Seq::<Seq<char>>::empty() =~= s.take(i).filter(pred));
    }
}

/// An active line of a resource is a line of the resource, and no comment.
pub proof fn lemma_active_lines_membership(ls: Seq<Seq<char>>, x: Seq<char>)
    requires
        active_lines_of(ls).contains(x),
    ensures
        ls.contains(x),
        !is_comment_line(x),
{
    lemma_filter_membership(ls, |l: Seq<char>| !is_comment_line(l), x);
}

/// An element of a filtered sequence occurs in the sequence it was filtered
/// from, and satisfies the predicate.
pub(crate) proof fn lemma_filter_membership<A>(s: Seq<A>, pred: spec_fn(A) -> bool, x: A)
    requires
        s.filter(pred).contains(x),
    ensures
        s.contains(x),
        pred(x),
    decreases s.len(),
{
    reveal(Seq::filter);
    if s.len() > 0 {
        let rest = s.drop_last().filter(pred);
        if pred(s.last()) && x == s.last() {
            assert(s[s.len() - 1] == x);
        } else {
            assert(rest.contains(x));
            lemma_filter_membership(s.drop_last(), pred, x);
            let k = choose|k: int| 0 <= k < s.drop_last().len() && s.drop_last()[k] == x;
            assert(s[k] == x);
        }
    }
}

} // verus!
