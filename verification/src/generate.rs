//! The entry engine.
//!
//! The engine owns two ordered lists of entries: the selection (`days`), the
//! entries currently chosen, one per slot and addressable by index; and the
//! pool, the remaining candidates. Entries are opaque text and are compared
//! by exact character equality. Construction computes the pool/selection
//! split from the active lines of the two backing resources; draws move
//! random pool entries into the selection without repetition; the mutation
//! operations keep the two lists consistent and validate every index before
//! touching anything.

use crate::line_views;
use crate::EngineError;
use rand::seq::SliceRandom;
use rand::Rng;
use vstd::pervasive::VecAdditionalExecFns;
use vstd::prelude::*;

verus! {

/// The mathematical state of the engine: the selection and the pool, each as
/// an ordered sequence of character strings.
#[verifier::ext_equal]
pub ghost struct EngineModel {
    pub days: Seq<Seq<char>>,
    pub pool: Seq<Seq<char>>,
}

/// Which of the two collections an operation addresses.
#[derive(Clone, Copy, Debug, PartialEq, Eq, Structural)]
pub enum Collection {
    Days,
    Pool,
}

/// The entry engine: the ordered selection of chosen entries and the pool of
/// remaining candidates.
#[derive(Debug)]
pub struct Generate {
    days: Vec<String>,
    pool: Vec<String>,
}

impl View for Generate {
    type V = EngineModel;

    closed spec fn view(&self) -> EngineModel {
        EngineModel { days: line_views(self.days@), pool: line_views(self.pool@) }
    }
}

/// `s` with the entries at `i` and `j` exchanged.
pub open spec fn swapped(s: Seq<Seq<char>>, i: int, j: int) -> Seq<Seq<char>> {
    s.update(i, s[j]).update(j, s[i])
}

/// What a search for `x` in `s` reports: the first index holding `x` exactly,
/// or nothing when no entry equals `x`.
pub open spec fn found_first(s: Seq<Seq<char>>, x: Seq<char>, r: Option<usize>) -> bool {
    match r {
        Some(i) => i < s.len() && s[i as int] == x && (forall|j: int| 0 <= j < i ==> s[j] != x),
        None => !s.contains(x),
    }
}

/// What one draw of up to `count` entries does. The requested count is
/// clamped to the pool size; the selection keeps its old entries as a prefix
/// and grows by the drawn entries; and the drawn entries together with the
/// remaining pool are exactly the old pool, as multisets: a draw moves
/// entries, it never invents, drops or repeats one.
pub open spec fn draw_spec(pre: EngineModel, post: EngineModel, count: nat) -> bool {
    let k: nat = if count <= pre.pool.len() {
        count
    } else {
        pre.pool.len()
    };
    &&& post.days.len() == pre.days.len() + k
    &&& post.pool.len() == pre.pool.len() - k
    &&& post.days.take(pre.days.len() as int) == pre.days
    &&& post.days.skip(pre.days.len() as int).to_multiset().add(post.pool.to_multiset())
        == pre.pool.to_multiset()
}

/// The candidate pool computed from the full input universe: the entries of
/// `input` that appear nowhere in `prev`, in input order; multiplicity on
/// either side is ignored.
pub open spec fn pool_minus(input: Seq<Seq<char>>, prev: Seq<Seq<char>>) -> Seq<Seq<char>> {
    input.filter(|l: Seq<char>| !prev.contains(l))
}

/// The entry views of an optional list of lines.
pub open spec fn prev_views(prev: Option<Vec<String>>) -> Option<Seq<Seq<char>>> {
    match prev {
        Some(p) => Some(line_views(p@)),
        None => None,
    }
}

/// What constructing the engine from the two resources yields. `input` holds
/// the active lines of the input resource and `prev` those of the output
/// resource, or `None` when that resource is absent; a reset discards `prev`.
/// A persisted non-empty selection is loaded verbatim and the pool excludes
/// every entry that appears in it; otherwise a fresh draw of `count` entries
/// is made from the computed pool into an empty selection.
pub open spec fn load_spec(
    input: Seq<Seq<char>>,
    prev: Option<Seq<Seq<char>>>,
    count: nat,
    reset: bool,
    post: EngineModel,
) -> bool {
    if reset {
        draw_spec(EngineModel { days: Seq::empty(), pool: input }, post, count)
    } else {
        match prev {
            Some(p) => {
                let pool0 = pool_minus(input, p);
                if p.len() > 0 {
                    post.days == p && post.pool == pool0
                } else {
                    draw_spec(EngineModel { days: Seq::empty(), pool: pool0 }, post, count)
                }
            },
            None => draw_spec(EngineModel { days: Seq::empty(), pool: input }, post, count),
        }
    }
}

/// Relies on rand's `Rng::gen_range` over the half-open range `0..bound`:
/// with a non-empty range it returns a value inside it, and it panics only on
/// an empty range, which the precondition rules out.
#[verifier::external_body]
fn random_below(bound: usize) -> (r: usize)
    requires
        bound > 0,
    ensures
        r < bound,
{
    rand::thread_rng().gen_range(0..bound)
}

/// Relies on rand's `SliceRandom::shuffle`: it permutes the slice in place
/// (a Fisher-Yates pass of element swaps), keeping the length and the
/// multiset of entries.
#[verifier::external_body]
fn shuffle_in_place(v: &mut Vec<String>)
    ensures
        final(v)@.len() == old(v)@.len(),
        line_views(final(v)@).to_multiset() == line_views(old(v)@).to_multiset(),
{
    v.shuffle(&mut rand::thread_rng());
}

/// Extending the subtracted prefix by one input entry keeps the old result
/// and appends the entry exactly when it is not excluded.
proof fn lemma_pool_minus_take_step(s: Seq<Seq<char>>, prev: Seq<Seq<char>>, i: int)
    requires
        0 <= i < s.len(),
    ensures
        pool_minus(s.take(i + 1), prev) == (if !prev.contains(s[i]) {
            pool_minus(s.take(i), prev).push(s[i])
        } else {
            pool_minus(s.take(i), prev)
        }),
{
    crate::lines::lemma_filter_take_step(s, |l: Seq<char>| !prev.contains(l), i);
}

impl Generate {
    /// An engine over the given selection and pool, taken as they are.
    pub fn new(days: Vec<String>, pool: Vec<String>) -> (r: Self)
        ensures
            r@.days == line_views(days@),
            r@.pool == line_views(pool@),
    {
        Generate { days, pool }
    }

    /// The current selection, in slot order.
    pub fn days(&self) -> (r: &Vec<String>)
        ensures
            line_views(r@) == self@.days,
    {
        &self.days
    }

    /// The current pool of remaining candidates.
    pub fn pool(&self) -> (r: &Vec<String>)
        ensures
            line_views(r@) == self@.pool,
    {
        &self.pool
    }

    /// The lines a save writes to the output resource: the selection
    /// verbatim, in slot order. The caller replaces the resource's previous
    /// contents with these lines.
    pub fn write_file(&self) -> (r: Vec<String>)
        ensures
            line_views(r@) == self@.days,
    {
        let mut out: Vec<String> = Vec::new();
        let mut i: usize = 0;
        while i < self.days.len()
            invariant
                i <= self.days@.len(),
                out@.len() == i,
                forall|k: int| 0 <= k < i ==> out@[k] == self.days@[k],
            decreases self.days@.len() - i,
        {
            out.push(self.days[i].clone());
            i = i + 1;
        }
        proof {
            assert(line_views(out@) =~= self@.days);
        }
        out
    }

    /// Append a candidate at the end of the pool. Always succeeds; duplicates
    /// are allowed.
    pub fn add_to_pool(&mut self, new_entry: String)
        ensures
            final(self)@.pool == old(self)@.pool.push(new_entry@),
            final(self)@.days == old(self)@.days,
    {
        self.pool.push(new_entry);
        proof {
            assert(line_views(self.pool@) =~= old(self)@.pool.push(new_entry@));
        }
    }

    /// Replace the selection entry at `index` with `new_entry`, verbatim.
    pub fn edit_days_entry(&mut self, index: usize, new_entry: String) -> (r: Result<
        (),
        EngineError,
    >)
        ensures
            r is Ok <==> index < old(self)@.days.len(),
            (match r {
                Ok(_) => final(self)@.days == old(self)@.days.update(index as int, new_entry@)
                    && final(self)@.pool == old(self)@.pool,
                Err(e) => e == EngineError::InvalidIndex && final(self)@ == old(self)@,
            }),
    {
        if index >= self.days.len() {
            return Err(EngineError::InvalidIndex);
        }
        self.days.set(index, new_entry);
        proof {
            assert(line_views(self.days@) =~= old(self)@.days.update(index as int, new_entry@));
        }
        Ok(())
    }

    /// Replace the pool entry at `index` with `new_entry`, verbatim.
    pub fn edit_pool_entry(&mut self, index: usize, new_entry: String) -> (r: Result<
        (),
        EngineError,
    >)
        ensures
            r is Ok <==> index < old(self)@.pool.len(),
            (match r {
                Ok(_) => final(self)@.pool == old(self)@.pool.update(index as int, new_entry@)
                    && final(self)@.days == old(self)@.days,
                Err(e) => e == EngineError::InvalidIndex && final(self)@ == old(self)@,
            }),
    {
        if index >= self.pool.len() {
            return Err(EngineError::InvalidIndex);
        }
        self.pool.set(index, new_entry);
        proof {
            assert(line_views(self.pool@) =~= old(self)@.pool.update(index as int, new_entry@));
        }
        Ok(())
    }

    /// Exchange the selection entries at `index1` and `index2`; with equal
    /// indices the selection is unchanged, and the call still succeeds.
    pub fn swap_days_entries(&mut self, index1: usize, index2: usize) -> (r: Result<
        (),
        EngineError,
    >)
        ensures
            r is Ok <==> index1 < old(self)@.days.len() && index2 < old(self)@.days.len(),
            (match r {
                Ok(_) => final(self)@.days == swapped(
                    old(self)@.days,
                    index1 as int,
                    index2 as int,
                ) && final(self)@.pool == old(self)@.pool,
                Err(e) => e == EngineError::InvalidIndex && final(self)@ == old(self)@,
            }),
    {
        if index1 >= self.days.len() || index2 >= self.days.len() {
            return Err(EngineError::InvalidIndex);
        }
        let a = self.days[index1].clone();
        let b = self.days[index2].clone();
        self.days.set(index1, b);
        self.days.set(index2, a);
        proof {
            assert(line_views(self.days@) =~= swapped(
                old(self)@.days,
                index1 as int,
                index2 as int,
            ));
        }
        Ok(())
    }

    /// The first index whose entry equals `entry` exactly, in the selection
    /// or in the pool, or `None` when no entry does.
    pub fn find_entry(&self, col: Collection, entry: &str) -> (r: Option<usize>)
        ensures
            col == Collection::Pool ==> found_first(self@.pool, entry@, r),
            col != Collection::Pool ==> found_first(self@.days, entry@, r),
    {
        let needle = entry.to_owned();
        let entries: &Vec<String> = if col == Collection::Pool {
            &self.pool
        } else {
            &self.days
        };
        let ghost s = line_views(entries@);
        let mut i: usize = 0;
        while i < entries.len()
            invariant
                i <= entries@.len(),
                s == line_views(entries@),
                s == (if col == Collection::Pool {
                    self@.pool
                } else {
                    self@.days
                }),
                needle@ == entry@,
                forall|j: int| 0 <= j < i ==> s[j] != entry@,
            decreases entries@.len() - i,
        {
            if entries[i].eq(&needle) {
                proof {
                    assert(s[i as int] == entry@);
                }
                return Some(i);
            }
            i = i + 1;
        }
        proof {
            assert forall|j: int| 0 <= j < s.len() implies s[j] != entry@ by {}
        }
        None
    }

    /// Remove the pool entry at `index` and hand it back, so that the caller
    /// can comment it out in the input resource. The selection is untouched.
    pub fn remove_from_pool(&mut self, index: usize) -> (r: Result<String, EngineError>)
        ensures
            r is Ok <==> index < old(self)@.pool.len(),
            (match r {
                Ok(v) => v@ == old(self)@.pool[index as int] && final(self)@.pool == old(
                    self,
                )@.pool.remove(index as int) && final(self)@.days == old(self)@.days,
                Err(e) => e == EngineError::InvalidIndex && final(self)@ == old(self)@,
            }),
    {
        if index >= self.pool.len() {
            return Err(EngineError::InvalidIndex);
        }
        let removed = self.pool.remove(index);
        proof {
            assert(line_views(self.pool@) =~= old(self)@.pool.remove(index as int));
        }
        Ok(removed)
    }

    /// Remove the first pool entry equal to `entry` and hand it back for the
    /// caller to comment out; `None` when the pool has no such entry, in
    /// which case nothing changes.
    pub fn remove_from_pool_by_strvalue(&mut self, entry: &str) -> (r: Option<String>)
        ensures
            r is Some <==> old(self)@.pool.contains(entry@),
            (match r {
                Some(v) => v@ == entry@ && final(self)@.days == old(self)@.days && (exists|i: usize|
                    #![auto]
                    found_first(old(self)@.pool, entry@, Some(i)) && final(self)@.pool == old(
                        self,
                    )@.pool.remove(i as int)),
                None => final(self)@ == old(self)@,
            }),
    {
        match self.find_entry(Collection::Pool, entry) {
            Some(pos) => {
                proof {
                    assert(found_first(old(self)@.pool, entry@, Some(pos)));
                }
                let removed = self.pool.remove(pos);
                proof {
                    assert(line_views(self.pool@) =~= old(self)@.pool.remove(pos as int));
                }
                Some(removed)
            },
            None => None,
        }
    }

    /// Replace the first pool entry equal to `old_entry` with `new_entry`.
    pub fn edit_pool_entry_by_strvalue(&mut self, old_entry: &str, new_entry: String) -> (r: Result<
        (),
        EngineError,
    >)
        ensures
            r is Ok <==> old(self)@.pool.contains(old_entry@),
            (match r {
                Ok(_) => final(self)@.days == old(self)@.days && (exists|i: usize|
                    #![auto]
                    found_first(old(self)@.pool, old_entry@, Some(i)) && final(self)@.pool == old(
                        self,
                    )@.pool.update(i as int, new_entry@)),
                Err(e) => e == EngineError::InvalidIndex && final(self)@ == old(self)@,
            }),
    {
        match self.find_entry(Collection::Pool, old_entry) {
            Some(pos) => {
                proof {
                    assert(found_first(old(self)@.pool, old_entry@, Some(pos)));
                }
                self.pool.set(pos, new_entry);
                proof {
                    assert(line_views(self.pool@) =~= old(self)@.pool.update(
                        pos as int,
                        new_entry@,
                    ));
                }
                Ok(())
            },
            None => Err(EngineError::InvalidIndex),
        }
    }

    /// Whether some line of `lines` equals `x` exactly.
    fn contains_line(lines: &Vec<String>, x: &String) -> (r: bool)
        ensures
            r == line_views(lines@).contains(x@),
    {
        let ghost s = line_views(lines@);
        let mut i: usize = 0;
        while i < lines.len()
            invariant
                i <= lines@.len(),
                s == line_views(lines@),
                forall|j: int| 0 <= j < i ==> s[j] != x@,
            decreases lines@.len() - i,
        {
            if lines[i].eq(x) {
                proof {
                    assert(s[i as int] == x@);
                }
                return true;
            }
            i = i + 1;
        }
        proof {
            assert forall|j: int| 0 <= j < s.len() implies s[j] != x@ by {}
        }
        false
    }

    /// The entries of `slice1` that appear nowhere in `slice2`, in order;
    /// multiplicity on either side is ignored.
    fn subtract_slices(slice1: Vec<String>, slice2: &Vec<String>) -> (r: Vec<String>)
        ensures
            line_views(r@) == pool_minus(line_views(slice1@), line_views(slice2@)),
    {
        let ghost all = line_views(slice1@);
        let ghost prev = line_views(slice2@);
        let mut out: Vec<String> = Vec::new();
        let mut i: usize = 0;
        while i < slice1.len()
            invariant
                i <= slice1@.len(),
                all == line_views(slice1@),
                prev == line_views(slice2@),
                line_views(out@) == pool_minus(all.take(i as int), prev),
            decreases slice1@.len() - i,
        {
            let keep = !Self::contains_line(slice2, &slice1[i]);
            proof {
                lemma_pool_minus_take_step(all, prev, i as int);
            }
            if keep {
                out.push(slice1[i].clone());
                proof {
                    assert(line_views(out@) =~= pool_minus(all.take(i + 1), prev));
                }
            } else {
                proof {
                    assert(line_views(out@) =~= pool_minus(all.take(i + 1), prev));
                }
            }
            i = i + 1;
        }
        proof {
            assert(all.take(all.len() as int) =~= all);
        }
        out
    }

    /// Draw `count` entries out of `pool`, each picked at a random index of
    /// the remaining pool, in draw order. The drawn entries and the remaining
    /// pool together are exactly the old pool.
    fn select_random_entries(pool: &mut Vec<String>, count: usize) -> (r: Vec<String>)
        requires
            count <= old(pool)@.len(),
        ensures
            r@.len() == count,
            final(pool)@.len() == old(pool)@.len() - count,
            line_views(r@).to_multiset().add(line_views(final(pool)@).to_multiset())
                == line_views(old(pool)@).to_multiset(),
    {
        broadcast use vstd::seq_lib::group_to_multiset_ensures;
        broadcast use vstd::multiset::group_multiset_axioms;

        let ghost pool0 = line_views(pool@);
        let mut selected: Vec<String> = Vec::new();
        proof {
            assert(line_views(selected@).to_multiset().add(pool0.to_multiset())
                =~= pool0.to_multiset());
        }
        while selected.len() < count
            invariant
                selected@.len() <= count,
                count <= pool0.len(),
                pool@.len() == pool0.len() - selected@.len(),
                line_views(selected@).to_multiset().add(line_views(pool@).to_multiset())
                    == pool0.to_multiset(),
            decreases count - selected@.len(),
        {
            let idx = random_below(pool.len());
            let ghost pool_before = pool@;
            let ghost sel_before = selected@;
            let entry = pool.remove(idx);
            selected.push(entry);
            proof {
                broadcast use vstd::seq_lib::group_to_multiset_ensures;
                broadcast use vstd::multiset::group_multiset_axioms;

                assert(line_views(pool@) =~= line_views(pool_before).remove(idx as int));
                assert(line_views(selected@) =~= line_views(sel_before).push(
                    line_views(pool_before)[idx as int],
                ));
                assert(line_views(pool_before).contains(line_views(pool_before)[idx as int]));
                assert(line_views(pool_before).to_multiset().count(
                    line_views(pool_before)[idx as int],
                ) > 0);
                assert(line_views(selected@).to_multiset().add(line_views(pool@).to_multiset())
                    =~= pool0.to_multiset());
            }
        }
        selected
    }

    /// An engine whose selection is freshly drawn: up to `days` entries
    /// drawn from `pool` into an empty selection.
    fn fresh_draw(pool: Vec<String>, days: usize) -> (r: Self)
        ensures
            draw_spec(
                EngineModel { days: Seq::empty(), pool: line_views(pool@) },
                r@,
                days as nat,
            ),
    {
        let ghost pool_views = line_views(pool@);
        let mut engine = Generate { days: Vec::new(), pool };
        proof {
            assert(engine@ =~= (EngineModel { days: Seq::empty(), pool: pool_views }));
        }
        engine.generate_days(days);
        engine
    }

    /// Draw up to `count` entries from the pool and append them to the
    /// selection, clamping the request to the pool size.
    pub fn generate_days(&mut self, count: usize)
        ensures
            draw_spec(old(self)@, final(self)@, count as nat),
    {
        let k = if count > self.pool.len() {
            self.pool.len()
        } else {
            count
        };
        let ghost days_before = line_views(self.days@);
        let mut selected = Self::select_random_entries(&mut self.pool, k);
        let ghost sel_views = line_views(selected@);
        self.days.append(&mut selected);
        proof {
            assert(line_views(self.days@) =~= days_before + sel_views);
            assert((days_before + sel_views).take(days_before.len() as int) =~= days_before);
            assert((days_before + sel_views).skip(days_before.len() as int) =~= sel_views);
        }
    }

    /// Build the engine from the active lines of the input resource and, when
    /// the output resource exists, those of the output resource. A reset, or
    /// an absent or empty output resource, triggers a fresh draw of `days`
    /// entries from the computed pool.
    pub fn read_entries(
        input_lines: Vec<String>,
        prev_lines: Option<Vec<String>>,
        days: usize,
        reset: bool,
    ) -> (r: Self)
        ensures
            load_spec(line_views(input_lines@), prev_views(prev_lines), days as nat, reset, r@),
    {
        if reset {
            Self::fresh_draw(input_lines, days)
        } else {
            match prev_lines {
                Some(prev) => {
                    let pool0 = Self::subtract_slices(input_lines, &prev);
                    if prev.len() > 0 {
                        Generate { days: prev, pool: pool0 }
                    } else {
                        Self::fresh_draw(pool0, days)
                    }
                },
                None => Self::fresh_draw(input_lines, days),
            }
        }
    }

    /// Replace the selection entry at `index` with a randomly drawn pool
    /// entry and put the replaced entry back at the end of the pool, so it is
    /// available for future draws. Both lengths are unchanged.
    pub fn regenerate_entry(&mut self, index: usize) -> (r: Result<(), EngineError>)
        ensures
            r is Ok <==> (old(self)@.days.len() > 0 && old(self)@.pool.len() > 0 && index < old(
                self,
            )@.days.len()),
            (match r {
                Ok(_) => {
                    &&& final(self)@.days.len() == old(self)@.days.len()
                    &&& final(self)@.pool.len() == old(self)@.pool.len()
                    &&& final(self)@.pool.contains(old(self)@.days[index as int])
                    &&& exists|j: usize|
                        #![auto]
                        (j as int) < old(self)@.pool.len() && final(self)@.days == old(
                            self,
                        )@.days.update(index as int, old(self)@.pool[j as int]) && final(self)@.pool
                            == old(self)@.pool.remove(j as int).push(old(self)@.days[index as int])
                },
                Err(e) => {
                    &&& final(self)@ == old(self)@
                    &&& (e == EngineError::EmptyState <==> (old(self)@.days.len() == 0 || old(
                        self,
                    )@.pool.len() == 0))
                    &&& (e == EngineError::InvalidIndex <==> (old(self)@.days.len() > 0 && old(
                        self,
                    )@.pool.len() > 0 && index >= old(self)@.days.len()))
                },
            }),
    {
        if self.days.len() == 0 || self.pool.len() == 0 {
            return Err(EngineError::EmptyState);
        }
        if index >= self.days.len() {
            return Err(EngineError::InvalidIndex);
        }
        let j = random_below(self.pool.len());
        let new_entry = self.pool.remove(j);
        let previous = self.days[index].clone();
        self.days.set(index, new_entry);
        self.pool.push(previous);
        proof {
            assert(line_views(self.days@) =~= old(self)@.days.update(
                index as int,
                old(self)@.pool[j as int],
            ));
            assert(line_views(self.pool@) =~= old(self)@.pool.remove(j as int).push(
                old(self)@.days[index as int],
            ));
            assert(self@.pool[self@.pool.len() - 1] == old(self)@.days[index as int]);
        }
        Ok(())
    }

    /// Shuffle the selection into a random order; the entries themselves and
    /// the pool are unchanged.
    pub fn randomize_days(&mut self)
        ensures
            final(self)@.days.len() == old(self)@.days.len(),
            final(self)@.days.to_multiset() == old(self)@.days.to_multiset(),
            final(self)@.pool == old(self)@.pool,
    {
        shuffle_in_place(&mut self.days);
    }
}

} // verus!
