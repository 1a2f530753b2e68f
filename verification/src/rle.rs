//! A generic run-length encoder: a dense sequence of values is stored as
//! sparse `(value, run_length)` pairs, coalescing consecutive equal values
//! on insert. Lookup scans the pairs linearly, accumulating run lengths.

use vstd::prelude::*;

use vstd::std_specs::cmp::PartialEqSpec;

verus! {

/// Holds when `==` on `T` is known to agree exactly with logical equality,
/// so that the coalescing decision made with `==` can be described by the
/// mathematical model.
pub open spec fn obeys_deep_eq<T: PartialEq + PartialEqSpec>() -> bool {
    &&& T::obeys_eq_spec()
    &&& forall|x: T, y: T| #[trigger] x.eq_spec(&y) <==> x == y
}

/// The total number of positions covered by the pairs: the sum of all run
/// lengths.
pub open spec fn rle_total<T>(pairs: Seq<(T, u32)>) -> int
    decreases pairs.len(),
{
    if pairs.len() == 0 {
        0
    } else {
        rle_total(pairs.drop_last()) + pairs.last().1
    }
}

/// The dense sequence the pairs stand for: each value repeated for its run
/// length, in order.
pub open spec fn rle_expand<T>(pairs: Seq<(T, u32)>) -> Seq<T>
    decreases pairs.len(),
{
    if pairs.len() == 0 {
        Seq::empty()
    } else {
        rle_expand(pairs.drop_last()) + Seq::new(
            pairs.last().1 as nat,
            |i: int| pairs.last().0,
        )
    }
}

/// Well-formedness of a pair sequence: every run is nonempty, no two
/// adjacent pairs share an equal value (runs are always coalesced on
/// insert), and the covered length fits in a machine word.
pub open spec fn rle_wf<T>(pairs: Seq<(T, u32)>) -> bool {
    &&& forall|i: int| 0 <= i < pairs.len() ==> (#[trigger] pairs[i]).1 >= 1
    &&& forall|i: int|
        0 <= i && i + 1 < pairs.len() ==> #[trigger] pairs[i].0 != #[trigger] pairs[i + 1].0
    &&& rle_total(pairs) <= usize::MAX
}

/// The pair sequence after recording one more value: the last run grows
/// by one if it holds an equal value, otherwise a new run of length one
/// starts.
pub open spec fn spec_rle_add<T>(pairs: Seq<(T, u32)>, value: T) -> Seq<(T, u32)> {
    if pairs.len() > 0 && pairs.last().0 == value {
        pairs.drop_last().push((value, (pairs.last().1 + 1) as u32))
    } else {
        pairs.push((value, 1u32))
    }
}

/// The number of maximal runs of adjacent equal values in a sequence.
pub open spec fn count_runs<T>(s: Seq<T>) -> int
    decreases s.len(),
{
    if s.len() == 0 {
        0
    } else if s.len() == 1 {
        1
    } else {
        count_runs(s.drop_last()) + if s[s.len() - 2] == s.last() {
            0int
        } else {
            1int
        }
    }
}

/// Maps positions `0 .. total` to values by run-length decompression.
pub struct RunLengthEncoder<T: PartialEq> {
    /// The `(value, run_length)` pairs, in order of first insertion.
    pub values: Vec<(T, u32)>,
}

impl<T: PartialEq> RunLengthEncoder<T> {
    /// The dense sequence of values this encoder records, one per position.
    pub open spec fn view_seq(self) -> Seq<T> {
        rle_expand(self.values@)
    }

    /// The number of positions recorded so far.
    pub open spec fn total(self) -> int {
        rle_total(self.values@)
    }

    /// Structural invariant: see [`rle_wf`].
    pub open spec fn wf(self) -> bool {
        rle_wf(self.values@)
    }

    /// Whether adding `value` would extend the last run rather than start a
    /// new one.
    pub open spec fn coalesces(self, value: T) -> bool {
        self.values@.len() > 0 && self.values@.last().0 == value
    }

    /// Machine limits that one more added value must respect: the covered
    /// length stays within a machine word and an extended run length stays
    /// within its 32-bit counter.
    pub open spec fn can_add(self, value: T) -> bool {
        &&& self.total() < usize::MAX
        &&& (self.coalesces(value) ==> self.values@.last().1 < u32::MAX)
    }

    /// Creates an empty encoder.
    pub fn new() -> (r: Self)
        ensures
            r.values@ == Seq::<(T, u32)>::empty(),
            r.wf(),
            r.total() == 0,
    {
        Self { values: Vec::new() }
    }

    /// Returns the value recorded for `position`, or `None` if `position`
    /// is beyond everything recorded so far.
    pub fn find(&self, position: usize) -> (r: Option<&T>)
        requires
            self.wf(),
        ensures
            match r {
                Some(v) => position < self.total() && *v == self.view_seq()[position as int],
                None => position >= self.total(),
            },
    {
        let mut lower_bound: usize = 0;
        let mut i: usize = 0;
        while i < self.values.len()
            invariant
                self.wf(),
                i <= self.values@.len(),
                lower_bound == rle_total(self.values@.take(i as int)),
                position >= lower_bound,
            decreases self.values@.len() - i,
        {
            proof {
                lemma_rle_total_take_succ(self.values@, i as int);
                lemma_rle_total_take_mono(self.values@, i + 1, self.values@.len() as int);
                assert(self.values@.take(self.values@.len() as int) =~= self.values@);
            }
            let count: u32 = self.values[i].1;
            let upper_bound: usize = lower_bound + count as usize;
            if position >= lower_bound && position < upper_bound {
                proof {
                    lemma_rle_expand_index(self.values@, i as int, position as int);
                }
                return Some(&self.values[i].0);
            }
            lower_bound = upper_bound;
            i = i + 1;
        }
        proof {
            assert(self.values@.take(i as int) =~= self.values@);
        }
        None
    }
}

impl<T: PartialEq + PartialEqSpec> RunLengthEncoder<T> {
    /// Records `value` for the next position: extends the last run if it
    /// holds an equal value, otherwise starts a new run of length one.
    pub fn add(&mut self, value: T)
        requires
            obeys_deep_eq::<T>(),
            old(self).wf(),
            old(self).can_add(value),
        ensures
            final(self).values@ == spec_rle_add(old(self).values@, value),
            final(self).view_seq() == old(self).view_seq().push(value),
            final(self).total() == old(self).total() + 1,
            final(self).wf(),
    {
        proof {
            lemma_rle_expand_len(self.values@);
        }
        let ghost prior: Seq<(T, u32)> = self.values@;
        match self.values.pop() {
            Some(pair) => {
                if pair.0 == value {
                    let count: u32 = pair.1;
                    self.values.push((pair.0, count + 1));
                    proof {
                        assert(self.values@ =~= prior.drop_last().push((value, (count + 1) as u32)));
                        lemma_rle_add_coalesce(prior, value);
                    }
                } else {
                    self.values.push(pair);
                    self.values.push((value, 1));
                    proof {
                        assert(self.values@ =~= prior.push((value, 1u32)));
                        lemma_rle_add_fresh(prior, value);
                    }
                }
            },
            None => {
                self.values.push((value, 1));
                proof {
                    assert(self.values@ =~= prior.push((value, 1u32)));
                    lemma_rle_add_fresh(prior, value);
                }
            },
        }
    }
}

/// The covered length of a prefix one pair longer grows by that pair's run
/// length.
proof fn lemma_rle_total_take_succ<T>(pairs: Seq<(T, u32)>, i: int)
    requires
        0 <= i < pairs.len(),
    ensures
        rle_total(pairs.take(i + 1)) == rle_total(pairs.take(i)) + pairs[i].1,
{
    assert(pairs.take(i + 1).drop_last() =~= pairs.take(i));
    assert(pairs.take(i + 1).last() == pairs[i]);
}

/// The covered length of a prefix grows monotonically with its length.
proof fn lemma_rle_total_take_mono<T>(pairs: Seq<(T, u32)>, i: int, j: int)
    requires
        0 <= i <= j <= pairs.len(),
    ensures
        rle_total(pairs.take(i)) <= rle_total(pairs.take(j)),
    decreases j - i,
{
    if i < j {
        lemma_rle_total_take_succ(pairs, j - 1);
        lemma_rle_total_take_mono(pairs, i, j - 1);
    }
}

/// The decompressed sequence is exactly as long as the covered length.
proof fn lemma_rle_expand_len<T>(pairs: Seq<(T, u32)>)
    ensures
        rle_expand(pairs).len() == rle_total(pairs),
    decreases pairs.len(),
{
    if pairs.len() > 0 {
        lemma_rle_expand_len(pairs.drop_last());
    }
}

/// A position that falls inside the `i`-th run decompresses to the `i`-th
/// run's value.
proof fn lemma_rle_expand_index<T>(pairs: Seq<(T, u32)>, i: int, pos: int)
    requires
        0 <= i < pairs.len(),
        rle_total(pairs.take(i)) <= pos < rle_total(pairs.take(i)) + pairs[i].1,
    ensures
        0 <= pos < rle_expand(pairs).len(),
        rle_expand(pairs)[pos] == pairs[i].0,
    decreases pairs.len(),
{
    lemma_rle_expand_len(pairs);
    lemma_rle_total_take_mono(pairs, 0, i);
    if i == pairs.len() - 1 {
        assert(pairs.take(i) =~= pairs.drop_last());
        lemma_rle_expand_len(pairs.drop_last());
    } else {
        assert(pairs.drop_last().take(i) =~= pairs.take(i));
        lemma_rle_expand_index(pairs.drop_last(), i, pos);
        lemma_rle_total_take_succ(pairs, i);
        lemma_rle_total_take_mono(pairs, i + 1, pairs.len() - 1);
        assert(pairs.take(pairs.len() - 1) =~= pairs.drop_last());
        lemma_rle_expand_len(pairs.drop_last());
    }
}

/// Extending the last run with an equal value appends that value to the
/// decompressed sequence and keeps the encoder well formed.
proof fn lemma_rle_add_coalesce<T>(pairs: Seq<(T, u32)>, value: T)
    requires
        rle_wf(pairs),
        pairs.len() > 0,
        pairs.last().0 == value,
        pairs.last().1 < u32::MAX,
        rle_total(pairs) < usize::MAX,
    ensures
        ({
            let grown = pairs.drop_last().push((value, (pairs.last().1 + 1) as u32));
            &&& rle_expand(grown) == rle_expand(pairs).push(value)
            &&& rle_total(grown) == rle_total(pairs) + 1
            &&& rle_wf(grown)
        }),
{
    let grown = pairs.drop_last().push((value, (pairs.last().1 + 1) as u32));
    assert(grown.drop_last() =~= pairs.drop_last());
    let c: u32 = pairs.last().1;
    assert(rle_expand(grown) == rle_expand(pairs.drop_last()) + Seq::new(
        (c + 1) as nat,
        |i: int| value,
    ));
    assert(rle_expand(pairs) == rle_expand(pairs.drop_last()) + Seq::new(
        c as nat,
        |i: int| value,
    ));
    assert(rle_expand(grown) =~= rle_expand(pairs).push(value));
    assert forall|i: int| 0 <= i < grown.len() implies (#[trigger] grown[i]).1 >= 1 by {
        if i < grown.len() - 1 {
            assert(grown[i] == pairs[i]);
        }
    }
    assert forall|i: int| 0 <= i && i + 1 < grown.len() implies #[trigger] grown[i].0
        != #[trigger] grown[i + 1].0 by {
        assert(grown[i] == pairs[i]);
        if i + 1 < grown.len() - 1 {
            assert(grown[i + 1] == pairs[i + 1]);
        } else {
            assert(pairs[i + 1] == pairs.last());
        }
    }
}

/// Starting a new run appends its value to the decompressed sequence and
/// keeps the encoder well formed.
proof fn lemma_rle_add_fresh<T>(pairs: Seq<(T, u32)>, value: T)
    requires
        rle_wf(pairs),
        pairs.len() > 0 ==> pairs.last().0 != value,
        rle_total(pairs) < usize::MAX,
    ensures
        ({
            let grown = pairs.push((value, 1u32));
            &&& rle_expand(grown) == rle_expand(pairs).push(value)
            &&& rle_total(grown) == rle_total(pairs) + 1
            &&& rle_wf(grown)
        }),
{
    let grown = pairs.push((value, 1u32));
    assert(grown.drop_last() =~= pairs);
    assert(rle_expand(grown) =~= rle_expand(pairs).push(value));
    assert forall|i: int| 0 <= i && i + 1 < grown.len() implies #[trigger] grown[i].0
        != #[trigger] grown[i + 1].0 by {
        assert(grown[i] == pairs[i]);
        if i + 1 < grown.len() - 1 {
            assert(grown[i + 1] == pairs[i + 1]);
        } else {
            assert(pairs[i] == pairs.last());
        }
    }
}

/// Law: a well-formed encoder stores exactly one pair per maximal run of
/// adjacent equal values in the sequence it records; in particular,
/// recording one value `k` times in a row keeps the pair count at one, and
/// the pair count only grows where the recorded value changes.
pub proof fn lemma_pair_count_is_run_count<T: PartialEq>(enc: RunLengthEncoder<T>)
    requires
        enc.wf(),
    ensures
        enc.values@.len() == count_runs(enc.view_seq()),
{
    lemma_rle_pairs_count_runs(enc.values@);
}

/// Law, continued: when an encoder holds a single pair — as after recording
/// one value `k` times in a row — that pair's run length is exactly the
/// number of positions recorded.
pub proof fn lemma_single_pair_run_length<T: PartialEq>(enc: RunLengthEncoder<T>)
    requires
        enc.values@.len() == 1,
    ensures
        enc.values@[0].1 == enc.total(),
{
    assert(enc.values@.drop_last() =~= Seq::<(T, u32)>::empty());
    assert(rle_total(Seq::<(T, u32)>::empty()) == 0);
    assert(enc.values@.last() == enc.values@[0]);
}

/// The inductive core of [`lemma_pair_count_is_run_count`], over raw pair
/// sequences.
proof fn lemma_rle_pairs_count_runs<T>(pairs: Seq<(T, u32)>)
    requires
        rle_wf(pairs),
    ensures
        pairs.len() == count_runs(rle_expand(pairs)),
    decreases pairs.len(),
{
    if pairs.len() > 0 {
        let rest = pairs.drop_last();
        assert(rle_wf(rest)) by {
            lemma_rle_total_take_mono(pairs, pairs.len() - 1, pairs.len() as int);
            assert(pairs.take(pairs.len() - 1) =~= rest);
            assert(pairs.take(pairs.len() as int) =~= pairs);
        }
        lemma_rle_pairs_count_runs(rest);
        lemma_rle_expand_len(rest);
        if rest.len() > 0 {
            lemma_rle_expand_last(rest);
            let j = pairs.len() - 2;
            assert(pairs[j].0 != pairs[j + 1].0);
            assert(rest.last().0 != pairs.last().0);
        }
        lemma_count_runs_append_run(
            rle_expand(rest),
            pairs.last().0,
            pairs.last().1 as nat,
        );
    }
}

/// The last decompressed value of a nonempty well-formed encoder is the last
/// pair's value.
proof fn lemma_rle_expand_last<T>(pairs: Seq<(T, u32)>)
    requires
        pairs.len() > 0,
        pairs.last().1 >= 1,
    ensures
        rle_expand(pairs).len() > 0,
        rle_expand(pairs).last() == pairs.last().0,
{
    lemma_rle_expand_len(pairs.drop_last());
}

/// Appending a nonempty run of a fresh value adds exactly one run.
proof fn lemma_count_runs_append_run<T>(s: Seq<T>, value: T, count: nat)
    requires
        count >= 1,
        s.len() > 0 ==> s.last() != value,
    ensures
        count_runs(s + Seq::new(count, |i: int| value)) == count_runs(s) + 1,
    decreases count,
{
    if count == 1 {
        assert(s + Seq::new(1, |i: int| value) =~= s.push(value));
        lemma_count_runs_push(s, value);
    } else {
        lemma_count_runs_append_run(s, value, (count - 1) as nat);
        let shorter = s + Seq::new((count - 1) as nat, |i: int| value);
        assert(s + Seq::new(count, |i: int| value) =~= shorter.push(value));
        assert(shorter.last() == value);
        lemma_count_runs_push(shorter, value);
    }
}

/// Appending one value adds a run exactly when it differs from the last
/// value.
proof fn lemma_count_runs_push<T>(s: Seq<T>, value: T)
    ensures
        count_runs(s.push(value)) == count_runs(s) + if s.len() > 0 && s.last() == value {
            0int
        } else {
            1int
        },
{
    let grown = s.push(value);
    assert(grown.drop_last() =~= s);
    if s.len() > 0 {
        assert(grown[grown.len() - 2] == s.last());
    }
}

} // verus!
