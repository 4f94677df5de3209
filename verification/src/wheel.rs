//! The weighted random table: the reward-selection primitive. It holds
//! `(weight, payload)` entries and pops one entry with probability
//! proportional to its weight, removing it from the table. The drawing is
//! done by the random-wheel crate behind trusted wrappers; everything around
//! the draw is verified over the table's contents, viewed as a sequence of
//! entries in insertion order.

use vstd::prelude::*;

verus! {

/// Weights are positive integers, and the weights in one table may sum to at
/// most this bound (2^24): within it the backing wheel's float bookkeeping is
/// exact, so a draw from a non-empty table always lands on an entry.
pub const MAX_WEIGHT_SUM: u64 = 16_777_216;

/// The total weight of a sequence of table entries.
pub open spec fn weight_sum(s: Seq<(u64, u32)>) -> int
    decreases s.len(),
{
    if s.len() == 0 {
        0
    } else {
        s.first().0 + weight_sum(s.drop_first())
    }
}

pub open spec fn weights_positive(s: Seq<(u64, u32)>) -> bool {
    forall|i: int| 0 <= i < s.len() ==> 1 <= (#[trigger] s[i]).0
}

pub proof fn lemma_weight_sum_push(s: Seq<(u64, u32)>, e: (u64, u32))
    ensures
        weight_sum(s.push(e)) == weight_sum(s) + e.0,
    decreases s.len(),
{
    assert(s.push(e).len() == s.len() + 1);
    if s.len() == 0 {
        assert(s.push(e).first() == e);
        assert(s.push(e).drop_first() =~= Seq::<(u64, u32)>::empty());
        assert(weight_sum(s.push(e).drop_first()) == 0);
        assert(weight_sum(s.push(e)) == e.0 + weight_sum(s.push(e).drop_first()));
    } else {
        assert(s.push(e).first() == s.first());
        assert(s.push(e).drop_first() =~= s.drop_first().push(e));
        lemma_weight_sum_push(s.drop_first(), e);
        assert(weight_sum(s.push(e)) == s.first().0 + weight_sum(s.push(e).drop_first()));
        assert(weight_sum(s) == s.first().0 + weight_sum(s.drop_first()));
    }
}

pub proof fn lemma_weight_sum_remove(s: Seq<(u64, u32)>, i: int)
    requires
        0 <= i < s.len(),
    ensures
        weight_sum(s.remove(i)) == weight_sum(s) - s[i].0,
    decreases s.len(),
{
    if i == 0 {
        assert(s.remove(0) =~= s.drop_first());
    } else {
        assert(s.remove(i).drop_first() =~= s.drop_first().remove(i - 1));
        lemma_weight_sum_remove(s.drop_first(), i - 1);
    }
}

/// The entries a wheel holds, in insertion order, each as its integral
/// weight and its payload.
pub uninterp spec fn wheel_cards(w: random_wheel::RandomWheel<u32>) -> Seq<(u64, u32)>;

#[verifier::external_type_specification]
#[verifier::external_body]
#[verifier::reject_recursive_types(T)]
pub struct ExRandomWheel<T>(random_wheel::RandomWheel<T>);

/// Relies on random_wheel::RandomWheel::new: the new wheel holds no entries.
#[verifier::external_body]
fn wheel_new() -> (r: random_wheel::RandomWheel<u32>)
    ensures
        wheel_cards(r) == Seq::<(u64, u32)>::empty(),
{
    random_wheel::RandomWheel::new()
}

/// Relies on random_wheel::RandomWheel::push: appends one `(weight, value)`
/// entry at the back of the wheel. The weight crosses the boundary as a
/// float; an integral weight whose running sum stays at or below
/// `MAX_WEIGHT_SUM` is represented exactly, and `push` panics only on a
/// non-positive or overflowing weight, which the bounds here rule out.
#[verifier::external_body]
fn wheel_push(w: &mut random_wheel::RandomWheel<u32>, weight: u64, value: u32)
    requires
        1 <= weight,
        weights_positive(wheel_cards(*old(w))),
        weight + weight_sum(wheel_cards(*old(w))) <= MAX_WEIGHT_SUM,
    ensures
        wheel_cards(*final(w)) == wheel_cards(*old(w)).push((weight, value)),
{
    w.push(weight as _, value)
}

/// Relies on random_wheel::RandomWheel::pop: on an empty wheel it returns
/// nothing and changes nothing; otherwise it removes one entry, chosen with
/// probability proportional to its weight, and returns it. Which entry comes
/// out is random, so the contract only says that some entry does. With
/// integral weights summing to at most `MAX_WEIGHT_SUM` the wheel's float
/// bookkeeping is exact, so a non-empty wheel always yields an entry.
#[verifier::external_body]
fn wheel_pop(w: &mut random_wheel::RandomWheel<u32>) -> (r: Option<(u64, u32)>)
    requires
        weights_positive(wheel_cards(*old(w))),
        weight_sum(wheel_cards(*old(w))) <= MAX_WEIGHT_SUM,
    ensures
        wheel_cards(*old(w)).len() == 0 ==> r is None && wheel_cards(*final(w)) == wheel_cards(
            *old(w),
        ),
        wheel_cards(*old(w)).len() > 0 ==> r is Some && (exists|i: int|
            0 <= i < wheel_cards(*old(w)).len() && r == Some(wheel_cards(*old(w))[i])
                && wheel_cards(*final(w)) == wheel_cards(*old(w)).remove(i)),
{
    match w.pop() {
        Some((weight, value)) => Some((weight as _, value)),
        None => None,
    }
}

/// A weighted random table of `(weight, payload)` entries. Its view is the
/// sequence of entries in insertion order; insertion order never affects
/// which entry a pop selects.
pub struct WeightedTable {
    inner: random_wheel::RandomWheel<u32>,
}

impl View for WeightedTable {
    type V = Seq<(u64, u32)>;

    closed spec fn view(&self) -> Seq<(u64, u32)> {
        wheel_cards(self.inner)
    }
}

impl WeightedTable {
    pub open spec fn wf(self) -> bool {
        &&& weights_positive(self@)
        &&& weight_sum(self@) <= MAX_WEIGHT_SUM
    }

    pub fn new() -> (r: WeightedTable)
        ensures
            r.wf(),
            r@ == Seq::<(u64, u32)>::empty(),
    {
        WeightedTable { inner: wheel_new() }
    }

    /// Appends an entry; duplicate payloads are permitted and weigh in
    /// independently.
    pub fn push(&mut self, weight: u64, value: u32)
        requires
            old(self).wf(),
            1 <= weight,
            weight + weight_sum(old(self)@) <= MAX_WEIGHT_SUM,
        ensures
            final(self).wf(),
            final(self)@ == old(self)@.push((weight, value)),
    {
        proof {
            lemma_weight_sum_push(self@, (weight, value));
        }
        wheel_push(&mut self.inner, weight, value);
        proof {
            assert forall|i: int| 0 <= i < self@.len() implies 1 <= (#[trigger] self@[i]).0 by {
                if i < self@.len() - 1 {
                    assert(self@[i] == old(self)@[i]);
                }
            }
        }
    }

    /// Pops one entry with probability proportional to its weight relative to
    /// the total, removing it from the table; an empty table yields nothing
    /// and stays empty. A caller that requires a guaranteed draw must treat
    /// an empty result as a fatal misconfiguration.
    pub fn pop(&mut self) -> (r: Option<(u64, u32)>)
        requires
            old(self).wf(),
        ensures
            final(self).wf(),
            old(self)@.len() == 0 ==> r is None && final(self)@ == old(self)@,
            old(self)@.len() > 0 ==> r is Some && (exists|i: int|
                0 <= i < old(self)@.len() && r == Some(old(self)@[i]) && final(self)@ == old(
                    self,
                )@.remove(i)),
    {
        let r = wheel_pop(&mut self.inner);
        proof {
            if old(self)@.len() > 0 {
                let i = choose|i: int|
                    0 <= i < old(self)@.len() && r == Some(old(self)@[i]) && self@ == old(
                        self,
                    )@.remove(i);
                lemma_weight_sum_remove(old(self)@, i);
                assert forall|j: int| 0 <= j < self@.len() implies 1 <= (#[trigger] self@[j]).0 by {
                    if j < i {
                        assert(self@[j] == old(self)@[j]);
                    } else {
                        assert(self@[j] == old(self)@[j + 1]);
                    }
                }
            }
        }
        r
    }

    /// A draw that the caller requires to succeed: an empty table is the
    /// fatal misconfiguration — it means a required entry was omitted — and
    /// surfaces as the explicit error, never as a crash or a default value.
    pub fn pop_required(&mut self) -> (r: Result<(u64, u32), crate::events::SimError>)
        requires
            old(self).wf(),
        ensures
            final(self).wf(),
            r is Err <==> old(self)@.len() == 0,
            r matches Err(e) ==> e == crate::events::SimError::EmptyWeightedTable && final(self)@
                == old(self)@,
            r matches Ok(entry) ==> exists|i: int|
                0 <= i < old(self)@.len() && entry == old(self)@[i] && final(self)@ == old(
                    self,
                )@.remove(i),
    {
        match self.pop() {
            Some(entry) => Ok(entry),
            None => Err(crate::events::SimError::EmptyWeightedTable),
        }
    }
}

} // verus!
