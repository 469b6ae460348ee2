//! Random choices, made by `fastrand`, and the coin flips that random player choices
//! are read from.
use vstd::prelude::*;

verus! {

/// Calls `fastrand::usize(0..n)`: a random index below `n`. `fastrand` panics on an
/// empty range, so `n` must be positive. Which index comes back is left open.
#[verifier::external_body]
pub(crate) fn random_index(n: usize) -> (r: usize)
    requires
        n > 0,
    ensures
        r < n,
{
    fastrand::usize(0..n)
}

/// Calls `fastrand::u64(..)`: any `u64` at all; nothing is stated of which.
#[verifier::external_body]
pub(crate) fn random_u64() -> (r: u64) {
    fastrand::u64(..)
}

/// Calls `fastrand::bool()`: either value; nothing is stated of which.
#[verifier::external_body]
pub(crate) fn random_bool() -> (r: bool) {
    fastrand::bool()
}

/// Where random choices come from: each choice is one coin flip, taken from a list of
/// planned flips while it lasts and drawn at random after that. Every flip made is kept,
/// in order.
pub struct Coins {
    pub planned: Vec<bool>,
    pub flips: Vec<bool>,
}

impl View for Coins {
    type V = Seq<bool>;

    /// The flips made so far, in order.
    open spec fn view(&self) -> Seq<bool> {
        self.flips@
    }
}

/// The stream `cs` gives, from its start, the flips `made`.
pub open spec fn agrees(cs: spec_fn(int) -> bool, made: Seq<bool>) -> bool {
    forall|i: int| 0 <= i < made.len() ==> cs(i) == #[trigger] made[i]
}

/// `b` is `a` with flips added after it.
pub open spec fn extends(b: Seq<bool>, a: Seq<bool>) -> bool {
    &&& a.len() <= b.len()
    &&& forall|i: int| 0 <= i < a.len() ==> #[trigger] b[i] == a[i]
}

/// A stream that gives the flips `made` and then `false`.
pub open spec fn stream_of(made: Seq<bool>) -> spec_fn(int) -> bool {
    |i: int| if 0 <= i < made.len() { made[i] } else { false }
}

/// A stream that gives the flips of `b` also gives those of `a` when `b` extends `a`.
pub proof fn lemma_agrees_prefix(cs: spec_fn(int) -> bool, b: Seq<bool>, a: Seq<bool>)
    requires
        agrees(cs, b),
        extends(b, a),
    ensures
        agrees(cs, a),
{
    assert forall|i: int| 0 <= i < a.len() implies cs(i) == #[trigger] a[i] by {
        assert(b[i] == a[i]);
    }
}

/// `stream_of(made)` gives the flips `made`.
pub proof fn lemma_stream_of_agrees(made: Seq<bool>)
    ensures
        agrees(stream_of(made), made),
{
}

impl Coins {
    /// No flips planned: every flip is drawn at random.
    pub fn new() -> (r: Coins)
        ensures
            r@ == Seq::<bool>::empty(),
            r.planned@ == Seq::<bool>::empty(),
    {
        Coins { planned: Vec::new(), flips: Vec::new() }
    }

    /// The first flips are `planned`, in order; any after them are drawn at random.
    pub fn planned(planned: Vec<bool>) -> (r: Coins)
        ensures
            r@ == Seq::<bool>::empty(),
            r.planned@ == planned@,
    {
        Coins { planned, flips: Vec::new() }
    }

    /// Makes the next flip.
    pub fn flip(&mut self) -> (b: bool)
        ensures
            final(self)@ == old(self)@.push(b),
            final(self).planned == old(self).planned,
            old(self)@.len() < old(self).planned@.len() ==> b == old(self).planned@[old(self)@.len() as int],
    {
        let n = self.flips.len();
        let b = if n < self.planned.len() {
            self.planned[n]
        } else {
            random_bool()
        };
        self.flips.push(b);
        b
    }
}

} // verus!
