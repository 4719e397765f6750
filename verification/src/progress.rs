//! The count of sample casts from which a render reports how far it has come.

use vstd::prelude::*;

verus! {

/// What a [`Progress`] holds: how many casts are done, out of how many.
///
/// The progress that is reported is the fraction `done / total`.
pub struct Tally {
    pub done: nat,
    pub total: nat,
}

impl Tally {
    /// No more casts are done than there are.
    pub open spec fn well_formed(self) -> bool {
        self.done <= self.total
    }

    /// The tally of a render of `total` casts before its first.
    pub open spec fn start(total: nat) -> Tally {
        Tally { done: 0, total }
    }

    /// Whether every cast is done.
    pub open spec fn is_complete(self) -> bool {
        self.done == self.total
    }

    /// The tally after one more cast. Once every cast is done, none is added.
    pub open spec fn advanced(self) -> Tally {
        if self.done < self.total {
            Tally { done: self.done + 1, ..self }
        } else {
            self
        }
    }

    /// The tally after `casts` more casts.
    pub open spec fn after(self, casts: nat) -> Tally
        decreases casts,
    {
        if casts == 0 {
            self
        } else {
            self.advanced().after((casts - 1) as nat)
        }
    }

    /// Whether the fraction of this tally is no greater than that of `other`:
    /// `done / total <= other.done / other.total`, with both sides brought to
    /// the denominator `total * other.total`.
    pub open spec fn at_most(self, other: Tally) -> bool {
        self.done * other.total <= other.done * self.total
    }

    /// Whether the fraction of this tally is exactly one.
    pub open spec fn is_whole(self) -> bool {
        self.total > 0 && self.done == self.total
    }

    /// After `casts` more casts that many more are done, up to the total.
    pub proof fn lemma_after(self, casts: nat)
        requires
            self.well_formed(),
        ensures
            self.after(casts).total == self.total,
            self.after(casts).done == if self.done + casts <= self.total {
                self.done + casts
            } else {
                self.total
            },
        decreases casts,
    {
        if casts > 0 {
            self.advanced().lemma_after((casts - 1) as nat);
        }
    }

    /// Progress never runs backwards: of two moments of one render, the
    /// later one reports no smaller a fraction.
    pub proof fn lemma_never_backwards(self, sooner: nat, later: nat)
        requires
            self.well_formed(),
            sooner <= later,
        ensures
            self.after(sooner).at_most(self.after(later)),
    {
        self.lemma_after(sooner);
        self.lemma_after(later);
        let a = self.after(sooner).done;
        let b = self.after(later).done;
        assert(a * self.total <= b * self.total) by (nonlinear_arith)
            requires
                a <= b,
        ;
    }

    /// A render reports exactly one with its last cast, and not before.
    pub proof fn lemma_whole_at_the_end(total: nat, casts: nat)
        requires
            casts <= total,
            0 < total,
        ensures
            Tally::start(total).after(casts).is_whole() <==> casts == total,
    {
        Tally::start(total).lemma_after(casts);
    }
}

/// The casts of one render, counted as they are made.
#[derive(Debug)]
pub struct Progress {
    casts_done: usize,
    casts_total: usize,
}

impl View for Progress {
    type V = Tally;

    closed spec fn view(&self) -> Tally {
        Tally { done: self.casts_done as nat, total: self.casts_total as nat }
    }
}

impl Progress {
    #[verifier::type_invariant]
    spec fn inv(&self) -> bool {
        self.casts_done <= self.casts_total
    }

    /// The count for a render that casts `samples` times through each cell of
    /// a picture of `width` by `height` cells, before its first cast.
    ///
    /// There is none where the number of casts cannot be held.
    pub fn new(samples: usize, width: usize, height: usize) -> (progress: Option<Progress>)
        ensures
            match progress {
                Some(count) => samples * width * height <= usize::MAX && count@ == Tally::start(
                    (samples * width * height) as nat,
                ),
                None => samples * width * height > usize::MAX,
            },
    {
        if samples == 0 || width == 0 || height == 0 {
            assert(samples * width * height == 0) by (nonlinear_arith)
                requires
                    samples == 0 || width == 0 || height == 0,
            ;
            return Some(Progress { casts_done: 0, casts_total: 0 });
        }
        let per_row = match samples.checked_mul(width) {
            Some(product) => product,
            None => {
                assert(samples * width * height > usize::MAX) by (nonlinear_arith)
                    requires
                        samples * width > usize::MAX,
                        height >= 1,
                ;
                return None;
            },
        };
        match per_row.checked_mul(height) {
            Some(casts_total) => Some(Progress { casts_done: 0, casts_total }),
            None => None,
        }
    }

    /// Counts one more cast, and says whether it did: once every cast is
    /// done, none is added.
    pub fn advance(&mut self) -> (counted: bool)
        ensures
            final(self)@ == old(self)@.advanced(),
            counted == !old(self)@.is_complete(),
            final(self)@.well_formed(),
    {
        proof {
            use_type_invariant(&*self);
        }
        if self.casts_done < self.casts_total {
            self.casts_done = self.casts_done + 1;
            true
        } else {
            false
        }
    }

    /// The number of casts that are done.
    pub fn casts_done(&self) -> (done: usize)
        ensures
            done == self@.done,
            self@.well_formed(),
    {
        proof {
            use_type_invariant(self);
        }
        self.casts_done
    }

    /// The number of casts of the whole render.
    pub fn casts_total(&self) -> (total: usize)
        ensures
            total == self@.total,
            self@.well_formed(),
    {
        proof {
            use_type_invariant(self);
        }
        self.casts_total
    }

    /// Whether every cast is done.
    pub fn is_complete(&self) -> (complete: bool)
        ensures
            complete == self@.is_complete(),
    {
        self.casts_done == self.casts_total
    }
}

} // verus!
