//! The rolling latency samples of one backend.

use vstd::prelude::*;

verus! {

/// How many samples a backend keeps.
pub const SAMPLE_WINDOW: usize = 20;

/// The most recent samples of `samples`, as many as the window holds.
pub open spec fn latest(samples: Seq<u128>) -> Seq<u128> {
    if samples.len() <= SAMPLE_WINDOW {
        samples
    } else {
        samples.skip(samples.len() - SAMPLE_WINDOW)
    }
}

/// What a window holds after the samples `more` were appended to it one by
/// one.
pub open spec fn appended(window: Seq<u128>, more: Seq<u128>) -> Seq<u128>
    decreases more.len(),
{
    if more.len() == 0 {
        window
    } else {
        appended(latest(window.push(more[0])), more.drop_first())
    }
}

/// After any run of appends a window holds the most recent samples, and no
/// more than it has room for.
pub proof fn lemma_window_keeps_latest(window: Seq<u128>, more: Seq<u128>)
    requires
        window.len() <= SAMPLE_WINDOW,
    ensures
        appended(window, more) == latest(window + more),
        appended(window, more).len() <= SAMPLE_WINDOW,
    decreases more.len(),
{
    if more.len() == 0 {
        assert(window + more =~= window);
    } else {
        let next = latest(window.push(more[0]));
        lemma_window_keeps_latest(next, more.drop_first());
        assert(latest(next + more.drop_first()) =~= latest(window + more));
    }
}

/// The samples of one backend, oldest first. The window holds no more than
/// `SAMPLE_WINDOW` of them.
#[derive(Debug)]
pub struct SampleWindow {
    items: Vec<u128>,
}

impl View for SampleWindow {
    type V = Seq<u128>;

    /// The samples, oldest first.
    closed spec fn view(&self) -> Seq<u128> {
        self.items@
    }
}

impl SampleWindow {
    #[verifier::type_invariant]
    spec fn bounded(&self) -> bool {
        self.items@.len() <= SAMPLE_WINDOW
    }

    /// A window without samples.
    pub fn new() -> (w: Self)
        ensures
            w@ == Seq::<u128>::empty(),
    {
        SampleWindow { items: Vec::new() }
    }

    /// How many samples the window holds.
    pub fn len(&self) -> (n: usize)
        ensures
            n == self@.len(),
            n <= SAMPLE_WINDOW,
    {
        proof {
            use_type_invariant(self);
        }
        self.items.len()
    }

    /// The samples, oldest first.
    pub fn to_vec(&self) -> (v: Vec<u128>)
        ensures
            v@ == self@,
            v@.len() <= SAMPLE_WINDOW,
    {
        proof {
            use_type_invariant(self);
        }
        let mut v: Vec<u128> = Vec::new();
        let mut i: usize = 0;
        while i < self.items.len()
            invariant
                i <= self.items@.len(),
                v@ == self.items@.take(i as int),
            decreases self.items@.len() - i,
        {
            v.push(self.items[i]);
            proof {
                assert(self.items@.take(i + 1) =~= self.items@.take(i as int).push(
                    self.items@[i as int],
                ));
            }
            i += 1;
        }
        proof {
            assert(self.items@.take(i as int) =~= self.items@);
        }
        v
    }

    /// The window after `ms` was appended: where the window was full, its
    /// oldest sample is gone.
    pub fn with(&self, ms: u128) -> (w: Self)
        ensures
            w@ == latest(self@.push(ms)),
    {
        proof {
            use_type_invariant(self);
        }
        let n = self.items.len();
        let start: usize = if n >= SAMPLE_WINDOW {
            n + 1 - SAMPLE_WINDOW
        } else {
            0
        };
        let mut items: Vec<u128> = Vec::new();
        let mut i: usize = start;
        while i < n
            invariant
                start <= i <= n,
                n == self.items@.len(),
                items@ == self.items@.subrange(start as int, i as int),
            decreases n - i,
        {
            items.push(self.items[i]);
            proof {
                assert(self.items@.subrange(start as int, i + 1) =~= self.items@.subrange(
                    start as int,
                    i as int,
                ).push(self.items@[i as int]));
            }
            i += 1;
        }
        items.push(ms);
        proof {
            assert(items@ =~= latest(self.items@.push(ms)));
        }
        SampleWindow { items }
    }
}

} // verus!
