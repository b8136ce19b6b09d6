//! The source of the numbers that make jump labels distinct.

use vstd::prelude::*;

verus! {

/// Draws a number from the thread-local generator of the `rand` crate, by
/// `rand::random`. Nothing is claimed of the number: any `u32` may come back,
/// and two calls may or may not agree. The generator seeds itself from the
/// operating system on a thread's first draw and again after a fixed
/// amount of output, and it registers a handler for forks of the process;
/// it panics where the system gives it no seed or refuses the handler. No
/// argument of this function can rule that out.
#[verifier::external_body]
fn random_id() -> (r: u32) {
    rand::random::<u32>()
}

/// The numbers that a counting source hands out: 0, 1, 2 and so on, and
/// again from 0 behind the largest `u32`.
pub open spec fn numbering(n: nat) -> Seq<u32> {
    Seq::new(n, |k: int| (k % 0x1_0000_0000) as u32)
}

/// A counting source hands out no number twice among its first 2^32.
pub proof fn law_numbering_is_distinct(n: nat, i: int, j: int)
    requires
        n <= 0x1_0000_0000,
        0 <= i < n,
        0 <= j < n,
        i != j,
    ensures
        numbering(n)[i] != numbering(n)[j],
{
}

/// A source of label numbers. It first hands out the numbers it was given,
/// in order. When those are used up, a counting source goes on counting
/// from the number of labels handed out, and any other source draws random
/// numbers. It records every number that it has handed out.
pub struct Labels {
    given: Vec<u32>,
    used: Vec<u32>,
    counting: bool,
}

impl Labels {
    /// The numbers that the source was made with.
    pub closed spec fn given(&self) -> Seq<u32> {
        self.given@
    }

    /// The numbers handed out so far, in order.
    pub closed spec fn used(&self) -> Seq<u32> {
        self.used@
    }

    /// Whether the source counts.
    pub closed spec fn counts(&self) -> bool {
        self.counting
    }

    /// Whatever was handed out so far agrees with what was given, and
    /// behind that, in a counting source, with the numbering.
    pub open spec fn wf(&self) -> bool {
        &&& forall|k: int|
            0 <= k < self.used().len() && k < self.given().len() ==> self.used()[k] == self.given()[k]
        &&& self.counts() ==> forall|k: int|
            self.given().len() <= k < self.used().len() ==> self.used()[k] == numbering(
                self.used().len(),
            )[k]
    }

    /// A source that hands out `given` first and random numbers then.
    pub fn new(given: Vec<u32>) -> (r: Self)
        ensures
            r.given() == given@,
            r.used() == Seq::<u32>::empty(),
            !r.counts(),
            r.wf(),
    {
        Labels { given, used: Vec::new(), counting: false }
    }

    /// A source that counts from 0.
    pub fn numbered() -> (r: Self)
        ensures
            r.given() == Seq::<u32>::empty(),
            r.used() == Seq::<u32>::empty(),
            r.counts(),
            r.wf(),
    {
        Labels { given: Vec::new(), used: Vec::new(), counting: true }
    }

    /// The next number.
    pub fn next(&mut self) -> (r: u32)
        requires
            old(self).wf(),
        ensures
            final(self).wf(),
            final(self).given() == old(self).given(),
            final(self).counts() == old(self).counts(),
            final(self).used() == old(self).used().push(r),
            old(self).used().len() < old(self).given().len() ==> r == old(self).given()[
                old(self).used().len() as int
            ],
    {
        let n = self.used.len();
        let id = if n < self.given.len() {
            self.given[n]
        } else if self.counting {
            (n as u64 % 0x1_0000_0000) as u32
        } else {
            random_id()
        };
        self.used.push(id);
        id
    }
}

} // verus!
