use vstd::prelude::*;

use rand::rngs::ThreadRng;

use crate::random::{gen_index, thread_rng, ALPHABET_LEN};

verus! {

/// Letter indices drawn one by one from the thread's random generator,
/// with the record of every index drawn so far.
pub struct LetterDraws {
    rng: ThreadRng,
    drawn: Ghost<Seq<usize>>,
}

impl LetterDraws {
    /// The indices drawn so far, in order.
    pub closed spec fn drawn(&self) -> Seq<usize> {
        self.drawn@
    }

    /// Draws from the thread's generator, with nothing drawn yet.
    pub fn new() -> (r: Self)
        ensures
            r.drawn() == Seq::<usize>::empty(),
    {
        LetterDraws { rng: thread_rng(), drawn: Ghost(Seq::empty()) }
    }

    /// Draws one more letter index and records it.
    pub fn draw(&mut self) -> (r: usize)
        ensures
            r < ALPHABET_LEN,
            final(self).drawn() == old(self).drawn().push(r),
    {
        let r = gen_index(&mut self.rng, ALPHABET_LEN);
        self.drawn = Ghost(self.drawn@.push(r));
        r
    }
}

} // verus!
