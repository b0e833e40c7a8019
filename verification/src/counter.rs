//! The reference counts: machine words, and the operations that are made on them.
use vstd::prelude::*;

verus! {

/// The bit of a strong count that an upgrade sets while it is under way.
pub const USIZE_TOP_BIT: usize = 1usize << (usize::BITS - 1);

/// A machine word, changed by single operations that return the value that it had before.
///
/// Like the atomic operations that it stands for, [`Counter::fetch_add`] and
/// [`Counter::fetch_sub`] wrap around.
#[derive(Clone, Copy, Debug, PartialEq, Eq, Structural)]
pub struct Counter {
    pub word: usize,
}

/// Whether an upgrade succeeds where the strong count is `count`.
pub open spec fn upgradable(count: usize) -> bool {
    count != 0 && count != USIZE_TOP_BIT
}

/// The strong count that an upgrade leaves where it found `count`.
///
/// While the top bit and at least one more count are free, that is `count + 1` if there are
/// strong handles, and 0 if there are none.
pub open spec fn upgraded(count: usize) -> usize {
    if !upgradable(count) {
        0
    } else {
        ((count + 1) % (USIZE_TOP_BIT as int)) as usize
    }
}

/// Whether `count` handles leave the top bit unused, and one more handle would too.
pub open spec fn has_room(count: usize) -> bool {
    count + 1 < USIZE_TOP_BIT
}

/// The top bit is half of the range of a word.
pub proof fn lemma_top_bit()
    ensures
        USIZE_TOP_BIT * 2 == usize::MAX + 1,
{
    let max: usize = usize::MAX;
    assert((1usize << ((usize::BITS - 1) as u32)) * 2 == (!0usize) + 1) by (bit_vector);
    assert(max <= !0usize) by (bit_vector);
}

/// Setting the top bit of a count that does not use it adds it, and clearing it takes it off.
pub proof fn lemma_top_bit_of(count: usize)
    ensures
        count < USIZE_TOP_BIT ==> count | USIZE_TOP_BIT == count + USIZE_TOP_BIT,
        count >= USIZE_TOP_BIT ==> count | USIZE_TOP_BIT == count,
        count < USIZE_TOP_BIT ==> count & !USIZE_TOP_BIT == count,
        count >= USIZE_TOP_BIT ==> count & !USIZE_TOP_BIT == count - USIZE_TOP_BIT,
{
    let top: usize = USIZE_TOP_BIT;
    assert(top == 1usize << ((usize::BITS - 1) as u32));
    assert(count < top ==> (count | top) == count + top) by (bit_vector)
        requires
            top == 1usize << ((usize::BITS - 1) as u32),
    ;
    assert(count >= top ==> (count | top) == count) by (bit_vector)
        requires
            top == 1usize << ((usize::BITS - 1) as u32),
    ;
    assert(count < top ==> (count & !top) == count) by (bit_vector)
        requires
            top == 1usize << ((usize::BITS - 1) as u32),
    ;
    assert(count >= top ==> (count & !top) == count - top) by (bit_vector)
        requires
            top == 1usize << ((usize::BITS - 1) as u32),
    ;
}

impl Counter {
    /// A word that holds `word`.
    pub fn new(word: usize) -> (counter: Self)
        ensures
            counter.word == word,
    {
        Counter { word }
    }

    /// The value of the word.
    pub fn load(&self) -> (word: usize)
        ensures
            word == self.word,
    {
        self.word
    }

    /// Replaces the value of the word.
    pub fn store(&mut self, word: usize)
        ensures
            final(self).word == word,
    {
        self.word = word;
    }

    /// Adds `n`, wrapping around. Returns the value from before.
    pub fn fetch_add(&mut self, n: usize) -> (before: usize)
        ensures
            before == old(self).word,
            final(self).word == before.wrapping_add(n),
    {
        let before: usize = self.word;
        self.word = before.wrapping_add(n);
        before
    }

    /// Subtracts `n`, wrapping around. Returns the value from before.
    pub fn fetch_sub(&mut self, n: usize) -> (before: usize)
        ensures
            before == old(self).word,
            final(self).word == before.wrapping_sub(n),
    {
        let before: usize = self.word;
        self.word = before.wrapping_sub(n);
        before
    }

    /// Sets the bits of `mask`. Returns the value from before.
    pub fn fetch_or(&mut self, mask: usize) -> (before: usize)
        ensures
            before == old(self).word,
            final(self).word == before | mask,
    {
        let before: usize = self.word;
        self.word = before | mask;
        before
    }

    /// Clears the bits that are not in `mask`. Returns the value from before.
    pub fn fetch_and(&mut self, mask: usize) -> (before: usize)
        ensures
            before == old(self).word,
            final(self).word == before & mask,
    {
        let before: usize = self.word;
        self.word = before & mask;
        before
    }

    /// Takes one more strong count, unless there is none: returns whether it did.
    ///
    /// The top bit is set first, so that a handle that is dropped in the meantime is not taken
    /// for the last one.
    pub fn try_upgrade(&mut self) -> (granted: bool)
        ensures
            granted == upgradable(old(self).word),
            final(self).word == upgraded(old(self).word),
            has_room(old(self).word) && granted ==> final(self).word == old(self).word + 1,
            granted <==> old(self).word != 0 && old(self).word != USIZE_TOP_BIT,
            !granted ==> final(self).word == 0,
            0 < old(self).word && old(self).word + 1 < USIZE_TOP_BIT ==> final(self).word == old(
                self,
            ).word + 1,
    {
        let count: usize = self.fetch_or(USIZE_TOP_BIT);
        proof {
            lemma_top_bit();
            lemma_top_bit_of(count);
        }
        if count == 0 || count == USIZE_TOP_BIT {
            self.store(0);
            false
        } else {
            let locked: usize = self.fetch_add(1);
            proof {
                lemma_top_bit_of(locked.wrapping_add(1));
                lemma_upgraded(count);
            }
            self.fetch_and(!USIZE_TOP_BIT);
            true
        }
    }
}

/// The remainder in [`upgraded`], case by case.
pub proof fn lemma_upgraded(count: usize)
    ensures
        count + 1 < USIZE_TOP_BIT ==> (count + 1) % (USIZE_TOP_BIT as int) == count + 1,
        count + 1 == USIZE_TOP_BIT ==> (count + 1) % (USIZE_TOP_BIT as int) == 0,
        USIZE_TOP_BIT < count < usize::MAX ==> (count + 1) % (USIZE_TOP_BIT as int) == count + 1
            - USIZE_TOP_BIT,
        count == usize::MAX ==> (count + 1) % (USIZE_TOP_BIT as int) == 0,
{
    lemma_top_bit();
    let top: int = USIZE_TOP_BIT as int;
    let next: int = count + 1;
    if next < top {
        vstd::arithmetic::div_mod::lemma_small_mod(next as nat, top as nat);
    } else if next < 2 * top {
        vstd::arithmetic::div_mod::lemma_fundamental_div_mod_converse(next, top, 1, next - top);
    } else {
        vstd::arithmetic::div_mod::lemma_fundamental_div_mod_converse(next, top, 2, 0);
    }
}

} // verus!
