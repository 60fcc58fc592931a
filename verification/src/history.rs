//! A fixed-length record of the most recent values of a stream.
use vstd::prelude::*;

verus! {

/// The last `len` values pushed, newest first.
///
/// Pushing a value moves every entry one place back and drops the oldest, so
/// offset `k` always holds the value pushed `k` pushes before the newest one.
/// The storage is a ring: a push overwrites one slot and moves a cursor.
pub struct History<T> {
    slots: Vec<T>,
    newest: usize,
}

impl<T> View for History<T> {
    type V = Seq<T>;

    /// The recorded values, newest first.
    closed spec fn view(&self) -> Seq<T> {
        Seq::new(
            self.slots@.len(),
            |k: int| self.slots@[(self.newest + k) % (self.slots@.len() as int)],
        )
    }
}

impl<T> History<T> {
    #[verifier::type_invariant]
    spec fn inv(self) -> bool {
        self.newest < self.slots@.len() || (self.newest == 0 && self.slots@.len() == 0)
    }
}

impl<T: Copy> History<T> {
    /// A record of `len` entries, each holding `fill`.
    pub fn new(len: usize, fill: T) -> (r: Self)
        ensures
            r@ == Seq::new(len as nat, |k: int| fill),
    {
        let mut slots: Vec<T> = Vec::new();
        let mut i: usize = 0;
        while i < len
            invariant
                i <= len,
                slots@.len() == i,
                forall|k: int| 0 <= k < i ==> slots@[k] == fill,
            decreases len - i,
        {
            slots.push(fill);
            i += 1;
        }
        let r = History { slots, newest: 0 };
        r
    }

    /// The number of entries.
    pub fn len(&self) -> (r: usize)
        ensures
            r == self@.len(),
    {
        self.slots.len()
    }

    /// The value at offset `k`, counted from the newest.
    pub fn at(&self, k: usize) -> (r: T)
        requires
            k < self@.len(),
        ensures
            r == self@[k as int],
    {
        proof {
            use_type_invariant(self);
        }
        let n: usize = self.slots.len();
        let room: usize = n - self.newest;
        let i: usize = if k < room {
            self.newest + k
        } else {
            k - room
        };
        proof {
            lemma_ring_index(self.newest as int, k as int, n as int);
        }
        self.slots[i]
    }

    /// Records `value` as the newest entry and forgets the oldest.
    pub fn push(&mut self, value: T)
        ensures
            final(self)@ == pushed(old(self)@, value),
    {
        proof {
            use_type_invariant(&*self);
        }
        let n: usize = self.slots.len();
        if n > 0 {
            let at: usize = if self.newest == 0 {
                n - 1
            } else {
                self.newest - 1
            };
            self.slots[at] = value;
            self.newest = at;
            proof {
                let before = old(self)@;
                let after = self@;
                assert forall|k: int| 0 <= k < n implies after[k] == pushed(before, value)[k] by {
                    lemma_ring_index(at as int, k, n as int);
                    if k > 0 {
                        lemma_ring_index(old(self).newest as int, k - 1, n as int);
                    }
                }
            }
        }
    }
}

impl<T: Copy> Clone for History<T> {
    /// A second record with the same entries.
    fn clone(&self) -> (r: Self)
        ensures
            r@ == self@,
    {
        proof {
            use_type_invariant(self);
        }
        let n: usize = self.slots.len();
        let mut slots: Vec<T> = Vec::new();
        let mut i: usize = 0;
        while i < n
            invariant
                i <= n,
                n == self.slots@.len(),
                slots@.len() == i,
                forall|k: int| 0 <= k < i ==> slots@[k] == self.slots@[k],
            decreases n - i,
        {
            slots.push(self.slots[i]);
            i += 1;
        }
        History { slots, newest: self.newest }
    }
}

/// Where offset `k` from slot `h` falls in a ring of `n` slots.
proof fn lemma_ring_index(h: int, k: int, n: int)
    requires
        0 <= h < n,
        0 <= k < n,
    ensures
        (h + k) % n == if h + k < n {
            h + k
        } else {
            h + k - n
        },
{
    if h + k < n {
        vstd::arithmetic::div_mod::lemma_small_mod((h + k) as nat, n as nat);
    } else {
        vstd::arithmetic::div_mod::lemma_mod_add_multiples_vanish(h + k - n, n);
        vstd::arithmetic::div_mod::lemma_small_mod((h + k - n) as nat, n as nat);
    }
}

/// What a record holds after `value` was pushed onto `history`.
pub open spec fn pushed<T>(history: Seq<T>, value: T) -> Seq<T> {
    if history.len() == 0 {
        history
    } else {
        seq![value] + history.drop_last()
    }
}

} // verus!
