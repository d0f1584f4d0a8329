use vstd::prelude::*;

verus! {

/// `s` holds every value of `0..s.len()` exactly once.
pub open spec fn is_permutation(s: Seq<usize>) -> bool {
    &&& forall|i: int| 0 <= i < s.len() ==> #[trigger] s[i] < s.len()
    &&& forall|i: int, j: int|
        0 <= i < s.len() && 0 <= j < s.len() && i != j ==> #[trigger] s[i] != #[trigger] s[j]
}

/// `s` cut down or extended to `n` entries; a new entry holds its own slot.
pub open spec fn resized(s: Seq<usize>, n: nat) -> Seq<usize> {
    Seq::new(n, |i: int| if i < s.len() { s[i] } else { i as usize })
}

/// Where an entry taken out at `from` goes back in, counted after the removal.
pub open spec fn insertion_slot(from: int, to: int) -> int {
    if from < to {
        to - 1
    } else {
        to
    }
}

/// `s` with the entry at `from` moved to `to`, where `to` is a slot of `s`
/// before the entry was taken out.
pub open spec fn moved(s: Seq<usize>, from: int, to: int) -> Seq<usize> {
    if from == to {
        s
    } else {
        s.remove(from).insert(insertion_slot(from, to), s[from])
    }
}

/// The arguments of a move that `swap_move` accepts on a sequence of `n` entries.
pub open spec fn valid_move(n: int, from: int, to: int) -> bool {
    from != to ==> 0 <= from < n && 0 <= to <= n
}

/// Relies on `<[T]>::swap`: exchanges the elements at two indices, and
/// panics when either index is out of bounds.
pub assume_specification<E>[ <[E]>::swap ](slice: &mut [E], a: usize, b: usize)
    requires
        a < old(slice)@.len(),
        b < old(slice)@.len(),
    ensures
        final(slice)@ == old(slice)@.update(a as int, old(slice)@[b as int]).update(
            b as int,
            old(slice)@[a as int],
        ),
;

/// The number of slots below `k` whose entry is not the slot itself.
pub open spec fn misplaced(s: Seq<usize>, k: int) -> nat
    decreases k,
{
    if k <= 0 {
        0
    } else {
        misplaced(s, k - 1) + if s[k - 1] != (k - 1) as usize {
            1nat
        } else {
            0nat
        }
    }
}

proof fn lemma_misplaced_update(s: Seq<usize>, k: int, p: int, v: usize)
    requires
        0 <= p < s.len(),
        0 <= k <= s.len(),
    ensures
        p < k ==> misplaced(s.update(p, v), k) + (if s[p] != p as usize {
            1int
        } else {
            0int
        }) == misplaced(s, k) + (if v != p as usize {
            1int
        } else {
            0int
        }),
        p >= k ==> misplaced(s.update(p, v), k) == misplaced(s, k),
    decreases k,
{
    if k > 0 {
        lemma_misplaced_update(s, k - 1, p, v);
    }
}

/// Moving an entry keeps a permutation a permutation.
pub proof fn lemma_moved_permutation(s: Seq<usize>, from: int, to: int)
    requires
        is_permutation(s),
        valid_move(s.len() as int, from, to),
    ensures
        moved(s, from, to).len() == s.len(),
        is_permutation(moved(s, from, to)),
{
    if from != to {
        let t = insertion_slot(from, to);
        let r = s.remove(from);
        let m = r.insert(t, s[from]);
        assert(m == moved(s, from, to));
        // The slot of `s` that each slot of `m` takes its entry from.
        let src = |i: int|
            if i == t {
                from
            } else {
                let j = if i < t {
                    i
                } else {
                    i - 1
                };
                if j < from {
                    j
                } else {
                    j + 1
                }
            };
        assert forall|i: int| 0 <= i < m.len() implies 0 <= #[trigger] src(i) < s.len() && m[i]
            == s[src(i)] by {}
        assert forall|i: int, j: int|
            0 <= i < m.len() && 0 <= j < m.len() && i != j implies #[trigger] m[i]
            != #[trigger] m[j] by {
            assert(m[i] == s[src(i)]);
            assert(m[j] == s[src(j)]);
            assert(src(i) != src(j));
        }
        assert forall|i: int| 0 <= i < m.len() implies #[trigger] m[i] < m.len() by {
            assert(m[i] == s[src(i)]);
        }
    }
}

/// Moving a slot onto itself, or onto the slot just after it, changes
/// nothing: both put the entry back where it was.
pub proof fn lemma_move_in_place(s: Seq<usize>, from: int)
    requires
        0 <= from < s.len(),
    ensures
        moved(s, from, from) == s,
        moved(s, from, from + 1) == s,
{
    assert(moved(s, from, from + 1) =~= s);
}

/// A move is undone by the move back: the entry that went from `from` to
/// `to` now sits in `insertion_slot(from, to)`, and moving it to the slot
/// that held it, counted as `swap_move` counts, restores the order.
pub proof fn lemma_move_round_trip(s: Seq<usize>, from: int, to: int)
    requires
        0 <= from < s.len(),
        0 <= to <= s.len(),
    ensures
        moved(
            moved(s, from, to),
            insertion_slot(from, to),
            if from < to {
                from
            } else {
                from + 1
            },
        ) == s,
{
    if from != to {
        let t = insertion_slot(from, to);
        let m = moved(s, from, to);
        if t == from {
            assert(m =~= s);
            lemma_move_in_place(s, from);
        } else {
            let back = if from < to {
                from
            } else {
                from + 1
            };
            assert(m.remove(t) =~= s.remove(from));
            assert(insertion_slot(t, back) == from);
            assert(moved(m, t, back) =~= s);
        }
    }
}

/// Moving the first slot to the last and then the last back to the first
/// restores the order exactly when the order has a single slot: with two or
/// more slots the second move brings the former last entry to the front.
pub proof fn lemma_first_last_round_trip(s: Seq<usize>)
    requires
        s.len() == 1,
    ensures
        moved(moved(s, 0, s.len() - 1), s.len() - 1, 0) == s,
{
}

/// Growing an order to `m` slots and cutting it back to its length `n`
/// restores it; cutting it to `m < n` slots and growing it back to `n`
/// keeps the first `m` entries and gives the others their own slot.
pub proof fn lemma_resize_round_trip(s: Seq<usize>, m: nat)
    ensures
        m >= s.len() ==> resized(resized(resized(s, s.len()), m), s.len()) == s,
        m < s.len() ==> forall|i: int|
            0 <= i < s.len() ==> #[trigger] resized(resized(resized(s, s.len()), m), s.len())[i]
                == if i < m {
                s[i]
            } else {
                i as usize
            },
        resized(resized(resized(s, s.len()), m), s.len()).len() == s.len(),
{
    assert(resized(s, s.len()) =~= s);
    if m >= s.len() {
        assert(resized(resized(s, m), s.len()) =~= s);
    }
}

/// Growing a permutation with new slots that show their own items keeps
/// it a permutation.
pub proof fn lemma_grow_permutation(s: Seq<usize>, n: nat)
    requires
        is_permutation(s),
        n >= s.len(),
        n <= usize::MAX + 1,
    ensures
        is_permutation(resized(s, n)),
{
    let r = resized(s, n);
    assert forall|i: int, j: int|
        0 <= i < r.len() && 0 <= j < r.len() && i != j implies #[trigger] r[i] != #[trigger] r[j] by {
        if i < s.len() && j < s.len() {
        } else if i < s.len() {
            assert(r[i] < s.len());
        } else if j < s.len() {
            assert(r[j] < s.len());
        }
    }
}

/// A mapping from render slots to item indices: `indices[slot]` is the item
/// shown in `slot`.
#[derive(Debug, PartialEq, Eq)]
pub struct Order {
    indices: Vec<usize>,
}

impl View for Order {
    type V = Seq<usize>;

    closed spec fn view(&self) -> Seq<usize> {
        self.indices@
    }
}

impl Clone for Order {
    fn clone(&self) -> (r: Self)
        ensures
            r@ == self@,
    {
        Order { indices: self.indices.clone() }
    }
}

impl std::ops::Deref for Order {
    type Target = [usize];

    fn deref(&self) -> (r: &[usize])
        ensures
            r@ == self@,
    {
        self.indices.as_slice()
    }
}

impl Default for Order {
    fn default() -> (r: Self)
        ensures
            r@ == Seq::<usize>::empty(),
    {
        Order::new()
    }
}

impl Order {
    /// An empty order.
    #[inline]
    pub fn new() -> (r: Self)
        ensures
            r@ == Seq::<usize>::empty(),
    {
        Self { indices: Vec::new() }
    }

    /// An order of the given entries.
    pub fn from_indices(indices: Vec<usize>) -> (r: Self)
        ensures
            r@ == indices@,
    {
        Self { indices }
    }

    /// The number of slots.
    pub fn len(&self) -> (r: usize)
        ensures
            r == self@.len(),
    {
        self.indices.len()
    }

    /// The entries, slot by slot.
    pub fn indices(&self) -> (r: &[usize])
        ensures
            r@ == self@,
    {
        self.indices.as_slice()
    }

    /// The item shown in `slot`.
    pub fn get(&self, slot: usize) -> (r: usize)
        requires
            slot < self@.len(),
        ensures
            r == self@[slot as int],
    {
        self.indices[slot]
    }

    /// The slot that shows `item`, if any.
    pub fn position(&self, item: usize) -> (r: Option<usize>)
        ensures
            match r {
                Some(slot) => slot < self@.len() && self@[slot as int] == item && forall|j: int|
                    0 <= j < slot ==> self@[j] != item,
                None => forall|j: int| 0 <= j < self@.len() ==> self@[j] != item,
            },
    {
        let mut slot: usize = 0;
        while slot < self.indices.len()
            invariant
                slot <= self@.len(),
                forall|j: int| 0 <= j < slot ==> self@[j] != item,
            decreases self@.len() - slot,
        {
            if self.indices[slot] == item {
                return Some(slot);
            }
            slot = slot + 1;
        }
        None
    }

    /// Sets the number of slots to `size`: extra entries are dropped, and a
    /// new slot shows the item of its own index.
    #[inline]
    pub fn resize(&mut self, size: usize)
        ensures
            final(self)@ == resized(old(self)@, size as nat),
    {
        if self.indices.len() == size {
            assert(self@ =~= resized(old(self)@, size as nat));
            return;
        }
        if size < self.indices.len() {
            self.indices.truncate(size);
            assert(self@ =~= resized(old(self)@, size as nat));
            return;
        }
        let mut i: usize = self.indices.len();
        while i < size
            invariant
                old(self)@.len() <= i <= size,
                self@.len() == i,
                self@ =~= resized(old(self)@, i as nat),
            decreases size - i,
        {
            self.indices.push(i);
            i = i + 1;
        }
        assert(self@ =~= resized(old(self)@, size as nat));
    }

    /// Takes the entry at `from` out and puts it back at `to`, where `to` is
    /// a slot before the removal: when `from < to` the entry lands at `to - 1`.
    /// Moving a slot to itself changes nothing.
    #[inline]
    pub fn swap_move(&mut self, from: usize, to: usize)
        requires
            valid_move(old(self)@.len() as int, from as int, to as int),
        ensures
            final(self)@ == moved(old(self)@, from as int, to as int),
    {
        if from == to {
            return;
        }
        let mut to = to;
        if from < to {
            to = to - 1;
        }
        let index = self.indices.remove(from);
        self.indices.insert(to, index);
    }

    /// Rearranges `items` so that the element at position `k` goes to
    /// position `indices[k]`, following each cycle of the permutation by
    /// swaps. The order is consumed.
    pub fn apply<T>(self, items: &mut [T])
        requires
            is_permutation(self@),
            old(items)@.len() == self@.len(),
        ensures
            final(items)@.len() == old(items)@.len(),
            forall|k: int|
                0 <= k < self@.len() ==> #[trigger] final(items)@[self@[k] as int] == old(
                    items,
                )@[k],
    {
        let ghost sigma = self@;
        let ghost start = items@;
        let mut indices = self.indices;
        let n = items.len();
        // src[j] is the position in `start` of the element now at `j`.
        let ghost mut src: Seq<int> = Seq::new(n as nat, |j: int| j);
        let mut i: usize = 0;
        while i < n
            invariant
                n == sigma.len(),
                items@.len() == n,
                start.len() == n,
                indices@.len() == n,
                src.len() == n,
                i <= n,
                is_permutation(sigma),
                is_permutation(indices@),
                forall|j: int| 0 <= j < i ==> indices@[j] == j as usize,
                forall|j: int|
                    0 <= j < n ==> 0 <= #[trigger] src[j] < n && items@[j] == start[src[j]]
                        && sigma[src[j]] == indices@[j],
            decreases n - i,
        {
            while indices[i] != i
                invariant
                    n == sigma.len(),
                    items@.len() == n,
                    start.len() == n,
                    indices@.len() == n,
                    src.len() == n,
                    i < n,
                    is_permutation(sigma),
                    is_permutation(indices@),
                    forall|j: int| 0 <= j < i ==> indices@[j] == j as usize,
                    forall|j: int|
                        0 <= j < n ==> 0 <= #[trigger] src[j] < n && items@[j] == start[src[j]]
                            && sigma[src[j]] == indices@[j],
                decreases misplaced(indices@, n as int),
            {
                let t = indices[i];
                assert(indices@[t as int] != t) by {
                    assert(indices@[i as int] == t);
                }
                let ghost before = indices@;
                items.swap(i, t);
                let a = indices[i];
                let b = indices[t];
                indices.set(i, b);
                indices.set(t, a);
                proof {
                    src = src.update(i as int, src[t as int]).update(t as int, src[i as int]);
                    lemma_misplaced_update(before, n as int, i as int, b);
                    lemma_misplaced_update(before.update(i as int, b), n as int, t as int, a);
                    assert(indices@ == before.update(i as int, b).update(t as int, a));
                    assert forall|x: int, y: int|
                        0 <= x < n && 0 <= y < n && x != y implies #[trigger] indices@[x]
                        != #[trigger] indices@[y] by {
                        assert(before[x] != before[y] || x == y);
                    }
                }
            }
            i = i + 1;
        }
        assert forall|k: int| 0 <= k < n implies #[trigger] items@[sigma[k] as int] == start[k] by {
            let j = sigma[k] as int;
            assert(indices@[j] == j as usize);
            assert(sigma[src[j]] == sigma[k]);
        }
    }
}

} // verus!
