use vstd::prelude::*;
use vstd::std_specs::iter::IteratorSpec;

pub mod reserve;
pub mod with_locks;

verus! {

/// The one way an operation on a bounded container can fail.
#[derive(Debug, Copy, Clone, PartialEq, Eq, Structural)]
pub enum StaticVecError {
    /// The operation would have grown the container past its fixed capacity.
    CapacityExceeded,
}

/// A fixed-capacity sequence of at most `N` elements: the state that one
/// coarse lock guards.
///
/// The storage is an arena of exactly `N` slots that is never resized. Each
/// slot is either empty or holds one element; the first `len` slots are the
/// published prefix, which is the view. Every operation that changes the
/// container takes `&mut self`: whoever holds the lock has the container to
/// itself for the whole operation.
#[derive(Debug)]
pub struct MutexedStaticVec<T, const N: usize> {
    len: usize,
    data: Vec<Option<T>>,
}

impl<T, const N: usize> View for MutexedStaticVec<T, N> {
    type V = Seq<T>;

    /// The published prefix, in slot order.
    closed spec fn view(&self) -> Seq<T> {
        Seq::new(self.len as nat, |i: int| self.data@[i].unwrap())
    }
}

impl<T, const N: usize> MutexedStaticVec<T, N> {
    /// The arena has exactly `N` slots and the published length fits in it.
    pub closed spec fn well_shaped(&self) -> bool {
        &&& self.data@.len() == N
        &&& self.len <= N
    }

    /// Every slot of the published prefix holds a value.
    pub closed spec fn populated(&self) -> bool {
        forall|i: int| 0 <= i < self.len ==> (#[trigger] self.data@[i]).is_some()
    }

    /// Well-formedness: the shape is right and the published prefix is gap-free.
    pub open spec fn wf(&self) -> bool {
        &&& self.well_shaped()
        &&& self.populated()
    }

    /// A well-shaped container never publishes more than `N` slots.
    pub proof fn lemma_len_within_capacity(&self)
        requires
            self.well_shaped(),
        ensures
            self@.len() <= N,
    {
    }

    /// Creates a container whose published length is `len`.
    ///
    /// Fails exactly when `len` exceeds the capacity. The slots themselves
    /// start out empty, so only `new(0)` yields a well-formed container: a
    /// nonzero seed claims a prefix that nothing has populated, and every
    /// operation that reads or grows the prefix asks for `wf()`.
    pub fn new(len: usize) -> (r: Result<Self, StaticVecError>)
        ensures
            len > N <==> r is Err,
            r is Err ==> r->Err_0 == StaticVecError::CapacityExceeded,
            r is Ok ==> r->Ok_0.well_shaped() && r->Ok_0@.len() == len,
            r is Ok ==> (r->Ok_0.wf() <==> len == 0),
            r is Ok && len == 0 ==> r->Ok_0@ == Seq::<T>::empty(),
    {
        if len > N {
            return Err(StaticVecError::CapacityExceeded);
        }
        let v = Self { len, data: empty_slots(N) };
        assert(len > 0 ==> v.data@[0].is_none());
        assert(len == 0 ==> v@ =~= Seq::<T>::empty());
        Ok(v)
    }

    /// Checks well-formedness at run time, for callers that cannot prove it.
    pub fn is_well_formed(&self) -> (b: bool)
        ensures
            b == self.wf(),
    {
        if self.data.len() != N || self.len > N {
            return false;
        }
        let mut i: usize = 0;
        while i < self.len
            invariant
                self.well_shaped(),
                i <= self.len,
                forall|j: int| 0 <= j < i ==> (#[trigger] self.data@[j]).is_some(),
            decreases self.len - i,
        {
            if self.data[i].is_none() {
                return false;
            }
            i += 1;
        }
        true
    }

    /// The published length.
    pub fn len(&self) -> (n: usize)
        ensures
            n == self@.len(),
    {
        self.len
    }

    /// Whether nothing is published.
    pub fn is_empty(&self) -> (b: bool)
        ensures
            b == (self@.len() == 0),
    {
        self.len == 0
    }

    /// Appends `item` behind the published prefix and hands back a reference
    /// to the stored value.
    ///
    /// Fails with `CapacityExceeded`, changing nothing, exactly when the
    /// container is full.
    pub fn push(&mut self, item: T) -> (r: Result<&T, StaticVecError>)
        requires
            old(self).wf(),
        ensures
            final(self).wf(),
            old(self)@.len() < N ==> r == Ok::<&T, StaticVecError>(&item) && final(self)@
                == old(self)@.push(item),
            old(self)@.len() >= N ==> r == Err::<&T, StaticVecError>(
                StaticVecError::CapacityExceeded,
            ) && *final(self) == *old(self),
    {
        if self.len >= N {
            return Err(StaticVecError::CapacityExceeded);
        }
        let idx: usize = self.len;
        self.data[idx] = Some(item);
        self.len = idx + 1;
        assert(self@ =~= old(self)@.push(item));
        Ok(self.data[idx].as_ref().unwrap())
    }

    /// Removes the element at `index`, moving every later element of the
    /// published prefix one slot down, and hands the removed value back.
    pub fn remove(&mut self, index: usize) -> (removed: T)
        requires
            old(self).wf(),
            index < old(self)@.len(),
        ensures
            final(self).wf(),
            removed == old(self)@[index as int],
            final(self)@ == old(self)@.remove(index as int),
    {
        let len: usize = self.len;
        let ghost before = self.data@;
        let removed = self.data[index].take().unwrap();
        let mut hole: usize = index;
        while hole + 1 < len
            invariant
                index <= hole < len <= N,
                self.len == len,
                self.data@.len() == N,
                before.len() == N,
                forall|i: int| 0 <= i < len ==> (#[trigger] before[i]).is_some(),
                forall|i: int| 0 <= i < index ==> self.data@[i] == before[i],
                forall|i: int| index <= i < hole ==> self.data@[i] == before[i + 1],
                forall|i: int| hole < i < N ==> self.data@[i] == before[i],
            decreases len - hole,
        {
            let moved = self.data[hole + 1].take();
            self.data[hole] = moved;
            hole += 1;
        }
        self.len = len - 1;
        assert forall|i: int| 0 <= i < len - 1 implies (#[trigger] self.data@[i]).is_some() by {
            if i >= index {
                assert(before[i + 1].is_some());
            } else {
                assert(before[i].is_some());
            }
        }
        assert(self@ =~= old(self)@.remove(index as int));
        removed
    }

    /// Appends a copy of every element of `other`, in order.
    ///
    /// Fails with `CapacityExceeded`, changing nothing, exactly when the
    /// remaining capacity cannot take all of `other`.
    pub fn try_extend_from_slice(&mut self, other: &[T]) -> (r: Result<(), StaticVecError>) where
        T: Copy,

        requires
            old(self).wf(),
        ensures
            final(self).wf(),
            old(self)@.len() + other@.len() <= N ==> r is Ok && final(self)@ == old(self)@
                + other@,
            old(self)@.len() + other@.len() > N ==> r == Err::<(), StaticVecError>(
                StaticVecError::CapacityExceeded,
            ) && *final(self) == *old(self),
    {
        let start: usize = self.len;
        let count: usize = other.len();
        if count > N - start {
            return Err(StaticVecError::CapacityExceeded);
        }
        let mut done: usize = 0;
        while done < count
            invariant
                done <= count,
                count == other@.len(),
                start + count <= N,
                self.len == start,
                self.data@.len() == N,
                old(self).wf(),
                old(self).len == start,
                forall|i: int| 0 <= i < start ==> #[trigger] self.data@[i] == old(self).data@[i],
                forall|i: int|
                    start <= i < start + done ==> #[trigger] self.data@[i] == Some(
                        other@[i - start],
                    ),
            decreases count - done,
        {
            self.data[start + done] = Some(other[done]);
            done += 1;
        }
        self.len = start + count;
        assert(self@ =~= old(self)@ + other@);
        Ok(())
    }

    /// Appends every item that `iter` yields, in order.
    ///
    /// Fails with `CapacityExceeded`, changing nothing, exactly when `iter`
    /// yields more items than the remaining capacity can take. The iterator is
    /// asked for at most one item more than would fit.
    pub fn try_extend_from_iter<I: Iterator<Item = T>>(&mut self, iter: I) -> (r: Result<
        (),
        StaticVecError,
    >)
        requires
            old(self).wf(),
        ensures
            final(self).wf(),
            r is Err ==> r == Err::<(), StaticVecError>(StaticVecError::CapacityExceeded)
                && *final(self) == *old(self),
            iter.obeys_prophetic_iter_laws() ==> (r is Ok <==> old(self)@.len()
                + iter.remaining().len() <= N),
            iter.obeys_prophetic_iter_laws() && r is Ok ==> final(self)@ == old(self)@
                + iter.remaining(),
    {
        let room: usize = N - self.len;
        let mut source = iter;
        let mut pending: Vec<T> = Vec::new();
        let mut exhausted: bool = false;
        while !exhausted
            invariant
                *self == *old(self),
                self.wf(),
                self.len + room == N,
                pending@.len() <= room,
                source.obeys_prophetic_iter_laws() == iter.obeys_prophetic_iter_laws(),
                iter.obeys_prophetic_iter_laws() ==> iter.remaining() == pending@
                    + source.remaining(),
                iter.obeys_prophetic_iter_laws() && exhausted ==> source.remaining().len() == 0,
            decreases room - pending@.len() + (if exhausted { 0int } else { 1int }),
        {
            match source.next() {
                None => {
                    exhausted = true;
                },
                Some(item) => {
                    if pending.len() >= room {
                        return Err(StaticVecError::CapacityExceeded);
                    }
                    pending.push(item);
                    assert(iter.obeys_prophetic_iter_laws() ==> pending@ + source.remaining()
                        =~= iter.remaining());
                },
            }
        }
        assert(iter.obeys_prophetic_iter_laws() ==> pending@ =~= iter.remaining());
        self.append_all(pending);
        Ok(())
    }

    /// Moves `items` into the slots behind the published prefix and publishes
    /// them.
    fn append_all(&mut self, items: Vec<T>)
        requires
            old(self).wf(),
            old(self)@.len() + items@.len() <= N,
        ensures
            final(self).wf(),
            final(self)@ == old(self)@ + items@,
    {
        let start: usize = self.len;
        let count: usize = items.len();
        let mut rest = items;
        let mut left: usize = count;
        while left > 0
            invariant
                left <= count,
                count == items@.len(),
                start + count <= N,
                self.len == start,
                self.data@.len() == N,
                rest@ == items@.take(left as int),
                forall|i: int| 0 <= i < start ==> #[trigger] self.data@[i] == old(self).data@[i],
                forall|i: int|
                    start + left <= i < start + count ==> #[trigger] self.data@[i] == Some(
                        items@[i - start],
                    ),
            decreases left,
        {
            let item = rest.pop();
            left -= 1;
            self.data[start + left] = item;
        }
        self.len = start + count;
        assert(self@ =~= old(self)@ + items@);
    }

    /// Appends a clone of every item that `iter` yields, in order.
    ///
    /// Fails with `CapacityExceeded`, changing nothing, exactly when `iter`
    /// yields more items than the remaining capacity can take.
    pub fn try_extend_from_iter_ref<'a, I: Iterator<Item = &'a T>>(&mut self, iter: I) -> (r:
        Result<(), StaticVecError>) where T: 'a + Clone
        requires
            old(self).wf(),
        ensures
            final(self).wf(),
            r is Err ==> r == Err::<(), StaticVecError>(StaticVecError::CapacityExceeded)
                && *final(self) == *old(self),
            iter.obeys_prophetic_iter_laws() ==> (r is Ok <==> old(self)@.len()
                + iter.remaining().len() <= N),
            iter.obeys_prophetic_iter_laws() && r is Ok ==> {
                &&& final(self)@.len() == old(self)@.len() + iter.remaining().len()
                &&& final(self)@.take(old(self)@.len() as int) == old(self)@
                &&& forall|i: int|
                    0 <= i < iter.remaining().len() ==> cloned(
                        *#[trigger] iter.remaining()[i],
                        final(self)@[old(self)@.len() + i],
                    )
            },
    {
        let room: usize = N - self.len;
        let mut source = iter;
        let mut pending: Vec<T> = Vec::new();
        let mut exhausted: bool = false;
        while !exhausted
            invariant
                *self == *old(self),
                self.wf(),
                self.len + room == N,
                pending@.len() <= room,
                source.obeys_prophetic_iter_laws() == iter.obeys_prophetic_iter_laws(),
                iter.obeys_prophetic_iter_laws() ==> {
                    &&& iter.remaining().len() == pending@.len() + source.remaining().len()
                    &&& iter.remaining().skip(pending@.len() as int) == source.remaining()
                    &&& forall|i: int|
                        0 <= i < pending@.len() ==> cloned(
                            *#[trigger] iter.remaining()[i],
                            pending@[i],
                        )
                },
                iter.obeys_prophetic_iter_laws() && exhausted ==> source.remaining().len() == 0,
            decreases room - pending@.len() + (if exhausted { 0int } else { 1int }),
        {
            match source.next() {
                None => {
                    exhausted = true;
                },
                Some(item) => {
                    if pending.len() >= room {
                        return Err(StaticVecError::CapacityExceeded);
                    }
                    let ghost taken = pending@.len() as int;
                    pending.push(item.clone());
                    assert(iter.obeys_prophetic_iter_laws() ==> iter.remaining().skip(taken + 1)
                        =~= source.remaining() && iter.remaining()[taken] == item);
                },
            }
        }
        let ghost start = self@.len() as int;
        self.append_all(pending);
        assert(self@.take(start) =~= old(self)@);
        Ok(())
    }

    /// Builds a container from a literal array of at most `N` elements: the
    /// published prefix is the array, in order.
    pub fn from_array<const A: usize>(value: [T; A]) -> (v: Self) where T: Clone
        requires
            A <= N,
        ensures
            v.wf(),
            v@ == value@,
    {
        let mut v = Self { len: 0, data: extend_array::<T, A, N>(value) };
        v.resize_set(A);
        assert(v@ =~= value@);
        v
    }

    /// Publishes the first `new_len` slots, which must all hold a value.
    fn resize_set(&mut self, new_len: usize)
        requires
            old(self).data@.len() == N,
            new_len <= N,
            forall|i: int| 0 <= i < new_len ==> (#[trigger] old(self).data@[i]).is_some(),
        ensures
            final(self).wf(),
            final(self).data == old(self).data,
            final(self).len == new_len,
    {
        self.len = new_len;
    }

    /// The published prefix as references, in slot order.
    pub fn as_slice(&self) -> (items: Vec<&T>)
        requires
            self.wf(),
        ensures
            items@.len() == self@.len(),
            forall|i: int| 0 <= i < items@.len() ==> *#[trigger] items@[i] == self@[i],
    {
        let mut items: Vec<&T> = Vec::new();
        let mut i: usize = 0;
        while i < self.len
            invariant
                self.wf(),
                i <= self.len,
                items@.len() == i,
                forall|j: int| 0 <= j < i ==> *#[trigger] items@[j] == self@[j],
            decreases self.len - i,
        {
            items.push(self.data[i].as_ref().unwrap());
            i += 1;
        }
        items
    }

    /// The elements of the published prefix, first to last.
    pub fn iter(&self) -> (items: Vec<&T>)
        requires
            self.wf(),
        ensures
            items@.len() == self@.len(),
            forall|i: int| 0 <= i < items@.len() ==> *#[trigger] items@[i] == self@[i],
    {
        self.as_slice()
    }

    /// The element in slot `index` of the published prefix.
    pub(crate) fn slot(&self, index: usize) -> (element: &T)
        requires
            self.wf(),
            index < self@.len(),
        ensures
            *element == self@[index as int],
    {
        self.data[index].as_ref().unwrap()
    }

    /// Exclusive access to the element in slot `index` of the published
    /// prefix; no other slot changes.
    pub(crate) fn slot_mut(&mut self, index: usize) -> (element: &mut T)
        requires
            old(self).wf(),
            index < old(self)@.len(),
        ensures
            *element == old(self)@[index as int],
            final(self).wf(),
            final(self)@ == old(self)@.update(index as int, *final(element)),
    {
        self.data[index].as_mut().unwrap()
    }

    /// Shrinks the published prefix by its last slot and empties that slot.
    pub(crate) fn truncate_last(&mut self)
        requires
            old(self).wf(),
            old(self)@.len() > 0,
        ensures
            final(self).wf(),
            final(self)@ == old(self)@.drop_last(),
    {
        self.len = self.len - 1;
        assert(self@ =~= old(self)@.drop_last());
    }

    /// Exclusive access to every element of the published prefix, in slot
    /// order.
    pub fn as_mut_slice(&mut self) -> (items: Vec<&mut T>)
        requires
            old(self).wf(),
        ensures
            items@.len() == old(self)@.len(),
            forall|i: int| 0 <= i < items@.len() ==> *#[trigger] items@[i] == old(self)@[i],
            final(self).wf(),
            final(self)@.len() == old(self)@.len(),
            forall|i: int|
                0 <= i < items@.len() ==> #[trigger] final(self)@[i] == *final(items@[i]),
    {
        let len: usize = self.len;
        let (prefix, _) = self.data.as_mut_slice().split_at_mut(len);
        let mut items: Vec<&mut T> = Vec::new();
        collect_mut(prefix, &mut items);
        proof {
            assert forall|i: int| 0 <= i < items@.len() implies *#[trigger] items@[i] == old(
                self,
            )@[i] by {
                assert(old(self).data@.subrange(0, len as int)[i] == old(self).data@[i]);
            }
        }
        items
    }

    /// Exclusive access to the elements of the published prefix, first to
    /// last.
    pub fn iter_mut(&mut self) -> (items: Vec<&mut T>)
        requires
            old(self).wf(),
        ensures
            items@.len() == old(self)@.len(),
            forall|i: int| 0 <= i < items@.len() ==> *#[trigger] items@[i] == old(self)@[i],
            final(self).wf(),
            final(self)@.len() == old(self)@.len(),
            forall|i: int|
                0 <= i < items@.len() ==> #[trigger] final(self)@[i] == *final(items@[i]),
    {
        self.as_mut_slice()
    }
}

impl<T, const N: usize> Default for MutexedStaticVec<T, N> {
    /// The empty container.
    fn default() -> (v: Self)
        ensures
            v.wf(),
            v@ == Seq::<T>::empty(),
    {
        let v = Self { len: 0, data: empty_slots(N) };
        assert(v@ =~= Seq::<T>::empty());
        v
    }
}

impl<T, const N: usize> From<[T; N]> for MutexedStaticVec<T, N> {
    /// A full container whose published prefix is `value`, in order.
    fn from(value: [T; N]) -> (v: Self)
        ensures
            v.wf(),
            v@ == value@,
    {
        let mut v = Self { len: 0, data: seeded_slots::<T, N, N>(value) };
        v.resize_set(N);
        assert(v@ =~= value@);
        v
    }
}

impl<T, const N: usize> vstd::std_specs::convert::FromSpecImpl<[T; N]> for MutexedStaticVec<T, N> {
    open spec fn obeys_from_spec() -> bool {
        false
    }

    open spec fn from_spec(value: [T; N]) -> Self {
        arbitrary()
    }
}

impl<'a, T: Clone, const N: usize> From<&'a [T; N]> for MutexedStaticVec<T, N> {
    /// A full container whose published prefix holds a clone of each element
    /// of `value`, in order.
    fn from(value: &'a [T; N]) -> (v: Self)
        ensures
            v.wf(),
            v@.len() == N,
            forall|i: int| 0 <= i < N ==> cloned(#[trigger] value@[i], v@[i]),
    {
        let mut slots: Vec<Option<T>> = Vec::new();
        let mut i: usize = 0;
        while i < N
            invariant
                i <= N,
                slots@.len() == i,
                forall|j: int|
                    0 <= j < i ==> (#[trigger] slots@[j]).is_some() && cloned(
                        value@[j],
                        slots@[j].unwrap(),
                    ),
            decreases N - i,
        {
            slots.push(Some(value[i].clone()));
            i += 1;
        }
        let mut v = Self { len: 0, data: slots };
        v.resize_set(N);
        v
    }
}

impl<'a, T: Clone, const N: usize> vstd::std_specs::convert::FromSpecImpl<&'a [T; N]> for MutexedStaticVec<T, N> {
    open spec fn obeys_from_spec() -> bool {
        false
    }

    open spec fn from_spec(value: &'a [T; N]) -> Self {
        arbitrary()
    }
}

/// Pushes exclusive access to the value of every slot of `slots` onto `out`,
/// in slot order.
fn collect_mut<'a, T>(slots: &'a mut [Option<T>], out: &mut Vec<&'a mut T>)
    requires
        forall|i: int| 0 <= i < old(slots)@.len() ==> (#[trigger] old(slots)@[i]).is_some(),
    ensures
        final(out)@.len() == old(out)@.len() + old(slots)@.len(),
        final(slots)@.len() == old(slots)@.len(),
        forall|k: int| 0 <= k < final(slots)@.len() ==> (#[trigger] final(slots)@[k]).is_some(),
        forall|i: int| 0 <= i < old(out)@.len() ==> #[trigger] final(out)@[i] == old(out)@[i],
        forall|i: int|
            old(out)@.len() <= i < final(out)@.len() ==> *#[trigger] final(out)@[i] == old(
                slots,
            )@[i - old(out)@.len()].unwrap(),
        forall|i: int|
            old(out)@.len() <= i < final(out)@.len() ==> final(slots)@[i - old(out)@.len()]
                == Some(*final(#[trigger] final(out)@[i])),
    decreases old(slots)@.len(),
{
    if slots.len() == 0 {
        return ;
    }
    let ghost base = out@.len() as int;
    let (head, tail) = slots.split_at_mut(1);
    match head.first_mut() {
        Some(slot) => match slot.as_mut() {
            Some(value) => {
                out.push(value);
            },
            None => {},
        },
        None => {},
    }
    assert(out@.len() == base + 1);
    collect_mut(tail, out);
}

/// A fresh arena of `n` empty slots.
fn empty_slots<T>(n: usize) -> (slots: Vec<Option<T>>)
    ensures
        slots@.len() == n,
        forall|i: int| 0 <= i < n ==> (#[trigger] slots@[i]).is_none(),
{
    let mut slots: Vec<Option<T>> = Vec::new();
    let mut i: usize = 0;
    while i < n
        invariant
            i <= n,
            slots@.len() == i,
            forall|j: int| 0 <= j < i ==> (#[trigger] slots@[j]).is_none(),
        decreases n - i,
    {
        slots.push(None);
        i += 1;
    }
    slots
}

/// Lays the `A` elements of `a` into the first slots of a fresh arena of `N`
/// slots, in order, and leaves the other slots empty.
pub fn extend_array<T, const A: usize, const N: usize>(a: [T; A]) -> (slots: Vec<Option<T>>) where
    T: Clone,

    requires
        A <= N,
    ensures
        slots@.len() == N,
        forall|i: int| 0 <= i < A ==> #[trigger] slots@[i] == Some(a@[i]),
        forall|i: int| A <= i < N ==> (#[trigger] slots@[i]).is_none(),
{
    seeded_slots::<T, A, N>(a)
}

/// The arena that `extend_array` builds, for any element type.
fn seeded_slots<T, const A: usize, const N: usize>(a: [T; A]) -> (slots: Vec<Option<T>>)
    requires
        A <= N,
    ensures
        slots@.len() == N,
        forall|i: int| 0 <= i < A ==> #[trigger] slots@[i] == Some(a@[i]),
        forall|i: int| A <= i < N ==> (#[trigger] slots@[i]).is_none(),
{
    let mut slots: Vec<Option<T>> = empty_slots(N);
    let mut rest: Vec<T> = array_into_vec(a);
    let mut left: usize = A;
    while left > 0
        invariant
            left <= A <= N,
            slots@.len() == N,
            rest@ == a@.take(left as int),
            forall|i: int| left <= i < A ==> #[trigger] slots@[i] == Some(a@[i]),
            forall|i: int| A <= i < N ==> (#[trigger] slots@[i]).is_none(),
        decreases left,
    {
        let item = rest.pop();
        left -= 1;
        slots[left] = item;
    }
    slots
}

/// `Vec::from` on an array, which std documents as allocating a vector and
/// moving the array's items into it: the vector holds the same elements in the
/// same order. Believed, not proved.
#[verifier::external_body]
fn array_into_vec<T, const A: usize>(a: [T; A]) -> (v: Vec<T>)
    ensures
        v@ == a@,
{
    Vec::from(a)
}

} // verus!
