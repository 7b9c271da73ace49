use crate::StaticVecError;
use vstd::prelude::*;

verus! {

/// A writer's exclusive claim on the slots `[start, start + count)`.
#[derive(Debug, Copy, Clone, PartialEq, Eq, Structural)]
pub struct Reservation {
    pub start: usize,
    pub count: usize,
}

impl Reservation {
    /// One past the last claimed slot.
    pub open spec fn end(&self) -> int {
        self.start + self.count
    }
}

/// The reservation counter after a claim of `count` slots, if the claim fits
/// under `capacity`.
pub open spec fn reserve_spec(reserved: int, count: int, capacity: int) -> Option<int> {
    if reserved + count <= capacity {
        Some(reserved + count)
    } else {
        None
    }
}

/// The published length after the writer of `[start, start + count)`
/// publishes, if it is that writer's turn: every earlier slot is published
/// and none of its own is.
pub open spec fn publish_spec(published: int, start: int, count: int) -> Option<int> {
    if published == start {
        Some(start + count)
    } else {
        None
    }
}

/// The conditional update of the reservation counter: the new counter, or
/// `CapacityExceeded` where `count` more slots do not fit.
pub fn reserve_step(reserved: usize, count: usize, capacity: usize) -> (next: Result<
    usize,
    StaticVecError,
>)
    ensures
        match reserve_spec(reserved as int, count as int, capacity as int) {
            Some(n) => next == Ok::<usize, StaticVecError>(n as usize),
            None => next == Err::<usize, StaticVecError>(StaticVecError::CapacityExceeded),
        },
{
    if reserved > capacity || count > capacity - reserved {
        Err(StaticVecError::CapacityExceeded)
    } else {
        Ok(reserved + count)
    }
}

/// The compare-and-set of the published length: the new length where the
/// observed length equals `start`, and nothing where the writer has to wait.
pub fn publish_step(published: usize, start: usize, count: usize) -> (next: Option<usize>)
    requires
        start + count <= usize::MAX,
    ensures
        match publish_spec(published as int, start as int, count as int) {
            Some(n) => next == Some(n as usize),
            None => next.is_none(),
        },
{
    if published == start {
        Some(start + count)
    } else {
        None
    }
}

/// A fixed-capacity sequence that several writers append to in two phases.
///
/// A writer first reserves a range of slots, then fills it, then publishes
/// it. Two counters keep the phases apart: `reserved` counts the slots that
/// writers have claimed, `published` the leading slots that are fully written
/// and visible. The view is the published prefix.
#[derive(Debug)]
pub struct ReservingStaticVec<T, const N: usize> {
    reserved: usize,
    published: usize,
    data: Vec<Option<T>>,
}

impl<T, const N: usize> View for ReservingStaticVec<T, N> {
    type V = Seq<T>;

    /// The published prefix, in slot order.
    closed spec fn view(&self) -> Seq<T> {
        Seq::new(self.published as nat, |i: int| self.data@[i].unwrap())
    }
}

impl<T, const N: usize> ReservingStaticVec<T, N> {
    /// The number of slots that writers have claimed.
    pub closed spec fn spec_reserved(&self) -> int {
        self.reserved as int
    }

    /// The number of leading slots that are visible.
    pub closed spec fn spec_published(&self) -> int {
        self.published as int
    }

    /// What slot `i` of the arena holds, published or not.
    pub closed spec fn spec_slot(&self, i: int) -> Option<T> {
        self.data@[i]
    }

    /// Well-formedness: the arena has `N` slots, the counters are ordered
    /// `published <= reserved <= N`, and every published slot holds a value.
    pub closed spec fn wf(&self) -> bool {
        &&& self.data@.len() == N
        &&& self.published <= self.reserved <= N
        &&& forall|i: int| 0 <= i < self.published ==> (#[trigger] self.data@[i]).is_some()
    }

    /// `ticket` claims slots that are reserved and not yet published.
    pub open spec fn owns(&self, ticket: Reservation) -> bool {
        &&& self.spec_published() <= ticket.start
        &&& ticket.end() <= self.spec_reserved()
    }

    /// Every slot that `ticket` claims holds a value.
    pub open spec fn filled(&self, ticket: Reservation) -> bool {
        forall|i: int| ticket.start <= i < ticket.end() ==> (#[trigger] self.spec_slot(i)).is_some()
    }

    /// The values in the slots that `ticket` claims, in slot order.
    pub open spec fn values_of(&self, ticket: Reservation) -> Seq<T> {
        Seq::new(ticket.count as nat, |k: int| self.spec_slot(ticket.start + k).unwrap())
    }

    /// The counters never leave `published <= reserved <= N`, and the view is
    /// exactly as long as the published length.
    pub proof fn lemma_capacity_conserved(&self)
        requires
            self.wf(),
        ensures
            0 <= self.spec_published() <= self.spec_reserved() <= N,
            self@.len() == self.spec_published(),
    {
    }

    /// Every slot of the published prefix holds a value, and the view shows
    /// that value: a reader never sees an empty or half-claimed slot.
    pub proof fn lemma_prefix_valid(&self)
        requires
            self.wf(),
        ensures
            forall|i: int|
                0 <= i < self@.len() ==> #[trigger] self.spec_slot(i) == Some(self@[i]),
    {
    }

    /// An empty container: nothing reserved, nothing published, every slot
    /// empty.
    pub fn new() -> (v: Self)
        ensures
            v.wf(),
            v@ == Seq::<T>::empty(),
            v.spec_reserved() == 0,
            v.spec_published() == 0,
            forall|i: int| 0 <= i < N ==> (#[trigger] v.spec_slot(i)).is_none(),
    {
        let mut data: Vec<Option<T>> = Vec::new();
        let mut i: usize = 0;
        while i < N
            invariant
                i <= N,
                data@.len() == i,
                forall|j: int| 0 <= j < i ==> (#[trigger] data@[j]).is_none(),
            decreases N - i,
        {
            data.push(None);
            i += 1;
        }
        let v = Self { reserved: 0, published: 0, data };
        assert(v@ =~= Seq::<T>::empty());
        v
    }

    /// The number of slots that writers have claimed.
    pub fn reserved(&self) -> (n: usize)
        ensures
            n == self.spec_reserved(),
    {
        self.reserved
    }

    /// The published length.
    pub fn len(&self) -> (n: usize)
        ensures
            n == self.spec_published(),
    {
        self.published
    }

    /// Whether nothing is published.
    pub fn is_empty(&self) -> (b: bool)
        ensures
            b == (self.spec_published() == 0),
    {
        self.published == 0
    }

    /// Claims the next `count` slots for one writer.
    ///
    /// Fails with `CapacityExceeded`, changing nothing, exactly when fewer
    /// than `count` slots are unclaimed. On success the ticket covers the
    /// slots from the old reservation counter on; nothing is published.
    pub fn reserve(&mut self, count: usize) -> (r: Result<Reservation, StaticVecError>)
        requires
            old(self).wf(),
        ensures
            final(self).wf(),
            old(self).spec_reserved() + count <= N ==> {
                &&& r == Ok::<Reservation, StaticVecError>(
                    (Reservation { start: old(self).spec_reserved() as usize, count }),
                )
                &&& final(self).spec_reserved() == old(self).spec_reserved() + count
                &&& final(self).spec_published() == old(self).spec_published()
                &&& final(self)@ == old(self)@
                &&& forall|i: int| final(self).spec_slot(i) == old(self).spec_slot(i)
                &&& final(self).owns(r->Ok_0)
            },
            old(self).spec_reserved() + count > N ==> r == Err::<Reservation, StaticVecError>(
                StaticVecError::CapacityExceeded,
            ) && *final(self) == *old(self),
    {
        match reserve_step(self.reserved, count, N) {
            Ok(next) => {
                let start: usize = self.reserved;
                self.reserved = next;
                assert(self@ =~= old(self)@);
                Ok(Reservation { start, count })
            },
            Err(e) => Err(e),
        }
    }

    /// Whether `ticket` claims slots that are reserved and not yet published.
    pub fn holds(&self, ticket: Reservation) -> (b: bool)
        requires
            self.wf(),
        ensures
            b == self.owns(ticket),
    {
        self.published <= ticket.start && ticket.start <= self.reserved && ticket.count
            <= self.reserved - ticket.start
    }

    /// Writes `value` into the slot at `offset` within the claimed range.
    /// Nothing becomes visible: the counters and the view stay as they are.
    pub fn write(&mut self, ticket: Reservation, offset: usize, value: T)
        requires
            old(self).wf(),
            old(self).owns(ticket),
            offset < ticket.count,
        ensures
            final(self).wf(),
            final(self).spec_reserved() == old(self).spec_reserved(),
            final(self).spec_published() == old(self).spec_published(),
            final(self)@ == old(self)@,
            final(self).spec_slot(ticket.start + offset) == Some(value),
            forall|i: int|
                0 <= i < N && i != ticket.start + offset ==> final(self).spec_slot(i) == old(
                    self,
                ).spec_slot(i),
    {
        self.data[ticket.start + offset] = Some(value);
        assert(self@ =~= old(self)@);
    }

    /// Whether every slot that `ticket` claims holds a value.
    pub fn is_filled(&self, ticket: Reservation) -> (b: bool)
        requires
            self.wf(),
            self.owns(ticket),
        ensures
            b == self.filled(ticket),
    {
        let mut k: usize = 0;
        while k < ticket.count
            invariant
                self.wf(),
                self.owns(ticket),
                k <= ticket.count,
                forall|i: int|
                    ticket.start <= i < ticket.start + k ==> (#[trigger] self.spec_slot(
                        i,
                    )).is_some(),
            decreases ticket.count - k,
        {
            if self.data[ticket.start + k].is_none() {
                assert(self.spec_slot(ticket.start + k).is_none());
                return false;
            }
            k += 1;
        }
        true
    }

    /// Publishes the claimed range if it is this writer's turn.
    ///
    /// It is the writer's turn exactly when the published length equals the
    /// start of its range, that is when every writer that reserved earlier
    /// has published. Then the published length moves to the end of the
    /// range and the written values join the view, in slot order. Otherwise
    /// nothing changes and the writer has to try again later.
    pub fn try_publish(&mut self, ticket: Reservation) -> (done: bool)
        requires
            old(self).wf(),
            old(self).owns(ticket),
            old(self).filled(ticket),
        ensures
            final(self).wf(),
            done == (old(self).spec_published() == ticket.start),
            done ==> {
                &&& final(self).spec_published() == ticket.end()
                &&& final(self).spec_reserved() == old(self).spec_reserved()
                &&& final(self)@ == old(self)@ + old(self).values_of(ticket)
                &&& forall|i: int| final(self).spec_slot(i) == old(self).spec_slot(i)
            },
            !done ==> *final(self) == *old(self),
    {
        match publish_step(self.published, ticket.start, ticket.count) {
            Some(next) => {
                self.published = next;
                assert forall|i: int| 0 <= i < self.published implies (
                #[trigger] self.data@[i]).is_some() by {
                    if i >= ticket.start {
                        assert(old(self).spec_slot(i).is_some());
                    }
                }
                assert(self@ =~= old(self)@ + old(self).values_of(ticket));
                true
            },
            None => false,
        }
    }

    /// The published prefix as references, in slot order.
    pub fn as_slice(&self) -> (items: Vec<&T>)
        requires
            self.wf(),
        ensures
            items@.len() == self@.len(),
            forall|i: int| 0 <= i < items@.len() ==> *#[trigger] items@[i] == self@[i],
    {
        let mut items: Vec<&T> = Vec::new();
        let mut i: usize = 0;
        while i < self.published
            invariant
                self.wf(),
                i <= self.published,
                items@.len() == i,
                forall|j: int| 0 <= j < i ==> *#[trigger] items@[j] == self@[j],
            decreases self.published - i,
        {
            items.push(self.data[i].as_ref().unwrap());
            i += 1;
        }
        items
    }
}

/// Publishing follows reservation order: while a writer whose range lies
/// entirely before `later` has a slot still unpublished, it is not `later`'s
/// turn, so the published length never moves past the earlier range.
pub proof fn lemma_publish_in_reservation_order(
    published: int,
    earlier: Reservation,
    later: Reservation,
)
    requires
        earlier.end() <= later.start,
        published < earlier.end(),
    ensures
        publish_spec(published, later.start as int, later.count as int) is None,
{
}

/// A publish moves the length from the start of the writer's range to its
/// end and in no other way.
pub proof fn lemma_publish_covers_own_range(published: int, ticket: Reservation)
    ensures
        publish_spec(published, ticket.start as int, ticket.count as int) matches Some(next)
            ==> published == ticket.start && next == ticket.end(),
{
}

} // verus!
