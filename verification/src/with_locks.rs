use crate::MutexedStaticVec;
use vstd::prelude::*;

verus! {

/// An element that carries a copyable key by which it is found and relocated.
pub trait KeyTrait {
    type Key: Copy + PartialEq;

    /// The key the element carries now.
    spec fn key_spec(&self) -> Self::Key;

    /// Reads the key.
    fn get_key(&self) -> (key: Self::Key)
        ensures
            key == self.key_spec(),
    ;

    /// Replaces the key. Nothing is said of what else the element holds.
    fn set_key(&mut self, key: Self::Key)
        ensures
            final(self).key_spec() == key,
    ;
}

/// An element whose payload is optional and guarded on its own: it can be
/// read, replaced or taken out without touching any other element. An empty
/// payload is a valid state of an element inside the published prefix.
pub trait OptionMutexTrait: KeyTrait {
    type Item;

    type ItemMutex;

    /// The payload the element holds now.
    spec fn item_spec(&self) -> Option<Self::Item>;

    /// The guard object that the element keeps its payload behind.
    spec fn lock_spec(&self) -> Self::ItemMutex;

    /// Hands out the element's own guard object, and no other.
    fn get_item_lock(&self) -> (lock: &Self::ItemMutex)
        ensures
            *lock == self.lock_spec(),
    ;

    /// Read access to the payload.
    fn lock_item(&self) -> (guard: &Option<Self::Item>)
        ensures
            *guard == self.item_spec(),
    ;

    /// Replaces the payload and leaves the key alone.
    fn set_item(&mut self, val: Option<Self::Item>)
        ensures
            final(self).item_spec() == val,
            final(self).key_spec() == old(self).key_spec(),
    ;

    /// Takes the payload out, leaving the element empty, and leaves the key
    /// alone.
    fn take_item(&mut self) -> (item: Option<Self::Item>)
        ensures
            item == old(self).item_spec(),
            final(self).item_spec() is None,
            final(self).key_spec() == old(self).key_spec(),
    ;
}

/// Both predicates can say yes to `slot`: the key predicate to its key, and
/// the item predicate to the payload it holds.
pub open spec fn accepted<T: OptionMutexTrait, KP: Fn(&T::Key) -> bool, IP: Fn(&T::Item) -> bool>(
    slot: T,
    key_pred: KP,
    item_pred: IP,
) -> bool {
    &&& call_ensures(key_pred, (&slot.key_spec(),), true)
    &&& slot.item_spec() is Some
    &&& call_ensures(item_pred, (&slot.item_spec()->Some_0,), true)
}

/// The scan can pass over `slot`: the key predicate can say no to its key, or
/// it holds no payload, or the item predicate can say no to its payload.
pub open spec fn rejected<T: OptionMutexTrait, KP: Fn(&T::Key) -> bool, IP: Fn(&T::Item) -> bool>(
    slot: T,
    key_pred: KP,
    item_pred: IP,
) -> bool {
    ||| call_ensures(key_pred, (&slot.key_spec(),), false)
    ||| slot.item_spec() is None
    ||| (slot.item_spec() is Some && call_ensures(item_pred, (&slot.item_spec()->Some_0,), false))
}

/// `post` is `pre` after a swap-remove at `index`: the prefix is one shorter,
/// the vacated position carries the key and payload of the former last
/// element (unless the last element itself was removed), and every other
/// element is untouched.
pub open spec fn swap_removed_at<T: OptionMutexTrait>(pre: Seq<T>, post: Seq<T>, index: int) -> bool {
    &&& 0 <= index < pre.len()
    &&& post.len() == pre.len() - 1
    &&& forall|j: int| 0 <= j < post.len() && j != index ==> #[trigger] post[j] == pre[j]
    &&& index < post.len() ==> {
        &&& post[index].key_spec() == pre.last().key_spec()
        &&& post[index].item_spec() == pre.last().item_spec()
    }
}

/// `index` is the first position of `pre` that both predicates can accept:
/// the scan can pass over every earlier position.
pub open spec fn first_accepted<T: OptionMutexTrait, KP: Fn(&T::Key) -> bool, IP: Fn(
    &T::Item,
) -> bool>(pre: Seq<T>, index: int, key_pred: KP, item_pred: IP) -> bool {
    &&& 0 <= index < pre.len()
    &&& accepted(pre[index], key_pred, item_pred)
    &&& forall|j: int| 0 <= j < index ==> rejected(#[trigger] pre[j], key_pred, item_pred)
}

/// Both predicates may be called on every element of `pre`.
pub open spec fn callable_on<T: OptionMutexTrait, KP: Fn(&T::Key) -> bool, IP: Fn(
    &T::Item,
) -> bool>(pre: Seq<T>, key_pred: KP, item_pred: IP) -> bool {
    forall|j: int|
        0 <= j < pre.len() ==> {
            &&& call_requires(key_pred, (&(#[trigger] pre[j]).key_spec(),))
            &&& pre[j].item_spec() is Some ==> call_requires(
                item_pred,
                (&pre[j].item_spec()->Some_0,),
            )
        }
}

/// A container that can remove the first element matching a key predicate
/// and a payload predicate, filling the hole with its last element.
pub trait RemoveWithLocksTrait<T: OptionMutexTrait> {
    /// The published elements, in slot order.
    spec fn elements(&self) -> Seq<T>;

    /// The container is well-formed.
    spec fn ready(&self) -> bool;

    /// Scans the published prefix in index order and swap-removes the first
    /// element that both predicates accept. Says whether one was removed; at
    /// most one element leaves per call.
    fn remove_with_locks<KP: Fn(&T::Key) -> bool, IP: Fn(&T::Item) -> bool>(
        &mut self,
        key_pred: KP,
        item_pred: IP,
    ) -> (removed: bool)
        requires
            old(self).ready(),
            callable_on(old(self).elements(), key_pred, item_pred),
        ensures
            final(self).ready(),
            removed ==> exists|index: int|
                {
                    &&& first_accepted(old(self).elements(), index, key_pred, item_pred)
                    &&& #[trigger] swap_removed_at(
                        old(self).elements(),
                        final(self).elements(),
                        index,
                    )
                },
            !removed ==> {
                &&& final(self).elements() == old(self).elements()
                &&& forall|j: int|
                    0 <= j < old(self).elements().len() ==> rejected(
                        #[trigger] old(self).elements()[j],
                        key_pred,
                        item_pred,
                    )
            },
    ;
}

impl<T: OptionMutexTrait, const N: usize> RemoveWithLocksTrait<T> for MutexedStaticVec<T, N> {
    open spec fn elements(&self) -> Seq<T> {
        self@
    }

    open spec fn ready(&self) -> bool {
        self.wf()
    }

    fn remove_with_locks<KP: Fn(&T::Key) -> bool, IP: Fn(&T::Item) -> bool>(
        &mut self,
        key_pred: KP,
        item_pred: IP,
    ) -> (removed: bool)
        ensures
            !removed ==> *final(self) == *old(self),
    {
        let len: usize = self.len();
        let mut i: usize = 0;
        while i < len
            invariant
                *self == *old(self),
                self.wf(),
                len == self@.len(),
                i <= len,
                callable_on(self@, key_pred, item_pred),
                forall|j: int| 0 <= j < i ==> rejected(#[trigger] self@[j], key_pred, item_pred),
            decreases len - i,
        {
            let slot: &T = self.slot(i);
            let hit: bool = if key_pred(&slot.get_key()) {
                match slot.lock_item() {
                    Some(item) => item_pred(item),
                    None => false,
                }
            } else {
                false
            };
            if hit {
                let _ = self.swap_remove(i);
                assert(first_accepted(old(self).elements(), i as int, key_pred, item_pred));
                assert(swap_removed_at(old(self).elements(), self.elements(), i as int));
                return true;
            }
            i += 1;
        }
        false
    }
}

impl<T: OptionMutexTrait, const N: usize> MutexedStaticVec<T, N> {
    /// Removes the element at `index` by moving the key and the payload of
    /// the last published element into its place and shrinking the prefix by
    /// one. Hands back the payload that was removed.
    pub fn swap_remove(&mut self, index: usize) -> (removed: Option<T::Item>)
        requires
            old(self).wf(),
            index < old(self)@.len(),
        ensures
            final(self).wf(),
            swap_removed_at(old(self)@, final(self)@, index as int),
            removed == old(self)@[index as int].item_spec(),
    {
        let last: usize = self.len() - 1;
        let last_key = self.slot(last).get_key();
        let last_item = self.slot_mut(last).take_item();
        let removed = if index != last {
            let target = self.slot_mut(index);
            let removed = target.take_item();
            target.set_key(last_key);
            target.set_item(last_item);
            removed
        } else {
            last_item
        };
        self.truncate_last();
        removed
    }
}

/// A plain element with a key and an optional payload.
#[derive(Debug)]
pub struct KeyedSlot<K, V> {
    key: K,
    item: Option<V>,
}

impl<K: Copy + PartialEq, V> KeyedSlot<K, V> {
    /// An element with the given key and payload.
    pub fn new(key: K, item: Option<V>) -> (slot: Self)
        ensures
            slot.key_spec() == key,
            slot.item_spec() == item,
    {
        KeyedSlot { key, item }
    }
}

impl<K: Copy + PartialEq, V> KeyTrait for KeyedSlot<K, V> {
    type Key = K;

    closed spec fn key_spec(&self) -> K {
        self.key
    }

    fn get_key(&self) -> (key: K) {
        self.key
    }

    fn set_key(&mut self, key: K) {
        self.key = key;
    }
}

impl<K: Copy + PartialEq, V> OptionMutexTrait for KeyedSlot<K, V> {
    type Item = V;

    type ItemMutex = Option<V>;

    closed spec fn item_spec(&self) -> Option<V> {
        self.item
    }

    /// A plain element keeps its payload in the open: the guard object is
    /// the payload cell itself.
    open spec fn lock_spec(&self) -> Option<V> {
        self.item_spec()
    }

    fn get_item_lock(&self) -> (lock: &Option<V>) {
        &self.item
    }

    fn lock_item(&self) -> (guard: &Option<V>) {
        &self.item
    }

    fn set_item(&mut self, val: Option<V>) {
        self.item = val;
    }

    fn take_item(&mut self) -> (item: Option<V>) {
        self.item.take()
    }
}

/// Every element of `slots` holds a payload.
pub open spec fn all_occupied<T: OptionMutexTrait>(slots: Seq<T>) -> bool {
    forall|j: int| 0 <= j < slots.len() ==> (#[trigger] slots[j]).item_spec() is Some
}

/// No two elements of `slots` carry the same key.
pub open spec fn keys_distinct<T: OptionMutexTrait>(slots: Seq<T>) -> bool {
    forall|i: int, j: int|
        0 <= i < j < slots.len() ==> (#[trigger] slots[i]).key_spec() != (
        #[trigger] slots[j]).key_spec()
}

/// Some element of `slots` carries `key`.
pub open spec fn has_key<T: OptionMutexTrait>(slots: Seq<T>, key: T::Key) -> bool {
    exists|j: int| 0 <= j < slots.len() && (#[trigger] slots[j]).key_spec() == key
}

/// A swap-remove keeps the prefix dense: if every element held a payload
/// before, every element of the shorter prefix holds one after. Where the
/// keys were distinct they stay distinct, the removed key can no longer be
/// found, and every other key can still be found. Where the last element was
/// moved, it is found at the vacated position under its own key with its own
/// payload.
pub proof fn lemma_swap_remove_dense<T: OptionMutexTrait>(pre: Seq<T>, post: Seq<T>, index: int)
    requires
        swap_removed_at(pre, post, index),
    ensures
        all_occupied(pre) ==> all_occupied(post),
        keys_distinct(pre) ==> keys_distinct(post),
        keys_distinct(pre) ==> !has_key(post, pre[index].key_spec()),
        forall|j: int|
            0 <= j < pre.len() && j != index ==> has_key(post, (#[trigger] pre[j]).key_spec()),
        index < post.len() ==> post[index].key_spec() == pre.last().key_spec()
            && post[index].item_spec() == pre.last().item_spec(),
{
    assert forall|j: int| 0 <= j < pre.len() && j != index implies has_key(
        post,
        (#[trigger] pre[j]).key_spec(),
    ) by {
        if j < post.len() {
            assert(post[j] == pre[j]);
        } else {
            assert(j == pre.len() - 1);
            assert(post[index].key_spec() == pre.last().key_spec());
        }
    }
    if all_occupied(pre) {
        assert forall|j: int| 0 <= j < post.len() implies (#[trigger] post[j]).item_spec()
            is Some by {
            if j == index {
                assert(pre.last().item_spec() is Some);
            } else {
                assert(post[j] == pre[j]);
            }
        }
    }
    if keys_distinct(pre) {
        assert forall|i: int, j: int| 0 <= i < j < post.len() implies (
        #[trigger] post[i]).key_spec() != (#[trigger] post[j]).key_spec() by {
            let si = if i == index { pre.len() - 1 } else { i };
            let sj = if j == index { pre.len() - 1 } else { j };
            assert(post[i].key_spec() == pre[si].key_spec());
            assert(post[j].key_spec() == pre[sj].key_spec());
            if si < sj {
                assert(pre[si].key_spec() != pre[sj].key_spec());
            } else {
                assert(pre[sj].key_spec() != pre[si].key_spec());
            }
        }
        assert forall|j: int| 0 <= j < post.len() implies (#[trigger] post[j]).key_spec()
            != pre[index].key_spec() by {
            let sj = if j == index { pre.len() - 1 } else { j };
            assert(post[j].key_spec() == pre[sj].key_spec());
            if sj < index {
                assert(pre[sj].key_spec() != pre[index].key_spec());
            } else {
                assert(pre[index].key_spec() != pre[sj].key_spec());
            }
        }
    }
}

} // verus!
