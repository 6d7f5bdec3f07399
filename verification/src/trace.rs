//! Roots: the values that native code holds and the collector must trace.
//!
//! A [`TracedBox`] owns one cell in a table of roots.  Making the box
//! registers the cell, releasing the box takes the cell out again, and in
//! between a trace pass over the table visits the cell, whatever it holds at
//! that moment.

use crate::ext::{Heap, HeapExt};
use vstd::prelude::*;

verus! {

/// One registered cell and the key under which it was registered.
pub struct Root<T> {
    pub key: u64,
    pub cell: Heap<T>,
}

/// The table of roots: the registered cells, in the order in which they
/// were registered.
pub struct Roots<T> {
    entries: Vec<Root<T>>,
    next_key: u64,
}

/// The key of a registration and the value that its cell holds.
pub type Entry<T> = (u64, T);

/// Whether `key` is the key of an entry.
pub open spec fn is_registered<T>(entries: Seq<Entry<T>>, key: u64) -> bool {
    exists|i: int| 0 <= i < entries.len() && (#[trigger] entries[i]).0 == key
}

/// The position of the entry with the given key.
pub open spec fn index_of<T>(entries: Seq<Entry<T>>, key: u64) -> int {
    choose|i: int| 0 <= i < entries.len() && (#[trigger] entries[i]).0 == key
}

/// The value that the cell registered under `key` holds.
pub open spec fn value_of<T>(entries: Seq<Entry<T>>, key: u64) -> T {
    entries[index_of(entries, key)].1
}

/// No key stands in two entries.
pub open spec fn keys_distinct<T>(entries: Seq<Entry<T>>) -> bool {
    forall|i: int, j: int|
        0 <= i < j < entries.len() ==> (#[trigger] entries[i]).0 != (#[trigger] entries[j]).0
}

/// The entries without the one that has the given key.
pub open spec fn without<T>(entries: Seq<Entry<T>>, key: u64) -> Seq<Entry<T>> {
    if is_registered(entries, key) {
        entries.remove(index_of(entries, key))
    } else {
        entries
    }
}

/// The values of the entries, in order: what a trace pass visits.
pub open spec fn values_of<T>(entries: Seq<Entry<T>>) -> Seq<T> {
    Seq::new(entries.len(), |i: int| entries[i].1)
}

impl<T> View for Roots<T> {
    type V = Seq<Entry<T>>;

    closed spec fn view(&self) -> Seq<Entry<T>> {
        Seq::new(self.entries.len() as nat, |i: int| (self.entries[i].key, self.entries[i].cell.ptr))
    }
}

impl<T> Roots<T> {
    #[verifier::type_invariant]
    spec fn well_formed(self) -> bool {
        &&& forall|i: int| 0 <= i < self.entries.len() ==> (#[trigger] self.entries[i]).key < self.next_key
        &&& forall|i: int, j: int|
            0 <= i < j < self.entries.len() ==> (#[trigger] self.entries[i]).key < (
            #[trigger] self.entries[j]).key
    }

    /// Whether the table can take one more registration.  It can, short of
    /// 2^64 registrations over its life.
    pub closed spec fn has_room(&self) -> bool {
        self.next_key < u64::MAX
    }

    /// A table without roots.
    pub fn new() -> (r: Roots<T>)
        ensures
            r@ == Seq::<Entry<T>>::empty(),
            r.has_room(),
    {
        let r = Roots { entries: Vec::new(), next_key: 0 };
        assert(r@ =~= Seq::<Entry<T>>::empty());
        r
    }

    /// Whether the table can take one more registration.
    pub fn can_register(&self) -> (r: bool)
        ensures
            r == self.has_room(),
    {
        self.next_key < u64::MAX
    }

    /// The number of registered cells.
    pub fn len(&self) -> (r: usize)
        ensures
            r == self@.len(),
            keys_distinct(self@),
    {
        proof {
            use_type_invariant(self);
        }
        self.entries.len()
    }

    /// One trace pass: each registered cell is visited once, in the order of
    /// registration, and shows what it holds.
    pub fn trace(&self) -> (visited: Vec<&T>)
        ensures
            visited@.len() == self@.len(),
            forall|i: int| 0 <= i < visited@.len() ==> *(#[trigger] visited@[i]) == self@[i].1,
    {
        let mut visited: Vec<&T> = Vec::new();
        let mut i: usize = 0;
        while i < self.entries.len()
            invariant
                i <= self.entries.len(),
                visited@.len() == i,
                forall|k: int| 0 <= k < i ==> *(#[trigger] visited@[k]) == self@[k].1,
            decreases self.entries.len() - i,
        {
            visited.push(&self.entries[i].cell.ptr);
            i += 1;
        }
        visited
    }

    /// The position of the entry with the given key.
    fn find(&self, key: u64) -> (r: Option<usize>)
        ensures
            match r {
                Some(i) => i < self@.len() && self@[i as int].0 == key && is_registered(self@, key)
                    && index_of(self@, key) == i,
                None => !is_registered(self@, key),
            },
    {
        proof {
            use_type_invariant(self);
            assert(keys_distinct(self@));
        }
        let mut i: usize = 0;
        while i < self.entries.len()
            invariant
                i <= self.entries.len(),
                self@.len() == self.entries.len(),
                keys_distinct(self@),
                forall|k: int| 0 <= k < i ==> (#[trigger] self@[k]).0 != key,
            decreases self.entries.len() - i,
        {
            if self.entries[i].key == key {
                assert(self@[i as int].0 == key);
                return Some(i);
            }
            i += 1;
        }
        None
    }
}

/// An owning handle on one registered cell.
pub struct TracedBox<T> {
    key: u64,
    _cell: core::marker::PhantomData<T>,
}

impl<T> TracedBox<T> {
    /// The key under which the box's cell is registered.
    pub closed spec fn key(&self) -> u64 {
        self.key
    }

    /// Registers a new cell that holds `ptr` and gives the box that owns it.
    /// The cell goes last in the table, under a key that the table has not
    /// had before.
    pub fn new(cx: &mut Roots<T>, ptr: T) -> (r: TracedBox<T>)
        requires
            old(cx).has_room(),
        ensures
            final(cx)@ == old(cx)@.push((r.key(), ptr)),
            !is_registered(old(cx)@, r.key()),
            is_registered(final(cx)@, r.key()),
            value_of(final(cx)@, r.key()) == ptr,
            keys_distinct(final(cx)@),
            forall|other: u64| #[trigger]
                is_registered(old(cx)@, other) ==> is_registered(final(cx)@, other) && value_of(
                    final(cx)@,
                    other,
                ) == value_of(old(cx)@, other),
    {
        proof {
            use_type_invariant(&*cx);
        }
        let key = cx.next_key;
        let ghost before = cx@;
        let mut entries: Vec<Root<T>> = Vec::new();
        core::mem::swap(&mut entries, &mut cx.entries);
        entries.push(Root { key, cell: Heap::new(ptr) });
        cx.next_key = key + 1;
        cx.entries = entries;
        assert(cx@ =~= before.push((key, ptr)));
        proof {
            use_type_invariant(&*cx);
            assert(keys_distinct(cx@));
            assert(cx@[before.len() as int].0 == key);
            assert forall|other: u64| #[trigger] is_registered(before, other) implies is_registered(
                cx@,
                other,
            ) && value_of(cx@, other) == value_of(before, other) by {
                let j = index_of(before, other);
                assert(cx@[j].0 == other);
            }
        }
        TracedBox { key, _cell: core::marker::PhantomData }
    }

    /// Registers a new cell as `new` does, where the table has room; else
    /// gives `ptr` back and leaves the table as it is.
    pub fn try_new(cx: &mut Roots<T>, ptr: T) -> (r: core::result::Result<TracedBox<T>, T>)
        ensures
            match r {
                Ok(made) => {
                    &&& old(cx).has_room()
                    &&& final(cx)@ == old(cx)@.push((made.key(), ptr))
                    &&& !is_registered(old(cx)@, made.key())
                },
                Err(back) => !old(cx).has_room() && back == ptr && final(cx)@ == old(cx)@,
            },
    {
        if cx.can_register() {
            Ok(TracedBox::new(cx, ptr))
        } else {
            Err(ptr)
        }
    }

    /// Whether the box's cell is registered in `cx`.
    pub fn is_rooted(&self, cx: &Roots<T>) -> (r: bool)
        ensures
            r == is_registered(cx@, self.key()),
    {
        cx.find(self.key).is_some()
    }

    /// What the box's cell holds at present.
    pub fn get<'a>(&self, cx: &'a Roots<T>) -> (r: &'a T)
        requires
            is_registered(cx@, self.key()),
        ensures
            *r == value_of(cx@, self.key()),
    {
        match cx.find(self.key) {
            Some(i) => &cx.entries[i].cell.ptr,
            None => vstd::pervasive::unreached(),
        }
    }

    /// A reference to hand to calls that only read what the cell holds.
    pub fn handle<'a>(&self, cx: &'a Roots<T>) -> (r: &'a T)
        requires
            is_registered(cx@, self.key()),
        ensures
            *r == value_of(cx@, self.key()),
    {
        self.get(cx)
    }

    /// Writes `ptr` to the box's cell, as the collector does when it moves
    /// what the cell refers to.  The cell keeps its key and its place.
    pub fn set(&mut self, cx: &mut Roots<T>, ptr: T)
        requires
            is_registered(old(cx)@, old(self).key()),
        ensures
            final(self).key() == old(self).key(),
            final(cx)@ == old(cx)@.update(
                index_of(old(cx)@, old(self).key()),
                (old(self).key(), ptr),
            ),
            value_of(final(cx)@, old(self).key()) == ptr,
            forall|other: u64| #[trigger]
                is_registered(old(cx)@, other) ==> is_registered(final(cx)@, other) && (other
                    != old(self).key() ==> value_of(final(cx)@, other) == value_of(
                    old(cx)@,
                    other,
                )),
    {
        proof {
            use_type_invariant(&*cx);
        }
        let ghost before = cx@;
        match cx.find(self.key) {
            Some(i) => {
                let mut entries: Vec<Root<T>> = Vec::new();
                core::mem::swap(&mut entries, &mut cx.entries);
                entries.set(i, Root { key: self.key, cell: Heap::new(ptr) });
                cx.entries = entries;
                assert(cx@ =~= before.update(i as int, (self.key, ptr)));
                proof {
                    use_type_invariant(&*cx);
                    assert(keys_distinct(cx@));
                    assert(cx@[i as int].0 == self.key);
                    assert forall|other: u64| #[trigger]
                        is_registered(before, other) implies is_registered(cx@, other) && (other
                        != self.key ==> value_of(cx@, other) == value_of(before, other)) by {
                        let j = index_of(before, other);
                        assert(cx@[j].0 == other);
                    }
                }
            },
            None => {
                assert(false);
            },
        }
    }

    /// Takes the box's cell out of the table; the other cells stay, in
    /// their order.  The result is what the cell held.
    pub fn release(self, cx: &mut Roots<T>) -> (r: T)
        requires
            is_registered(old(cx)@, self.key()),
        ensures
            final(cx)@ == without(old(cx)@, self.key()),
            r == value_of(old(cx)@, self.key()),
            final(cx)@.len() == old(cx)@.len() - 1,
            !is_registered(final(cx)@, self.key()),
            forall|other: u64|
                other != self.key() && #[trigger] is_registered(old(cx)@, other) ==> is_registered(
                    final(cx)@,
                    other,
                ) && value_of(final(cx)@, other) == value_of(old(cx)@, other),
    {
        proof {
            use_type_invariant(&*cx);
            assert(keys_distinct(cx@));
            lemma_without(cx@, self.key());
        }
        let ghost before = cx@;
        match cx.find(self.key) {
            Some(i) => {
                let mut entries: Vec<Root<T>> = Vec::new();
                core::mem::swap(&mut entries, &mut cx.entries);
                let root = entries.remove(i);
                cx.entries = entries;
                assert(cx@ =~= before.remove(i as int));
                root.cell.ptr
            },
            None => vstd::pervasive::unreached(),
        }
    }
}

/// The entries that are left when the cells with the given keys were taken
/// out, one after the other.
pub open spec fn without_all<T>(entries: Seq<Entry<T>>, keys: Seq<u64>) -> Seq<Entry<T>>
    decreases keys.len(),
{
    if keys.len() == 0 {
        entries
    } else {
        without_all(without(entries, keys[0]), keys.skip(1))
    }
}

/// Taking out a registered cell leaves one entry fewer; the keys that are
/// left are the other keys, each still once.
pub proof fn lemma_without<T>(entries: Seq<Entry<T>>, key: u64)
    requires
        keys_distinct(entries),
        is_registered(entries, key),
    ensures
        without(entries, key).len() == entries.len() - 1,
        keys_distinct(without(entries, key)),
        !is_registered(without(entries, key), key),
        forall|other: u64|
            other != key ==> is_registered(without(entries, key), other) == is_registered(
                entries,
                other,
            ),
        forall|other: u64|
            other != key && #[trigger] is_registered(entries, other) ==> value_of(
                without(entries, key),
                other,
            ) == value_of(entries, other),
{
    let i = index_of(entries, key);
    let rest = without(entries, key);
    assert forall|k: int| 0 <= k < rest.len() implies #[trigger] rest[k] == entries[if k < i {
        k
    } else {
        k + 1
    }] by {}
    assert forall|other: u64| other != key implies is_registered(rest, other) == is_registered(
        entries,
        other,
    ) by {
        if is_registered(entries, other) {
            let j = index_of(entries, other);
            let k = if j < i {
                j
            } else {
                j - 1
            };
            assert(rest[k].0 == other);
        }
        if is_registered(rest, other) {
            let k = index_of(rest, other);
            let j = if k < i {
                k
            } else {
                k + 1
            };
            assert(entries[j].0 == other);
        }
    }
    if is_registered(rest, key) {
        let k = index_of(rest, key);
        let j = if k < i {
            k
        } else {
            k + 1
        };
        assert(entries[j].0 == key);
        assert(false);
    }
    assert forall|other: u64| other != key && #[trigger] is_registered(entries, other) implies value_of(
        rest,
        other,
    ) == value_of(entries, other) by {
        let j = index_of(entries, other);
        let k = index_of(rest, other);
        let back = if k < i {
            k
        } else {
            k + 1
        };
        assert(entries[back].0 == other);
    }
}

/// Boxes made over the handles `handles`, one after the other, leave a
/// table in which a trace pass visits exactly these handles, each once
/// and in this order.
pub proof fn lemma_trace_visits_each_once<T>(
    entries: Seq<Entry<T>>,
    keys: Seq<u64>,
    handles: Seq<T>,
)
    requires
        keys.len() == handles.len(),
        entries == Seq::new(handles.len(), |i: int| (keys[i], handles[i])),
    ensures
        values_of(entries) == handles,
{
    assert(values_of(entries) =~= handles);
}

/// When every box of a table was released, each once and in any order,
/// no cell is left registered.
pub proof fn lemma_all_released<T>(entries: Seq<Entry<T>>, keys: Seq<u64>)
    requires
        keys_distinct(entries),
        keys.no_duplicates(),
        keys.len() == entries.len(),
        forall|i: int| 0 <= i < keys.len() ==> is_registered(entries, #[trigger] keys[i]),
    ensures
        without_all(entries, keys).len() == 0,
    decreases keys.len(),
{
    if keys.len() > 0 {
        let rest = keys.skip(1);
        lemma_without(entries, keys[0]);
        assert forall|i: int| 0 <= i < rest.len() implies is_registered(
            without(entries, keys[0]),
            #[trigger] rest[i],
        ) by {
            assert(rest[i] == keys[i + 1]);
            assert(keys[i + 1] != keys[0]);
        }
        assert(rest.no_duplicates()) by {
            assert forall|i: int, j: int| 0 <= i < rest.len() && 0 <= j < rest.len() && i != j
                implies rest[i] != rest[j] by {
                assert(rest[i] == keys[i + 1] && rest[j] == keys[j + 1]);
            }
        }
        lemma_all_released(without(entries, keys[0]), rest);
    }
}

} // verus!
