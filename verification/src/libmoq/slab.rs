//! Values behind handles that are never zero.

use vstd::prelude::*;

verus! {

/// A handle. Zero is none.
#[derive(Debug, Clone, Copy, PartialEq, Eq, Hash, Structural)]
pub struct Id(pub u32);

/// Values behind handles: that of handle `n` stands at place `n - 1`.
#[derive(Debug, Clone)]
pub struct NonZeroSlab<T> {
    pub entries: Vec<Option<T>>,
}

/// The value behind a handle, if there is one.
pub open spec fn at<T>(entries: Seq<Option<T>>, id: Id) -> Option<T> {
    if 0 < id.0 <= entries.len() {
        entries[id.0 - 1]
    } else {
        None
    }
}

/// A value stands behind a handle.
pub open spec fn put<T>(entries: Seq<Option<T>>, id: Id, value: T) -> Seq<Option<T>> {
    if id.0 as nat == entries.len() + 1 {
        entries.push(Some(value))
    } else {
        entries.update(id.0 - 1, Some(value))
    }
}

/// Nothing stands behind a handle any more.
pub open spec fn take<T>(entries: Seq<Option<T>>, id: Id) -> Seq<Option<T>> {
    entries.update(id.0 - 1, None)
}

/// Whether a handle is left to give out.
pub open spec fn has_vacancy<T>(entries: Seq<Option<T>>) -> bool {
    entries.len() < u32::MAX || exists|i: int|
        0 <= i < u32::MAX && i < entries.len() && (#[trigger] entries[i]) is None
}

/// Whether a handle can be given out for a new value.
pub open spec fn is_vacant<T>(entries: Seq<Option<T>>, id: Id) -> bool {
    0 < id.0 <= entries.len() + 1 && at(entries, id) is None
}

/// A value that was put behind a handle is found there, and every other one where it was.
pub proof fn law_put_then_at<T>(entries: Seq<Option<T>>, id: Id, value: T, other: Id)
    requires
        is_vacant(entries, id),
    ensures
        at(put(entries, id, value), id) == Some(value),
        other != id ==> at(put(entries, id, value), other) == at(entries, other),
{
}

/// A value that was taken is not found any more, and every other one where it was.
pub proof fn law_take_then_at<T>(entries: Seq<Option<T>>, id: Id, other: Id)
    requires
        at(entries, id) is Some,
    ensures
        at(take(entries, id), id) is None,
        other != id ==> at(take(entries, id), other) == at(entries, other),
{
}

impl<T> NonZeroSlab<T> {
    /// The values in the order of their handles.
    pub open spec fn view(&self) -> Seq<Option<T>> {
        self.entries@
    }

    /// No values.
    pub fn new() -> (slab: Self)
        ensures
            slab@ == Seq::<Option<T>>::empty(),
    {
        NonZeroSlab { entries: Vec::new() }
    }

    /// Puts a value behind a handle that nothing stands behind; none if there is no such handle.
    pub fn insert(&mut self, value: T) -> (res: Option<Id>)
        ensures
            match res {
                Some(id) => is_vacant(old(self)@, id) && final(self)@ == put(
                    old(self)@,
                    id,
                    value,
                ),
                None => !has_vacancy(old(self)@) && final(self)@ == old(self)@,
            },
    {
        let mut i: usize = 0;
        while i < self.entries.len() && i < u32::MAX as usize
            invariant
                i <= self.entries@.len(),
                i <= u32::MAX,
                self@ == old(self)@,
                forall|j: int| 0 <= j < i ==> (#[trigger] self.entries@[j]) is Some,
            decreases self.entries@.len() - i,
        {
            if self.entries[i].is_none() {
                self.entries.set(i, Some(value));
                return Some(Id(i as u32 + 1));
            }
            i = i + 1;
        }
        if i < u32::MAX as usize {
            self.entries.push(Some(value));
            return Some(Id(i as u32 + 1));
        }
        None
    }

    /// The value behind a handle.
    pub fn get(&self, id: Id) -> (value: Option<&T>)
        ensures
            match value {
                Some(v) => at(self@, id) == Some(*v),
                None => at(self@, id) is None,
            },
    {
        if id.0 == 0 || id.0 as usize > self.entries.len() {
            return None;
        }
        self.entries[id.0 as usize - 1].as_ref()
    }

    /// Takes the value behind a handle.
    pub fn remove(&mut self, id: Id) -> (value: Option<T>)
        ensures
            value == at(old(self)@, id),
            final(self)@ == if value is Some {
                take(old(self)@, id)
            } else {
                old(self)@
            },
    {
        if id.0 == 0 || id.0 as usize > self.entries.len() {
            return None;
        }
        let i: usize = id.0 as usize - 1;
        let value = self.entries[i].take();
        assert(value is None ==> self.entries@ =~= old(self).entries@);
        value
    }

    /// Puts another value in the place of the one behind a handle.
    pub fn replace(&mut self, id: Id, value: T)
        requires
            at(old(self)@, id) is Some,
        ensures
            final(self)@ == put(old(self)@, id, value),
    {
        self.entries.set(id.0 as usize - 1, Some(value));
    }
}

} // verus!
