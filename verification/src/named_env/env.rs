use vstd::prelude::*;
use crate::name_map::{ NameMap, entry_insert, entry_lookup };
use super::LocalEnv;

verus! {

/// An environment of named elements of kind `T`: names map to indices in a
/// vector of elements that nested scopes share and add to.
#[derive(Debug)]
pub struct Env<'a, T: 'a>(pub NameMap<usize>, pub &'a mut Vec<T>);

impl<'a, T: 'a> Env<'a, T> {
    /// The names and the indices they stand for.
    pub open spec fn names(&self) -> Seq<(Seq<char>, usize)> {
        self.0@
    }

    /// The elements.
    pub open spec fn elements(&self) -> Seq<T> {
        (*self.1)@
    }

    pub fn new(v: &'a mut Vec<T>) -> (r: Self)
        ensures
            r.names() == Seq::<(Seq<char>, usize)>::empty(),
            r.elements() == old(v)@,
    {
        Env(NameMap::new(), v)
    }

    /// The local scopes over this environment, with none yet.
    pub fn local<'b>(&'b self) -> (r: LocalEnv<'b, T>)
        where 'a: 'b
        ensures
            r == LocalEnv::Base(self),
    {
        LocalEnv::new(self)
    }

    /// Adds `element` under `name`; returns its index.
    pub fn add(&mut self, name: String, element: T) -> (r: usize)
        ensures
            r == old(self).elements().len(),
            final(self).names() == entry_insert(old(self).names(), name@, r),
            final(self).elements() == old(self).elements().push(element),
            *final(final(self).1) == *final(old(self).1),
    {
        let id = self.1.len();
        self.0.insert(name, id);
        self.1.push(element);
        id
    }

    /// Makes `name` stand for the index `id`.
    pub fn alias(&mut self, name: String, id: usize)
        ensures
            final(self).names() == entry_insert(old(self).names(), name@, id),
            final(self).elements() == old(self).elements(),
            *final(final(self).1) == *final(old(self).1),
    {
        self.0.insert(name, id);
    }

    /// The index `name` stands for.
    pub fn get_id(&self, name: &String) -> (r: Option<&usize>)
        ensures
            match r {
                Some(i) => entry_lookup(self.names(), name@) == Some(*i),
                None => entry_lookup(self.names(), name@).is_none(),
            },
    {
        self.0.get(name)
    }

    /// The element at index `id`.
    pub fn get(&self, id: usize) -> (r: Option<&T>)
        ensures
            match r {
                Some(e) => id < self.elements().len() && *e == self.elements()[id as int],
                None => id >= self.elements().len(),
            },
    {
        if id < self.1.len() {
            Some(&self.1[id])
        } else {
            None
        }
    }

    /// The element at index `id`, to change it.
    pub fn get_mut(&mut self, id: usize) -> (r: Option<&mut T>)
        ensures
            final(self).names() == old(self).names(),
            match r {
                Some(e) => {
                    &&& id < old(self).elements().len()
                    &&& *e == old(self).elements()[id as int]
                    &&& final(self).elements() == old(self).elements().update(id as int, *final(e))
                },
                None => id >= old(self).elements().len() && final(self).elements() == old(self).elements(),
            },
            *final(final(self).1) == *final(old(self).1),
    {
        if id < self.1.len() {
            Some(&mut self.1[id])
        } else {
            None
        }
    }

    /// A scope inside this environment: it starts with the same names, and
    /// adds to the same elements.
    pub fn scope<'b>(&'b mut self) -> (r: Env<'b, T>)
        where 'a: 'b
        ensures
            r.names() == old(self).names(),
            r.elements() == old(self).elements(),
            final(self).names() == old(self).names(),
            final(self).elements() == (*final(r.1))@,
            *final(final(self).1) == *final(old(self).1),
    {
        let m = self.0.clone_map();
        Env(m, &mut *self.1)
    }
}

} // verus!
