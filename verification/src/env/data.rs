use vstd::prelude::*;
use super::ID;

verus! {

/// The elements of kind `T` of a whole program: the predefined ones, and
/// those defined in it.
#[derive(Debug)]
pub struct EnvData<T> {
    predef: Vec<T>,
    normal: Vec<T>,
}

/// The element an identifier names among `predef` and `normal`; how many
/// scopes up the identifier points plays no part.
pub open spec fn data_lookup<T>(predef: Seq<T>, normal: Seq<T>, id: ID<T>) -> T {
    match id {
        ID::Predef(i, _) => predef[i as int],
        ID::Normal(i, _, _) => normal[i as int],
    }
}

/// The identifier names an element among `predef` and `normal`.
pub open spec fn data_contains<T>(predef: Seq<T>, normal: Seq<T>, id: ID<T>) -> bool {
    match id {
        ID::Predef(i, _) => i < predef.len(),
        ID::Normal(i, _, _) => i < normal.len(),
    }
}

impl<T> EnvData<T> {
    /// The predefined elements.
    pub closed spec fn predef_view(&self) -> Seq<T> {
        self.predef@
    }

    /// The elements defined so far.
    pub closed spec fn normal_view(&self) -> Seq<T> {
        self.normal@
    }

    pub fn new(predef: Vec<T>) -> (r: Self)
        ensures
            r.predef_view() == predef@,
            r.normal_view() == Seq::<T>::empty(),
    {
        EnvData { predef, normal: Vec::new() }
    }

    /// Defines `e`; it is named by the returned identifier.
    pub fn add(&mut self, e: T) -> (r: ID<T>)
        ensures
            r == ID::<T>::new_spec(old(self).normal_view().len() as usize),
            final(self).normal_view() == old(self).normal_view().push(e),
            final(self).predef_view() == old(self).predef_view(),
    {
        let id = ID::new(self.normal.len());
        self.normal.push(e);
        id
    }

    /// The element `id` names.
    pub fn get(&self, id: ID<T>) -> (r: &T)
        requires
            data_contains(self.predef_view(), self.normal_view(), id),
        ensures
            *r == data_lookup(self.predef_view(), self.normal_view(), id),
    {
        match id {
            ID::Predef(id, _) => &self.predef[id],
            ID::Normal(id, _, _) => &self.normal[id],
        }
    }

    /// The element `id` names, to change it.
    pub fn get_mut(&mut self, id: ID<T>) -> (r: &mut T)
        requires
            data_contains(old(self).predef_view(), old(self).normal_view(), id),
        ensures
            *r == data_lookup(old(self).predef_view(), old(self).normal_view(), id),
            match id {
                ID::Predef(i, _) => {
                    &&& final(self).predef_view() == old(self).predef_view().update(i as int, *final(r))
                    &&& final(self).normal_view() == old(self).normal_view()
                },
                ID::Normal(i, _, _) => {
                    &&& final(self).predef_view() == old(self).predef_view()
                    &&& final(self).normal_view() == old(self).normal_view().update(i as int, *final(r))
                },
            },
    {
        match id {
            ID::Predef(id, _) => &mut self.predef[id],
            ID::Normal(id, _, _) => &mut self.normal[id],
        }
    }

    /// The number of elements defined so far.
    pub fn len(&self) -> (r: usize)
        ensures
            r == self.normal_view().len(),
    {
        self.normal.len()
    }

    /// The `i`-th element defined.
    pub fn index(&self, i: usize) -> (r: &T)
        requires
            i < self.normal_view().len(),
        ensures
            *r == self.normal_view()[i as int],
    {
        &self.normal[i]
    }
}

/// An element just defined is what its identifier names.
pub proof fn law_data_get_after_add<T>(predef: Seq<T>, normal: Seq<T>, e: T)
    requires
        normal.len() <= usize::MAX,
    ensures
        data_contains(predef, normal.push(e), ID::<T>::new_spec(normal.len() as usize)),
        data_lookup(predef, normal.push(e), ID::<T>::new_spec(normal.len() as usize)) == e,
{
}

} // verus!
