use vstd::prelude::*;
use super::ID;
use super::id::{ id_push, id_up };

verus! {

/// The predefined elements: owned by the outermost environment, shared by
/// the scopes inside it.
#[derive(Debug)]
enum Predef<'a, T> {
    Own(Vec<T>),
    Shared(&'a Vec<T>),
}

/// The elements of one scope, and the scope that encloses it.
#[derive(Debug)]
struct EnvRef<'a, T> {
    normal: Vec<T>,
    parent: Option<&'a EnvRef<'a, T>>,
}

/// The elements of kind `T` visible in a scope: the predefined ones, and
/// those of the scope and of each scope that encloses it.
#[derive(Debug)]
pub struct Env<'a, T> {
    predef: Predef<'a, T>,
    data: EnvRef<'a, T>,
}

/// The elements of a chain of scopes, innermost first.
closed spec fn ref_frames<'a, T>(d: EnvRef<'a, T>) -> Seq<Seq<T>>
    decreases d,
{
    match d.parent {
        None => seq![d.normal@],
        Some(p) => seq![d.normal@] + ref_frames(*p),
    }
}

proof fn lemma_ref_frames<'a, T>(d: EnvRef<'a, T>)
    ensures
        ref_frames(d).len() >= 1,
        ref_frames(d)[0] == d.normal@,
        d.parent.is_none() ==> ref_frames(d).len() == 1,
        d.parent matches Some(p) ==> ref_frames(d).drop_first() == ref_frames(*p),
{
    if let Some(p) = d.parent {
        assert((seq![d.normal@] + ref_frames(*p)).drop_first() =~= ref_frames(*p));
    }
}

/// The element an identifier names among `predef` and the scopes `frames`.
pub open spec fn env_lookup<T>(predef: Seq<T>, frames: Seq<Seq<T>>, id: ID<T>) -> T {
    match id {
        ID::Predef(i, _) => predef[i as int],
        ID::Normal(i, up, _) => frames[up as int][i as int],
    }
}

/// An identifier names an element among `predef` and the scopes `frames`.
pub open spec fn env_contains<T>(predef: Seq<T>, frames: Seq<Seq<T>>, id: ID<T>) -> bool {
    match id {
        ID::Predef(i, _) => i < predef.len(),
        ID::Normal(i, up, _) => up < frames.len() && i < frames[up as int].len(),
    }
}

impl<'a, T> Env<'a, T> {
    /// The predefined elements.
    pub closed spec fn predef_view(&self) -> Seq<T> {
        match self.predef {
            Predef::Own(v) => v@,
            Predef::Shared(v) => v@,
        }
    }

    /// The elements of this scope and of those enclosing it, innermost
    /// first.
    pub closed spec fn frames(&self) -> Seq<Seq<T>> {
        ref_frames(self.data)
    }

    /// Whether this is the outermost environment, which may change the
    /// predefined elements.
    pub closed spec fn is_root(&self) -> bool {
        self.predef is Own
    }

    proof fn lemma_frames(&self)
        ensures
            self.frames().len() >= 1,
            self.frames()[0] == self.data.normal@,
    {
        lemma_ref_frames(self.data);
    }

    /// Every environment has at least its own scope.
    pub proof fn law_frames_nonempty(&self)
        ensures
            self.frames().len() >= 1,
    {
        lemma_ref_frames(self.data);
    }

    /// The outermost environment, over the predefined elements `predef`.
    pub fn new(predef: Vec<T>) -> (r: Self)
        ensures
            r.predef_view() == predef@,
            r.frames() == seq![Seq::<T>::empty()],
            r.is_root(),
    {
        let r = Env { predef: Predef::Own(predef), data: EnvRef { normal: Vec::new(), parent: None } };
        proof {
            lemma_ref_frames(r.data);
        }
        assert(r.frames() =~= seq![Seq::<T>::empty()]);
        r
    }

    /// A scope inside this one holding the elements `v`.
    pub fn scope<'b>(&'b self, v: Vec<T>) -> (r: Env<'b, T>)
        where 'a: 'b
        ensures
            r.predef_view() == self.predef_view(),
            r.frames() == seq![v@] + self.frames(),
            !r.is_root(),
    {
        let predef: &'b Vec<T> = match &self.predef {
            Predef::Own(e) => e,
            Predef::Shared(e) => *e,
        };
        let r = Env { predef: Predef::Shared(predef), data: EnvRef { normal: v, parent: Some(&self.data) } };
        proof {
            lemma_ref_frames(r.data);
        }
        assert(r.frames() =~= seq![v@] + self.frames());
        r
    }

    /// Adds `e` to this scope; it is named by the returned identifier.
    pub fn add(&mut self, e: T) -> (r: ID<T>)
        ensures
            r == ID::<T>::new_spec(old(self).frames()[0].len() as usize),
            old(self).frames().len() >= 1,
            final(self).frames() == old(self).frames().update(0, old(self).frames()[0].push(e)),
            final(self).predef_view() == old(self).predef_view(),
            final(self).is_root() == old(self).is_root(),
    {
        proof {
            lemma_ref_frames(self.data);
        }
        let id = ID::new(self.data.normal.len());
        self.data.normal.push(e);
        proof {
            lemma_ref_frames(self.data);
            lemma_ref_frames(old(self).data);
        }
        assert(self.frames() =~= old(self).frames().update(0, old(self).frames()[0].push(e)));
        id
    }

    /// The predefined elements.
    pub fn predef(&self) -> (r: &Vec<T>)
        ensures
            r@ == self.predef_view(),
    {
        match &self.predef {
            Predef::Own(e) => e,
            Predef::Shared(e) => *e,
        }
    }

    /// Gives back the predefined elements, with the changes made to them
    /// through `index_mut`, from the outermost environment, which owns them;
    /// a scope inside another gives `None`.
    pub fn into_predef(self) -> (r: Option<Vec<T>>)
        ensures
            r is Some <==> self.is_root(),
            r matches Some(v) ==> v@ == self.predef_view(),
    {
        match self.predef {
            Predef::Own(e) => Some(e),
            Predef::Shared(_) => None,
        }
    }

    /// The number of elements of this scope.
    pub fn len(&self) -> (r: usize)
        ensures
            r == self.frames()[0].len(),
    {
        proof {
            lemma_ref_frames(self.data);
        }
        self.data.normal.len()
    }

    /// The element `id` names.
    pub fn index(&self, id: ID<T>) -> (r: &T)
        requires
            env_contains(self.predef_view(), self.frames(), id),
        ensures
            *r == env_lookup(self.predef_view(), self.frames(), id),
    {
        match id {
            ID::Predef(i, _) => match &self.predef {
                Predef::Own(e) => &e[i],
                Predef::Shared(e) => &e[i],
            },
            ID::Normal(i, up, _) => {
                let mut d: &EnvRef<'a, T> = &self.data;
                let mut k: usize = 0;
                proof {
                    lemma_ref_frames(self.data);
                    assert(ref_frames(*d) == self.frames().skip(0));
                }
                while k < up
                    invariant
                        k <= up,
                        up < self.frames().len(),
                        ref_frames(*d) == self.frames().skip(k as int),
                    decreases up - k,
                {
                    proof {
                        lemma_ref_frames(*d);
                    }
                    d = match d.parent {
                        Some(p) => p,
                        None => vstd::pervasive::unreached(),
                    };
                    k = k + 1;
                    assert(ref_frames(*d) =~= self.frames().skip(k as int));
                }
                proof {
                    lemma_ref_frames(*d);
                }
                &d.normal[i]
            },
        }
    }

    /// The element `id` names, to change it. Only elements of this scope,
    /// and predefined ones in the outermost environment, can be changed.
    pub fn index_mut(&mut self, id: ID<T>) -> (r: &mut T)
        requires
            match id {
                ID::Predef(i, _) => old(self).is_root() && i < old(self).predef_view().len(),
                ID::Normal(i, up, _) => up == 0 && i < old(self).frames()[0].len(),
            },
        ensures
            *r == env_lookup(old(self).predef_view(), old(self).frames(), id),
            match id {
                ID::Predef(i, _) => {
                    &&& final(self).predef_view() == old(self).predef_view().update(i as int, *final(r))
                    &&& final(self).frames() == old(self).frames()
                },
                ID::Normal(i, _, _) => {
                    &&& final(self).predef_view() == old(self).predef_view()
                    &&& final(self).frames() == old(self).frames().update(0, old(self).frames()[0].update(i as int, *final(r)))
                },
            },
            final(self).is_root() == old(self).is_root(),
    {
        proof {
            lemma_ref_frames(self.data);
        }
        match id {
            ID::Predef(i, _) => match &mut self.predef {
                Predef::Own(e) => &mut e[i],
                Predef::Shared(_) => vstd::pervasive::unreached(),
            },
            ID::Normal(i, _, _) => &mut self.data.normal[i],
        }
    }
}

/// An element just added to a scope is what its identifier names.
pub proof fn law_index_after_add<T>(predef: Seq<T>, frames: Seq<Seq<T>>, e: T)
    requires
        frames.len() >= 1,
        frames[0].len() <= usize::MAX,
    ensures
        env_contains(predef, frames.update(0, frames[0].push(e)), ID::<T>::new_spec(frames[0].len() as usize)),
        env_lookup(predef, frames.update(0, frames[0].push(e)), ID::<T>::new_spec(frames[0].len() as usize)) == e,
{
}

/// An identifier moved one scope deeper names, inside a new scope, what it
/// named outside it.
pub proof fn law_index_in_scope<T>(predef: Seq<T>, frames: Seq<Seq<T>>, v: Seq<T>, id: ID<T>)
    requires
        env_contains(predef, frames, id),
        id_up(id) + 1 <= usize::MAX,
    ensures
        env_contains(predef, seq![v] + frames, id_push(id, 0, 1)),
        env_lookup(predef, seq![v] + frames, id_push(id, 0, 1)) == env_lookup(predef, frames, id),
{
    if let ID::Normal(i, up, _) = id {
        assert((seq![v] + frames)[up + 1] == frames[up as int]);
    }
}

} // verus!
