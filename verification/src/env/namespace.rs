use vstd::prelude::*;
use super::{ ID, Path, Space, SpaceVal, PushID };
use super::id::{ id_push, lemma_id_push_zero };
use super::space::{ SpaceModel, space_get, model_push, model_fits, entries_from, lemma_val_model, lemma_space_get_err_prefix };
use crate::name_map::{ entry_insert, entry_lookup, lemma_lookup_insert };

verus! {

/// The entries of a space, as its model.
pub type Entries<T> = Seq<(Seq<char>, SpaceModel<T>)>;

/// The spaces of the modules that enclose a namespace, innermost first,
/// which paths starting with `super` are resolved in.
#[derive(Debug)]
pub struct ParentSpace<T: ?Sized> {
    space: Space<T>,
    parent: Option<Box<ParentSpace<T>>>,
}

/// The spaces of a chain of enclosing modules, innermost first.
pub closed spec fn parent_chain<T: ?Sized>(ps: ParentSpace<T>) -> Seq<Entries<T>>
    decreases ps,
{
    match ps.parent {
        None => seq![ps.space.deep_view()],
        Some(b) => seq![ps.space.deep_view()] + parent_chain(*b),
    }
}

/// The chain of enclosing modules, if any.
pub open spec fn parent_chain_opt<T: ?Sized>(ps: Option<ParentSpace<T>>) -> Seq<Entries<T>> {
    match ps {
        None => Seq::empty(),
        Some(p) => parent_chain(p),
    }
}

proof fn lemma_parent_chain_len<T: ?Sized>(ps: ParentSpace<T>)
    ensures
        parent_chain(ps).len() >= 1,
        parent_chain(ps)[0] == ps.space.deep_view(),
        ps.parent.is_none() ==> parent_chain(ps).len() == 1,
        ps.parent matches Some(b) ==> parent_chain(ps).drop_first() == parent_chain(*b),
{
    if let Some(b) = ps.parent {
        assert((seq![ps.space.deep_view()] + parent_chain(*b)).drop_first() =~= parent_chain(*b));
    }
}

fn copy_parent<T: ?Sized>(ps: &ParentSpace<T>) -> (r: ParentSpace<T>)
    ensures
        parent_chain(r) == parent_chain(*ps),
    decreases ps,
{
    let space = ps.space.clone();
    let parent = match &ps.parent {
        None => None,
        Some(b) => Some(Box::new(copy_parent(&**b))),
    };
    ParentSpace { space, parent }
}

/// What one namespace of a chain of nested scopes contributes to resolving
/// a path: the names visible in it, and its enclosing modules.
pub struct NsFrame<T: ?Sized> {
    pub local: Entries<T>,
    pub supers: Seq<Entries<T>>,
}

/// A namespace of names of elements of kind `T`: the names of a module or
/// of a scope, nested in the namespace that encloses it.
#[derive(Debug)]
pub struct Namespace<'a, T: ?Sized> {
    space: Space<T>,
    local: Space<T>,
    parent_space: Option<ParentSpace<T>>,
    parent: Option<&'a Namespace<'a, T>>,
    paths: Vec<Path<String>>,
    path: Path<String>,
}

/// The number of leading names of `p` that are `super`, from index `i` on.
pub open spec fn supers_from(p: Seq<Seq<char>>, i: int) -> int
    decreases p.len() - i,
{
    if 0 <= i < p.len() && p[i] == "super"@ {
        1 + supers_from(p, i + 1)
    } else {
        0
    }
}

/// The number of leading names of `p` that are `super`.
pub open spec fn leading_supers(p: Seq<Seq<char>>) -> int {
    supers_from(p, 0)
}

proof fn lemma_supers_from(p: Seq<Seq<char>>, i: int)
    requires
        0 <= i <= p.len(),
    ensures
        0 <= supers_from(p, i) <= p.len() - i,
        forall|j: int| i <= j < i + supers_from(p, i) ==> #[trigger] p[j] == "super"@,
        i + supers_from(p, i) < p.len() ==> p[i + supers_from(p, i)] != "super"@,
    decreases p.len() - i,
{
    if i < p.len() && p[i] == "super"@ {
        lemma_supers_from(p, i + 1);
    }
}

/// Resolving a path that starts with `super` in the chain of enclosing
/// modules: one more leading `super` for each further module up. The rest
/// of the path after the first name is looked up in the module reached.
pub open spec fn resolve_super<T: ?Sized>(chain: Seq<Entries<T>>, p: Seq<Seq<char>>) -> Result<(SpaceModel<T>, nat), Seq<Seq<char>>> {
    let k = leading_supers(p);
    if chain.len() == 0 {
        Err(p.take(1))
    } else if chain.len() < k {
        Err(p.take(chain.len() as int + 1))
    } else {
        match space_get(chain[k - 1], p.drop_first()) {
            Ok(v) => Ok((v, 0)),
            Err(e) => Err(p.take(k) + e),
        }
    }
}

/// Walking the chain of enclosing modules runs off the end of the path:
/// the path is all `super`, and there are modules enough for each.
pub open spec fn super_overruns<T: ?Sized>(chain: Seq<Entries<T>>, p: Seq<Seq<char>>) -> bool {
    p.len() > 0 && p[0] == "super"@ && leading_supers(p) == p.len() && chain.len() >= p.len()
}

/// Resolving a path that does not start with `super` in the scopes of
/// `frames` from the `k`-th on: the first scope in which the first name
/// is known resolves the path, and the result tells how many scopes up.
pub open spec fn resolve_from<T: ?Sized>(frames: Seq<NsFrame<T>>, p: Seq<Seq<char>>, k: int) -> Result<(SpaceModel<T>, nat), Seq<Seq<char>>>
    decreases frames.len() - k,
{
    if k < 0 || k >= frames.len() {
        Err(Seq::empty())
    } else {
        match space_get(frames[k].local, p) {
            Ok(v) => Ok((v, k as nat)),
            Err(e) => if e.len() == 1 && k + 1 < frames.len() {
                resolve_from(frames, p, k + 1)
            } else {
                Err(e)
            },
        }
    }
}

/// Resolving a path in a chain of nested scopes.
pub open spec fn resolve<T: ?Sized>(frames: Seq<NsFrame<T>>, p: Seq<Seq<char>>) -> Result<(SpaceModel<T>, nat), Seq<Seq<char>>> {
    if p.len() > 0 && p[0] == "super"@ {
        resolve_super(frames[0].supers, p)
    } else {
        resolve_from(frames, p, 0)
    }
}

/// The identifier a path names, seen from the scope it is resolved in.
pub open spec fn resolve_id<T: ?Sized>(frames: Seq<NsFrame<T>>, p: Seq<Seq<char>>) -> Result<ID<T>, Seq<Seq<char>>> {
    match resolve(frames, p) {
        Ok((SpaceModel::Val(id), i)) => Ok(id_push(id, 0, i as int)),
        Ok((SpaceModel::Space(_), _)) => Err(p),
        Err(e) => Err(e),
    }
}

/// Moving the value a path names out to this scope fits in `usize`.
pub open spec fn resolve_fits<T: ?Sized>(frames: Seq<NsFrame<T>>, p: Seq<Seq<char>>) -> bool {
    match resolve(frames, p) {
        Ok((v, i)) => model_fits(v, 0, i as int),
        Err(_) => true,
    }
}

/// The strings of a path as character sequences.
pub open spec fn names(p: Seq<String>) -> Seq<Seq<char>> {
    p.map_values(|s: String| s@)
}

impl<'a, T: ?Sized> Namespace<'a, T> {
    /// The scopes of this namespace and the ones enclosing it, innermost
    /// first.
    pub closed spec fn frames(&self) -> Seq<NsFrame<T>>
        decreases *self,
    {
        let f = NsFrame { local: self.local.deep_view(), supers: parent_chain_opt(self.parent_space) };
        match self.parent {
            None => seq![f],
            Some(p) => seq![f] + p.frames(),
        }
    }

    /// The names of this module or scope itself.
    pub closed spec fn space_view(&self) -> Entries<T> {
        self.space.deep_view()
    }

    /// The full paths of the elements added so far, by identifier.
    pub closed spec fn paths_view(&self) -> Seq<Seq<Seq<char>>> {
        Seq::new(self.paths@.len(), |i: int| self.paths@[i].deep_view())
    }

    /// The path of this module.
    pub closed spec fn path_view(&self) -> Seq<Seq<char>> {
        self.path.deep_view()
    }

    /// Whether this namespace is a module opened by `sub_space`.
    pub closed spec fn is_sub_space(&self) -> bool {
        self.parent_space.is_some() && self.path@.len() > 0
    }

    proof fn lemma_frames(&self)
        ensures
            self.frames().len() >= 1,
            self.frames()[0] == (NsFrame { local: self.local.deep_view(), supers: parent_chain_opt(self.parent_space) }),
            self.parent.is_none() ==> self.frames().len() == 1,
            self.parent matches Some(p) ==> self.frames().drop_first() == p.frames(),
    {
        let f = NsFrame { local: self.local.deep_view(), supers: parent_chain_opt(self.parent_space) };
        if let Some(p) = self.parent {
            assert((seq![f] + p.frames()).drop_first() =~= p.frames());
        }
    }

    /// Every namespace has at least its own scope.
    pub proof fn law_frames_nonempty(&self)
        ensures
            self.frames().len() >= 1,
    {
        self.lemma_frames();
    }

    /// The full paths of the elements added so far, by identifier.
    pub fn paths(&self) -> (r: &Vec<Path<String>>)
        ensures
            Seq::new(r@.len(), |i: int| r@[i].deep_view()) == self.paths_view(),
    {
        &self.paths
    }

    /// Gives back the full paths of the elements added so far, by
    /// identifier.
    pub fn into_paths(self) -> (r: Vec<Path<String>>)
        ensures
            Seq::new(r@.len(), |i: int| r@[i].deep_view()) == self.paths_view(),
    {
        self.paths
    }

    /// A namespace of the names of `space`, with no element added yet.
    pub fn new(paths: Vec<Path<String>>, space: Space<T>) -> (r: Self)
        ensures
            r.frames() == seq![NsFrame { local: space.deep_view(), supers: Seq::<Entries<T>>::empty() }],
            r.space_view() == space.deep_view(),
            r.paths_view() == Seq::new(paths@.len(), |i: int| paths@[i].deep_view()),
            r.path_view() == Seq::<Seq<char>>::empty(),
            !r.is_sub_space(),
    {
        let r = Namespace {
            local: space.clone(),
            space: space,
            parent_space: None,
            parent: None,
            paths,
            path: Path::new(Vec::new()),
        };
        proof {
            r.lemma_frames();
        }
        assert(r.frames() =~= seq![NsFrame { local: space.deep_view(), supers: Seq::<Entries<T>>::empty() }]);
        assert(r.path_view() =~= Seq::<Seq<char>>::empty());
        r
    }

    /// Opens the module `n` inside this one. Its names are resolved in the
    /// scopes that enclose this module, and paths starting with `super` in
    /// this module. The elements it adds are numbered on from this
    /// namespace's; until `end_sub_space` takes it back, this namespace
    /// holds none of the paths.
    pub fn sub_space(&mut self, n: &String) -> (r: Namespace<'a, T>)
        ensures
            r.is_sub_space(),
            r.frames()[0] == (NsFrame { local: Seq::<(Seq<char>, SpaceModel<T>)>::empty(), supers: seq![old(self).space_view()] + old(self).frames()[0].supers }),
            r.frames().drop_first() == old(self).frames().drop_first(),
            r.space_view() == Seq::<(Seq<char>, SpaceModel<T>)>::empty(),
            r.paths_view() == old(self).paths_view(),
            r.path_view() == old(self).path_view().push(n@),
            final(self).paths_view() == Seq::<Seq<Seq<char>>>::empty(),
            final(self).frames() == old(self).frames(),
            final(self).space_view() == old(self).space_view(),
            final(self).path_view() == old(self).path_view(),
            final(self).is_sub_space() == old(self).is_sub_space(),
            opened_sub_space(*old(self), *final(self), r, n@),
    {
        let path = self.path.clone().append(n.clone());
        let parent = match &self.parent_space {
            None => None,
            Some(ps) => Some(Box::new(copy_parent(ps))),
        };
        let mut paths: Vec<Path<String>> = Vec::new();
        std::mem::swap(&mut paths, &mut self.paths);
        let r = Namespace {
            parent_space: Some(ParentSpace { space: self.space.clone(), parent }),
            parent: self.parent,
            space: Space::default(),
            local: Space::default(),
            paths,
            path,
        };
        proof {
            r.lemma_frames();
            self.lemma_frames();
            old(self).lemma_frames();
            let ps = r.parent_space.unwrap();
            lemma_parent_chain_len(ps);
            if let Some(b) = ps.parent {
                assert(parent_chain_opt(old(self).parent_space) == parent_chain(*b));
            }
            assert(parent_chain(ps) =~= seq![old(self).space_view()] + old(self).frames()[0].supers);
            assert(self.frames() =~= old(self).frames());
            assert(r.path_view() =~= old(self).path_view().push(n@));
            assert(self.paths_view() =~= Seq::<Seq<Seq<char>>>::empty());
            assert(r.paths_view() =~= old(self).paths_view());
            assert(r.frames().drop_first() =~= old(self).frames().drop_first());
        }
        r
    }

    /// Closes the module `sub` opened by `sub_space`: its names become a
    /// nested space of this namespace under the module's name, and the
    /// paths of the elements come back. Until it is called this namespace
    /// holds neither the module's entry nor any path; a module that is never
    /// closed leaves neither behind.
    pub fn end_sub_space(&mut self, sub: Namespace<'a, T>)
        requires
            sub.is_sub_space(),
        ensures
            final(self).space_view() == entry_insert(old(self).space_view(), sub.path_view().last(), SpaceModel::Space(sub.space_view())),
            final(self).frames()[0].local == entry_insert(old(self).frames()[0].local, sub.path_view().last(), SpaceModel::Space(sub.space_view())),
            final(self).frames()[0].supers == old(self).frames()[0].supers,
            final(self).frames().drop_first() == old(self).frames().drop_first(),
            final(self).paths_view() == sub.paths_view(),
            final(self).path_view() == old(self).path_view(),
            final(self).is_sub_space() == old(self).is_sub_space(),
            closed_sub_space(*old(self), *final(self), sub),
    {
        let Namespace { space, paths, path, .. } = sub;
        let name = path.name();
        proof {
            assert(path.deep_view().last() == name@);
        }
        let copy = space.clone();
        proof {
            lemma_val_model(SpaceVal::Space(copy));
            lemma_val_model(SpaceVal::Space(space));
        }
        self.space.add(name, SpaceVal::Space(copy));
        self.local.add(name, SpaceVal::Space(space));
        self.paths = paths;
        proof {
            self.lemma_frames();
            old(self).lemma_frames();
            assert(self.frames().drop_first() =~= old(self).frames().drop_first());
            assert(self.paths_view() =~= sub.paths_view());
            assert(self.path_view() =~= old(self).path_view());
            assert(closed_sub_space(*old(self), *self, sub));
        }
    }

    /// A scope inside this namespace binding the names of `v`, each to its
    /// index in `v` (of equal names the last counts).
    pub fn scope<'b>(&'b self, paths: Vec<Path<String>>, v: Vec<String>) -> (r: Namespace<'b, T>)
        where 'a: 'b
        ensures
            r.frames() == seq![NsFrame { local: entries_from(Seq::new(v@.len(), |i: int| (v@[i]@, ID::<T>::new_spec(i as usize)))), supers: Seq::<Entries<T>>::empty() }] + self.frames(),
            r.space_view() == r.frames()[0].local,
            r.paths_view() == Seq::new(paths@.len(), |i: int| paths@[i].deep_view()),
            r.path_view() == Seq::<Seq<char>>::empty(),
            !r.is_sub_space(),
            scope_of(*self, r, names(v@), Seq::new(paths@.len(), |i: int| paths@[i].deep_view())),
    {
        let mut items: Vec<(String, ID<T>)> = Vec::new();
        let mut i: usize = 0;
        while i < v.len()
            invariant
                i <= v@.len(),
                items@.len() == i,
                forall|j: int| 0 <= j < i ==> (#[trigger] items@[j]).0@ == v@[j]@ && items@[j].1 == ID::<T>::new_spec(j as usize),
            decreases v@.len() - i,
        {
            items.push((v[i].clone(), ID::new(i)));
            i = i + 1;
        }
        let ghost it = items@.map_values(|e: (String, ID<T>)| (e.0@, e.1));
        assert(it =~= Seq::new(v@.len(), |i: int| (v@[i]@, ID::<T>::new_spec(i as usize))));
        let space = Space::new(items);
        let r = Namespace {
            parent_space: None,
            parent: Some(self),
            local: space.clone(),
            space,
            paths,
            path: Path::new(Vec::new()),
        };
        proof {
            r.lemma_frames();
        }
        assert(r.frames() =~= seq![r.frames()[0]] + self.frames());
        assert(r.path_view() =~= Seq::<Seq<char>>::empty());
        assert(Seq::new(v@.len(), |i: int| (v@[i]@, ID::<T>::new_spec(i as usize)))
            =~= Seq::new(names(v@).len(), |i: int| (names(v@)[i], ID::<T>::new_spec(i as usize))));
        r
    }

    /// An empty scope inside this namespace.
    pub fn scope_empty<'b>(&'b self, paths: Vec<Path<String>>) -> (r: Namespace<'b, T>)
        where 'a: 'b
        ensures
            r.frames() == seq![NsFrame { local: Seq::<(Seq<char>, SpaceModel<T>)>::empty(), supers: Seq::<Entries<T>>::empty() }] + self.frames(),
            r.space_view() == Seq::<(Seq<char>, SpaceModel<T>)>::empty(),
            r.paths_view() == Seq::new(paths@.len(), |i: int| paths@[i].deep_view()),
            r.path_view() == self.path_view(),
            !r.is_sub_space(),
            empty_scope_of(*self, r, Seq::new(paths@.len(), |i: int| paths@[i].deep_view())),
    {
        let r = Namespace {
            parent_space: None,
            parent: Some(self),
            space: Space::default(),
            local: Space::default(),
            paths,
            path: self.path.clone(),
        };
        proof {
            r.lemma_frames();
        }
        assert(r.frames() =~= seq![r.frames()[0]] + self.frames());
        assert(r.path_view() =~= self.path_view());
        r
    }

    /// Adds the element `name` of this module: it gets the next identifier,
    /// and its full path is recorded.
    pub fn add(&mut self, name: &String) -> (r: ID<T>)
        requires
            old(self).paths_view().len() < usize::MAX,
        ensures
            r == ID::<T>::new_spec(old(self).paths_view().len() as usize),
            final(self).space_view() == entry_insert(old(self).space_view(), name@, SpaceModel::Val(r)),
            final(self).frames()[0].local == entry_insert(old(self).frames()[0].local, name@, SpaceModel::Val(r)),
            final(self).frames()[0].supers == old(self).frames()[0].supers,
            final(self).frames().drop_first() == old(self).frames().drop_first(),
            final(self).paths_view() == old(self).paths_view().push(old(self).path_view().push(name@)),
            final(self).path_view() == old(self).path_view(),
            final(self).is_sub_space() == old(self).is_sub_space(),
    {
        let id = ID::new(self.paths.len());
        proof {
            lemma_val_model(SpaceVal::<T>::Val(id));
        }
        self.local.add(name, SpaceVal::Val(id));
        self.space.add(name, SpaceVal::Val(id));
        let p = self.path.clone().append(name.clone());
        self.paths.push(p);
        proof {
            self.lemma_frames();
            old(self).lemma_frames();
            assert(p.deep_view() =~= old(self).path_view().push(name@));
        }
        assert(self.paths_view() =~= old(self).paths_view().push(old(self).path_view().push(name@)));
        id
    }
}


/// Whether `s` is the name `super`.
fn is_super(s: &String) -> (r: bool)
    ensures
        r == (s@ == "super"@),
{
    let sup = "super".to_owned();
    *s == sup
}

/// The path of the first `n` names of `p`.
fn prefix_path(p: &[String], n: usize) -> (r: Path<String>)
    requires
        n <= p@.len(),
    ensures
        r.deep_view() == names(p@).take(n as int),
{
    let mut v: Vec<String> = Vec::new();
    let mut i: usize = 0;
    while i < n
        invariant
            i <= n <= p@.len(),
            v@.len() == i,
            forall|j: int| 0 <= j < i ==> (#[trigger] v@[j])@ == p@[j]@,
        decreases n - i,
    {
        v.push(p[i].clone());
        i = i + 1;
    }
    let r = Path::new(v);
    assert(r.deep_view() =~= names(p@).take(n as int));
    r
}

/// The result of resolving in an enclosing scope, seen one scope further in.
pub open spec fn shift_up<T: ?Sized>(r: Result<(SpaceModel<T>, nat), Seq<Seq<char>>>) -> Result<(SpaceModel<T>, nat), Seq<Seq<char>>> {
    match r {
        Ok((v, i)) => Ok((v, i + 1)),
        Err(e) => Err(e),
    }
}

/// Resolving from the scope `k + 1` on is resolving in the enclosing
/// scopes from `k` on, one scope further up.
pub proof fn lemma_resolve_from_shift<T: ?Sized>(frames: Seq<NsFrame<T>>, p: Seq<Seq<char>>, k: int)
    requires
        frames.len() >= 1,
        0 <= k,
    ensures
        resolve_from(frames, p, k + 1) == shift_up(resolve_from(frames.drop_first(), p, k)),
        resolve_from(frames, p, k) matches Ok((_, i)) ==> k <= i < frames.len(),
    decreases frames.len() - k,
{
    if k + 1 < frames.len() {
        assert(frames[k + 1] == frames.drop_first()[k]);
        lemma_resolve_from_shift(frames, p, k + 1);
    }
}

/// `e` with the first `n` names of `p`, all `super`, put in front one by one.
fn prepend_supers(e: Path<String>, path: &[String], n: usize) -> (r: Path<String>)
    requires
        n <= path@.len(),
        forall|m: int| 0 <= m < n ==> #[trigger] path@[m]@ == "super"@,
    ensures
        r.deep_view() == names(path@).take(n as int) + e.deep_view(),
{
    let ghost p = names(path@);
    let ghost e0 = e.deep_view();
    let mut e = e;
    let mut j: usize = 0;
    while j < n
        invariant
            j <= n <= path@.len(),
            forall|m: int| 0 <= m < n ==> #[trigger] path@[m]@ == "super"@,
            p == names(path@),
            e.deep_view() == p.take(j as int) + e0,
        decreases n - j,
    {
        let ghost before = e.deep_view();
        e = e.prepend(path[j].clone());
        proof {
            assert(path@[j as int]@ == "super"@);
            assert forall|m: int| 0 <= m < j + 1 implies p.take(j + 1)[m] == (seq![p[j as int]] + p.take(j as int))[m] by {
                assert(path@[m]@ == "super"@);
            }
            assert(p.take(j + 1) =~= seq![p[j as int]] + p.take(j as int));
            assert(e.deep_view() =~= seq![path@[j as int]@] + before);
        }
        assert(e.deep_view() =~= p.take(j + 1) + e0);
        j = j + 1;
    }
    e
}

/// Resolves a path that starts with `super` in the chain of enclosing
/// modules that starts with `ps`.
fn get_super<'s, T: ?Sized>(ps: &'s ParentSpace<T>, path: &[String]) -> (r: Result<(&'s SpaceVal<T>, usize), Path<String>>)
    requires
        path@.len() > 0,
        path@[0]@ == "super"@,
        !super_overruns(parent_chain(*ps), names(path@)),
    ensures
        match (r, resolve_super(parent_chain(*ps), names(path@))) {
            (Ok((v, i)), Ok((m, j))) => v.deep_view() == m && i == j,
            (Err(e), Err(m)) => e.deep_view() == m,
            _ => false,
        },
{
    let ghost p = names(path@);
    let ghost chain = parent_chain(*ps);
    let ghost k = leading_supers(p);
    proof {
        lemma_supers_from(p, 0);
        lemma_parent_chain_len(*ps);
        assert(chain.skip(0) =~= chain);
        assert(p[0] == path@[0]@);
    }
    let mut s: &ParentSpace<T> = ps;
    let mut i: usize = 1;
    while is_super(&path[i])
        invariant
            p == names(path@),
            1 <= i <= k <= p.len(),
            i < path@.len(),
            k == leading_supers(p),
            forall|j: int| 0 <= j < k ==> #[trigger] p[j] == "super"@,
            k < p.len() ==> p[k] != "super"@,
            !super_overruns(chain, p),
            p[0] == "super"@,
            chain == parent_chain(*ps),
            chain.len() >= i,
            parent_chain(*s) == chain.skip(i - 1),
        decreases path@.len() - i,
    {
        proof {
            assert(p[i as int] == path@[i as int]@);
            assert(i < k);
            lemma_parent_chain_len(*s);
        }
        i = i + 1;
        s = match &s.parent {
            Some(b) => &**b,
            None => {
                assert(chain.len() == i - 1);
                let e = prefix_path(path, i);
                return Err(e);
            },
        };
        proof {
            assert(chain.skip(i - 1) =~= chain.skip(i - 2).drop_first());
            if i as int == path@.len() {
                assert(super_overruns(chain, p));
            }
        }
    }
    proof {
        assert(p[i as int] == path@[i as int]@);
        lemma_parent_chain_len(*s);
        assert(i == k);
        assert(s.space.deep_view() == chain[k - 1]);
        assert(path@.skip(1).map_values(|s: String| s@) =~= p.drop_first());
        assert forall|m: int| 0 <= m < i implies #[trigger] path@[m]@ == "super"@ by {
            assert(p[m] == path@[m]@);
        }
    }
    match s.space.get_from(path, 1) {
        Ok(v) => Ok((v, 0)),
        Err(e) => Err(prepend_supers(e, path, i)),
    }
}

impl<'a, T: ?Sized> Namespace<'a, T> {
    /// Resolves `path`: the value it names and how many scopes up it was
    /// found, or the part of the path that could not be resolved.
    fn get_val<'s>(&'s self, path: &[String]) -> (r: Result<(&'s SpaceVal<T>, usize), Path<String>>)
        requires
            path@.len() > 0,
            self.frames().len() <= usize::MAX,
            !super_overruns(self.frames()[0].supers, names(path@)),
        ensures
            match (r, resolve(self.frames(), names(path@))) {
                (Ok((v, i)), Ok((m, j))) => v.deep_view() == m && i == j,
                (Err(e), Err(m)) => e.deep_view() == m,
                _ => false,
            },
        decreases self.frames().len(),
    {
        let ghost p = names(path@);
        proof {
            self.lemma_frames();
            assert(p[0] == path@[0]@);
        }
        if is_super(&path[0]) {
            match &self.parent_space {
                Some(s) => get_super(s, path),
                None => Err(prefix_path(path, 1)),
            }
        } else {
            proof {
                lemma_resolve_from_shift(self.frames(), p, 0);
            }
            match self.local.get(path) {
                Ok(v) => Ok((v, 0)),
                Err(e) => {
                    if e.len() == 1 {
                        match self.parent {
                            None => Err(e),
                            Some(par) => {
                                proof {
                                    par.lemma_frames();
                                    lemma_resolve_from_shift(par.frames(), p, 0);
                                }
                                match par.get_val(path) {
                                    Ok((v, i)) => Ok((v, i + 1)),
                                    Err(e) => Err(e),
                                }
                            },
                        }
                    } else {
                        Err(e)
                    }
                },
            }
        }
    }
}


impl<'a, T: ?Sized> Namespace<'a, T> {
    /// The identifier `p` names, seen from this namespace, or the part of
    /// the path that could not be resolved (the whole path where it names
    /// a space).
    pub fn get(&self, p: &Path<String>) -> (r: Result<ID<T>, Path<String>>)
        requires
            p@.len() > 0,
            self.frames().len() <= usize::MAX,
            !super_overruns(self.frames()[0].supers, p.deep_view()),
            resolve_fits(self.frames(), p.deep_view()),
        ensures
            match (r, resolve_id(self.frames(), p.deep_view())) {
                (Ok(id), Ok(m)) => id == m,
                (Err(e), Err(m)) => e.deep_view() == m,
                _ => false,
            },
    {
        let path = p.as_ref();
        assert(names(path@) =~= p.deep_view());
        match self.get_val(path) {
            Ok((v, i)) => {
                proof {
                    lemma_val_model(*v);
                }
                match v {
                    SpaceVal::Val(id) => Ok(id.push_id(i)),
                    SpaceVal::Space(_) => {
                        let e = p.clone();
                        assert(e.deep_view() =~= p.deep_view());
                        Err(e)
                    },
                }
            },
            Err(e) => Err(e),
        }
    }

    /// Makes `n` stand, in this namespace, for what the path `p` names.
    pub fn alias(&mut self, n: &String, p: &Path<String>) -> (r: Result<(), Path<String>>)
        requires
            p@.len() > 0,
            old(self).frames().len() <= usize::MAX,
            !super_overruns(old(self).frames()[0].supers, p.deep_view()),
            resolve_fits(old(self).frames(), p.deep_view()),
        ensures
            match (r, resolve(old(self).frames(), p.deep_view())) {
                (Ok(()), Ok((m, i))) => final(self).frames()[0].local == entry_insert(old(self).frames()[0].local, n@, model_push(m, 0, i as int)),
                (Err(e), Err(m)) => e.deep_view() == m && final(self).frames()[0].local == old(self).frames()[0].local,
                _ => false,
            },
            final(self).frames()[0].supers == old(self).frames()[0].supers,
            final(self).frames().len() == old(self).frames().len(),
            final(self).frames().drop_first() == old(self).frames().drop_first(),
            final(self).space_view() == old(self).space_view(),
            final(self).paths_view() == old(self).paths_view(),
            final(self).path_view() == old(self).path_view(),
            final(self).is_sub_space() == old(self).is_sub_space(),
            aliased(*old(self), *final(self), n@, p.deep_view(), match r {
                Ok(()) => Ok::<(), Seq<Seq<char>>>(()),
                Err(e) => Err(e.deep_view()),
            }),
    {
        let path = p.as_ref();
        assert(names(path@) =~= p.deep_view());
        let val = match self.get_val(path) {
            Ok((v, i)) => v.push_id(i),
            Err(e) => {
                proof {
                    self.lemma_frames();
                }
                return Err(e);
            },
        };
        self.local.add(n, val);
        proof {
            self.lemma_frames();
            old(self).lemma_frames();
        }
        Ok(())
    }
}

/// `sub` is the module `n` opened by `sub_space` in `before`, which then
/// became `after`: the module resolves names in the scopes around
/// `before`, and paths starting with `super` in `before`'s own space first;
/// it takes over the recorded paths.
pub open spec fn opened_sub_space<'a, T: ?Sized>(before: Namespace<'a, T>, after: Namespace<'a, T>, sub: Namespace<'a, T>, n: Seq<char>) -> bool {
    &&& sub.is_sub_space()
    &&& sub.frames()[0] == (NsFrame { local: Seq::<(Seq<char>, SpaceModel<T>)>::empty(), supers: seq![before.space_view()] + before.frames()[0].supers })
    &&& sub.frames().drop_first() == before.frames().drop_first()
    &&& sub.space_view() == Seq::<(Seq<char>, SpaceModel<T>)>::empty()
    &&& sub.paths_view() == before.paths_view()
    &&& sub.path_view() == before.path_view().push(n)
    &&& after.paths_view() == Seq::<Seq<Seq<char>>>::empty()
    &&& after.frames() == before.frames()
    &&& after.space_view() == before.space_view()
    &&& after.path_view() == before.path_view()
    &&& after.is_sub_space() == before.is_sub_space()
}

/// `after` is `before` with the module `sub` closed into it: the module's
/// names form a nested space under its name, and its recorded paths come
/// back.
pub open spec fn closed_sub_space<'a, T: ?Sized>(before: Namespace<'a, T>, after: Namespace<'a, T>, sub: Namespace<'a, T>) -> bool {
    &&& after.space_view() == entry_insert(before.space_view(), sub.path_view().last(), SpaceModel::Space(sub.space_view()))
    &&& after.frames()[0].local == entry_insert(before.frames()[0].local, sub.path_view().last(), SpaceModel::Space(sub.space_view()))
    &&& after.frames()[0].supers == before.frames()[0].supers
    &&& after.frames().drop_first() == before.frames().drop_first()
    &&& after.paths_view() == sub.paths_view()
    &&& after.path_view() == before.path_view()
    &&& after.is_sub_space() == before.is_sub_space()
}

/// `after` is `before` after making `n` stand for what `p` names, with the
/// outcome `r`: on success `n` is bound in the innermost scope to the value
/// `p` resolves to, moved out to that scope; on failure nothing changes and
/// the error is the part of `p` that could not be resolved.
pub open spec fn aliased<'a, T: ?Sized>(before: Namespace<'a, T>, after: Namespace<'a, T>, n: Seq<char>, p: Seq<Seq<char>>, r: Result<(), Seq<Seq<char>>>) -> bool {
    &&& match (r, resolve(before.frames(), p)) {
        (Ok(()), Ok((m, i))) => after.frames()[0].local == entry_insert(before.frames()[0].local, n, model_push(m, 0, i as int)),
        (Err(e), Err(m)) => e == m && after.frames()[0].local == before.frames()[0].local,
        _ => false,
    }
    &&& after.frames()[0].supers == before.frames()[0].supers
    &&& after.frames().len() == before.frames().len()
    &&& after.frames().drop_first() == before.frames().drop_first()
    &&& after.space_view() == before.space_view()
    &&& after.paths_view() == before.paths_view()
    &&& after.path_view() == before.path_view()
    &&& after.is_sub_space() == before.is_sub_space()
}

/// `child` is a scope inside `parent` binding the names `v`, each to its
/// index (of equal names the last counts), that records the paths `paths`.
pub open spec fn scope_of<'a, 'b, T: ?Sized>(parent: Namespace<'a, T>, child: Namespace<'b, T>, v: Seq<Seq<char>>, paths: Seq<Seq<Seq<char>>>) -> bool {
    &&& child.frames() == seq![NsFrame { local: entries_from(Seq::new(v.len(), |i: int| (v[i], ID::<T>::new_spec(i as usize)))), supers: Seq::<Entries<T>>::empty() }] + parent.frames()
    &&& child.space_view() == child.frames()[0].local
    &&& child.paths_view() == paths
    &&& child.path_view() == Seq::<Seq<char>>::empty()
    &&& !child.is_sub_space()
}

/// `child` is an empty scope inside `parent` that records the paths `paths`.
pub open spec fn empty_scope_of<'a, 'b, T: ?Sized>(parent: Namespace<'a, T>, child: Namespace<'b, T>, paths: Seq<Seq<Seq<char>>>) -> bool {
    &&& child.frames() == seq![NsFrame { local: Seq::<(Seq<char>, SpaceModel<T>)>::empty(), supers: Seq::<Entries<T>>::empty() }] + parent.frames()
    &&& child.space_view() == Seq::<(Seq<char>, SpaceModel<T>)>::empty()
    &&& child.paths_view() == paths
    &&& child.path_view() == parent.path_view()
    &&& !child.is_sub_space()
}

/// Resolving from the scope `k` on fails on a nonempty beginning of the
/// path.
proof fn lemma_resolve_from_err_prefix<T: ?Sized>(frames: Seq<NsFrame<T>>, p: Seq<Seq<char>>, k: int)
    requires
        0 <= k < frames.len(),
        p.len() > 0,
    ensures
        resolve_from(frames, p, k) matches Err(e) ==> 0 < e.len() <= p.len() && e == p.take(e.len() as int),
    decreases frames.len() - k,
{
    lemma_space_get_err_prefix(frames[k].local, p);
    if k + 1 < frames.len() {
        lemma_resolve_from_err_prefix(frames, p, k + 1);
    }
}

/// What a failed lookup reports is the beginning of the path up to the
/// name that could not be resolved: a nonempty prefix of the path. (A path
/// with two or more leading `super` looks up its later `super`s as names in
/// the module reached, so it is left out.)
pub proof fn law_resolve_err_prefix<T: ?Sized>(frames: Seq<NsFrame<T>>, p: Seq<Seq<char>>)
    requires
        frames.len() >= 1,
        p.len() > 0,
        leading_supers(p) <= 1,
    ensures
        resolve(frames, p) matches Err(e) ==> 0 < e.len() <= p.len() && e == p.take(e.len() as int),
{
    lemma_supers_from(p, 0);
    if p[0] == "super"@ {
        let chain = frames[0].supers;
        if chain.len() > 0 && p.len() > 1 {
            lemma_space_get_err_prefix(chain[0], p.drop_first());
            if let Err(e) = space_get(chain[0], p.drop_first()) {
                assert(p.take(1) + e =~= p.take(e.len() as int + 1));
            }
        }
        if chain.len() > 0 && p.len() == 1 {
            assert(space_get(chain[0], p.drop_first()) == Err::<SpaceModel<T>, Seq<Seq<char>>>(Seq::empty()));
            assert(p.take(1) + Seq::<Seq<char>>::empty() =~= p.take(1));
        }
    } else {
        lemma_resolve_from_err_prefix(frames, p, 0);
    }
}

/// Looking a name up among the entries made from `items`: the identifier of
/// its last occurrence, or nothing where it does not occur.
pub proof fn lemma_entries_from_lookup<T: ?Sized>(items: Seq<(Seq<char>, ID<T>)>, k: Seq<char>)
    ensures
        (forall|j: int| 0 <= j < items.len() ==> items[j].0 != k) ==> entry_lookup(entries_from(items), k).is_none(),
        forall|j: int| 0 <= j < items.len() && #[trigger] items[j].0 == k && (forall|l: int| j < l < items.len() ==> items[l].0 != k)
            ==> entry_lookup(entries_from(items), k) == Some(SpaceModel::Val(items[j].1)),
        entry_lookup(entries_from(items), k) matches Some(x) ==> x is Val,
    decreases items.len(),
{
    if items.len() > 0 {
        let w = items.drop_last();
        lemma_entries_from_lookup(w, k);
        lemma_lookup_insert(entries_from(w), items.last().0, SpaceModel::Val(items.last().1), k);
        assert forall|j: int| 0 <= j < items.len() && #[trigger] items[j].0 == k && (forall|l: int| j < l < items.len() ==> items[l].0 != k)
            implies entry_lookup(entries_from(items), k) == Some(SpaceModel::Val(items[j].1)) by {
            if j < items.len() - 1 {
                assert(items[items.len() - 1].0 != k);
                assert(w[j] == items[j]);
                assert forall|l: int| j < l < w.len() implies w[l].0 != k by {
                    assert(w[l] == items[l]);
                }
            }
        }
        if forall|j: int| 0 <= j < items.len() ==> items[j].0 != k {
            assert(items[items.len() - 1].0 != k);
            assert forall|j: int| 0 <= j < w.len() implies w[j].0 != k by {
                assert(w[j] == items[j]);
            }
        }
    }
}

/// In a scope binding the names `v`, a path that is not one of those names
/// (a longer path, or a name none of them; not `super`) resolves as in the
/// enclosing namespace, one scope further up: the scope binds only
/// elements, so a longer path falls through even where its first name is
/// bound.
pub proof fn law_scope_lifts<'a, 'b, T: ?Sized>(parent: Namespace<'a, T>, child: Namespace<'b, T>, v: Seq<Seq<char>>, paths: Seq<Seq<Seq<char>>>, p: Seq<Seq<char>>)
    requires
        scope_of(parent, child, v, paths),
        p.len() > 0,
        p[0] != "super"@,
        p.len() > 1 || forall|j: int| 0 <= j < v.len() ==> v[j] != p[0],
    ensures
        resolve(child.frames(), p) == shift_up(resolve(parent.frames(), p)),
{
    let items = Seq::new(v.len(), |i: int| (v[i], ID::<T>::new_spec(i as usize)));
    lemma_entries_from_lookup(items, p[0]);
    parent.law_frames_nonempty();
    assert(child.frames().drop_first() =~= parent.frames());
    assert(space_get(child.frames()[0].local, p) == Err::<SpaceModel<T>, Seq<Seq<char>>>(seq![p[0]]));
    lemma_resolve_from_shift(child.frames(), p, 0);
}

/// In a scope binding the names `v`, the last occurrence of a name among
/// them names the element of its index in the scope itself.
pub proof fn law_scope_binds<'a, 'b, T: ?Sized>(parent: Namespace<'a, T>, child: Namespace<'b, T>, v: Seq<Seq<char>>, paths: Seq<Seq<Seq<char>>>, j: int)
    requires
        scope_of(parent, child, v, paths),
        0 <= j < v.len() <= usize::MAX,
        v[j] != "super"@,
        forall|l: int| j < l < v.len() ==> v[l] != v[j],
    ensures
        resolve_id(child.frames(), seq![v[j]]) == Ok::<ID<T>, Seq<Seq<char>>>(ID::<T>::new_spec(j as usize)),
{
    let items = Seq::new(v.len(), |i: int| (v[i], ID::<T>::new_spec(i as usize)));
    lemma_entries_from_lookup(items, v[j]);
    assert(items[j].0 == v[j]);
    lemma_id_push_zero(ID::<T>::new_spec(j as usize), 0);
}

/// In an empty scope a path resolves as in the enclosing namespace, one
/// scope further up; `super` has no module to go to.
pub proof fn law_scope_empty_lifts<'a, 'b, T: ?Sized>(parent: Namespace<'a, T>, child: Namespace<'b, T>, paths: Seq<Seq<Seq<char>>>, p: Seq<Seq<char>>)
    requires
        empty_scope_of(parent, child, paths),
        p.len() > 0,
    ensures
        p[0] != "super"@ ==> resolve(child.frames(), p) == shift_up(resolve(parent.frames(), p)),
        p[0] == "super"@ ==> resolve(child.frames(), p) == Err::<(SpaceModel<T>, nat), Seq<Seq<char>>>(p.take(1)),
{
    assert(child.frames().drop_first() =~= parent.frames());
    if p[0] != "super"@ {
        law_scope_falls_through(parent, child, p);
    }
}

/// An alias fails exactly where its path cannot be resolved (a path to a
/// space can be), and then changes nothing and reports the unresolved part;
/// where it succeeds the new name names what the path named.
pub proof fn law_alias_outcome<'a, T: ?Sized>(before: Namespace<'a, T>, after: Namespace<'a, T>, n: Seq<char>, p: Seq<Seq<char>>, r: Result<(), Seq<Seq<char>>>)
    requires
        aliased(before, after, n, p, r),
    ensures
        r is Err <==> resolve(before.frames(), p) is Err,
        r matches Err(e) ==> resolve(before.frames(), p) == Err::<(SpaceModel<T>, nat), Seq<Seq<char>>>(e)
            && after.frames()[0].local == before.frames()[0].local,
        after.paths_view() == before.paths_view(),
        n != "super"@ && resolve_fits(before.frames(), p) ==> (resolve_id(before.frames(), p) matches Ok(id)
            ==> resolve_id(after.frames(), seq![n]) == Ok::<ID<T>, Seq<Seq<char>>>(id)),
{
    if n != "super"@ && resolve_fits(before.frames(), p) {
        if let Ok(id) = resolve_id(before.frames(), p) {
            law_get_after_alias(before, after, n, p, id);
        }
    }
}

/// A name just added to a namespace names the new element there (where it
/// is not `super`, which always looks up enclosing modules).
pub proof fn law_get_after_add<'a, T: ?Sized>(before: Namespace<'a, T>, after: Namespace<'a, T>, name: Seq<char>, id: ID<T>)
    requires
        after.frames()[0].local == entry_insert(before.frames()[0].local, name, SpaceModel::Val(id)),
        name != "super"@,
    ensures
        resolve_id(after.frames(), seq![name]) == Ok::<ID<T>, Seq<Seq<char>>>(id),
{
    after.lemma_frames();
    lemma_lookup_insert(before.frames()[0].local, name, SpaceModel::Val(id), name);
    lemma_id_push_zero(id, 0);
}

/// A name made an alias of a path names what the path named (where the
/// alias is not `super`).
pub proof fn law_get_after_alias<'a, T: ?Sized>(before: Namespace<'a, T>, after: Namespace<'a, T>, n: Seq<char>, p: Seq<Seq<char>>, id: ID<T>)
    requires
        resolve_id(before.frames(), p) == Ok::<ID<T>, Seq<Seq<char>>>(id),
        resolve_fits(before.frames(), p),
        resolve(before.frames(), p) matches Ok((m, i)) && after.frames()[0].local == entry_insert(before.frames()[0].local, n, model_push(m, 0, i as int)),
        n != "super"@,
    ensures
        resolve_id(after.frames(), seq![n]) == Ok::<ID<T>, Seq<Seq<char>>>(id),
{
    after.lemma_frames();
    let (m, i) = resolve(before.frames(), p)->Ok_0;
    lemma_lookup_insert(before.frames()[0].local, n, model_push(m, 0, i as int), n);
    lemma_id_push_zero(id, 0);
}

/// After closing a module `n` whose space binds `x` to an element, the path
/// `n::x` names that element in the enclosing namespace.
pub proof fn law_get_through_sub_space<'a, T: ?Sized>(before: Namespace<'a, T>, after: Namespace<'a, T>, n: Seq<char>, sub: Entries<T>, x: Seq<char>, id: ID<T>)
    requires
        entry_lookup(sub, x) == Some(SpaceModel::Val(id)),
        after.frames()[0].local == entry_insert(before.frames()[0].local, n, SpaceModel::Space(sub)),
        n != "super"@,
    ensures
        resolve_id(after.frames(), seq![n, x]) == Ok::<ID<T>, Seq<Seq<char>>>(id),
{
    after.lemma_frames();
    lemma_lookup_insert(before.frames()[0].local, n, SpaceModel::Space(sub), n);
    let p = seq![n, x];
    assert(p.drop_first() =~= seq![x]);
    assert(space_get(sub, seq![x]) == Ok::<SpaceModel<T>, Seq<Seq<char>>>(SpaceModel::Val(id)));
    assert(space_get(after.frames()[0].local, p) == Ok::<SpaceModel<T>, Seq<Seq<char>>>(SpaceModel::Val(id)));
    lemma_id_push_zero(id, 0);
}

/// In a scope, a path whose first name the scope does not bind resolves as
/// in the enclosing namespace, one scope further up.
pub proof fn law_scope_falls_through<'a, 'b, T: ?Sized>(parent: Namespace<'a, T>, child: Namespace<'b, T>, p: Seq<Seq<char>>)
    requires
        child.frames().drop_first() == parent.frames(),
        child.frames().len() == parent.frames().len() + 1,
        p.len() > 0,
        p[0] != "super"@,
        entry_lookup(child.frames()[0].local, p[0]).is_none(),
    ensures
        resolve(child.frames(), p) == shift_up(resolve(parent.frames(), p)),
{
    lemma_resolve_from_shift(child.frames(), p, 0);
}

impl<T: ?Sized> ID<T> {
    /// The identifier `ID::new(id)`.
    pub open spec fn new_spec(id: usize) -> ID<T> {
        ID::Normal(id, 0, core::marker::PhantomData)
    }
}

} // verus!
