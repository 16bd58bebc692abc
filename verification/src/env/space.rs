use vstd::prelude::*;
use crate::name_map::{ NameMap, entry_index, entry_lookup, entry_insert, lemma_entry_index, lemma_entry_index_keys };
use super::{ ID, Path, PushID };
use super::id::{ id_push, id_pop };

verus! {

/// What a name of a space stands for: an element, or a nested space.
#[derive(Debug)]
pub enum SpaceVal<T: ?Sized> {
    Val(ID<T>),
    Space(Space<T>),
}

/// A space of names, each standing for an element or a nested space.
#[derive(Debug)]
pub struct Space<T: ?Sized> {
    names: NameMap<SpaceVal<T>>,
}

/// The mathematical value of a `SpaceVal`: an identifier, or the entries of
/// a nested space (name, value) in order.
pub enum SpaceModel<T: ?Sized> {
    Val(ID<T>),
    Space(Seq<(Seq<char>, SpaceModel<T>)>),
}

/// The model of a value of a space.
pub closed spec fn val_model<T: ?Sized>(v: SpaceVal<T>) -> SpaceModel<T>
    decreases v,
{
    match v {
        SpaceVal::Val(id) => SpaceModel::Val(id),
        SpaceVal::Space(s) => {
            let es = s.names.entries@;
            SpaceModel::Space(
                Seq::new(
                    es.len(),
                    |i: int|
                        if 0 <= i < es.len() {
                            proof {
                                assert(decreases_to!(s.names.entries => s.names.entries@));
                            }
                            (es[i].0@, val_model(es[i].1))
                        } else {
                            (Seq::empty(), SpaceModel::Space(Seq::empty()))
                        },
                ),
            )
        },
    }
}

/// The model of a space: its entries in order.
pub closed spec fn space_model<T: ?Sized>(s: Space<T>) -> Seq<(Seq<char>, SpaceModel<T>)> {
    match val_model(SpaceVal::Space(s)) {
        SpaceModel::Space(es) => es,
        SpaceModel::Val(_) => Seq::empty(),
    }
}

/// The model of a value: an identifier stays itself, a space becomes its
/// entries.
pub proof fn lemma_val_model<T: ?Sized>(v: SpaceVal<T>)
    ensures
        v matches SpaceVal::Val(id) ==> v.deep_view() == SpaceModel::Val(id),
        v matches SpaceVal::Space(s) ==> v.deep_view() == SpaceModel::Space(s.deep_view()),
{
}

/// The value of an entry of a space lies below the space.
proof fn lemma_entry_decreases<T: ?Sized>(s: Space<T>, i: int)
    requires
        0 <= i < s.names.entries@.len(),
    ensures
        decreases_to!(SpaceVal::Space(s) => SpaceVal::Space(s)->Space_0),
        decreases_to!(s => s.names),
        decreases_to!(s.names => s.names.entries),
        decreases_to!(s.names.entries => s.names.entries@),
        decreases_to!(s.names.entries@ => s.names.entries@[i]),
        decreases_to!(s.names.entries@[i] => s.names.entries@[i].1),
{
    let v = SpaceVal::Space(s);
    assert(decreases_to!(v => v->Space_0));
    let n = s.names;
    assert(decreases_to!(s => s.names));
    assert(decreases_to!(n => n.entries));
    assert(decreases_to!(n.entries => n.entries@));
    assert(decreases_to!(n.entries@ => n.entries@[i]));
    let e = n.entries@[i];
    assert(decreases_to!(e => e.1));
}

/// A nested value of a space model lies below the space.
proof fn lemma_model_decreases<T: ?Sized>(es: Seq<(Seq<char>, SpaceModel<T>)>, i: int)
    requires
        0 <= i < es.len(),
    ensures
        decreases_to!(SpaceModel::Space(es) => SpaceModel::Space(es)->Space_0),
        decreases_to!(es => es[i]),
        decreases_to!(es[i] => es[i].1),
{
    let v = SpaceModel::Space(es);
    assert(decreases_to!(v => v->Space_0));
    assert(decreases_to!(es => es[i]));
    let e = es[i];
    assert(decreases_to!(e => e.1));
}

proof fn lemma_space_model<T: ?Sized>(s: Space<T>)
    ensures
        space_model(s).len() == s.names@.len(),
        forall|i: int|
            0 <= i < s.names@.len() ==> #[trigger] space_model(s)[i] == (s.names@[i].0, val_model(s.names@[i].1)),
{
    assert forall|i: int| 0 <= i < s.names@.len() implies #[trigger] space_model(s)[i] == (s.names@[i].0, val_model(s.names@[i].1)) by {
        lemma_entry_decreases(s, i);
    }
}

/// The entries of a model space are all within bounds of `model_fits`.
proof fn lemma_model_fits<T: ?Sized>(es: Seq<(Seq<char>, SpaceModel<T>)>, min: int, amount: int)
    ensures
        model_fits(SpaceModel::Space(es), min, amount) <==> forall|i: int| 0 <= i < es.len() ==> model_fits(#[trigger] es[i].1, min, amount),
{
    if model_fits(SpaceModel::Space(es), min, amount) {
        assert forall|i: int| 0 <= i < es.len() implies model_fits(#[trigger] es[i].1, min, amount) by {
            lemma_model_decreases(es, i);
        }
    }
    if forall|i: int| 0 <= i < es.len() ==> model_fits(#[trigger] es[i].1, min, amount) {
        assert forall|i: int| 0 <= i < es.len() implies model_fits(#[trigger] es[i].1, min, amount) by {
            lemma_model_decreases(es, i);
        }
        assert(model_fits(SpaceModel::Space(es), min, amount));
    }
}

impl<T: ?Sized> DeepView for SpaceVal<T> {
    type V = SpaceModel<T>;

    open spec fn deep_view(&self) -> SpaceModel<T> {
        val_model(*self)
    }
}

impl<T: ?Sized> DeepView for Space<T> {
    type V = Seq<(Seq<char>, SpaceModel<T>)>;

    open spec fn deep_view(&self) -> Seq<(Seq<char>, SpaceModel<T>)> {
        space_model(*self)
    }
}

/// The value after moving every identifier in it `amount` scopes deeper.
pub open spec fn model_push<T: ?Sized>(v: SpaceModel<T>, min: int, amount: int) -> SpaceModel<T>
    decreases v,
{
    match v {
        SpaceModel::Val(id) => SpaceModel::Val(id_push(id, min, amount)),
        SpaceModel::Space(es) => SpaceModel::Space(
            Seq::new(
                es.len(),
                |i: int|
                    if 0 <= i < es.len() {
                        (es[i].0, model_push(es[i].1, min, amount))
                    } else {
                        (Seq::empty(), SpaceModel::Space(Seq::empty()))
                    },
            ),
        ),
    }
}

/// The value after moving every identifier in it `amount` scopes out, or
/// `None` where one of them names a scope that is left.
pub open spec fn model_pop<T: ?Sized>(v: SpaceModel<T>, min: int, amount: int) -> Option<SpaceModel<T>>
    decreases v,
{
    match v {
        SpaceModel::Val(id) => match id_pop(id, min, amount) {
            Some(id) => Some(SpaceModel::Val(id)),
            None => None,
        },
        SpaceModel::Space(es) => if forall|i: int|
            0 <= i < es.len() ==> model_pop(#[trigger] es[i].1, min, amount).is_some() {
            Some(
                SpaceModel::Space(
                    Seq::new(
                        es.len(),
                        |i: int|
                            if 0 <= i < es.len() {
                                (es[i].0, model_pop(es[i].1, min, amount).unwrap())
                            } else {
                                (Seq::empty(), SpaceModel::Space(Seq::empty()))
                            },
                    ),
                ),
            )
        } else {
            None
        },
    }
}

/// Moving every identifier of the value deeper keeps it within `usize`.
pub open spec fn model_fits<T: ?Sized>(v: SpaceModel<T>, min: int, amount: int) -> bool
    decreases v,
{
    match v {
        SpaceModel::Val(id) => <ID<T> as PushID>::push_fits(id, min, amount),
        SpaceModel::Space(es) => forall|i: int|
            0 <= i < es.len() ==> model_fits(#[trigger] es[i].1, min, amount),
    }
}

/// The value holds no identifier of a scope, only predefined ones.
pub open spec fn model_predef_only<T: ?Sized>(v: SpaceModel<T>) -> bool
    decreases v,
{
    match v {
        SpaceModel::Val(id) => id is Predef,
        SpaceModel::Space(es) => forall|i: int|
            0 <= i < es.len() ==> model_predef_only(#[trigger] es[i].1),
    }
}

/// Popping a pushed value gives it back.
pub proof fn lemma_model_pop_push<T: ?Sized>(v: SpaceModel<T>, min: int, amount: int)
    requires
        0 <= min,
        0 <= amount,
        model_fits(v, min, amount),
    ensures
        model_pop(model_push(v, min, amount), min, amount) == Some(v),
    decreases v,
{
    match v {
        SpaceModel::Val(id) => {
            assert(<ID<T> as PushID>::push_fits(id, min, amount));
            <ID<T> as PushID>::lemma_pop_push(id, min, amount);
            assert(id_pop(id_push(id, min, amount), min, amount) == Some(id));
        },
        SpaceModel::Space(es) => {
            lemma_model_fits(es, min, amount);
            lemma_model_push_space(es, min, amount);
            let pes = entries_push(es, min, amount);
            assert forall|i: int| 0 <= i < pes.len() implies model_pop(#[trigger] pes[i].1, min, amount) == Some(es[i].1) by {
                assert(model_fits(es[i].1, min, amount));
                lemma_model_decreases(es, i);
                lemma_model_pop_push(es[i].1, min, amount);
            }
            lemma_model_pop_space(pes, min, amount);
            let back = entries_pop(pes, min, amount).unwrap();
            assert(back =~= es);
        },
    }
}

/// The entries of a space after moving all its identifiers deeper.
pub open spec fn entries_push<T: ?Sized>(es: Seq<(Seq<char>, SpaceModel<T>)>, min: int, amount: int) -> Seq<(Seq<char>, SpaceModel<T>)> {
    match model_push(SpaceModel::Space(es), min, amount) {
        SpaceModel::Space(r) => r,
        SpaceModel::Val(_) => es,
    }
}

/// The entries of a space after moving all its identifiers out.
pub open spec fn entries_pop<T: ?Sized>(es: Seq<(Seq<char>, SpaceModel<T>)>, min: int, amount: int) -> Option<Seq<(Seq<char>, SpaceModel<T>)>> {
    match model_pop(SpaceModel::Space(es), min, amount) {
        Some(SpaceModel::Space(r)) => Some(r),
        _ => None,
    }
}

/// How pushing a space acts on its entries.
pub proof fn lemma_model_push_space<T: ?Sized>(es: Seq<(Seq<char>, SpaceModel<T>)>, min: int, amount: int)
    ensures
        model_push(SpaceModel::Space(es), min, amount) == SpaceModel::Space(entries_push(es, min, amount)),
        entries_push(es, min, amount).len() == es.len(),
        forall|i: int| 0 <= i < es.len() ==> #[trigger] entries_push(es, min, amount)[i] == (es[i].0, model_push(es[i].1, min, amount)),
{
    assert forall|i: int| 0 <= i < es.len() implies #[trigger] entries_push(es, min, amount)[i] == (es[i].0, model_push(es[i].1, min, amount)) by {
        lemma_model_decreases(es, i);
    }
}

/// How popping a space acts on its entries.
pub proof fn lemma_model_pop_space<T: ?Sized>(es: Seq<(Seq<char>, SpaceModel<T>)>, min: int, amount: int)
    ensures
        model_pop(SpaceModel::Space(es), min, amount).is_some() <==> forall|i: int| 0 <= i < es.len() ==> model_pop(#[trigger] es[i].1, min, amount).is_some(),
        model_pop(SpaceModel::Space(es), min, amount).is_some() ==> {
            &&& model_pop(SpaceModel::Space(es), min, amount) == Some(SpaceModel::Space(entries_pop(es, min, amount).unwrap()))
            &&& entries_pop(es, min, amount).unwrap().len() == es.len()
            &&& forall|i: int| 0 <= i < es.len() ==> #[trigger] entries_pop(es, min, amount).unwrap()[i] == (es[i].0, model_pop(es[i].1, min, amount).unwrap())
        },
        model_pop(SpaceModel::Space(es), min, amount).is_none() ==> entries_pop(es, min, amount).is_none(),
{
    assert forall|i: int| 0 <= i < es.len() implies model_pop(#[trigger] es[i].1, min, amount) == model_pop(es[i].1, min, amount) by {
        lemma_model_decreases(es, i);
    }
    if forall|i: int| 0 <= i < es.len() ==> model_pop(#[trigger] es[i].1, min, amount).is_some() {
        assert forall|i: int| 0 <= i < es.len() implies model_pop(#[trigger] es[i].1, min, amount).is_some() by {
            lemma_model_decreases(es, i);
        }
        assert(model_pop(SpaceModel::Space(es), min, amount).is_some());
        assert forall|i: int| 0 <= i < es.len() implies #[trigger] entries_pop(es, min, amount).unwrap()[i] == (es[i].0, model_pop(es[i].1, min, amount).unwrap()) by {
            lemma_model_decreases(es, i);
        }
    } else {
        let i = choose|i: int| 0 <= i < es.len() && !model_pop(#[trigger] es[i].1, min, amount).is_some();
        lemma_model_decreases(es, i);
        assert(model_pop(SpaceModel::Space(es), min, amount).is_none());
    }
}

/// Resolving the path `p` in the space with entries `es`: the value it
/// names, or the part of the path up to the name that could not be found
/// (or that names an element where a space is needed).
pub open spec fn space_get<T: ?Sized>(es: Seq<(Seq<char>, SpaceModel<T>)>, p: Seq<Seq<char>>) -> Result<SpaceModel<T>, Seq<Seq<char>>>
    decreases p.len(),
{
    if p.len() == 0 {
        Err(Seq::empty())
    } else {
        let v = entry_lookup(es, p[0]);
        if p.len() == 1 {
            match v {
                Some(x) => Ok(x),
                None => Err(seq![p[0]]),
            }
        } else {
            match v {
                Some(SpaceModel::Space(sub)) => match space_get(sub, p.drop_first()) {
                    Ok(x) => Ok(x),
                    Err(e) => Err(seq![p[0]] + e),
                },
                _ => Err(seq![p[0]]),
            }
        }
    }
}

/// The entries of a space made from `items`, added in order.
pub open spec fn entries_from<T: ?Sized>(items: Seq<(Seq<char>, ID<T>)>) -> Seq<(Seq<char>, SpaceModel<T>)>
    decreases items.len(),
{
    if items.len() == 0 {
        Seq::empty()
    } else {
        entry_insert(entries_from(items.drop_last()), items.last().0, SpaceModel::Val(items.last().1))
    }
}

/// A failed resolution names a non-empty prefix of the path.
pub proof fn lemma_space_get_err_prefix<T: ?Sized>(es: Seq<(Seq<char>, SpaceModel<T>)>, p: Seq<Seq<char>>)
    requires
        p.len() > 0,
    ensures
        space_get(es, p) matches Err(e) ==> 0 < e.len() <= p.len() && e == p.take(e.len() as int),
    decreases p.len(),
{
    if p.len() > 1 {
        match entry_lookup(es, p[0]) {
            Some(SpaceModel::Space(sub)) => {
                lemma_space_get_err_prefix(sub, p.drop_first());
                if let Err(e) = space_get(sub, p.drop_first()) {
                    assert(seq![p[0]] + e =~= p.take(e.len() as int + 1));
                }
            },
            _ => {
                assert(seq![p[0]] =~= p.take(1));
            },
        }
    } else {
        assert(seq![p[0]] =~= p.take(1));
    }
}

proof fn lemma_names_model_insert<T: ?Sized>(old_s: Space<T>, new_s: Space<T>, k: Seq<char>, v: SpaceVal<T>)
    requires
        new_s.names@ == entry_insert(old_s.names@, k, v),
    ensures
        space_model(new_s) == entry_insert(space_model(old_s), k, val_model(v)),
{
    lemma_space_model(old_s);
    lemma_space_model(new_s);
    lemma_entry_index_keys(old_s.names@, space_model(old_s), k);
    lemma_entry_index(old_s.names@, k);
    let a = space_model(new_s);
    let b = entry_insert(space_model(old_s), k, val_model(v));
    assert(a.len() == b.len());
    assert forall|i: int| 0 <= i < a.len() implies a[i] == b[i] by {
        assert(a[i] == (new_s.names@[i].0, val_model(new_s.names@[i].1)));
        if i < old_s.names@.len() {
            assert(space_model(old_s)[i] == (old_s.names@[i].0, val_model(old_s.names@[i].1)));
        }
    }
    assert(a =~= b);
}

/// A copy of a value of a space.
fn copy_val<T: ?Sized>(v: &SpaceVal<T>) -> (r: SpaceVal<T>)
    ensures
        r.deep_view() == v.deep_view(),
    decreases v,
{
    match v {
        SpaceVal::Val(id) => SpaceVal::Val(*id),
        SpaceVal::Space(s) => SpaceVal::Space(copy_space(s)),
    }
}

/// A copy of a space.
fn copy_space<T: ?Sized>(s: &Space<T>) -> (r: Space<T>)
    ensures
        r.deep_view() == s.deep_view(),
    decreases s,
{
    let mut entries: Vec<(String, SpaceVal<T>)> = Vec::new();
    let mut i: usize = 0;
    proof {
        lemma_space_model(*s);
    }
    while i < s.names.entries.len()
        invariant
            i <= s.names.entries@.len(),
            entries@.len() == i,
            space_model(*s).len() == s.names@.len(),
            forall|j: int| 0 <= j < s.names@.len() ==> #[trigger] space_model(*s)[j] == (s.names@[j].0, val_model(s.names@[j].1)),
            forall|j: int| 0 <= j < i ==> (#[trigger] entries@[j]).0@ == s.names.entries@[j].0@ && val_model(entries@[j].1) == val_model(s.names.entries@[j].1),
        decreases s.names.entries@.len() - i,
    {
        proof {
            assert(decreases_to!(s.names.entries => s.names.entries@));
        }
        let e = &s.names.entries[i];
        let v = copy_val(&e.1);
        entries.push((e.0.clone(), v));
        i = i + 1;
    }
    let r = Space { names: NameMap { entries } };
    proof {
        lemma_space_model(r);
    }
    assert(space_model(r) =~= space_model(*s));
    r
}

/// Moves every identifier of a value deeper.
fn push_val<T: ?Sized>(v: &SpaceVal<T>, min: usize, amount: usize) -> (r: SpaceVal<T>)
    requires
        model_fits(v.deep_view(), min as int, amount as int),
    ensures
        r.deep_view() == model_push(v.deep_view(), min as int, amount as int),
    decreases v,
{
    match v {
        SpaceVal::Val(id) => SpaceVal::Val(id.push_id_with_min(min, amount)),
        SpaceVal::Space(s) => {
            let ghost es = space_model(*s);
            proof {
                lemma_space_model(*s);
                assert(v.deep_view() == SpaceModel::Space(es));
                lemma_model_fits(es, min as int, amount as int);
                lemma_model_push_space(es, min as int, amount as int);
            }
            let mut entries: Vec<(String, SpaceVal<T>)> = Vec::new();
            let mut i: usize = 0;
            while i < s.names.entries.len()
                invariant
                    i <= s.names.entries@.len(),
                    entries@.len() == i,
                    *v == SpaceVal::Space(*s),
                    es == space_model(*s),
                    es.len() == s.names@.len(),
                    forall|j: int| 0 <= j < s.names@.len() ==> #[trigger] es[j] == (s.names@[j].0, val_model(s.names@[j].1)),
                    forall|j: int| 0 <= j < es.len() ==> model_fits(#[trigger] es[j].1, min as int, amount as int),
                    forall|j: int| 0 <= j < i ==> (#[trigger] entries@[j]).0@ == es[j].0 && val_model(entries@[j].1) == model_push(es[j].1, min as int, amount as int),
                decreases s.names.entries@.len() - i,
            {
                proof {
                    lemma_entry_decreases(*s, i as int);
                    assert(model_fits(es[i as int].1, min as int, amount as int));
                }
                let e = &s.names.entries[i];
                let x = push_val(&e.1, min, amount);
                entries.push((e.0.clone(), x));
                i = i + 1;
            }
            let r = Space { names: NameMap { entries } };
            proof {
                lemma_space_model(r);
            }
            assert(space_model(r) =~= entries_push(es, min as int, amount as int));
            SpaceVal::Space(r)
        },
    }
}

/// Moves every identifier of a value out, if none names a scope that is left.
fn pop_val<T: ?Sized>(v: &SpaceVal<T>, min: usize, amount: usize) -> (r: Option<SpaceVal<T>>)
    requires
        (min + amount <= usize::MAX) || (model_predef_only(v.deep_view())),
    ensures
        r.deep_view() == model_pop(v.deep_view(), min as int, amount as int),
    decreases v,
{
    match v {
        SpaceVal::Val(id) => match id.pop_id_with_min(min, amount) {
            Some(id) => Some(SpaceVal::Val(id)),
            None => None,
        },
        SpaceVal::Space(s) => {
            let ghost es = space_model(*s);
            proof {
                lemma_space_model(*s);
                assert(v.deep_view() == SpaceModel::Space(es));
                lemma_model_pop_space(es, min as int, amount as int);
            }
            let mut entries: Vec<(String, SpaceVal<T>)> = Vec::new();
            let mut i: usize = 0;
            while i < s.names.entries.len()
                invariant
                    i <= s.names.entries@.len(),
                    entries@.len() == i,
                    (min + amount <= usize::MAX) || (forall|j: int| 0 <= j < es.len() ==> model_predef_only(#[trigger] es[j].1)),
                    *v == SpaceVal::Space(*s),
                    es == space_model(*s),
                    es.len() == s.names@.len(),
                    forall|j: int| 0 <= j < s.names@.len() ==> #[trigger] es[j] == (s.names@[j].0, val_model(s.names@[j].1)),
                    forall|j: int| 0 <= j < i ==> (#[trigger] entries@[j]).0@ == es[j].0 && Some(val_model(entries@[j].1)) == model_pop(es[j].1, min as int, amount as int),
                decreases s.names.entries@.len() - i,
            {
                proof {
                    lemma_entry_decreases(*s, i as int);
                    assert(es[i as int].1 == val_model(s.names@[i as int].1));
                }
                let e = &s.names.entries[i];
                match pop_val(&e.1, min, amount) {
                    Some(x) => {
                        entries.push((e.0.clone(), x));
                    },
                    None => {
                        assert(model_pop(es[i as int].1, min as int, amount as int).is_none());
                        return None;
                    },
                }
                i = i + 1;
            }
            let r = Space { names: NameMap { entries } };
            proof {
                lemma_space_model(r);
                assert forall|j: int| 0 <= j < es.len() implies model_pop(#[trigger] es[j].1, min as int, amount as int).is_some() by {
                    assert(Some(val_model(entries@[j].1)) == model_pop(es[j].1, min as int, amount as int));
                }
            }
            assert(space_model(r) =~= entries_pop(es, min as int, amount as int).unwrap());
            Some(SpaceVal::Space(r))
        },
    }
}

impl<T: ?Sized> Clone for SpaceVal<T> {
    fn clone(&self) -> (r: Self)
        ensures
            r.deep_view() == self.deep_view(),
    {
        copy_val(self)
    }
}

impl<T: ?Sized> Clone for Space<T> {
    fn clone(&self) -> (r: Self)
        ensures
            r.deep_view() == self.deep_view(),
    {
        copy_space(self)
    }
}

impl<T: ?Sized> PushID for SpaceVal<T> {
    open spec fn push_model(v: SpaceModel<T>, min: int, amount: int) -> SpaceModel<T> {
        model_push(v, min, amount)
    }

    open spec fn pop_model(v: SpaceModel<T>, min: int, amount: int) -> Option<SpaceModel<T>> {
        model_pop(v, min, amount)
    }

    open spec fn push_fits(v: SpaceModel<T>, min: int, amount: int) -> bool {
        model_fits(v, min, amount)
    }

    open spec fn pop_ok(v: SpaceModel<T>, min: int, amount: int) -> bool {
        (min + amount <= usize::MAX) || (model_predef_only(v))
    }

    proof fn lemma_pop_ok(v: SpaceModel<T>, min: int, amount: int) {
        assert(<SpaceVal<T> as PushID>::pop_ok(v, min, amount));
    }

    proof fn lemma_pop_push(v: SpaceModel<T>, min: int, amount: int) {
        lemma_model_pop_push(v, min, amount);
    }

    fn push_id_with_min(&self, min: usize, amount: usize) -> (r: Self) {
        push_val(self, min, amount)
    }

    fn pop_id_with_min(&self, min: usize, amount: usize) -> (r: Option<Self>) {
        proof {
            assert(<SpaceVal<T> as PushID>::pop_ok(self.deep_view(), min as int, amount as int));
        }
        pop_val(self, min, amount)
    }
}

impl<T: ?Sized> PushID for Space<T> {
    open spec fn push_model(v: Seq<(Seq<char>, SpaceModel<T>)>, min: int, amount: int) -> Seq<(Seq<char>, SpaceModel<T>)> {
        entries_push(v, min, amount)
    }

    open spec fn pop_model(v: Seq<(Seq<char>, SpaceModel<T>)>, min: int, amount: int) -> Option<Seq<(Seq<char>, SpaceModel<T>)>> {
        entries_pop(v, min, amount)
    }

    open spec fn push_fits(v: Seq<(Seq<char>, SpaceModel<T>)>, min: int, amount: int) -> bool {
        model_fits(SpaceModel::Space(v), min, amount)
    }

    open spec fn pop_ok(v: Seq<(Seq<char>, SpaceModel<T>)>, min: int, amount: int) -> bool {
        (min + amount <= usize::MAX) || (model_predef_only(SpaceModel::Space(v)))
    }

    proof fn lemma_pop_ok(v: Seq<(Seq<char>, SpaceModel<T>)>, min: int, amount: int) {
        assert(<Space<T> as PushID>::pop_ok(v, min, amount));
    }

    proof fn lemma_pop_push(v: Seq<(Seq<char>, SpaceModel<T>)>, min: int, amount: int) {
        lemma_model_pop_push(SpaceModel::Space(v), min, amount);
    }

    fn push_id_with_min(&self, min: usize, amount: usize) -> (r: Self) {
        let s = copy_space(self);
        match push_val(&SpaceVal::Space(s), min, amount) {
            SpaceVal::Space(r) => r,
            SpaceVal::Val(_) => {
                assert(false);
                Space::default()
            },
        }
    }

    fn pop_id_with_min(&self, min: usize, amount: usize) -> (r: Option<Self>) {
        proof {
            assert(<Space<T> as PushID>::pop_ok(self.deep_view(), min as int, amount as int));
        }
        let s = copy_space(self);
        proof {
            lemma_val_model(SpaceVal::Space(s));
        }
        match pop_val(&SpaceVal::Space(s), min, amount) {
            Some(SpaceVal::Space(r)) => Some(r),
            Some(SpaceVal::Val(_)) => {
                assert(false);
                None
            },
            None => None,
        }
    }
}

impl<T: ?Sized> Default for Space<T> {
    fn default() -> (r: Self)
        ensures
            r.deep_view() == Seq::<(Seq<char>, SpaceModel<T>)>::empty(),
    {
        let r = Space { names: NameMap::new() };
        proof {
            lemma_space_model(r);
        }
        assert(space_model(r) =~= Seq::<(Seq<char>, SpaceModel<T>)>::empty());
        r
    }
}

impl<T: ?Sized> Space<T> {
    /// A space holding the names of `predef`, each standing for its
    /// identifier; of two equal names the later one counts.
    pub fn new(predef: Vec<(String, ID<T>)>) -> (r: Self)
        ensures
            r.deep_view() == entries_from(predef@.map_values(|e: (String, ID<T>)| (e.0@, e.1))),
    {
        let mut s = Space::default();
        let ghost items = predef@.map_values(|e: (String, ID<T>)| (e.0@, e.1));
        let mut i: usize = 0;
        while i < predef.len()
            invariant
                i <= predef@.len(),
                items == predef@.map_values(|e: (String, ID<T>)| (e.0@, e.1)),
                s.deep_view() == entries_from(items.take(i as int)),
            decreases predef@.len() - i,
        {
            let (n, id) = &predef[i];
            s.add(n, SpaceVal::Val(*id));
            assert(items.take(i + 1).drop_last() =~= items.take(i as int));
            i = i + 1;
        }
        assert(items.take(predef@.len() as int) =~= items);
        s
    }

    /// Makes `n` stand for `val`, replacing what it stood for.
    pub fn add(&mut self, n: &String, val: SpaceVal<T>)
        ensures
            final(self).deep_view() == entry_insert(old(self).deep_view(), n@, val.deep_view()),
    {
        let ghost v = val;
        self.names.insert(n.clone(), val);
        proof {
            lemma_names_model_insert(*old(self), *self, n@, v);
        }
    }

    /// Resolves the path `p` from the name at index `i` on.
    pub(crate) fn get_from(&self, p: &[String], i: usize) -> (r: Result<&SpaceVal<T>, Path<String>>)
        requires
            i < p@.len(),
        ensures
            match (r, space_get(self.deep_view(), p@.skip(i as int).map_values(|s: String| s@))) {
                (Ok(v), Ok(m)) => v.deep_view() == m,
                (Err(e), Err(m)) => e.deep_view() == m,
                _ => false,
            },
        decreases p@.len() - i,
    {
        let ghost q = p@.skip(i as int).map_values(|s: String| s@);
        let s = &p[i];
        proof {
            lemma_space_model(*self);
            lemma_entry_index_keys(self.names@, space_model(*self), s@);
            lemma_entry_index(self.names@, s@);
            assert(q[0] == s@);
        }
        let v = self.names.get(s);
        if i + 1 == p.len() {
            match v {
                Some(v) => Ok(v),
                None => {
                    let e = Path::single(s.clone());
                    assert(e.deep_view() =~= seq![q[0]]);
                    Err(e)
                },
            }
        } else {
            match v {
                Some(SpaceVal::Space(space)) => {
                    assert(q.drop_first() =~= p@.skip(i + 1).map_values(|s: String| s@));
                    match space.get_from(p, i + 1) {
                        Ok(x) => Ok(x),
                        Err(e) => {
                            let e2 = e.prepend(s.clone());
                            assert(e2.deep_view() =~= seq![q[0]] + e.deep_view());
                            Err(e2)
                        },
                    }
                },
                _ => {
                    let e = Path::single(s.clone());
                    assert(e.deep_view() =~= seq![q[0]]);
                    Err(e)
                },
            }
        }
    }

    /// Resolves the path `p`: the value it names, or the part of it up to
    /// the name that could not be found.
    pub fn get(&self, p: &[String]) -> (r: Result<&SpaceVal<T>, Path<String>>)
        requires
            p@.len() > 0,
        ensures
            match (r, space_get(self.deep_view(), p@.map_values(|s: String| s@))) {
                (Ok(v), Ok(m)) => v.deep_view() == m,
                (Err(e), Err(m)) => e.deep_view() == m,
                _ => false,
            },
    {
        assert(p@.skip(0) =~= p@);
        self.get_from(p, 0)
    }
}

} // verus!
