use vstd::prelude::*;
use core::marker::PhantomData;
use crate::env::{ ID, LocalID, PushID };
use crate::env::id::{ id_push, id_pop };
use crate::env::push_id::{ seq_push_model, seq_pop_model };
use crate::envs::ExpVal;
use super::{ Type, Exp, SetLocal };
use super::exp::{ ExpModel, lemma_exp_model };
use super::ty::{ TypeModel, type_push, type_pop, type_fits, type_set, type_set_ok, type_predef_only };

verus! {

/// A pattern that values are matched against: a variable of a type, an
/// atom, a compound constructor applied to a pattern, or a tuple.
#[derive(Debug, PartialEq, Eq)]
pub enum Pattern {
    Var(Type),
    Atom(ID<ExpVal>, Vec<Type>),
    Comp(ID<ExpVal>, Vec<Type>, Box<Pattern>),
    Tuple(Vec<Pattern>),
}

/// The mathematical value of a pattern.
pub enum PatternModel {
    Var(TypeModel),
    Atom(ID<ExpVal>, Seq<TypeModel>),
    Comp(ID<ExpVal>, Seq<TypeModel>, Box<PatternModel>),
    Tuple(Seq<PatternModel>),
}

/// The model of a pattern.
pub closed spec fn pattern_model(p: Pattern) -> PatternModel
    decreases p,
{
    match p {
        Pattern::Var(t) => PatternModel::Var(t.deep_view()),
        Pattern::Atom(id, gs) => PatternModel::Atom(id, gs.deep_view()),
        Pattern::Comp(id, gs, b) => PatternModel::Comp(id, gs.deep_view(), Box::new(pattern_model(*b))),
        Pattern::Tuple(v) => PatternModel::Tuple(
            Seq::new(
                v@.len(),
                |i: int|
                    if 0 <= i < v@.len() {
                        proof {
                            assert(decreases_to!(v => v@));
                        }
                        pattern_model(v@[i])
                    } else {
                        PatternModel::Tuple(Seq::empty())
                    },
            ),
        ),
    }
}

impl DeepView for Pattern {
    type V = PatternModel;

    open spec fn deep_view(&self) -> PatternModel {
        pattern_model(*self)
    }
}

/// How the model of a pattern is made of the models of its parts.
pub proof fn lemma_pattern_model(p: Pattern)
    ensures
        match p {
            Pattern::Var(t) => p.deep_view() == PatternModel::Var(t.deep_view()),
            Pattern::Atom(id, gs) => p.deep_view() == PatternModel::Atom(id, gs.deep_view()),
            Pattern::Comp(id, gs, b) => p.deep_view() == PatternModel::Comp(id, gs.deep_view(), Box::new(b.deep_view())),
            Pattern::Tuple(v) => p.deep_view() matches PatternModel::Tuple(w) && w.len() == v@.len()
                && forall|i: int| 0 <= i < v@.len() ==> #[trigger] w[i] == v@[i].deep_view(),
        },
{
    if let Pattern::Tuple(v) = p {
        assert forall|i: int| 0 <= i < v@.len() implies #[trigger] pattern_model(p)->Tuple_0[i] == v@[i].deep_view() by {
            assert(decreases_to!(p => p->Tuple_0));
            assert(decreases_to!(v => v@));
            assert(decreases_to!(v@ => v@[i]));
        }
    }
}

/// A part of a tuple pattern lies below the pattern.
pub proof fn lemma_pattern_part_decreases(p: PatternModel, i: int)
    requires
        p is Tuple,
        0 <= i < p->Tuple_0.len(),
    ensures
        decreases_to!(p => p->Tuple_0),
        decreases_to!(p->Tuple_0 => p->Tuple_0[i]),
{
}

/// The pattern after moving every identifier in it `amount` scopes deeper.
pub open spec fn pattern_push(p: PatternModel, min: int, amount: int) -> PatternModel
    decreases p,
{
    match p {
        PatternModel::Var(t) => PatternModel::Var(type_push(t, min, amount)),
        PatternModel::Atom(id, gs) => PatternModel::Atom(id_push(id, min, amount), seq_push_model::<Type>(gs, min, amount)),
        PatternModel::Comp(id, gs, b) => PatternModel::Comp(
            id_push(id, min, amount),
            seq_push_model::<Type>(gs, min, amount),
            Box::new(pattern_push(*b, min, amount)),
        ),
        PatternModel::Tuple(v) => PatternModel::Tuple(
            Seq::new(
                v.len(),
                |i: int|
                    if 0 <= i < v.len() {
                        proof {
                            lemma_pattern_part_decreases(p, i);
                        }
                        pattern_push(v[i], min, amount)
                    } else {
                        PatternModel::Tuple(Seq::empty())
                    },
            ),
        ),
    }
}

/// The pattern after moving every identifier in it `amount` scopes out, or
/// `None` where one names a scope that is left.
pub open spec fn pattern_pop(p: PatternModel, min: int, amount: int) -> Option<PatternModel>
    decreases p,
{
    match p {
        PatternModel::Var(t) => match type_pop(t, min, amount) {
            Some(t) => Some(PatternModel::Var(t)),
            None => None,
        },
        PatternModel::Atom(id, gs) => match (id_pop(id, min, amount), seq_pop_model::<Type>(gs, min, amount)) {
            (Some(id), Some(gs)) => Some(PatternModel::Atom(id, gs)),
            _ => None,
        },
        PatternModel::Comp(id, gs, b) => match (id_pop(id, min, amount), seq_pop_model::<Type>(gs, min, amount), pattern_pop(*b, min, amount)) {
            (Some(id), Some(gs), Some(b)) => Some(PatternModel::Comp(id, gs, Box::new(b))),
            _ => None,
        },
        PatternModel::Tuple(v) => if forall|i: int| 0 <= i < v.len() ==> pattern_pop(#[trigger] v[i], min, amount).is_some() {
            Some(PatternModel::Tuple(
                Seq::new(
                    v.len(),
                    |i: int|
                        if 0 <= i < v.len() {
                            proof {
                                lemma_pattern_part_decreases(p, i);
                            }
                            pattern_pop(v[i], min, amount).unwrap()
                        } else {
                            PatternModel::Tuple(Seq::empty())
                        },
                ),
            ))
        } else {
            None
        },
    }
}

/// Moving every identifier of the pattern deeper stays within `usize`.
pub open spec fn pattern_fits(p: PatternModel, min: int, amount: int) -> bool
    decreases p,
{
    match p {
        PatternModel::Var(t) => type_fits(t, min, amount),
        PatternModel::Atom(id, gs) => <ID<ExpVal> as PushID>::push_fits(id, min, amount)
            && <Vec<Type> as PushID>::push_fits(gs, min, amount),
        PatternModel::Comp(id, gs, b) => <ID<ExpVal> as PushID>::push_fits(id, min, amount)
            && <Vec<Type> as PushID>::push_fits(gs, min, amount)
            && pattern_fits(*b, min, amount),
        PatternModel::Tuple(v) => forall|i: int| 0 <= i < v.len() ==> pattern_fits(#[trigger] v[i], min, amount),
    }
}

/// The pattern holds no identifier of a scope, only predefined ones.
pub open spec fn pattern_predef_only(p: PatternModel) -> bool
    decreases p,
{
    match p {
        PatternModel::Var(t) => type_predef_only(t),
        PatternModel::Atom(id, gs) => id is Predef && forall|i: int| 0 <= i < gs.len() ==> type_predef_only(#[trigger] gs[i]),
        PatternModel::Comp(id, gs, b) => id is Predef && (forall|i: int| 0 <= i < gs.len() ==> type_predef_only(#[trigger] gs[i]))
            && pattern_predef_only(*b),
        PatternModel::Tuple(v) => forall|i: int| 0 <= i < v.len() ==> pattern_predef_only(#[trigger] v[i]),
    }
}

/// How the operations on tuple patterns act on the parts.
pub proof fn lemma_pattern_tuple_unfold(p: PatternModel, min: int, amount: int)
    requires
        p is Tuple,
    ensures
        pattern_push(p, min, amount) is Tuple,
        pattern_push(p, min, amount)->Tuple_0.len() == p->Tuple_0.len(),
        forall|i: int| 0 <= i < p->Tuple_0.len() ==> #[trigger] pattern_push(p, min, amount)->Tuple_0[i] == pattern_push(p->Tuple_0[i], min, amount),
        pattern_fits(p, min, amount) <==> forall|i: int| 0 <= i < p->Tuple_0.len() ==> pattern_fits(#[trigger] p->Tuple_0[i], min, amount),
        pattern_predef_only(p) ==> forall|i: int| 0 <= i < p->Tuple_0.len() ==> pattern_predef_only(#[trigger] p->Tuple_0[i]),
        pattern_pop(p, min, amount).is_some() <==> forall|i: int| 0 <= i < p->Tuple_0.len() ==> pattern_pop(#[trigger] p->Tuple_0[i], min, amount).is_some(),
        pattern_pop(p, min, amount) matches Some(q) ==> {
            &&& q is Tuple
            &&& q->Tuple_0.len() == p->Tuple_0.len()
            &&& forall|i: int| 0 <= i < p->Tuple_0.len() ==> #[trigger] q->Tuple_0[i] == pattern_pop(p->Tuple_0[i], min, amount).unwrap()
        },
{
    let v = p->Tuple_0;
    assert forall|i: int| 0 <= i < v.len() implies {
        &&& #[trigger] pattern_push(p, min, amount)->Tuple_0[i] == pattern_push(v[i], min, amount)
        &&& pattern_fits(v[i], min, amount) == pattern_fits(v[i], min, amount)
    } by {
        lemma_pattern_part_decreases(p, i);
    }
    if forall|i: int| 0 <= i < v.len() ==> pattern_fits(#[trigger] v[i], min, amount) {
        assert forall|i: int| 0 <= i < v.len() implies pattern_fits(#[trigger] v[i], min, amount) by {
            lemma_pattern_part_decreases(p, i);
        }
    }
    if pattern_fits(p, min, amount) {
        assert forall|i: int| 0 <= i < v.len() implies pattern_fits(#[trigger] v[i], min, amount) by {
            lemma_pattern_part_decreases(p, i);
        }
    }
    if pattern_predef_only(p) {
        assert forall|i: int| 0 <= i < v.len() implies pattern_predef_only(#[trigger] v[i]) by {
            lemma_pattern_part_decreases(p, i);
        }
    }
    if forall|i: int| 0 <= i < v.len() ==> pattern_pop(#[trigger] v[i], min, amount).is_some() {
        assert forall|i: int| 0 <= i < v.len() implies pattern_pop(#[trigger] v[i], min, amount).is_some() by {
            lemma_pattern_part_decreases(p, i);
        }
        if let Some(q) = pattern_pop(p, min, amount) {
            assert forall|i: int| 0 <= i < v.len() implies #[trigger] q->Tuple_0[i] == pattern_pop(v[i], min, amount).unwrap() by {
                lemma_pattern_part_decreases(p, i);
            }
        }
    } else {
        let i = choose|i: int| 0 <= i < v.len() && !pattern_pop(#[trigger] v[i], min, amount).is_some();
        lemma_pattern_part_decreases(p, i);
    }
}

/// Popping a pushed pattern gives it back.
pub proof fn lemma_pattern_pop_push(p: PatternModel, min: int, amount: int)
    requires
        0 <= min,
        0 <= amount,
        pattern_fits(p, min, amount),
    ensures
        pattern_pop(pattern_push(p, min, amount), min, amount) == Some(p),
    decreases p,
{
    match p {
        PatternModel::Var(t) => {
            <Type as PushID>::lemma_pop_push(t, min, amount);
        },
        PatternModel::Atom(id, gs) => {
            <Vec<Type> as PushID>::lemma_pop_push(gs, min, amount);
        },
        PatternModel::Comp(id, gs, b) => {
            <Vec<Type> as PushID>::lemma_pop_push(gs, min, amount);
            lemma_pattern_pop_push(*b, min, amount);
        },
        PatternModel::Tuple(v) => {
            lemma_pattern_tuple_unfold(p, min, amount);
            let q = pattern_push(p, min, amount);
            lemma_pattern_tuple_unfold(q, min, amount);
            assert forall|i: int| 0 <= i < v.len() implies pattern_pop(#[trigger] q->Tuple_0[i], min, amount) == Some(v[i]) by {
                lemma_pattern_part_decreases(p, i);
                lemma_pattern_pop_push(v[i], min, amount);
            }
            assert(pattern_pop(q, min, amount).unwrap()->Tuple_0 =~= v);
        },
    }
}

/// Moves every identifier of a pattern deeper.
fn push_pattern(p: &Pattern, min: usize, amount: usize) -> (r: Pattern)
    requires
        pattern_fits(p.deep_view(), min as int, amount as int),
    ensures
        r.deep_view() == pattern_push(p.deep_view(), min as int, amount as int),
    decreases p,
{
    proof {
        lemma_pattern_model(*p);
    }
    match p {
        Pattern::Var(t) => {
            let r = Pattern::Var(t.push_id_with_min(min, amount));
            proof {
                lemma_pattern_model(r);
            }
            r
        },
        Pattern::Atom(id, gs) => {
            let r = Pattern::Atom(id.push_id_with_min(min, amount), gs.push_id_with_min(min, amount));
            proof {
                lemma_pattern_model(r);
            }
            r
        },
        Pattern::Comp(id, gs, b) => {
            let r = Pattern::Comp(id.push_id_with_min(min, amount), gs.push_id_with_min(min, amount), Box::new(push_pattern(&**b, min, amount)));
            proof {
                lemma_pattern_model(r);
            }
            r
        },
        Pattern::Tuple(v) => {
            let ghost m = p.deep_view();
            proof {
                lemma_pattern_tuple_unfold(m, min as int, amount as int);
            }
            let mut w: Vec<Pattern> = Vec::new();
            let mut i: usize = 0;
            while i < v.len()
                invariant
                    i <= v@.len(),
                    w@.len() == i,
                    m == p.deep_view(),
                    *p == Pattern::Tuple(*v),
                    m is Tuple,
                    m->Tuple_0.len() == v@.len(),
                    forall|j: int| 0 <= j < v@.len() ==> #[trigger] m->Tuple_0[j] == v@[j].deep_view(),
                    forall|j: int| 0 <= j < v@.len() ==> pattern_fits(#[trigger] m->Tuple_0[j], min as int, amount as int),
                    forall|j: int| 0 <= j < i ==> (#[trigger] w@[j]).deep_view() == pattern_push(m->Tuple_0[j], min as int, amount as int),
                decreases v@.len() - i,
            {
                proof {
                    assert(decreases_to!(*p => p->Tuple_0));
                    assert(decreases_to!(*v => v@));
                    assert(decreases_to!(v@ => v@[i as int]));
                    assert(pattern_fits(m->Tuple_0[i as int], min as int, amount as int));
                }
                w.push(push_pattern(&v[i], min, amount));
                i = i + 1;
            }
            let r = Pattern::Tuple(w);
            proof {
                lemma_pattern_model(r);
                assert(r.deep_view()->Tuple_0 =~= pattern_push(m, min as int, amount as int)->Tuple_0);
            }
            r
        },
    }
}

/// Moves every identifier of a pattern out, if none names a scope that is
/// left.
fn pop_pattern(p: &Pattern, min: usize, amount: usize) -> (r: Option<Pattern>)
    requires
        (min + amount <= usize::MAX) || (pattern_predef_only(p.deep_view())),
    ensures
        r.deep_view() == pattern_pop(p.deep_view(), min as int, amount as int),
    decreases p,
{
    proof {
        lemma_pattern_model(*p);
        match p {
            Pattern::Atom(_, gs) => {
                assert forall|i: int| 0 <= i < gs@.len() implies #[trigger] <Type as PushID>::pop_ok(gs.deep_view()[i], min as int, amount as int) by {
                    assert(p.deep_view()->Atom_1[i] == gs.deep_view()[i]);
                }
            },
            Pattern::Comp(_, gs, _) => {
                assert forall|i: int| 0 <= i < gs@.len() implies #[trigger] <Type as PushID>::pop_ok(gs.deep_view()[i], min as int, amount as int) by {
                    assert(p.deep_view()->Comp_1[i] == gs.deep_view()[i]);
                }
            },
            _ => {},
        }
    }
    match p {
        Pattern::Var(t) => match t.pop_id_with_min(min, amount) {
            Some(t) => {
                let r = Pattern::Var(t);
                proof {
                    lemma_pattern_model(r);
                }
                Some(r)
            },
            None => None,
        },
        Pattern::Atom(id, gs) => match (id.pop_id_with_min(min, amount), gs.pop_id_with_min(min, amount)) {
            (Some(id), Some(gs)) => {
                let r = Pattern::Atom(id, gs);
                proof {
                    lemma_pattern_model(r);
                }
                Some(r)
            },
            _ => None,
        },
        Pattern::Comp(id, gs, b) => match (id.pop_id_with_min(min, amount), gs.pop_id_with_min(min, amount), pop_pattern(&**b, min, amount)) {
            (Some(id), Some(gs), Some(b)) => {
                let r = Pattern::Comp(id, gs, Box::new(b));
                proof {
                    lemma_pattern_model(r);
                }
                Some(r)
            },
            _ => None,
        },
        Pattern::Tuple(v) => {
            let ghost m = p.deep_view();
            proof {
                lemma_pattern_tuple_unfold(m, min as int, amount as int);
            }
            let mut w: Vec<Pattern> = Vec::new();
            let mut i: usize = 0;
            while i < v.len()
                invariant
                    i <= v@.len(),
                    w@.len() == i,
                    (min + amount <= usize::MAX) || (forall|j: int| 0 <= j < v@.len() ==> pattern_predef_only(#[trigger] m->Tuple_0[j])),
                    m == p.deep_view(),
                    *p == Pattern::Tuple(*v),
                    m is Tuple,
                    m->Tuple_0.len() == v@.len(),
                    forall|j: int| 0 <= j < v@.len() ==> #[trigger] m->Tuple_0[j] == v@[j].deep_view(),
                    forall|j: int| 0 <= j < i ==> Some((#[trigger] w@[j]).deep_view()) == pattern_pop(m->Tuple_0[j], min as int, amount as int),
                decreases v@.len() - i,
            {
                proof {
                    assert(decreases_to!(*p => p->Tuple_0));
                    assert(decreases_to!(*v => v@));
                    assert(decreases_to!(v@ => v@[i as int]));
                    assert(m->Tuple_0[i as int] == v@[i as int].deep_view());
                }
                match pop_pattern(&v[i], min, amount) {
                    Some(x) => w.push(x),
                    None => {
                        assert(pattern_pop(m->Tuple_0[i as int], min as int, amount as int).is_none());
                        return None;
                    },
                }
                i = i + 1;
            }
            assert forall|j: int| 0 <= j < m->Tuple_0.len() implies pattern_pop(#[trigger] m->Tuple_0[j], min as int, amount as int).is_some() by {
                assert(Some(w@[j].deep_view()) == pattern_pop(m->Tuple_0[j], min as int, amount as int));
            }
            let r = Pattern::Tuple(w);
            proof {
                lemma_pattern_model(r);
                assert(r.deep_view()->Tuple_0 =~= pattern_pop(m, min as int, amount as int).unwrap()->Tuple_0);
            }
            Some(r)
        },
    }
}

impl PushID for Pattern {
    open spec fn push_model(v: PatternModel, min: int, amount: int) -> PatternModel {
        pattern_push(v, min, amount)
    }

    open spec fn pop_model(v: PatternModel, min: int, amount: int) -> Option<PatternModel> {
        pattern_pop(v, min, amount)
    }

    open spec fn push_fits(v: PatternModel, min: int, amount: int) -> bool {
        pattern_fits(v, min, amount)
    }

    open spec fn pop_ok(v: PatternModel, min: int, amount: int) -> bool {
        (min + amount <= usize::MAX) || (pattern_predef_only(v))
    }

    proof fn lemma_pop_ok(v: PatternModel, min: int, amount: int) {
        assert(<Pattern as PushID>::pop_ok(v, min, amount));
    }

    proof fn lemma_pop_push(v: PatternModel, min: int, amount: int) {
        lemma_pattern_pop_push(v, min, amount);
    }

    fn push_id_with_min(&self, min: usize, amount: usize) -> (r: Self) {
        push_pattern(self, min, amount)
    }

    fn pop_id_with_min(&self, min: usize, amount: usize) -> (r: Option<Self>) {
        proof {
            assert(<Pattern as PushID>::pop_ok(self.deep_view(), min as int, amount as int));
        }
        pop_pattern(self, min, amount)
    }
}

/// A copy of a pattern.
fn clone_pattern(p: &Pattern) -> (r: Pattern)
    ensures
        r.deep_view() == p.deep_view(),
    decreases p,
{
    proof {
        lemma_pattern_model(*p);
    }
    let r = match p {
        Pattern::Var(t) => Pattern::Var(t.clone()),
        Pattern::Atom(id, gs) => Pattern::Atom(*id, gs.clone()),
        Pattern::Comp(id, gs, b) => Pattern::Comp(*id, gs.clone(), Box::new(clone_pattern(&**b))),
        Pattern::Tuple(v) => {
            let mut w: Vec<Pattern> = Vec::new();
            let mut i: usize = 0;
            while i < v.len()
                invariant
                    i <= v@.len(),
                    w@.len() == i,
                    *p == Pattern::Tuple(*v),
                    forall|j: int| 0 <= j < i ==> (#[trigger] w@[j]).deep_view() == v@[j].deep_view(),
                decreases v@.len() - i,
            {
                proof {
                    assert(decreases_to!(*p => p->Tuple_0));
                    assert(decreases_to!(*v => v@));
                    assert(decreases_to!(v@ => v@[i as int]));
                }
                w.push(clone_pattern(&v[i]));
                i = i + 1;
            }
            Pattern::Tuple(w)
        },
    };
    proof {
        lemma_pattern_model(r);
        if let Pattern::Atom(_, gs) = p {
            assert(r->Atom_1.deep_view() =~= gs.deep_view());
        }
        if let Pattern::Comp(_, gs, _) = p {
            assert(r->Comp_1.deep_view() =~= gs.deep_view());
        }
        if let Pattern::Tuple(v) = p {
            assert(r.deep_view()->Tuple_0 =~= p.deep_view()->Tuple_0);
        }
    }
    r
}

impl Clone for Pattern {
    fn clone(&self) -> (r: Self)
        ensures
            r.deep_view() == self.deep_view(),
    {
        clone_pattern(self)
    }
}

/// The types of the variables a pattern binds, in the order they are bound.
pub open spec fn pattern_vars(p: PatternModel) -> Seq<TypeModel>
    decreases p, 0int,
{
    match p {
        PatternModel::Var(t) => seq![t],
        PatternModel::Atom(_, _) => Seq::empty(),
        PatternModel::Comp(_, _, b) => pattern_vars(*b),
        PatternModel::Tuple(v) => parts_vars(v, v.len() as int),
    }
}

/// The types of the variables the first `k` parts of a tuple pattern bind.
pub open spec fn parts_vars(v: Seq<PatternModel>, k: int) -> Seq<TypeModel>
    decreases v, k,
{
    if 0 < k <= v.len() {
        parts_vars(v, k - 1) + pattern_vars(v[k - 1])
    } else {
        Seq::empty()
    }
}

/// The first parts of a tuple bind no more variables than more of them.
pub proof fn lemma_parts_vars_grow(v: Seq<PatternModel>, i: int, k: int)
    requires
        0 <= i <= k <= v.len(),
    ensures
        parts_vars(v, i).len() <= parts_vars(v, k).len(),
    decreases k - i,
{
    if i < k {
        lemma_parts_vars_grow(v, i, k - 1);
    }
}

impl Pattern {
    /// The number of variables the pattern binds.
    pub fn bounds(&self) -> (r: usize)
        requires
            pattern_vars(self.deep_view()).len() <= usize::MAX,
        ensures
            r == pattern_vars(self.deep_view()).len(),
        decreases self,
    {
        proof {
            lemma_pattern_model(*self);
        }
        match self {
            Pattern::Var(_) => 1,
            Pattern::Atom(_, _) => 0,
            Pattern::Comp(_, _, b) => b.bounds(),
            Pattern::Tuple(v) => {
                let ghost m = self.deep_view()->Tuple_0;
                let mut n: usize = 0;
                let mut i: usize = 0;
                while i < v.len()
                    invariant
                        i <= v@.len(),
                        *self == Pattern::Tuple(*v),
                        m.len() == v@.len(),
                        forall|j: int| 0 <= j < v@.len() ==> #[trigger] m[j] == v@[j].deep_view(),
                        parts_vars(m, m.len() as int).len() <= usize::MAX,
                        n == parts_vars(m, i as int).len(),
                    decreases v@.len() - i,
                {
                    proof {
                        assert(decreases_to!(*self => self->Tuple_0));
                        assert(decreases_to!(*v => v@));
                        assert(decreases_to!(v@ => v@[i as int]));
                        lemma_parts_vars_grow(m, i as int + 1, m.len() as int);
                        assert(pattern_vars(m[i as int]).len() <= usize::MAX);
                    }
                    n = n + v[i].bounds();
                    i = i + 1;
                }
                n
            },
        }
    }
}

/// The type of every variable of the pattern can be moved one scope deeper.
pub open spec fn pattern_vars_fit(p: PatternModel) -> bool
    decreases p,
{
    match p {
        PatternModel::Var(t) => type_fits(t, 0, 1),
        PatternModel::Atom(_, _) => true,
        PatternModel::Comp(_, _, b) => pattern_vars_fit(*b),
        PatternModel::Tuple(v) => forall|i: int| 0 <= i < v.len() ==> pattern_vars_fit(#[trigger] v[i]),
    }
}

/// The variables bound by the parts `0..k` of a tuple, then those bound by
/// part `k`, are those bound by the parts `0..k + 1`.
proof fn lemma_parts_vars_step(v: Seq<PatternModel>, k: int)
    requires
        0 <= k < v.len(),
    ensures
        parts_vars(v, k + 1) == parts_vars(v, k) + pattern_vars(v[k]),
{
}

/// The expression that a value matching the pattern is rebuilt as, its
/// variables named by the identifiers `i ..` of the current scope.
pub open spec fn pattern_to_exp(p: PatternModel, i: int) -> ExpModel
    decreases p,
{
    match p {
        PatternModel::Var(_) => ExpModel::Var(LocalID::Global(ID::Normal(i as usize, 0, PhantomData)), Seq::empty()),
        PatternModel::Atom(id, gs) => ExpModel::Var(LocalID::Global(id), gs),
        PatternModel::Comp(id, gs, b) => ExpModel::Call(Box::new(ExpModel::Var(LocalID::Global(id), gs)), Box::new(pattern_to_exp(*b, i))),
        PatternModel::Tuple(v) => ExpModel::Tuple(
            Seq::new(
                v.len(),
                |k: int|
                    if 0 <= k < v.len() {
                        proof {
                            lemma_pattern_part_decreases(p, k);
                        }
                        pattern_to_exp(v[k], i + parts_vars(v, k).len())
                    } else {
                        ExpModel::Tuple(Seq::empty())
                    },
            ),
        ),
    }
}

impl Pattern {
    /// The variables the pattern binds, each with no value, no generic
    /// parameter, and its type seen from inside the new scope.
    pub fn bound(&self) -> (r: Vec<ExpVal>)
        requires
            pattern_vars_fit(self.deep_view()),
        ensures
            r@.len() == pattern_vars(self.deep_view()).len(),
            forall|i: int| 0 <= i < r@.len() ==> {
                &&& (#[trigger] r@[i]).val_view() is None
                &&& r@[i].gen_view() == 0
                &&& r@[i].ty_view() == type_push(pattern_vars(self.deep_view())[i], 0, 1)
            },
        decreases self,
    {
        proof {
            lemma_pattern_model(*self);
        }
        match self {
            Pattern::Var(ty) => {
                let mut r: Vec<ExpVal> = Vec::new();
                r.push(ExpVal::new_empty(ty.push_id(1), 0));
                r
            },
            Pattern::Atom(_, _) => Vec::new(),
            Pattern::Comp(_, _, b) => b.bound(),
            Pattern::Tuple(v) => {
                let ghost m = self.deep_view()->Tuple_0;
                let mut r: Vec<ExpVal> = Vec::new();
                let mut k: usize = 0;
                while k < v.len()
                    invariant
                        k <= v@.len(),
                        *self == Pattern::Tuple(*v),
                        m == self.deep_view()->Tuple_0,
                        m.len() == v@.len(),
                        forall|j: int| 0 <= j < v@.len() ==> #[trigger] m[j] == v@[j].deep_view(),
                        forall|j: int| 0 <= j < v@.len() ==> pattern_vars_fit(#[trigger] m[j]),
                        r@.len() == parts_vars(m, k as int).len(),
                        forall|i: int| 0 <= i < r@.len() ==> {
                            &&& (#[trigger] r@[i]).val_view() is None
                            &&& r@[i].gen_view() == 0
                            &&& r@[i].ty_view() == type_push(parts_vars(m, k as int)[i], 0, 1)
                        },
                    decreases v@.len() - k,
                {
                    proof {
                        assert(decreases_to!(*self => self->Tuple_0));
                        assert(decreases_to!(*v => v@));
                        assert(decreases_to!(v@ => v@[k as int]));
                        assert(pattern_vars_fit(m[k as int]));
                        lemma_parts_vars_step(m, k as int);
                    }
                    let mut b = v[k].bound();
                    r.append(&mut b);
                    k = k + 1;
                }
                r
            },
        }
    }

    /// The expression a value matching the pattern is rebuilt as, its
    /// variables named by the identifiers `i ..` of the current scope.
    pub fn to_exp(&self, i: usize) -> (r: Exp)
        requires
            i + pattern_vars(self.deep_view()).len() <= usize::MAX,
        ensures
            r.deep_view() == pattern_to_exp(self.deep_view(), i as int),
        decreases self,
    {
        proof {
            lemma_pattern_model(*self);
        }
        let r = match self {
            Pattern::Var(_) => Exp::Var(LocalID::Global(ID::new(i)), Vec::new()),
            Pattern::Atom(id, gs) => Exp::Var(LocalID::Global(*id), gs.clone()),
            Pattern::Comp(id, gs, b) => Exp::Call(Box::new(Exp::Var(LocalID::Global(*id), gs.clone())), Box::new(b.to_exp(i))),
            Pattern::Tuple(v) => {
                let ghost m = self.deep_view()->Tuple_0;
                let mut w: Vec<Exp> = Vec::new();
                let mut j: usize = i;
                let mut k: usize = 0;
                while k < v.len()
                    invariant
                        k <= v@.len(),
                        w@.len() == k,
                        *self == Pattern::Tuple(*v),
                        m == self.deep_view()->Tuple_0,
                        m.len() == v@.len(),
                        forall|l: int| 0 <= l < v@.len() ==> #[trigger] m[l] == v@[l].deep_view(),
                        i + parts_vars(m, m.len() as int).len() <= usize::MAX,
                        j == i + parts_vars(m, k as int).len(),
                        forall|l: int| 0 <= l < k ==> (#[trigger] w@[l]).deep_view() == pattern_to_exp(m[l], i + parts_vars(m, l).len()),
                    decreases v@.len() - k,
                {
                    proof {
                        assert(decreases_to!(*self => self->Tuple_0));
                        assert(decreases_to!(*v => v@));
                        assert(decreases_to!(v@ => v@[k as int]));
                        lemma_parts_vars_step(m, k as int);
                        lemma_parts_vars_grow(m, k as int + 1, m.len() as int);
                    }
                    let e = v[k].to_exp(j);
                    j = j + v[k].bounds();
                    w.push(e);
                    k = k + 1;
                }
                Exp::Tuple(w)
            },
        };
        proof {
            lemma_exp_model(r);
            match self {
                Pattern::Atom(_, gs) => {
                    assert(r->Var_1.deep_view() =~= gs.deep_view());
                },
                Pattern::Comp(_, gs, _) => {
                    assert(r->Call_0->Var_1.deep_view() =~= gs.deep_view());
                    lemma_exp_model(*r->Call_0);
                },
                Pattern::Tuple(_) => {
                    assert(r.deep_view()->Tuple_0 =~= pattern_to_exp(self.deep_view(), i as int)->Tuple_0);
                },
                Pattern::Var(_) => {
                    assert(r->Var_1.deep_view() =~= Seq::<TypeModel>::empty());
                },
            }
        }
        r
    }
}

/// The pattern with the type variables of the scope `min` levels up
/// replaced by `par`, and its constructors seen from outside that scope.
pub open spec fn pattern_set_type(p: PatternModel, min: int, par: Seq<TypeModel>) -> PatternModel
    decreases p,
{
    match p {
        PatternModel::Var(t) => PatternModel::Var(type_set(t, min, par)),
        PatternModel::Atom(id, gs) => PatternModel::Atom(id_pop(id, min, 1).unwrap(), Seq::new(gs.len(), |i: int| type_set(gs[i], min, par))),
        PatternModel::Comp(id, gs, b) => PatternModel::Comp(
            id_pop(id, min, 1).unwrap(),
            Seq::new(gs.len(), |i: int| type_set(gs[i], min, par)),
            Box::new(pattern_set_type(*b, min, par)),
        ),
        PatternModel::Tuple(v) => PatternModel::Tuple(
            Seq::new(
                v.len(),
                |i: int|
                    if 0 <= i < v.len() {
                        proof {
                            lemma_pattern_part_decreases(p, i);
                        }
                        pattern_set_type(v[i], min, par)
                    } else {
                        PatternModel::Tuple(Seq::empty())
                    },
            ),
        ),
    }
}

/// The type substitution is defined on the pattern: its types can be
/// substituted, and no constructor belongs to the scope that is left.
pub open spec fn pattern_set_type_ok(p: PatternModel, min: int, par: Seq<TypeModel>) -> bool
    decreases p,
{
    &&& min + 1 <= usize::MAX
    &&& match p {
        PatternModel::Var(t) => type_set_ok(t, min, par),
        PatternModel::Atom(id, gs) => id_pop(id, min, 1) is Some
            && forall|i: int| 0 <= i < gs.len() ==> type_set_ok(#[trigger] gs[i], min, par),
        PatternModel::Comp(id, gs, b) => id_pop(id, min, 1) is Some
            && (forall|i: int| 0 <= i < gs.len() ==> type_set_ok(#[trigger] gs[i], min, par))
            && pattern_set_type_ok(*b, min, par),
        PatternModel::Tuple(v) => forall|i: int| 0 <= i < v.len() ==> pattern_set_type_ok(#[trigger] v[i], min, par),
    }
}

/// Substitutes types in a pattern.
fn set_pattern_type(p: &Pattern, min: usize, par: &[Type]) -> (r: Pattern)
    requires
        pattern_set_type_ok(p.deep_view(), min as int, par.deep_view()),
    ensures
        r.deep_view() == pattern_set_type(p.deep_view(), min as int, par.deep_view()),
    decreases p,
{
    proof {
        lemma_pattern_model(*p);
    }
    let r = match p {
        Pattern::Var(t) => Pattern::Var(t.set_with_min(min, par)),
        Pattern::Atom(id, gs) => {
            let id = match id.pop_id_with_min(min, 1) {
                Some(id) => id,
                None => vstd::pervasive::unreached(),
            };
            Pattern::Atom(id, gs.set_with_min(min, par))
        },
        Pattern::Comp(id, gs, b) => {
            let id = match id.pop_id_with_min(min, 1) {
                Some(id) => id,
                None => vstd::pervasive::unreached(),
            };
            Pattern::Comp(id, gs.set_with_min(min, par), Box::new(set_pattern_type(&**b, min, par)))
        },
        Pattern::Tuple(v) => {
            let ghost m = p.deep_view()->Tuple_0;
            let mut w: Vec<Pattern> = Vec::new();
            let mut i: usize = 0;
            while i < v.len()
                invariant
                    i <= v@.len(),
                    w@.len() == i,
                    *p == Pattern::Tuple(*v),
                    m == p.deep_view()->Tuple_0,
                    m.len() == v@.len(),
                    forall|j: int| 0 <= j < v@.len() ==> #[trigger] m[j] == v@[j].deep_view(),
                    forall|j: int| 0 <= j < v@.len() ==> pattern_set_type_ok(#[trigger] m[j], min as int, par.deep_view()),
                    forall|j: int| 0 <= j < i ==> (#[trigger] w@[j]).deep_view() == pattern_set_type(m[j], min as int, par.deep_view()),
                decreases v@.len() - i,
            {
                proof {
                    assert(decreases_to!(*p => p->Tuple_0));
                    assert(decreases_to!(*v => v@));
                    assert(decreases_to!(v@ => v@[i as int]));
                    assert(pattern_set_type_ok(m[i as int], min as int, par.deep_view()));
                }
                w.push(set_pattern_type(&v[i], min, par));
                i = i + 1;
            }
            Pattern::Tuple(w)
        },
    };
    proof {
        lemma_pattern_model(r);
        match p {
            Pattern::Atom(_, gs) => {
                assert(r->Atom_1.deep_view() =~= pattern_set_type(p.deep_view(), min as int, par.deep_view())->Atom_1);
            },
            Pattern::Comp(_, gs, _) => {
                assert(r->Comp_1.deep_view() =~= pattern_set_type(p.deep_view(), min as int, par.deep_view())->Comp_1);
            },
            Pattern::Tuple(_) => {
                assert(r.deep_view()->Tuple_0 =~= pattern_set_type(p.deep_view(), min as int, par.deep_view())->Tuple_0);
            },
            _ => {},
        }
    }
    r
}

impl SetLocal<Type> for Pattern {
    open spec fn set_model(v: PatternModel, min: int, par: Seq<TypeModel>) -> PatternModel {
        pattern_set_type(v, min, par)
    }

    open spec fn set_ok(v: PatternModel, min: int, par: Seq<TypeModel>) -> bool {
        pattern_set_type_ok(v, min, par)
    }

    fn set_with_min(&self, min: usize, par: &[Type]) -> (r: Self) {
        set_pattern_type(self, min, par)
    }
}

/// Substituting expressions leaves a pattern's own structure alone: it only
/// sees its identifiers from outside the scope that is left.
impl SetLocal<Exp> for Pattern {
    open spec fn set_model(v: PatternModel, min: int, par: Seq<ExpModel>) -> PatternModel {
        pattern_pop(v, min, 1).unwrap()
    }

    open spec fn set_ok(v: PatternModel, min: int, par: Seq<ExpModel>) -> bool {
        min + 1 <= usize::MAX && pattern_pop(v, min, 1) is Some
    }

    fn set_with_min(&self, min: usize, par: &[Exp]) -> (r: Self) {
        match pop_pattern(self, min, 1) {
            Some(p) => p,
            None => vstd::pervasive::unreached(),
        }
    }
}

/// Mapping the variable types of each part of a tuple maps the variable
/// types of its first `k` parts.
proof fn lemma_parts_vars_map(v: Seq<PatternModel>, w: Seq<PatternModel>, k: int, f: spec_fn(TypeModel) -> TypeModel)
    requires
        w.len() == v.len(),
        0 <= k <= v.len(),
        forall|i: int| 0 <= i < v.len() ==> #[trigger] pattern_vars(w[i]) == pattern_vars(v[i]).map_values(f),
    ensures
        parts_vars(w, k) == parts_vars(v, k).map_values(f),
    decreases k,
{
    if k > 0 {
        lemma_parts_vars_map(v, w, k - 1, f);
        assert(pattern_vars(w[k - 1]) == pattern_vars(v[k - 1]).map_values(f));
        assert(parts_vars(v, k).map_values(f) =~= parts_vars(v, k - 1).map_values(f) + pattern_vars(v[k - 1]).map_values(f));
    } else {
        assert(parts_vars(v, k).map_values(f) =~= Seq::<TypeModel>::empty());
    }
}

/// Moving a pattern into deeper scopes moves the type of each variable it
/// binds, and binds the same number of variables in the same order.
pub proof fn law_pattern_push_vars(p: PatternModel, min: int, amount: int)
    ensures
        pattern_vars(pattern_push(p, min, amount)).len() == pattern_vars(p).len(),
        forall|j: int| 0 <= j < pattern_vars(p).len() ==>
            #[trigger] pattern_vars(pattern_push(p, min, amount))[j] == type_push(pattern_vars(p)[j], min, amount),
{
    let f = |t: TypeModel| type_push(t, min, amount);
    lemma_pattern_push_vars_map(p, min, amount, f);
}

proof fn lemma_pattern_push_vars_map(p: PatternModel, min: int, amount: int, f: spec_fn(TypeModel) -> TypeModel)
    requires
        forall|t: TypeModel| #[trigger] f(t) == type_push(t, min, amount),
    ensures
        pattern_vars(pattern_push(p, min, amount)) == pattern_vars(p).map_values(f),
    decreases p,
{
    match p {
        PatternModel::Var(t) => {
            assert(pattern_vars(pattern_push(p, min, amount)) =~= pattern_vars(p).map_values(f));
        },
        PatternModel::Atom(_, _) => {
            assert(pattern_vars(pattern_push(p, min, amount)) =~= pattern_vars(p).map_values(f));
        },
        PatternModel::Comp(_, _, b) => {
            lemma_pattern_push_vars_map(*b, min, amount, f);
        },
        PatternModel::Tuple(v) => {
            lemma_pattern_tuple_unfold(p, min, amount);
            let w = pattern_push(p, min, amount)->Tuple_0;
            assert forall|i: int| 0 <= i < v.len() implies #[trigger] pattern_vars(w[i]) == pattern_vars(v[i]).map_values(f) by {
                lemma_pattern_part_decreases(p, i);
                lemma_pattern_push_vars_map(v[i], min, amount, f);
            }
            lemma_parts_vars_map(v, w, v.len() as int, f);
        },
    }
}

/// Substituting types in a pattern substitutes them in the type of each
/// variable it binds, which keeps their number and order; every part of a
/// tuple pattern is substituted.
pub proof fn law_pattern_set_type_vars(p: PatternModel, min: int, par: Seq<TypeModel>)
    ensures
        pattern_vars(pattern_set_type(p, min, par)).len() == pattern_vars(p).len(),
        forall|j: int| 0 <= j < pattern_vars(p).len() ==>
            #[trigger] pattern_vars(pattern_set_type(p, min, par))[j] == type_set(pattern_vars(p)[j], min, par),
{
    let f = |t: TypeModel| type_set(t, min, par);
    lemma_pattern_set_type_vars_map(p, min, par, f);
}

proof fn lemma_pattern_set_type_vars_map(p: PatternModel, min: int, par: Seq<TypeModel>, f: spec_fn(TypeModel) -> TypeModel)
    requires
        forall|t: TypeModel| #[trigger] f(t) == type_set(t, min, par),
    ensures
        pattern_vars(pattern_set_type(p, min, par)) == pattern_vars(p).map_values(f),
    decreases p,
{
    match p {
        PatternModel::Var(t) => {
            assert(pattern_vars(pattern_set_type(p, min, par)) =~= pattern_vars(p).map_values(f));
        },
        PatternModel::Atom(_, _) => {
            assert(pattern_vars(pattern_set_type(p, min, par)) =~= pattern_vars(p).map_values(f));
        },
        PatternModel::Comp(_, _, b) => {
            lemma_pattern_set_type_vars_map(*b, min, par, f);
        },
        PatternModel::Tuple(v) => {
            let w = pattern_set_type(p, min, par)->Tuple_0;
            assert forall|i: int| 0 <= i < v.len() implies #[trigger] pattern_vars(w[i]) == pattern_vars(v[i]).map_values(f) by {
                lemma_pattern_part_decreases(p, i);
                lemma_pattern_set_type_vars_map(v[i], min, par, f);
            }
            lemma_parts_vars_map(v, w, v.len() as int, f);
        },
    }
}

/// A pattern is rebuilt as the expression a matching value has: a variable
/// as the identifier `i` of the current scope, with no type argument; an
/// atom or a compound constructor as that constructor, named globally and
/// applied to the same type arguments (a compound one called on the
/// rebuilt argument pattern).
pub proof fn law_pattern_to_exp_constructors(p: PatternModel, i: int)
    ensures
        p is Var ==> pattern_to_exp(p, i) == ExpModel::Var(LocalID::Global(ID::Normal(i as usize, 0, PhantomData)), Seq::empty()),
        p matches PatternModel::Atom(id, gs) ==> pattern_to_exp(p, i) == ExpModel::Var(LocalID::Global(id), gs),
        p matches PatternModel::Comp(id, gs, b) ==> pattern_to_exp(p, i)
            == ExpModel::Call(Box::new(ExpModel::Var(LocalID::Global(id), gs)), Box::new(pattern_to_exp(*b, i))),
{
}

/// The parts of a tuple pattern are rebuilt in order, each naming its
/// variables by the identifiers that follow those of the parts before it.
pub proof fn law_pattern_to_exp_tuple(p: PatternModel, i: int)
    requires
        p is Tuple,
    ensures
        pattern_to_exp(p, i) is Tuple,
        pattern_to_exp(p, i)->Tuple_0.len() == p->Tuple_0.len(),
        forall|k: int| 0 <= k < p->Tuple_0.len() ==> #[trigger] pattern_to_exp(p, i)->Tuple_0[k]
            == pattern_to_exp(p->Tuple_0[k], i + parts_vars(p->Tuple_0, k).len()),
{
    assert forall|k: int| 0 <= k < p->Tuple_0.len() implies #[trigger] pattern_to_exp(p, i)->Tuple_0[k]
        == pattern_to_exp(p->Tuple_0[k], i + parts_vars(p->Tuple_0, k).len()) by {
        lemma_pattern_part_decreases(p, k);
    }
}

} // verus!
