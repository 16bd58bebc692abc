use vstd::prelude::*;
use core::marker::PhantomData;
use crate::env::{ LocalID, PushLocal };
use crate::env::local_id::local_push;
use crate::envs::ExpVal;
use super::{ Type, Pattern };
use super::ty::{ TypeModel, clone_types };
use super::pattern::{ PatternModel, pattern_vars, lemma_pattern_model };

verus! {

/// An expression whose names are resolved to identifiers.
#[derive(Debug, PartialEq, Eq)]
pub enum Exp {
    Var(LocalID<ExpVal>, Vec<Type>),
    Tuple(Vec<Exp>),
    Lambda(Pattern, Box<Exp>),
    Call(Box<Exp>, Box<Exp>),
    Match(Box<Exp>, Vec<(Pattern, Exp)>),
}

/// The mathematical value of an expression.
pub enum ExpModel {
    Var(LocalID<ExpVal>, Seq<TypeModel>),
    Tuple(Seq<ExpModel>),
    Lambda(PatternModel, Box<ExpModel>),
    Call(Box<ExpModel>, Box<ExpModel>),
    Match(Box<ExpModel>, Seq<(PatternModel, ExpModel)>),
}

/// The model of an expression.
pub closed spec fn exp_model(e: Exp) -> ExpModel
    decreases e,
{
    match e {
        Exp::Var(id, gs) => ExpModel::Var(id, gs.deep_view()),
        Exp::Tuple(v) => ExpModel::Tuple(
            Seq::new(
                v@.len(),
                |i: int|
                    if 0 <= i < v@.len() {
                        proof {
                            assert(decreases_to!(v => v@));
                        }
                        exp_model(v@[i])
                    } else {
                        ExpModel::Tuple(Seq::empty())
                    },
            ),
        ),
        Exp::Lambda(p, b) => ExpModel::Lambda(p.deep_view(), Box::new(exp_model(*b))),
        Exp::Call(f, a) => ExpModel::Call(Box::new(exp_model(*f)), Box::new(exp_model(*a))),
        Exp::Match(b, arms) => ExpModel::Match(
            Box::new(exp_model(*b)),
            Seq::new(
                arms@.len(),
                |i: int|
                    if 0 <= i < arms@.len() {
                        proof {
                            assert(decreases_to!(arms => arms@));
                            assert(decreases_to!(arms@ => arms@[i]));
                            assert(decreases_to!(arms@[i] => arms@[i].1));
                        }
                        (arms@[i].0.deep_view(), exp_model(arms@[i].1))
                    } else {
                        (PatternModel::Tuple(Seq::empty()), ExpModel::Tuple(Seq::empty()))
                    },
            ),
        ),
    }
}

impl DeepView for Exp {
    type V = ExpModel;

    open spec fn deep_view(&self) -> ExpModel {
        exp_model(*self)
    }
}

/// How the model of an expression is made of the models of its parts.
pub proof fn lemma_exp_model(e: Exp)
    ensures
        match e {
            Exp::Var(id, gs) => e.deep_view() == ExpModel::Var(id, gs.deep_view()),
            Exp::Tuple(v) => e.deep_view() matches ExpModel::Tuple(w) && w.len() == v@.len()
                && forall|i: int| 0 <= i < v@.len() ==> #[trigger] w[i] == v@[i].deep_view(),
            Exp::Lambda(p, b) => e.deep_view() == ExpModel::Lambda(p.deep_view(), Box::new(b.deep_view())),
            Exp::Call(f, a) => e.deep_view() == ExpModel::Call(Box::new(f.deep_view()), Box::new(a.deep_view())),
            Exp::Match(b, arms) => e.deep_view() matches ExpModel::Match(mb, w) && *mb == b.deep_view()
                && w.len() == arms@.len()
                && forall|i: int| 0 <= i < arms@.len() ==> #[trigger] w[i] == (arms@[i].0.deep_view(), arms@[i].1.deep_view()),
        },
{
    match e {
        Exp::Tuple(v) => {
            assert forall|i: int| 0 <= i < v@.len() implies #[trigger] exp_model(e)->Tuple_0[i] == v@[i].deep_view() by {
                assert(decreases_to!(e => e->Tuple_0));
                assert(decreases_to!(v => v@));
                assert(decreases_to!(v@ => v@[i]));
            }
        },
        Exp::Match(b, arms) => {
            assert forall|i: int| 0 <= i < arms@.len() implies #[trigger] exp_model(e)->Match_1[i] == (arms@[i].0.deep_view(), arms@[i].1.deep_view()) by {
                assert(decreases_to!(e => e->Match_1));
                assert(decreases_to!(arms => arms@));
                assert(decreases_to!(arms@ => arms@[i]));
                assert(decreases_to!(arms@[i] => arms@[i].1));
            }
        },
        _ => {},
    }
}

/// A part of a tuple, or the body of an arm of a match, lies below the
/// expression.
pub proof fn lemma_exp_part_decreases(e: ExpModel, i: int)
    ensures
        e is Tuple && 0 <= i < e->Tuple_0.len() ==> decreases_to!(e => e->Tuple_0) && decreases_to!(e->Tuple_0 => e->Tuple_0[i]),
        e is Match && 0 <= i < e->Match_1.len() ==> decreases_to!(e => e->Match_1) && decreases_to!(e->Match_1 => e->Match_1[i])
            && decreases_to!(e->Match_1[i] => e->Match_1[i].1),
{
}

/// The number of variables a pattern binds.
pub open spec fn binds(p: PatternModel) -> int {
    pattern_vars(p).len() as int
}

/// The expression after moving it under `amount` new local bindings;
/// local indices below `min` are bound inside it and stay.
pub open spec fn exp_push_local(e: ExpModel, min: int, amount: int) -> ExpModel
    decreases e,
{
    match e {
        ExpModel::Var(id, gs) => ExpModel::Var(local_push(id, min, amount), gs),
        ExpModel::Tuple(v) => ExpModel::Tuple(
            Seq::new(
                v.len(),
                |i: int|
                    if 0 <= i < v.len() {
                        proof {
                            lemma_exp_part_decreases(e, i);
                        }
                        exp_push_local(v[i], min, amount)
                    } else {
                        ExpModel::Tuple(Seq::empty())
                    },
            ),
        ),
        ExpModel::Lambda(p, b) => ExpModel::Lambda(p, Box::new(exp_push_local(*b, min + binds(p), amount))),
        ExpModel::Call(f, a) => ExpModel::Call(Box::new(exp_push_local(*f, min, amount)), Box::new(exp_push_local(*a, min, amount))),
        ExpModel::Match(b, arms) => ExpModel::Match(
            Box::new(exp_push_local(*b, min, amount)),
            Seq::new(
                arms.len(),
                |i: int|
                    if 0 <= i < arms.len() {
                        proof {
                            lemma_exp_part_decreases(e, i);
                        }
                        (arms[i].0, exp_push_local(arms[i].1, min + binds(arms[i].0), amount))
                    } else {
                        (PatternModel::Tuple(Seq::empty()), ExpModel::Tuple(Seq::empty()))
                    },
            ),
        ),
    }
}

/// Moving the expression under new bindings keeps every index within
/// `usize`.
pub open spec fn exp_push_fits(e: ExpModel, min: int, amount: int) -> bool
    decreases e,
{
    match e {
        ExpModel::Var(id, _) => <LocalID<ExpVal> as PushLocal<ExpVal>>::push_local_fits(id, min, amount),
        ExpModel::Tuple(v) => forall|i: int| 0 <= i < v.len() ==> exp_push_fits(#[trigger] v[i], min, amount),
        ExpModel::Lambda(p, b) => min + binds(p) <= usize::MAX && exp_push_fits(*b, min + binds(p), amount),
        ExpModel::Call(f, a) => exp_push_fits(*f, min, amount) && exp_push_fits(*a, min, amount),
        ExpModel::Match(b, arms) => exp_push_fits(*b, min, amount) && forall|i: int| 0 <= i < arms.len() ==>
            min + binds((#[trigger] arms[i]).0) <= usize::MAX && exp_push_fits(arms[i].1, min + binds(arms[i].0), amount),
    }
}

/// How moving under bindings acts on tuples and match arms.
pub proof fn lemma_exp_push_unfold(e: ExpModel, min: int, amount: int)
    ensures
        e matches ExpModel::Tuple(v) ==> {
            &&& exp_push_local(e, min, amount)->Tuple_0.len() == v.len()
            &&& forall|i: int| 0 <= i < v.len() ==> #[trigger] exp_push_local(e, min, amount)->Tuple_0[i] == exp_push_local(v[i], min, amount)
            &&& exp_push_fits(e, min, amount) ==> forall|i: int| 0 <= i < v.len() ==> exp_push_fits(#[trigger] v[i], min, amount)
        },
        e matches ExpModel::Match(_, arms) ==> {
            &&& exp_push_local(e, min, amount)->Match_1.len() == arms.len()
            &&& forall|i: int| 0 <= i < arms.len() ==> #[trigger] exp_push_local(e, min, amount)->Match_1[i]
                == (arms[i].0, exp_push_local(arms[i].1, min + binds(arms[i].0), amount))
            &&& exp_push_fits(e, min, amount) ==> forall|i: int| 0 <= i < arms.len() ==>
                min + binds((#[trigger] arms[i]).0) <= usize::MAX && exp_push_fits(arms[i].1, min + binds(arms[i].0), amount)
        },
{
    match e {
        ExpModel::Tuple(v) => {
            assert forall|i: int| 0 <= i < v.len() implies #[trigger] exp_push_local(e, min, amount)->Tuple_0[i] == exp_push_local(v[i], min, amount) by {
                lemma_exp_part_decreases(e, i);
            }
            if exp_push_fits(e, min, amount) {
                assert forall|i: int| 0 <= i < v.len() implies exp_push_fits(#[trigger] v[i], min, amount) by {
                    lemma_exp_part_decreases(e, i);
                }
            }
        },
        ExpModel::Match(_, arms) => {
            assert forall|i: int| 0 <= i < arms.len() implies #[trigger] exp_push_local(e, min, amount)->Match_1[i]
                == (arms[i].0, exp_push_local(arms[i].1, min + binds(arms[i].0), amount)) by {
                lemma_exp_part_decreases(e, i);
            }
            if exp_push_fits(e, min, amount) {
                assert forall|i: int| 0 <= i < arms.len() implies
                    min + binds((#[trigger] arms[i]).0) <= usize::MAX && exp_push_fits(arms[i].1, min + binds(arms[i].0), amount) by {
                    lemma_exp_part_decreases(e, i);
                }
            }
        },
        _ => {},
    }
}

/// A copy of an expression.
fn clone_exp(e: &Exp) -> (r: Exp)
    ensures
        r.deep_view() == e.deep_view(),
    decreases e,
{
    proof {
        lemma_exp_model(*e);
    }
    let r = match e {
        Exp::Var(id, gs) => Exp::Var(*id, clone_types(gs)),
        Exp::Tuple(v) => {
            let mut w: Vec<Exp> = Vec::new();
            let mut i: usize = 0;
            while i < v.len()
                invariant
                    i <= v@.len(),
                    w@.len() == i,
                    *e == Exp::Tuple(*v),
                    forall|j: int| 0 <= j < i ==> (#[trigger] w@[j]).deep_view() == v@[j].deep_view(),
                decreases v@.len() - i,
            {
                proof {
                    assert(decreases_to!(*e => e->Tuple_0));
                    assert(decreases_to!(*v => v@));
                    assert(decreases_to!(v@ => v@[i as int]));
                }
                w.push(clone_exp(&v[i]));
                i = i + 1;
            }
            Exp::Tuple(w)
        },
        Exp::Lambda(p, b) => Exp::Lambda(p.clone(), Box::new(clone_exp(&**b))),
        Exp::Call(f, a) => Exp::Call(Box::new(clone_exp(&**f)), Box::new(clone_exp(&**a))),
        Exp::Match(b, arms) => {
            let mut w: Vec<(Pattern, Exp)> = Vec::new();
            let mut i: usize = 0;
            while i < arms.len()
                invariant
                    i <= arms@.len(),
                    w@.len() == i,
                    *e == Exp::Match(*b, *arms),
                    forall|j: int| 0 <= j < i ==> (#[trigger] w@[j]).0.deep_view() == arms@[j].0.deep_view()
                        && w@[j].1.deep_view() == arms@[j].1.deep_view(),
                decreases arms@.len() - i,
            {
                proof {
                    assert(decreases_to!(*e => e->Match_1));
                    assert(decreases_to!(*arms => arms@));
                    assert(decreases_to!(arms@ => arms@[i as int]));
                    assert(decreases_to!(arms@[i as int] => arms@[i as int].1));
                }
                let arm = &arms[i];
                w.push((arm.0.clone(), clone_exp(&arm.1)));
                i = i + 1;
            }
            Exp::Match(Box::new(clone_exp(&**b)), w)
        },
    };
    proof {
        lemma_exp_model(r);
        if let Exp::Tuple(v) = e {
            assert(r.deep_view()->Tuple_0 =~= e.deep_view()->Tuple_0);
        }
        if let Exp::Match(_, arms) = e {
            assert(r.deep_view()->Match_1 =~= e.deep_view()->Match_1);
        }
    }
    r
}

impl Clone for Exp {
    fn clone(&self) -> (r: Self)
        ensures
            r.deep_view() == self.deep_view(),
    {
        clone_exp(self)
    }
}

/// Moves an expression under `amount` new local bindings.
fn push_exp(e: &Exp, min: usize, amount: usize) -> (r: Exp)
    requires
        exp_push_fits(e.deep_view(), min as int, amount as int),
    ensures
        r.deep_view() == exp_push_local(e.deep_view(), min as int, amount as int),
    decreases e,
{
    let ghost m = e.deep_view();
    proof {
        lemma_exp_model(*e);
        lemma_exp_push_unfold(m, min as int, amount as int);
    }
    let r = match e {
        Exp::Var(id, gs) => Exp::Var(id.push_local_with_min(PhantomData, min, amount), clone_types(gs)),
        Exp::Tuple(v) => {
            let mut w: Vec<Exp> = Vec::new();
            let mut i: usize = 0;
            while i < v.len()
                invariant
                    i <= v@.len(),
                    w@.len() == i,
                    *e == Exp::Tuple(*v),
                    m == e.deep_view(),
                    m->Tuple_0.len() == v@.len(),
                    forall|j: int| 0 <= j < v@.len() ==> #[trigger] m->Tuple_0[j] == v@[j].deep_view(),
                    forall|j: int| 0 <= j < v@.len() ==> exp_push_fits(#[trigger] m->Tuple_0[j], min as int, amount as int),
                    forall|j: int| 0 <= j < i ==> (#[trigger] w@[j]).deep_view() == exp_push_local(m->Tuple_0[j], min as int, amount as int),
                decreases v@.len() - i,
            {
                proof {
                    assert(decreases_to!(*e => e->Tuple_0));
                    assert(decreases_to!(*v => v@));
                    assert(decreases_to!(v@ => v@[i as int]));
                    assert(exp_push_fits(m->Tuple_0[i as int], min as int, amount as int));
                }
                w.push(push_exp(&v[i], min, amount));
                i = i + 1;
            }
            Exp::Tuple(w)
        },
        Exp::Lambda(p, b) => {
            let n = p.bounds();
            Exp::Lambda(p.clone(), Box::new(push_exp(&**b, min + n, amount)))
        },
        Exp::Call(f, a) => Exp::Call(Box::new(push_exp(&**f, min, amount)), Box::new(push_exp(&**a, min, amount))),
        Exp::Match(b, arms) => {
            let mut w: Vec<(Pattern, Exp)> = Vec::new();
            let mut i: usize = 0;
            while i < arms.len()
                invariant
                    i <= arms@.len(),
                    w@.len() == i,
                    *e == Exp::Match(*b, *arms),
                    m == e.deep_view(),
                    m->Match_1.len() == arms@.len(),
                    forall|j: int| 0 <= j < arms@.len() ==> #[trigger] m->Match_1[j] == (arms@[j].0.deep_view(), arms@[j].1.deep_view()),
                    forall|j: int| 0 <= j < arms@.len() ==> min + binds((#[trigger] m->Match_1[j]).0) <= usize::MAX
                        && exp_push_fits(m->Match_1[j].1, min + binds(m->Match_1[j].0), amount as int),
                    forall|j: int| 0 <= j < i ==> (#[trigger] w@[j]).0.deep_view() == m->Match_1[j].0
                        && w@[j].1.deep_view() == exp_push_local(m->Match_1[j].1, min + binds(m->Match_1[j].0), amount as int),
                decreases arms@.len() - i,
            {
                proof {
                    assert(decreases_to!(*e => e->Match_1));
                    assert(decreases_to!(*arms => arms@));
                    assert(decreases_to!(arms@ => arms@[i as int]));
                    assert(decreases_to!(arms@[i as int] => arms@[i as int].1));
                    assert(m->Match_1[i as int] == (arms@[i as int].0.deep_view(), arms@[i as int].1.deep_view()));
                }
                let arm = &arms[i];
                let n = arm.0.bounds();
                w.push((arm.0.clone(), push_exp(&arm.1, min + n, amount)));
                i = i + 1;
            }
            Exp::Match(Box::new(push_exp(&**b, min, amount)), w)
        },
    };
    proof {
        lemma_exp_model(r);
        if let Exp::Tuple(v) = e {
            assert(r.deep_view()->Tuple_0 =~= exp_push_local(m, min as int, amount as int)->Tuple_0);
        }
        if let Exp::Match(_, arms) = e {
            assert(r.deep_view()->Match_1 =~= exp_push_local(m, min as int, amount as int)->Match_1);
        }
    }
    r
}

impl PushLocal<ExpVal> for Exp {
    open spec fn push_local_model(v: ExpModel, min: int, amount: int) -> ExpModel {
        exp_push_local(v, min, amount)
    }

    open spec fn push_local_fits(v: ExpModel, min: int, amount: int) -> bool {
        exp_push_fits(v, min, amount)
    }

    fn push_local_with_min(&self, p: PhantomData<ExpVal>, min: usize, amount: usize) -> (r: Self) {
        push_exp(self, min, amount)
    }
}

/// The expression after replacing the local bindings `min ..` of one scope
/// by the elements of `par`, each moved under the `min` bindings inside
/// the expression; later bindings move down by as many.
pub open spec fn exp_set(e: ExpModel, min: int, par: Seq<ExpModel>) -> ExpModel
    decreases e,
{
    match e {
        ExpModel::Var(id, gs) => match id {
            LocalID::Local(i, ph) => if i < min {
                ExpModel::Var(LocalID::Local(i, ph), gs)
            } else if i - min >= par.len() {
                ExpModel::Var(LocalID::Local((i - par.len()) as usize, ph), gs)
            } else {
                exp_push_local(par[i - min], 0, min)
            },
            LocalID::Global(_) => ExpModel::Var(id, gs),
        },
        ExpModel::Tuple(v) => ExpModel::Tuple(
            Seq::new(
                v.len(),
                |i: int|
                    if 0 <= i < v.len() {
                        proof {
                            lemma_exp_part_decreases(e, i);
                        }
                        exp_set(v[i], min, par)
                    } else {
                        ExpModel::Tuple(Seq::empty())
                    },
            ),
        ),
        ExpModel::Lambda(p, b) => ExpModel::Lambda(p, Box::new(exp_set(*b, min + binds(p), par))),
        ExpModel::Call(f, a) => ExpModel::Call(Box::new(exp_set(*f, min, par)), Box::new(exp_set(*a, min, par))),
        ExpModel::Match(b, arms) => ExpModel::Match(
            Box::new(exp_set(*b, min, par)),
            Seq::new(
                arms.len(),
                |i: int|
                    if 0 <= i < arms.len() {
                        proof {
                            lemma_exp_part_decreases(e, i);
                        }
                        (arms[i].0, exp_set(arms[i].1, min + binds(arms[i].0), par))
                    } else {
                        (PatternModel::Tuple(Seq::empty()), ExpModel::Tuple(Seq::empty()))
                    },
            ),
        ),
    }
}

/// The substitution stays within `usize`: every replacing expression can be
/// moved into place, and every scope of bindings can be counted.
pub open spec fn exp_set_ok(e: ExpModel, min: int, par: Seq<ExpModel>) -> bool
    decreases e,
{
    match e {
        ExpModel::Var(id, _) => match id {
            LocalID::Local(i, _) => min <= i < min + par.len() ==> exp_push_fits(par[i - min], 0, min),
            LocalID::Global(_) => true,
        },
        ExpModel::Tuple(v) => forall|i: int| 0 <= i < v.len() ==> exp_set_ok(#[trigger] v[i], min, par),
        ExpModel::Lambda(p, b) => min + binds(p) <= usize::MAX && exp_set_ok(*b, min + binds(p), par),
        ExpModel::Call(f, a) => exp_set_ok(*f, min, par) && exp_set_ok(*a, min, par),
        ExpModel::Match(b, arms) => exp_set_ok(*b, min, par) && forall|i: int| 0 <= i < arms.len() ==>
            min + binds((#[trigger] arms[i]).0) <= usize::MAX && exp_set_ok(arms[i].1, min + binds(arms[i].0), par),
    }
}

/// How the substitution acts on tuples and match arms.
pub proof fn lemma_exp_set_unfold(e: ExpModel, min: int, par: Seq<ExpModel>)
    ensures
        e matches ExpModel::Tuple(v) ==> {
            &&& exp_set(e, min, par)->Tuple_0.len() == v.len()
            &&& forall|i: int| 0 <= i < v.len() ==> #[trigger] exp_set(e, min, par)->Tuple_0[i] == exp_set(v[i], min, par)
            &&& exp_set_ok(e, min, par) ==> forall|i: int| 0 <= i < v.len() ==> exp_set_ok(#[trigger] v[i], min, par)
        },
        e matches ExpModel::Match(_, arms) ==> {
            &&& exp_set(e, min, par)->Match_1.len() == arms.len()
            &&& forall|i: int| 0 <= i < arms.len() ==> #[trigger] exp_set(e, min, par)->Match_1[i]
                == (arms[i].0, exp_set(arms[i].1, min + binds(arms[i].0), par))
            &&& exp_set_ok(e, min, par) ==> forall|i: int| 0 <= i < arms.len() ==>
                min + binds((#[trigger] arms[i]).0) <= usize::MAX && exp_set_ok(arms[i].1, min + binds(arms[i].0), par)
        },
{
    match e {
        ExpModel::Tuple(v) => {
            assert forall|i: int| 0 <= i < v.len() implies #[trigger] exp_set(e, min, par)->Tuple_0[i] == exp_set(v[i], min, par) by {
                lemma_exp_part_decreases(e, i);
            }
            if exp_set_ok(e, min, par) {
                assert forall|i: int| 0 <= i < v.len() implies exp_set_ok(#[trigger] v[i], min, par) by {
                    lemma_exp_part_decreases(e, i);
                }
            }
        },
        ExpModel::Match(_, arms) => {
            assert forall|i: int| 0 <= i < arms.len() implies #[trigger] exp_set(e, min, par)->Match_1[i]
                == (arms[i].0, exp_set(arms[i].1, min + binds(arms[i].0), par)) by {
                lemma_exp_part_decreases(e, i);
            }
            if exp_set_ok(e, min, par) {
                assert forall|i: int| 0 <= i < arms.len() implies
                    min + binds((#[trigger] arms[i]).0) <= usize::MAX && exp_set_ok(arms[i].1, min + binds(arms[i].0), par) by {
                    lemma_exp_part_decreases(e, i);
                }
            }
        },
        _ => {},
    }
}

/// Substituting `par` for the bindings `min ..` of an expression that was
/// just moved under as many new bindings there gives the expression back:
/// the move left those bindings unused, and the substitution removes them.
pub proof fn law_exp_set_push(e: ExpModel, min: int, par: Seq<ExpModel>)
    requires
        0 <= min,
        exp_push_fits(e, min, par.len() as int),
    ensures
        exp_set(exp_push_local(e, min, par.len() as int), min, par) == e,
    decreases e,
{
    let n = par.len() as int;
    let q = exp_push_local(e, min, n);
    lemma_exp_push_unfold(e, min, n);
    lemma_exp_set_unfold(q, min, par);
    match e {
        ExpModel::Var(id, gs) => {},
        ExpModel::Tuple(v) => {
            assert forall|i: int| 0 <= i < v.len() implies exp_set(#[trigger] q->Tuple_0[i], min, par) == v[i] by {
                lemma_exp_part_decreases(e, i);
                law_exp_set_push(v[i], min, par);
            }
            assert(exp_set(q, min, par)->Tuple_0 =~= v);
        },
        ExpModel::Lambda(p, b) => {
            law_exp_set_push(*b, min + binds(p), par);
        },
        ExpModel::Call(f, a) => {
            law_exp_set_push(*f, min, par);
            law_exp_set_push(*a, min, par);
        },
        ExpModel::Match(b, arms) => {
            law_exp_set_push(*b, min, par);
            assert forall|i: int| 0 <= i < arms.len() implies exp_set(q, min, par)->Match_1[i] == #[trigger] arms[i] by {
                lemma_exp_part_decreases(e, i);
                law_exp_set_push(arms[i].1, min + binds(arms[i].0), par);
            }
            assert(exp_set(q, min, par)->Match_1 =~= arms);
        },
    }
}

/// Substituting `par` for the local bindings `min ..`: a binding below
/// `min` stays; the binding `min + j` becomes `par[j]` moved under the
/// `min` bindings it sits beneath; a binding past the replaced ones moves
/// down by their number.
pub proof fn law_exp_set_local(i: usize, gs: Seq<TypeModel>, min: int, par: Seq<ExpModel>)
    requires
        0 <= min,
    ensures
        i < min ==> exp_set(ExpModel::Var(LocalID::Local(i, PhantomData), gs), min, par)
            == ExpModel::Var(LocalID::<ExpVal>::Local(i, PhantomData), gs),
        min <= i < min + par.len() ==> exp_set(ExpModel::Var(LocalID::Local(i, PhantomData), gs), min, par)
            == exp_push_local(par[i - min], 0, min),
        min + par.len() <= i ==> exp_set(ExpModel::Var(LocalID::Local(i, PhantomData), gs), min, par)
            == ExpModel::Var(LocalID::<ExpVal>::Local((i - par.len()) as usize, PhantomData), gs),
{
}

/// Substituting into a function substitutes beneath its pattern's
/// bindings: a body variable naming the `j`-th replaced binding becomes
/// `par[j]` moved past those bindings, and the pattern stays.
pub proof fn law_exp_set_lambda_var(p: PatternModel, j: int, gs: Seq<TypeModel>, par: Seq<ExpModel>)
    requires
        0 <= j < par.len(),
        binds(p) + j <= usize::MAX,
    ensures
        exp_set(ExpModel::Lambda(p, Box::new(ExpModel::Var(LocalID::Local((binds(p) + j) as usize, PhantomData), gs))), 0, par)
            == ExpModel::Lambda(p, Box::new(exp_push_local(par[j], 0, binds(p)))),
{
    law_exp_set_local((binds(p) + j) as usize, gs, binds(p), par);
}

impl Exp {
    /// Replaces the innermost local bindings by the expressions `par`.
    pub fn set(&self, par: &[Self]) -> (r: Self)
        requires
            exp_set_ok(self.deep_view(), 0, par.deep_view()),
        ensures
            r.deep_view() == exp_set(self.deep_view(), 0, par.deep_view()),
    {
        self.set_with_min(0, par)
    }

    fn set_with_min(&self, min: usize, par: &[Self]) -> (r: Self)
        requires
            exp_set_ok(self.deep_view(), min as int, par.deep_view()),
        ensures
            r.deep_view() == exp_set(self.deep_view(), min as int, par.deep_view()),
        decreases self,
    {
        let ghost m = self.deep_view();
        let ghost pm = par.deep_view();
        proof {
            lemma_exp_model(*self);
            lemma_exp_set_unfold(m, min as int, pm);
        }
        let r = match self {
            Exp::Var(LocalID::Local(id, _), ty) => {
                if *id < min {
                    Exp::Var(LocalID::new(*id), clone_types(ty))
                } else if *id - min >= par.len() {
                    Exp::Var(LocalID::new(*id - par.len()), clone_types(ty))
                } else {
                    assert(pm[*id - min] == par@[*id - min].deep_view());
                    par[*id - min].push_local(PhantomData, min)
                }
            },
            Exp::Var(id, ty) => Exp::Var(*id, clone_types(ty)),
            Exp::Tuple(v) => {
                let mut w: Vec<Exp> = Vec::new();
                let mut i: usize = 0;
                while i < v.len()
                    invariant
                        i <= v@.len(),
                        w@.len() == i,
                        *self == Exp::Tuple(*v),
                        m == self.deep_view(),
                        pm == par.deep_view(),
                        m->Tuple_0.len() == v@.len(),
                        forall|j: int| 0 <= j < v@.len() ==> #[trigger] m->Tuple_0[j] == v@[j].deep_view(),
                        forall|j: int| 0 <= j < v@.len() ==> exp_set_ok(#[trigger] m->Tuple_0[j], min as int, pm),
                        forall|j: int| 0 <= j < i ==> (#[trigger] w@[j]).deep_view() == exp_set(m->Tuple_0[j], min as int, pm),
                    decreases v@.len() - i,
                {
                    proof {
                        assert(decreases_to!(*self => self->Tuple_0));
                        assert(decreases_to!(*v => v@));
                        assert(decreases_to!(v@ => v@[i as int]));
                        assert(exp_set_ok(m->Tuple_0[i as int], min as int, pm));
                    }
                    w.push(v[i].set_with_min(min, par));
                    i = i + 1;
                }
                Exp::Tuple(w)
            },
            Exp::Lambda(p, b) => {
                let n = p.bounds();
                Exp::Lambda(p.clone(), Box::new(b.set_with_min(min + n, par)))
            },
            Exp::Call(f, a) => Exp::Call(Box::new(f.set_with_min(min, par)), Box::new(a.set_with_min(min, par))),
            Exp::Match(b, arms) => {
                let mut w: Vec<(Pattern, Exp)> = Vec::new();
                let mut i: usize = 0;
                while i < arms.len()
                    invariant
                        i <= arms@.len(),
                        w@.len() == i,
                        *self == Exp::Match(*b, *arms),
                        m == self.deep_view(),
                        pm == par.deep_view(),
                        m->Match_1.len() == arms@.len(),
                        forall|j: int| 0 <= j < arms@.len() ==> #[trigger] m->Match_1[j] == (arms@[j].0.deep_view(), arms@[j].1.deep_view()),
                        forall|j: int| 0 <= j < arms@.len() ==> min + binds((#[trigger] m->Match_1[j]).0) <= usize::MAX
                            && exp_set_ok(m->Match_1[j].1, min + binds(m->Match_1[j].0), pm),
                        forall|j: int| 0 <= j < i ==> (#[trigger] w@[j]).0.deep_view() == m->Match_1[j].0
                            && w@[j].1.deep_view() == exp_set(m->Match_1[j].1, min + binds(m->Match_1[j].0), pm),
                    decreases arms@.len() - i,
                {
                    proof {
                        assert(decreases_to!(*self => self->Match_1));
                        assert(decreases_to!(*arms => arms@));
                        assert(decreases_to!(arms@ => arms@[i as int]));
                        assert(decreases_to!(arms@[i as int] => arms@[i as int].1));
                        assert(m->Match_1[i as int] == (arms@[i as int].0.deep_view(), arms@[i as int].1.deep_view()));
                    }
                    let arm = &arms[i];
                    let n = arm.0.bounds();
                    w.push((arm.0.clone(), arm.1.set_with_min(min + n, par)));
                    i = i + 1;
                }
                Exp::Match(Box::new(b.set_with_min(min, par)), w)
            },
        };
        proof {
            lemma_exp_model(r);
            if let Exp::Tuple(v) = self {
                assert(r.deep_view()->Tuple_0 =~= exp_set(m, min as int, pm)->Tuple_0);
            }
            if let Exp::Match(_, arms) = self {
                assert(r.deep_view()->Match_1 =~= exp_set(m, min as int, pm)->Match_1);
            }
        }
        r
    }
}

} // verus!
