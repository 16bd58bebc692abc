use vstd::prelude::*;
use core::marker::PhantomData;
use crate::env::{ ID, PushID };
use crate::env::id::{ id_push, id_pop, id_set };
use crate::envs::TypeVal;
use crate::variance::Variance;
use super::SetLocal;

verus! {

/// A type whose names are resolved to identifiers: a generic type applied
/// to arguments, or a tuple.
#[derive(Debug, PartialEq, Eq)]
pub enum Type {
    Gen(ID<TypeVal>, Vec<Type>),
    Tuple(Vec<Type>),
}

/// The mathematical value of a type.
pub enum TypeModel {
    Gen(ID<TypeVal>, Seq<TypeModel>),
    Tuple(Seq<TypeModel>),
}

/// The argument types of a generic type, or the element types of a tuple.
pub open spec fn type_args(t: TypeModel) -> Seq<TypeModel> {
    match t {
        TypeModel::Gen(_, v) => v,
        TypeModel::Tuple(v) => v,
    }
}

/// An argument of a type lies below the type.
pub proof fn lemma_type_arg_decreases(t: TypeModel, i: int)
    requires
        0 <= i < type_args(t).len(),
    ensures
        t matches TypeModel::Gen(_, v) ==> decreases_to!(t => t->Gen_1),
        t matches TypeModel::Tuple(v) ==> decreases_to!(t => t->Tuple_0),
        decreases_to!(type_args(t) => type_args(t)[i]),
{
}

/// The model of a type.
pub closed spec fn type_model(t: Type) -> TypeModel
    decreases t,
{
    match t {
        Type::Gen(id, v) => TypeModel::Gen(
            id,
            Seq::new(
                v@.len(),
                |i: int|
                    if 0 <= i < v@.len() {
                        proof {
                            assert(decreases_to!(v => v@));
                        }
                        type_model(v@[i])
                    } else {
                        TypeModel::Tuple(Seq::empty())
                    },
            ),
        ),
        Type::Tuple(v) => TypeModel::Tuple(
            Seq::new(
                v@.len(),
                |i: int|
                    if 0 <= i < v@.len() {
                        proof {
                            assert(decreases_to!(v => v@));
                        }
                        type_model(v@[i])
                    } else {
                        TypeModel::Tuple(Seq::empty())
                    },
            ),
        ),
    }
}

/// The argument types of a type, as values.
pub open spec fn type_vec(t: Type) -> Vec<Type> {
    match t {
        Type::Gen(_, v) => v,
        Type::Tuple(v) => v,
    }
}

proof fn lemma_type_model(t: Type)
    ensures
        t matches Type::Gen(id, _) ==> type_model(t) matches TypeModel::Gen(mid, _) && mid == id,
        t matches Type::Tuple(_) ==> type_model(t) is Tuple,
        type_args(type_model(t)).len() == type_vec(t)@.len(),
        forall|i: int| 0 <= i < type_vec(t)@.len() ==> #[trigger] type_args(type_model(t))[i] == type_model(type_vec(t)@[i]),
{
    assert forall|i: int| 0 <= i < type_vec(t)@.len() implies #[trigger] type_args(type_model(t))[i] == type_model(type_vec(t)@[i]) by {
        match t {
            Type::Gen(_, v) => {
                assert(decreases_to!(t => t->Gen_1));
                assert(decreases_to!(v => v@));
                assert(decreases_to!(v@ => v@[i]));
            },
            Type::Tuple(v) => {
                assert(decreases_to!(t => t->Tuple_0));
                assert(decreases_to!(v => v@));
                assert(decreases_to!(v@ => v@[i]));
            },
        }
    }
}

impl DeepView for Type {
    type V = TypeModel;

    open spec fn deep_view(&self) -> TypeModel {
        type_model(*self)
    }
}

/// The type after moving every identifier in it `amount` scopes deeper.
pub open spec fn type_push(t: TypeModel, min: int, amount: int) -> TypeModel
    decreases t,
{
    let v = type_args(t);
    let w = Seq::new(
        v.len(),
        |i: int|
            if 0 <= i < v.len() {
                proof {
                    lemma_type_arg_decreases(t, i);
                }
                type_push(v[i], min, amount)
            } else {
                TypeModel::Tuple(Seq::empty())
            },
    );
    match t {
        TypeModel::Gen(id, _) => TypeModel::Gen(id_push(id, min, amount), w),
        TypeModel::Tuple(_) => TypeModel::Tuple(w),
    }
}

/// The type after moving every identifier in it `amount` scopes out, or
/// `None` where one names a scope that is left.
pub open spec fn type_pop(t: TypeModel, min: int, amount: int) -> Option<TypeModel>
    decreases t,
{
    let v = type_args(t);
    if forall|i: int| 0 <= i < v.len() ==> type_pop(#[trigger] v[i], min, amount).is_some() {
        let w = Seq::new(
            v.len(),
            |i: int|
                if 0 <= i < v.len() {
                    proof {
                        lemma_type_arg_decreases(t, i);
                    }
                    type_pop(v[i], min, amount).unwrap()
                } else {
                    TypeModel::Tuple(Seq::empty())
                },
        );
        match t {
            TypeModel::Gen(id, _) => match id_pop(id, min, amount) {
                Some(id) => Some(TypeModel::Gen(id, w)),
                None => None,
            },
            TypeModel::Tuple(_) => Some(TypeModel::Tuple(w)),
        }
    } else {
        None
    }
}

/// Moving every identifier of the type deeper stays within `usize`.
pub open spec fn type_fits(t: TypeModel, min: int, amount: int) -> bool
    decreases t,
{
    &&& (t matches TypeModel::Gen(id, _) ==> <ID<TypeVal> as PushID>::push_fits(id, min, amount))
    &&& forall|i: int| 0 <= i < type_args(t).len() ==> type_fits(#[trigger] type_args(t)[i], min, amount)
}

/// The type holds no identifier of a scope, only predefined ones.
pub open spec fn type_predef_only(t: TypeModel) -> bool
    decreases t,
{
    &&& (t matches TypeModel::Gen(id, _) ==> id is Predef)
    &&& forall|i: int| 0 <= i < type_args(t).len() ==> type_predef_only(#[trigger] type_args(t)[i])
}

/// How the operations on types act on the arguments.
pub proof fn lemma_type_unfold(t: TypeModel, min: int, amount: int)
    ensures
        type_args(type_push(t, min, amount)).len() == type_args(t).len(),
        forall|i: int| 0 <= i < type_args(t).len() ==> #[trigger] type_args(type_push(t, min, amount))[i] == type_push(type_args(t)[i], min, amount),
        t matches TypeModel::Gen(id, _) ==> type_push(t, min, amount) matches TypeModel::Gen(pid, _) && pid == id_push(id, min, amount),
        t is Tuple ==> type_push(t, min, amount) is Tuple,
        type_fits(t, min, amount) <==> ((t matches TypeModel::Gen(id, _) ==> <ID<TypeVal> as PushID>::push_fits(id, min, amount))
            && forall|i: int| 0 <= i < type_args(t).len() ==> type_fits(#[trigger] type_args(t)[i], min, amount)),
        type_predef_only(t) ==> forall|i: int| 0 <= i < type_args(t).len() ==> type_predef_only(#[trigger] type_args(t)[i]),
        type_pop(t, min, amount).is_some() <==> ((t matches TypeModel::Gen(id, _) ==> id_pop(id, min, amount).is_some())
            && forall|i: int| 0 <= i < type_args(t).len() ==> type_pop(#[trigger] type_args(t)[i], min, amount).is_some()),
        type_pop(t, min, amount) matches Some(p) ==> {
            &&& type_args(p).len() == type_args(t).len()
            &&& forall|i: int| 0 <= i < type_args(t).len() ==> #[trigger] type_args(p)[i] == type_pop(type_args(t)[i], min, amount).unwrap()
            &&& (t matches TypeModel::Gen(id, _) ==> p matches TypeModel::Gen(pid, _) && id_pop(id, min, amount) == Some(pid))
            &&& (t is Tuple ==> p is Tuple)
        },
{
    let v = type_args(t);
    assert forall|i: int| 0 <= i < v.len() implies {
        &&& #[trigger] type_args(type_push(t, min, amount))[i] == type_push(v[i], min, amount)
        &&& type_fits(v[i], min, amount) == type_fits(v[i], min, amount)
    } by {
        lemma_type_arg_decreases(t, i);
    }
    if forall|i: int| 0 <= i < v.len() ==> type_fits(#[trigger] v[i], min, amount) {
        assert forall|i: int| 0 <= i < v.len() implies type_fits(#[trigger] v[i], min, amount) by {
            lemma_type_arg_decreases(t, i);
        }
    }
    if type_fits(t, min, amount) {
        assert forall|i: int| 0 <= i < v.len() implies type_fits(#[trigger] v[i], min, amount) by {
            lemma_type_arg_decreases(t, i);
        }
    }
    if type_predef_only(t) {
        assert forall|i: int| 0 <= i < v.len() implies type_predef_only(#[trigger] v[i]) by {
            lemma_type_arg_decreases(t, i);
        }
    }
    if forall|i: int| 0 <= i < v.len() ==> type_pop(#[trigger] v[i], min, amount).is_some() {
        assert forall|i: int| 0 <= i < v.len() implies type_pop(#[trigger] v[i], min, amount).is_some() by {
            lemma_type_arg_decreases(t, i);
        }
        if let Some(p) = type_pop(t, min, amount) {
            assert forall|i: int| 0 <= i < v.len() implies #[trigger] type_args(p)[i] == type_pop(v[i], min, amount).unwrap() by {
                lemma_type_arg_decreases(t, i);
            }
        }
    } else {
        let i = choose|i: int| 0 <= i < v.len() && !type_pop(#[trigger] v[i], min, amount).is_some();
        lemma_type_arg_decreases(t, i);
    }
}

/// Popping a pushed type gives it back.
pub proof fn lemma_type_pop_push(t: TypeModel, min: int, amount: int)
    requires
        0 <= min,
        0 <= amount,
        type_fits(t, min, amount),
    ensures
        type_pop(type_push(t, min, amount), min, amount) == Some(t),
    decreases t,
{
    lemma_type_unfold(t, min, amount);
    let p = type_push(t, min, amount);
    lemma_type_unfold(p, min, amount);
    let v = type_args(t);
    assert forall|i: int| 0 <= i < v.len() implies type_pop(#[trigger] type_args(p)[i], min, amount) == Some(v[i]) by {
        lemma_type_arg_decreases(t, i);
        lemma_type_pop_push(v[i], min, amount);
    }
    let q = type_pop(p, min, amount).unwrap();
    assert(type_args(q) =~= v);
}

/// Moves every identifier of a type deeper.
fn push_type(t: &Type, min: usize, amount: usize) -> (r: Type)
    requires
        type_fits(t.deep_view(), min as int, amount as int),
    ensures
        r.deep_view() == type_push(t.deep_view(), min as int, amount as int),
    decreases t,
{
    let ghost m = t.deep_view();
    proof {
        lemma_type_model(*t);
        lemma_type_unfold(m, min as int, amount as int);
    }
    let v = match t {
        Type::Gen(_, v) => v,
        Type::Tuple(v) => v,
    };
    let mut w: Vec<Type> = Vec::new();
    let mut i: usize = 0;
    while i < v.len()
        invariant
            i <= v@.len(),
            w@.len() == i,
            *v == type_vec(*t),
            m == t.deep_view(),
            type_args(m).len() == v@.len(),
            forall|j: int| 0 <= j < v@.len() ==> #[trigger] type_args(m)[j] == type_model(v@[j]),
            forall|j: int| 0 <= j < v@.len() ==> type_fits(#[trigger] type_args(m)[j], min as int, amount as int),
            forall|j: int| 0 <= j < i ==> type_model(#[trigger] w@[j]) == type_push(type_args(m)[j], min as int, amount as int),
        decreases v@.len() - i,
    {
        proof {
            assert(*t is Gen ==> decreases_to!(*t => t->Gen_1));
            assert(*t is Tuple ==> decreases_to!(*t => t->Tuple_0));
            assert(decreases_to!(*v => v@));
            assert(decreases_to!(v@ => v@[i as int]));
            assert(type_fits(type_args(m)[i as int], min as int, amount as int));
        }
        w.push(push_type(&v[i], min, amount));
        i = i + 1;
    }
    let r = match t {
        Type::Gen(id, _) => Type::Gen(id.push_id_with_min(min, amount), w),
        Type::Tuple(_) => Type::Tuple(w),
    };
    proof {
        lemma_type_model(r);
        assert(type_args(r.deep_view()) =~= type_args(type_push(m, min as int, amount as int)));
    }
    r
}

/// Moves every identifier of a type out, if none names a scope that is left.
fn pop_type(t: &Type, min: usize, amount: usize) -> (r: Option<Type>)
    requires
        (min + amount <= usize::MAX) || (type_predef_only(t.deep_view())),
    ensures
        r.deep_view() == type_pop(t.deep_view(), min as int, amount as int),
    decreases t,
{
    let ghost m = t.deep_view();
    proof {
        lemma_type_model(*t);
        lemma_type_unfold(m, min as int, amount as int);
    }
    let v = match t {
        Type::Gen(_, v) => v,
        Type::Tuple(v) => v,
    };
    let mut w: Vec<Type> = Vec::new();
    let mut i: usize = 0;
    while i < v.len()
        invariant
            i <= v@.len(),
            w@.len() == i,
            (min + amount <= usize::MAX) || (forall|j: int| 0 <= j < v@.len() ==> type_predef_only(#[trigger] type_args(m)[j])),
            *v == type_vec(*t),
            m == t.deep_view(),
            type_args(m).len() == v@.len(),
            forall|j: int| 0 <= j < v@.len() ==> #[trigger] type_args(m)[j] == type_model(v@[j]),
            forall|j: int| 0 <= j < i ==> Some(type_model(#[trigger] w@[j])) == type_pop(type_args(m)[j], min as int, amount as int),
        decreases v@.len() - i,
    {
        proof {
            assert(*t is Gen ==> decreases_to!(*t => t->Gen_1));
            assert(*t is Tuple ==> decreases_to!(*t => t->Tuple_0));
            assert(decreases_to!(*v => v@));
            assert(decreases_to!(v@ => v@[i as int]));
            assert(type_args(m)[i as int] == type_model(v@[i as int]));
        }
        match pop_type(&v[i], min, amount) {
            Some(x) => w.push(x),
            None => {
                assert(type_pop(type_args(m)[i as int], min as int, amount as int).is_none());
                return None;
            },
        }
        i = i + 1;
    }
    assert forall|j: int| 0 <= j < type_args(m).len() implies type_pop(#[trigger] type_args(m)[j], min as int, amount as int).is_some() by {
        assert(Some(type_model(w@[j])) == type_pop(type_args(m)[j], min as int, amount as int));
    }
    let r = match t {
        Type::Gen(id, _) => match id.pop_id_with_min(min, amount) {
            Some(id) => Type::Gen(id, w),
            None => {
                return None;
            },
        },
        Type::Tuple(_) => Type::Tuple(w),
    };
    proof {
        lemma_type_model(r);
        assert(type_args(r.deep_view()) =~= type_args(type_pop(m, min as int, amount as int).unwrap()));
    }
    Some(r)
}

impl PushID for Type {
    open spec fn push_model(v: TypeModel, min: int, amount: int) -> TypeModel {
        type_push(v, min, amount)
    }

    open spec fn pop_model(v: TypeModel, min: int, amount: int) -> Option<TypeModel> {
        type_pop(v, min, amount)
    }

    open spec fn push_fits(v: TypeModel, min: int, amount: int) -> bool {
        type_fits(v, min, amount)
    }

    open spec fn pop_ok(v: TypeModel, min: int, amount: int) -> bool {
        (min + amount <= usize::MAX) || (type_predef_only(v))
    }

    proof fn lemma_pop_ok(v: TypeModel, min: int, amount: int) {
        assert(<Type as PushID>::pop_ok(v, min, amount));
    }

    proof fn lemma_pop_push(v: TypeModel, min: int, amount: int) {
        lemma_type_pop_push(v, min, amount);
    }

    fn push_id_with_min(&self, min: usize, amount: usize) -> (r: Self) {
        push_type(self, min, amount)
    }

    fn pop_id_with_min(&self, min: usize, amount: usize) -> (r: Option<Self>) {
        proof {
            assert(<Type as PushID>::pop_ok(self.deep_view(), min as int, amount as int));
        }
        pop_type(self, min, amount)
    }
}

impl PushID for (Variance, Type) {
    open spec fn push_model(v: (Variance, TypeModel), min: int, amount: int) -> (Variance, TypeModel) {
        (v.0, type_push(v.1, min, amount))
    }

    open spec fn pop_model(v: (Variance, TypeModel), min: int, amount: int) -> Option<(Variance, TypeModel)> {
        match type_pop(v.1, min, amount) {
            Some(t) => Some((v.0, t)),
            None => None,
        }
    }

    open spec fn push_fits(v: (Variance, TypeModel), min: int, amount: int) -> bool {
        type_fits(v.1, min, amount)
    }

    open spec fn pop_ok(v: (Variance, TypeModel), min: int, amount: int) -> bool {
        (min + amount <= usize::MAX) || (type_predef_only(v.1))
    }

    proof fn lemma_pop_ok(v: (Variance, TypeModel), min: int, amount: int) {
        assert(<(Variance, Type) as PushID>::pop_ok(v, min, amount));
    }

    proof fn lemma_pop_push(v: (Variance, TypeModel), min: int, amount: int) {
        lemma_type_pop_push(v.1, min, amount);
    }

    fn push_id_with_min(&self, min: usize, amount: usize) -> (r: Self) {
        assert(self.deep_view().1 == self.1.deep_view());
        assert(type_fits(self.1.deep_view(), min as int, amount as int));
        (self.0, push_type(&self.1, min, amount))
    }

    fn pop_id_with_min(&self, min: usize, amount: usize) -> (r: Option<Self>) {
        proof {
            assert(<(Variance, Type) as PushID>::pop_ok(self.deep_view(), min as int, amount as int));
        }
        assert(self.deep_view().1 == self.1.deep_view());
        match pop_type(&self.1, min, amount) {
            Some(t) => Some((self.0, t)),
            None => None,
        }
    }
}

/// The type after replacing each type variable of the scope `min` levels up
/// by the matching element of `par`, moved into place; identifiers of scopes
/// further up move one scope out.
pub open spec fn type_set(t: TypeModel, min: int, par: Seq<TypeModel>) -> TypeModel
    decreases t,
{
    let v = type_args(t);
    let w = Seq::new(
        v.len(),
        |i: int|
            if 0 <= i < v.len() {
                proof {
                    lemma_type_arg_decreases(t, i);
                }
                type_set(v[i], min, par)
            } else {
                TypeModel::Tuple(Seq::empty())
            },
    );
    match t {
        TypeModel::Gen(id, _) => match id_set(id, min) {
            Ok(i) => type_push(par[i as int], 0, min),
            Err(id) => TypeModel::Gen(id, w),
        },
        TypeModel::Tuple(_) => TypeModel::Tuple(w),
    }
}

/// Every replaced variable has a value in `par` that can be moved into place.
pub open spec fn type_set_ok(t: TypeModel, min: int, par: Seq<TypeModel>) -> bool
    decreases t,
{
    match t {
        TypeModel::Gen(id, v) => match id_set(id, min) {
            Ok(i) => i < par.len() && type_fits(par[i as int], 0, min),
            Err(_) => forall|i: int| 0 <= i < v.len() ==> type_set_ok(#[trigger] v[i], min, par),
        },
        TypeModel::Tuple(v) => forall|i: int| 0 <= i < v.len() ==> type_set_ok(#[trigger] v[i], min, par),
    }
}

/// How substitution acts on the arguments of a type.
pub proof fn lemma_type_set_unfold(t: TypeModel, min: int, par: Seq<TypeModel>)
    ensures
        (t is Tuple || id_set(t->Gen_0, min) is Err) ==> {
            &&& type_args(type_set(t, min, par)).len() == type_args(t).len()
            &&& forall|i: int| 0 <= i < type_args(t).len() ==> #[trigger] type_args(type_set(t, min, par))[i] == type_set(type_args(t)[i], min, par)
            &&& (type_set_ok(t, min, par) <==> forall|i: int| 0 <= i < type_args(t).len() ==> type_set_ok(#[trigger] type_args(t)[i], min, par))
        },
{
    let v = type_args(t);
    assert forall|i: int| 0 <= i < v.len() && (t is Tuple || id_set(t->Gen_0, min) is Err) implies {
        &&& #[trigger] type_args(type_set(t, min, par))[i] == type_set(v[i], min, par)
        &&& type_set_ok(v[i], min, par) == type_set_ok(v[i], min, par)
    } by {
        lemma_type_arg_decreases(t, i);
    }
    if forall|i: int| 0 <= i < v.len() ==> type_set_ok(#[trigger] v[i], min, par) {
        assert forall|i: int| 0 <= i < v.len() implies type_set_ok(#[trigger] v[i], min, par) by {
            lemma_type_arg_decreases(t, i);
        }
    }
    if type_set_ok(t, min, par) && (t is Tuple || id_set(t->Gen_0, min) is Err) {
        assert forall|i: int| 0 <= i < v.len() implies type_set_ok(#[trigger] v[i], min, par) by {
            lemma_type_arg_decreases(t, i);
        }
    }
}

/// Replaces the type variables of one scope.
fn set_type(t: &Type, min: usize, par: &[Type]) -> (r: Type)
    requires
        type_set_ok(t.deep_view(), min as int, par.deep_view()),
    ensures
        r.deep_view() == type_set(t.deep_view(), min as int, par.deep_view()),
    decreases t,
{
    let ghost m = t.deep_view();
    proof {
        lemma_type_model(*t);
        lemma_type_set_unfold(m, min as int, par.deep_view());
    }
    let (v, err_id) = match t {
        Type::Gen(id, v) => match id.set(min) {
            Ok(i) => {
                assert(par.deep_view()[i as int] == par@[i as int].deep_view());
                return par[i].push_id(min);
            },
            Err(id) => (v, Some(id)),
        },
        Type::Tuple(v) => (v, None),
    };
    let mut w: Vec<Type> = Vec::new();
    let mut i: usize = 0;
    while i < v.len()
        invariant
            i <= v@.len(),
            w@.len() == i,
            *v == type_vec(*t),
            m == t.deep_view(),
            type_args(m).len() == v@.len(),
            forall|j: int| 0 <= j < v@.len() ==> #[trigger] type_args(m)[j] == type_model(v@[j]),
            forall|j: int| 0 <= j < v@.len() ==> type_set_ok(#[trigger] type_args(m)[j], min as int, par.deep_view()),
            forall|j: int| 0 <= j < i ==> type_model(#[trigger] w@[j]) == type_set(type_args(m)[j], min as int, par.deep_view()),
        decreases v@.len() - i,
    {
        proof {
            assert(*t is Gen ==> decreases_to!(*t => t->Gen_1));
            assert(*t is Tuple ==> decreases_to!(*t => t->Tuple_0));
            assert(decreases_to!(*v => v@));
            assert(decreases_to!(v@ => v@[i as int]));
            assert(type_set_ok(type_args(m)[i as int], min as int, par.deep_view()));
        }
        w.push(set_type(&v[i], min, par));
        i = i + 1;
    }
    let r = match err_id {
        Some(id) => Type::Gen(id, w),
        None => Type::Tuple(w),
    };
    proof {
        lemma_type_model(r);
        assert(type_args(r.deep_view()) =~= type_args(type_set(m, min as int, par.deep_view())));
    }
    r
}

impl SetLocal for Type {
    open spec fn set_model(v: TypeModel, min: int, par: Seq<TypeModel>) -> TypeModel {
        type_set(v, min, par)
    }

    open spec fn set_ok(v: TypeModel, min: int, par: Seq<TypeModel>) -> bool {
        type_set_ok(v, min, par)
    }

    fn set_with_min(&self, min: usize, par: &[Type]) -> (r: Self) {
        set_type(self, min, par)
    }
}

/// Substituting the scope `min` levels up in a type that was just moved one
/// scope deeper from there gives the type back: the move left that scope
/// unused, and the substitution removes it again.
pub proof fn law_type_set_push(t: TypeModel, min: int, par: Seq<TypeModel>)
    requires
        0 <= min,
        type_fits(t, min, 1),
    ensures
        type_set(type_push(t, min, 1), min, par) == t,
    decreases t,
{
    let q = type_push(t, min, 1);
    lemma_type_unfold(t, min, 1);
    lemma_type_set_unfold(q, min, par);
    let v = type_args(t);
    assert forall|i: int| 0 <= i < v.len() implies type_set(#[trigger] type_args(q)[i], min, par) == v[i] by {
        lemma_type_arg_decreases(t, i);
        law_type_set_push(v[i], min, par);
    }
    assert(type_args(type_set(q, min, par)) =~= v);
}

/// Substituting the scope `min` levels up: a type variable of that scope
/// becomes its argument in `par`, moved `min` scopes deeper into place (its
/// own arguments are dropped); a type named in a scope further up is seen
/// one scope nearer, and one in a nearer scope, or a predefined one, stays;
/// either keeps its arguments, each substituted.
pub proof fn law_type_set_var(i: usize, up: usize, v: Seq<TypeModel>, min: int, par: Seq<TypeModel>)
    requires
        0 <= min,
    ensures
        up == min && i < par.len() ==> type_set(TypeModel::Gen(ID::Normal(i, up, PhantomData), v), min, par) == type_push(par[i as int], 0, min),
        up != min ==> (type_set(TypeModel::Gen(ID::Normal(i, up, PhantomData), v), min, par) matches TypeModel::Gen(id, w)
            && id == ID::<TypeVal>::Normal(i, if up < min { up } else { (up - 1) as usize }, PhantomData)
            && w.len() == v.len() && forall|k: int| 0 <= k < v.len() ==> #[trigger] w[k] == type_set(v[k], min, par)),
        type_set(TypeModel::Gen(ID::Predef(i, PhantomData), v), min, par) matches TypeModel::Gen(id, w)
            && id == ID::<TypeVal>::Predef(i, PhantomData)
            && w.len() == v.len() && forall|k: int| 0 <= k < v.len() ==> #[trigger] w[k] == type_set(v[k], min, par),
{
    let t = TypeModel::Gen(ID::<TypeVal>::Normal(i, up, PhantomData), v);
    let q = TypeModel::Gen(ID::<TypeVal>::Predef(i, PhantomData), v);
    lemma_type_set_unfold(t, min, par);
    lemma_type_set_unfold(q, min, par);
}

/// A copy of a type.
fn clone_type(t: &Type) -> (r: Type)
    ensures
        r.deep_view() == t.deep_view(),
    decreases t,
{
    proof {
        lemma_type_model(*t);
    }
    let v = match t {
        Type::Gen(_, v) => v,
        Type::Tuple(v) => v,
    };
    let mut w: Vec<Type> = Vec::new();
    let mut i: usize = 0;
    while i < v.len()
        invariant
            i <= v@.len(),
            w@.len() == i,
            *v == type_vec(*t),
            forall|j: int| 0 <= j < i ==> (#[trigger] w@[j]).deep_view() == v@[j].deep_view(),
        decreases v@.len() - i,
    {
        proof {
            assert(*t is Gen ==> decreases_to!(*t => t->Gen_1));
            assert(*t is Tuple ==> decreases_to!(*t => t->Tuple_0));
            assert(decreases_to!(*v => v@));
            assert(decreases_to!(v@ => v@[i as int]));
        }
        w.push(clone_type(&v[i]));
        i = i + 1;
    }
    let r = match t {
        Type::Gen(id, _) => Type::Gen(*id, w),
        Type::Tuple(_) => Type::Tuple(w),
    };
    proof {
        lemma_type_model(r);
        assert(type_args(r.deep_view()) =~= type_args(t.deep_view()));
    }
    r
}

impl Clone for Type {
    fn clone(&self) -> (r: Self)
        ensures
            r.deep_view() == self.deep_view(),
    {
        clone_type(self)
    }
}

/// A copy of a list of types.
pub(crate) fn clone_types(v: &Vec<Type>) -> (r: Vec<Type>)
    ensures
        r.deep_view() == v.deep_view(),
{
    let r = v.clone();
    assert(r.deep_view() =~= v.deep_view());
    r
}

} // verus!
