use vstd::prelude::*;
use core::marker::PhantomData;
use super::PushID;

verus! {

/// An identifier of an element of kind `T`: either an index into the
/// predefined elements, or an index into the elements of the scope that
/// lies `up` scopes above the current one.
#[derive(Debug)]
pub enum ID<T: ?Sized> {
    Predef(usize, PhantomData<T>),
    Normal(usize, usize, PhantomData<T>),
}

impl<T: ?Sized> Clone for ID<T> {
    fn clone(&self) -> (r: Self)
        ensures
            r == *self,
    {
        match self {
            ID::Predef(id, _) => ID::Predef(*id, PhantomData),
            ID::Normal(id, up, _) => ID::Normal(*id, *up, PhantomData),
        }
    }
}

impl<T: ?Sized> Copy for ID<T> {
}

impl<T: ?Sized> PartialEq for ID<T> {
    fn eq(&self, other: &Self) -> (r: bool) {
        match (self, other) {
            (ID::Predef(lhs, _), ID::Predef(rhs, _)) => *lhs == *rhs,
            (ID::Normal(l_id, l_up, _), ID::Normal(r_id, r_up, _)) => *l_id == *r_id && *l_up == *r_up,
            _ => false,
        }
    }
}

impl<T: ?Sized> vstd::std_specs::cmp::PartialEqSpecImpl for ID<T> {
    open spec fn obeys_eq_spec() -> bool {
        true
    }

    open spec fn eq_spec(&self, other: &Self) -> bool {
        match (*self, *other) {
            (ID::Predef(lhs, _), ID::Predef(rhs, _)) => lhs == rhs,
            (ID::Normal(l_id, l_up, _), ID::Normal(r_id, r_up, _)) => l_id == r_id && l_up == r_up,
            _ => false,
        }
    }
}

impl<T: ?Sized> Eq for ID<T> {
}

impl<T: ?Sized> DeepView for ID<T> {
    type V = ID<T>;

    open spec fn deep_view(&self) -> ID<T> {
        *self
    }
}

/// The identifier after moving it `amount` scopes deeper.
pub open spec fn id_push<T: ?Sized>(id: ID<T>, min: int, amount: int) -> ID<T> {
    match id {
        ID::Predef(i, p) => ID::Predef(i, p),
        ID::Normal(i, up, p) => ID::Normal(i, if up >= min { (up + amount) as usize } else { up }, p),
    }
}

/// The identifier after moving it `amount` scopes out; `None` where it names
/// one of the scopes that are left.
pub open spec fn id_pop<T: ?Sized>(id: ID<T>, min: int, amount: int) -> Option<ID<T>> {
    match id {
        ID::Predef(i, p) => Some(ID::Predef(i, p)),
        ID::Normal(i, up, p) => if up >= min + amount {
            Some(ID::Normal(i, (up - amount) as usize, p))
        } else if up >= min {
            None
        } else {
            Some(ID::Normal(i, up, p))
        },
    }
}

/// The index within the scope `min` levels up if the identifier points
/// exactly there; otherwise the identifier as seen once that scope is gone.
pub open spec fn id_set<T: ?Sized>(id: ID<T>, min: int) -> Result<usize, ID<T>> {
    match id {
        ID::Predef(i, p) => Err(ID::Predef(i, p)),
        ID::Normal(i, up, p) => if up < min {
            Err(ID::Normal(i, up, p))
        } else if up > min {
            Err(ID::Normal(i, (up - 1) as usize, p))
        } else {
            Ok(i)
        },
    }
}

/// How many scopes up the identifier points; 0 for a predefined one.
pub open spec fn id_up<T: ?Sized>(id: ID<T>) -> nat {
    match id {
        ID::Predef(_, _) => 0,
        ID::Normal(_, up, _) => up as nat,
    }
}

impl<T: ?Sized> PushID for ID<T> {
    open spec fn push_model(v: ID<T>, min: int, amount: int) -> ID<T> {
        id_push(v, min, amount)
    }

    open spec fn pop_model(v: ID<T>, min: int, amount: int) -> Option<ID<T>> {
        id_pop(v, min, amount)
    }

    open spec fn push_fits(v: ID<T>, min: int, amount: int) -> bool {
        match v {
            ID::Predef(_, _) => true,
            ID::Normal(_, up, _) => up >= min ==> up + amount <= usize::MAX,
        }
    }

    open spec fn pop_ok(v: ID<T>, min: int, amount: int) -> bool {
        (min + amount <= usize::MAX) || (v is Predef)
    }

    proof fn lemma_pop_ok(v: ID<T>, min: int, amount: int) {
        assert(min + amount <= usize::MAX);
        assert(<ID<T> as PushID>::pop_ok(v, min, amount));
    }

    proof fn lemma_pop_push(v: ID<T>, min: int, amount: int) {
    }

    fn push_id_with_min(&self, min: usize, amount: usize) -> (r: Self) {
        match self {
            ID::Predef(id, _) => ID::Predef(*id, PhantomData),
            ID::Normal(id, up, _) => ID::Normal(*id, if *up >= min { *up + amount } else { *up }, PhantomData),
        }
    }

    fn pop_id_with_min(&self, min: usize, amount: usize) -> (r: Option<Self>) {
        match self {
            ID::Predef(_, _) => {
                let r = Some(*self);
                assert(r.deep_view() == Some(*self));
                assert(id_pop(*self, min as int, amount as int) == Some(*self));
                r
            },
            ID::Normal(id, up, _) => {
                if *up >= min + amount {
                    Some(ID::Normal(*id, *up - amount, PhantomData))
                } else if *up >= min {
                    None
                } else {
                    Some(ID::Normal(*id, *up, PhantomData))
                }
            },
        }
    }
}

impl<T: ?Sized> ID<T> {
    /// An identifier of an element of the current scope.
    pub fn new(id: usize) -> (r: Self)
        ensures
            r == ID::<T>::Normal(id, 0, PhantomData),
    {
        ID::Normal(id, 0, PhantomData)
    }

    /// `e` moved as many scopes deeper as this identifier points up.
    pub fn move_into<U: PushID>(&self, e: &U) -> (r: U)
        requires
            U::push_fits(e.deep_view(), 0, id_up(*self) as int),
        ensures
            r.deep_view() == U::push_model(e.deep_view(), 0, id_up(*self) as int),
    {
        match self {
            ID::Predef(_, _) => e.push_id(0),
            ID::Normal(_, up, _) => e.push_id(*up),
        }
    }

    /// The index within the scope `min` levels up if the identifier points
    /// exactly there; otherwise the identifier as seen from that scope
    /// (one level fewer where it points further up).
    pub fn set(&self, min: usize) -> (r: Result<usize, ID<T>>)
        ensures
            r == id_set(*self, min as int),
    {
        match self {
            ID::Predef(id, _) => Err(ID::Predef(*id, PhantomData)),
            ID::Normal(id, up, _) => {
                if *up < min {
                    Err(ID::Normal(*id, *up, PhantomData))
                } else if *up > min {
                    Err(ID::Normal(*id, *up - 1, PhantomData))
                } else {
                    Ok(*id)
                }
            },
        }
    }
}

/// Moving an identifier deeper twice is moving it deeper once by the sum.
pub proof fn law_id_push_push<T: ?Sized>(id: ID<T>, min: int, a: int, b: int)
    requires
        0 <= min,
        0 <= a,
        0 <= b,
        id_up(id) + a + b <= usize::MAX,
    ensures
        id_push(id_push(id, min, a), min, b) == id_push(id, min, a + b),
{
}

/// An identifier moved out of scopes and back in is the identifier it was.
pub proof fn law_id_push_pop<T: ?Sized>(id: ID<T>, popped: ID<T>, min: int, amount: int)
    requires
        0 <= min,
        0 <= amount,
        id_pop(id, min, amount) == Some(popped),
    ensures
        id_push(popped, min, amount) == id,
{
}

/// Moving an identifier by nothing leaves it unchanged.
pub proof fn lemma_id_push_zero<T: ?Sized>(id: ID<T>, min: int)
    ensures
        id_push(id, min, 0) == id,
{
}

} // verus!
