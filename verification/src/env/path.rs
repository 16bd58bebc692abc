use vstd::prelude::*;
use vstd::string::StringExecFns;

verus! {

/// A path of names, outermost first, such as `a::b::c`.
#[derive(Debug, PartialEq, Eq, Hash)]
pub struct Path<T>(Vec<T>);

impl<T> View for Path<T> {
    type V = Seq<T>;

    closed spec fn view(&self) -> Seq<T> {
        self.0@
    }
}

impl<T: DeepView> DeepView for Path<T> {
    type V = Seq<T::V>;

    open spec fn deep_view(&self) -> Seq<T::V> {
        Seq::new(self@.len(), |i: int| self@[i].deep_view())
    }
}

impl<T: Clone> Clone for Path<T> {
    fn clone(&self) -> (r: Self)
        ensures
            r@.len() == self@.len(),
            forall|i: int| 0 <= i < self@.len() ==> cloned::<T>(self@[i], #[trigger] r@[i]),
    {
        let mut v: Vec<T> = Vec::new();
        let mut i: usize = 0;
        while i < self.0.len()
            invariant
                i <= self@.len(),
                v@.len() == i,
                forall|j: int| 0 <= j < i ==> cloned::<T>(self@[j], #[trigger] v@[j]),
            decreases self@.len() - i,
        {
            v.push(self.0[i].clone());
            i = i + 1;
        }
        Path(v)
    }
}

impl<T> Path<T> {
    pub fn new(v: Vec<T>) -> (r: Self)
        ensures
            r@ == v@,
    {
        Path(v)
    }

    /// The path of the single name `s`.
    pub fn single(s: T) -> (r: Self)
        ensures
            r@ == seq![s],
    {
        let mut v: Vec<T> = Vec::new();
        v.push(s);
        Path(v)
    }

    pub fn len(&self) -> (r: usize)
        ensures
            r == self@.len(),
    {
        self.0.len()
    }

    /// The last, innermost name.
    pub fn name(&self) -> (r: &T)
        requires
            self@.len() > 0,
        ensures
            *r == self@.last(),
    {
        &self.0[self.0.len() - 1]
    }

    /// The path with `space` put in front.
    pub fn prepend(self, space: T) -> (r: Self)
        ensures
            r@ == seq![space] + self@,
    {
        let mut v = self.0;
        v.insert(0, space);
        assert(v@ =~= seq![space] + self@);
        Path(v)
    }

    /// The path with `space` put at the end.
    pub fn append(self, space: T) -> (r: Self)
        ensures
            r@ == self@.push(space),
    {
        let mut v = self.0;
        v.push(space);
        Path(v)
    }

    /// The names of the path as a slice.
    pub fn as_ref(&self) -> (r: &[T])
        ensures
            r@ == self@,
    {
        self.0.as_slice()
    }
}

/// The names of a path joined by `::`.
pub open spec fn joined(p: Seq<Seq<char>>) -> Seq<char>
    decreases p.len(),
{
    if p.len() == 0 {
        Seq::empty()
    } else if p.len() == 1 {
        p[0]
    } else {
        joined(p.drop_last()) + "::"@ + p.last()
    }
}

impl Path<String> {
    /// The path written out, its names joined by `::`.
    pub fn to_string(&self) -> (r: String)
        ensures
            r@ == joined(self.deep_view()),
    {
        let ghost p = self.deep_view();
        let mut r = String::new();
        let mut i: usize = 0;
        while i < self.0.len()
            invariant
                i <= self@.len(),
                p == self.deep_view(),
                p.len() == self@.len(),
                forall|j: int| 0 <= j < self@.len() ==> #[trigger] p[j] == self@[j]@,
                r@ == joined(p.take(i as int)),
            decreases self@.len() - i,
        {
            proof {
                assert(p.take(i + 1).drop_last() =~= p.take(i as int));
                assert(p.take(i + 1).last() == self@[i as int]@);
            }
            if i > 0 {
                r.append("::");
            } else {
                assert(Seq::<char>::empty() + self@[i as int]@ =~= self@[i as int]@);
            }
            r.append(self.0[i].as_str());
            i = i + 1;
        }
        assert(p.take(self@.len() as int) =~= p);
        r
    }
}

} // verus!
