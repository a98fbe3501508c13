//! Facts about vectors viewed element by element.
use vstd::prelude::*;

verus! {

/// Appends `x` to `v`; the deep view grows by `x`'s.
pub fn push_dv<T: DeepView>(v: &mut Vec<T>, x: T)
    ensures
        final(v).deep_view() == old(v).deep_view().push(x.deep_view()),
        final(v)@.len() == old(v)@.len() + 1,
{
    let ghost xv = x.deep_view();
    v.push(x);
    assert(v.deep_view() =~= old(v).deep_view().push(xv));
}

/// Concatenation of a sequence of sequences, read from the front.
pub open spec fn flat<A>(s: Seq<Seq<A>>) -> Seq<A>
    decreases s.len(),
{
    if s.len() == 0 {
        seq![]
    } else {
        flat(s.drop_last()) + s.last()
    }
}

} // verus!

verus! {

/// Values that can be compared by their models.
pub trait ViewEq: DeepView + Sized {
    /// Whether `self` and `other` have the same model.
    fn same(&self, other: &Self) -> (r: bool)
        ensures
            r == (self.deep_view() == other.deep_view()),
    ;
}

impl ViewEq for String {
    fn same(&self, other: &Self) -> (r: bool) {
        crate::text::str_eq(self.as_str(), other.as_str())
    }
}

/// Whether `x` has the model of some element of `v`.
pub fn contains_same<T: ViewEq>(v: &Vec<T>, x: &T) -> (r: bool)
    ensures
        r == v.deep_view().contains(x.deep_view()),
{
    let mut i: usize = 0;
    while i < v.len()
        invariant
            i <= v@.len(),
            forall|j: int| 0 <= j < i ==> v.deep_view()[j] != x.deep_view(),
        decreases v.len() - i,
    {
        if v[i].same(x) {
            assert(v.deep_view()[i as int] == x.deep_view());
            return true;
        }
        i = i + 1;
    }
    false
}

/// Whether two vectors have the same models, element by element.
pub fn vec_same<T: ViewEq>(a: &Vec<T>, b: &Vec<T>) -> (r: bool)
    ensures
        r == (a.deep_view() == b.deep_view()),
{
    if a.len() != b.len() {
        assert(a.deep_view().len() != b.deep_view().len());
        return false;
    }
    let mut i: usize = 0;
    while i < a.len()
        invariant
            a@.len() == b@.len(),
            i <= a@.len(),
            forall|j: int| 0 <= j < i ==> a.deep_view()[j] == b.deep_view()[j],
        decreases a.len() - i,
    {
        if !a[i].same(&b[i]) {
            assert(a.deep_view()[i as int] != b.deep_view()[i as int]);
            return false;
        }
        i = i + 1;
    }
    assert(a.deep_view() =~= b.deep_view());
    true
}

/// `s` followed by those elements of `xs` not already present, each checked against what
/// came before it.
pub open spec fn push_unique_all<A>(s: Seq<A>, xs: Seq<A>) -> Seq<A>
    decreases xs.len(),
{
    if xs.len() == 0 {
        s
    } else {
        let prev = push_unique_all(s, xs.drop_last());
        if prev.contains(xs.last()) {
            prev
        } else {
            prev.push(xs.last())
        }
    }
}

/// Appends to `dst` each element of `src` whose model is not there yet.
pub fn append_missing<T: ViewEq>(dst: &mut Vec<T>, src: Vec<T>)
    ensures
        final(dst).deep_view() == push_unique_all(old(dst).deep_view(), src.deep_view()),
{
    let ghost all = src.deep_view();
    let mut src = src;
    let n0 = src.len();
    let mut k: usize = 0;
    while src.len() > 0
        invariant
            all.len() == n0,
            k + src@.len() == all.len(),
            src.deep_view() =~= all.subrange(k as int, all.len() as int),
            dst.deep_view() == push_unique_all(old(dst).deep_view(), all.subrange(0, k as int)),
        decreases src.len(),
    {
        let ghost before = src.deep_view();
        let x = src.remove(0);
        assert(x.deep_view() == before[0]);
        assert(src.deep_view() =~= before.subrange(1, before.len() as int));
        proof {
            let s = all.subrange(0, k + 1);
            assert(s.drop_last() =~= all.subrange(0, k as int));
            assert(s.last() == before[0]);
        }
        if !contains_same(dst, &x) {
            push_dv(dst, x);
        }
        k = k + 1;
    }
    assert(all.subrange(0, k as int) =~= all);
}

} // verus!

verus! {

/// Moves the elements of `w` to the end of `v`.
pub fn append_dv<T: DeepView>(v: &mut Vec<T>, w: Vec<T>)
    ensures
        final(v).deep_view() == old(v).deep_view() + w.deep_view(),
{
    let ghost wv = w.deep_view();
    let mut w = w;
    v.append(&mut w);
    assert(v.deep_view() =~= old(v).deep_view() + wv);
}

} // verus!
