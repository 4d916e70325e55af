//! Handles into the widget arena and the visual values that widgets carry.
use vstd::prelude::*;

verus! {

/// Marks the index that no arena slot ever has.
pub const NONE_INDEX: usize = usize::MAX;

/// An opaque, copyable reference to a slot of the widget arena.
#[derive(Clone, Copy, PartialEq, Eq, Structural, Debug, Hash)]
pub struct Handle {
    pub index: usize,
}

impl Handle {
    pub open spec fn spec_none() -> Handle {
        Handle { index: NONE_INDEX }
    }

    pub open spec fn spec_is_some(&self) -> bool {
        self.index != NONE_INDEX
    }

    /// The handle that points at nothing.
    pub fn none() -> (r: Handle)
        ensures
            r == Handle::spec_none(),
    {
        Handle { index: NONE_INDEX }
    }

    #[verifier::when_used_as_spec(spec_is_some)]
    pub fn is_some(&self) -> (r: bool)
        ensures
            r == self.spec_is_some(),
    {
        self.index != NONE_INDEX
    }

    pub fn is_none(&self) -> (r: bool)
        ensures
            r == !self.spec_is_some(),
    {
        self.index == NONE_INDEX
    }
}

#[derive(Clone, Copy, PartialEq, Eq, Structural, Debug)]
pub struct Color {
    pub r: u8,
    pub g: u8,
    pub b: u8,
    pub a: u8,
}

impl Color {
    pub fn opaque(r: u8, g: u8, b: u8) -> (c: Color)
        ensures
            c == (Color { r, g, b, a: 255 }),
    {
        Color { r, g, b, a: 255 }
    }

    pub fn transparent() -> (c: Color)
        ensures
            c == (Color { r: 0, g: 0, b: 0, a: 0 }),
    {
        Color { r: 0, g: 0, b: 0, a: 0 }
    }
}

/// A fill value for a widget's background.
#[derive(Clone, Copy, PartialEq, Eq, Structural, Debug)]
pub enum Brush {
    Solid(Color),
}

/// `s` with every occurrence of `h` taken out, the rest in order.
pub open spec fn remove_all(s: Seq<Handle>, h: Handle) -> Seq<Handle>
    decreases s.len(),
{
    if s.len() == 0 {
        s
    } else if s.last() == h {
        remove_all(s.drop_last(), h)
    } else {
        remove_all(s.drop_last(), h).push(s.last())
    }
}

pub proof fn lemma_remove_all_absent(s: Seq<Handle>, h: Handle)
    requires
        !s.contains(h),
    ensures
        remove_all(s, h) == s,
    decreases s.len(),
{
    if s.len() > 0 {
        assert(!s.drop_last().contains(h)) by {
            if s.drop_last().contains(h) {
                let k = choose|k: int| 0 <= k < s.drop_last().len() && s.drop_last()[k] == h;
                assert(s[k] == h);
            }
        }
        lemma_remove_all_absent(s.drop_last(), h);
        assert(s.drop_last().push(s.last()) =~= s);
    }
}

pub proof fn lemma_remove_all_not_contains(s: Seq<Handle>, h: Handle)
    ensures
        !remove_all(s, h).contains(h),
    decreases s.len(),
{
    if s.len() > 0 {
        lemma_remove_all_not_contains(s.drop_last(), h);
        let r = remove_all(s.drop_last(), h);
        if s.last() != h {
            assert forall|k: int| 0 <= k < r.push(s.last()).len() implies r.push(s.last())[k] != h by {
                if k < r.len() {
                    assert(r[k] != h);
                }
            }
        }
    }
}

pub proof fn lemma_remove_all_contains(s: Seq<Handle>, h: Handle, x: Handle)
    ensures
        remove_all(s, h).contains(x) ==> s.contains(x) && x != h,
    decreases s.len(),
{
    if s.len() > 0 {
        lemma_remove_all_contains(s.drop_last(), h, x);
        let r = remove_all(s.drop_last(), h);
        if remove_all(s, h).contains(x) {
            let k = choose|k: int| 0 <= k < remove_all(s, h).len() && remove_all(s, h)[k] == x;
            if s.last() != h && k == r.len() {
                assert(s[s.len() - 1] == x);
            } else {
                assert(r[k] == x);
                assert(r.contains(x));
                let j = choose|j: int| 0 <= j < s.drop_last().len() && s.drop_last()[j] == x;
                assert(s[j] == x);
            }
        }
    }
}

/// `s` with every element of `rs` taken out, one after the other.
pub open spec fn remove_each(s: Seq<Handle>, rs: Seq<Handle>) -> Seq<Handle>
    decreases rs.len(),
{
    if rs.len() == 0 {
        s
    } else {
        remove_all(remove_each(s, rs.drop_last()), rs.last())
    }
}

pub proof fn lemma_remove_each_contains(s: Seq<Handle>, rs: Seq<Handle>, x: Handle)
    ensures
        remove_each(s, rs).contains(x) ==> s.contains(x) && !rs.contains(x),
    decreases rs.len(),
{
    if rs.len() > 0 {
        lemma_remove_each_contains(s, rs.drop_last(), x);
        lemma_remove_all_contains(remove_each(s, rs.drop_last()), rs.last(), x);
        if remove_each(s, rs).contains(x) && rs.contains(x) {
            let k = choose|k: int| 0 <= k < rs.len() && rs[k] == x;
            if k < rs.len() - 1 {
                assert(rs.drop_last()[k] == x);
            }
        }
    }
}

/// Taking out of `s` each of its own elements leaves nothing.
pub proof fn lemma_remove_each_self(s: Seq<Handle>)
    ensures
        remove_each(s, s).len() == 0,
{
    let r = remove_each(s, s);
    if r.len() > 0 {
        lemma_remove_each_contains(s, s, r[0]);
        assert(r.contains(r[0]));
    }
}

/// `s` after moving each element of `xs`, in turn, to its end.
pub open spec fn appended_each(s: Seq<Handle>, xs: Seq<Handle>) -> Seq<Handle>
    decreases xs.len(),
{
    if xs.len() == 0 {
        s
    } else {
        remove_all(appended_each(s, xs.drop_last()), xs.last()).push(xs.last())
    }
}

/// Moving distinct handles, in turn, to the end of an empty sequence gives them back.
pub proof fn lemma_appended_each_distinct(xs: Seq<Handle>)
    requires
        xs.no_duplicates(),
    ensures
        appended_each(Seq::empty(), xs) == xs,
    decreases xs.len(),
{
    if xs.len() > 0 {
        let init = xs.drop_last();
        assert(init.no_duplicates());
        lemma_appended_each_distinct(init);
        assert(!init.contains(xs.last())) by {
            if init.contains(xs.last()) {
                let k = choose|k: int| 0 <= k < init.len() && init[k] == xs.last();
                assert(xs[k] == xs[xs.len() - 1]);
            }
        }
        lemma_remove_all_absent(init, xs.last());
        assert(init.push(xs.last()) =~= xs);
    }
}

/// Takes every occurrence of `h` out of `v`.
pub fn remove_all_exec(v: &Vec<Handle>, h: Handle) -> (r: Vec<Handle>)
    ensures
        r@ == remove_all(v@, h),
{
    let mut r: Vec<Handle> = Vec::new();
    let mut i: usize = 0;
    while i < v.len()
        invariant
            i <= v.len(),
            r@ == remove_all(v@.subrange(0, i as int), h),
        decreases v.len() - i,
    {
        let x = v[i];
        assert(v@.subrange(0, i + 1).drop_last() =~= v@.subrange(0, i as int));
        if x != h {
            r.push(x);
        }
        i = i + 1;
    }
    assert(v@.subrange(0, v.len() as int) =~= v@);
    r
}

/// Whether `v` holds `h`.
pub fn contains_handle(v: &Vec<Handle>, h: Handle) -> (r: bool)
    ensures
        r == v@.contains(h),
{
    let mut i: usize = 0;
    while i < v.len()
        invariant
            i <= v.len(),
            forall|k: int| 0 <= k < i ==> v@[k] != h,
        decreases v.len() - i,
    {
        if v[i] == h {
            return true;
        }
        i = i + 1;
    }
    false
}

} // verus!
