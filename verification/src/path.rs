//! Unix paths, as raw bytes, compared by their components the way the
//! standard library compares paths: repeated and trailing slashes do not
//! matter, nor does a `.` part anywhere but at the start.

use vstd::prelude::*;

use crate::cache::bytes_equal;

verus! {

/// The pieces of `p` between slashes, in order, empty ones included.
pub open spec fn split_slashes(p: Seq<u8>) -> Seq<Seq<u8>>
    decreases p.len(),
{
    if p.len() == 0 {
        seq![Seq::<u8>::empty()]
    } else {
        let s = split_slashes(p.drop_last());
        if p.last() == 47u8 {
            s.push(Seq::empty())
        } else {
            s.drop_last().push(s.last().push(p.last()))
        }
    }
}

/// A piece that names something: not empty and not `.`.
pub open spec fn is_named_part(s: Seq<u8>) -> bool {
    s.len() > 0 && s != seq![46u8]
}

/// The predicate of the pieces that name something.
pub open spec fn named() -> spec_fn(Seq<u8>) -> bool {
    |s: Seq<u8>| is_named_part(s)
}

/// The pieces of `p` that name something, in order (`..` included).
pub open spec fn named_parts(p: Seq<u8>) -> Seq<Seq<u8>> {
    split_slashes(p).filter(named())
}

/// `p` starts at the root directory.
pub open spec fn rooted(p: Seq<u8>) -> bool {
    p.len() > 0 && p[0] == 47u8
}

/// `p` starts with a `.` part (which then counts as a component).
pub open spec fn starts_at_current_dir(p: Seq<u8>) -> bool {
    &&& !rooted(p)
    &&& p.len() > 0
    &&& p[0] == 46u8
    &&& (p.len() == 1 || p[1] == 47u8)
}

/// What two paths with the same components share.
pub open spec fn path_key(p: Seq<u8>) -> (bool, bool, Seq<Seq<u8>>) {
    (rooted(p), starts_at_current_dir(p), named_parts(p))
}

/// The byte strings of `s`.
pub open spec fn byte_views(s: Seq<Vec<u8>>) -> Seq<Seq<u8>> {
    s.map_values(|v: Vec<u8>| v@)
}

proof fn lemma_split_not_empty(p: Seq<u8>)
    ensures
        split_slashes(p).len() >= 1,
    decreases p.len(),
{
    if p.len() > 0 {
        lemma_split_not_empty(p.drop_last());
    }
}

fn is_named(s: &Vec<u8>) -> (r: bool)
    ensures
        r == is_named_part(s@),
{
    if s.len() == 0 {
        return false;
    }
    if s.len() == 1 && s[0] == 46u8 {
        assert(s@ =~= seq![46u8]);
        return false;
    }
    assert(s@ != seq![46u8]) by {
        if s@ == seq![46u8] {
            assert(s@.len() == 1 && s@[0] == 46u8);
        }
    }
    true
}

/// The pieces of the path `p` that name something.
fn named_parts_of(p: &Vec<u8>) -> (r: Vec<Vec<u8>>)
    ensures
        byte_views(r@) == named_parts(p@),
{
    let mut r: Vec<Vec<u8>> = Vec::new();
    let mut cur: Vec<u8> = Vec::new();
    let ghost mut done: Seq<Seq<u8>> = Seq::empty();
    let mut i: usize = 0;
    assert(p@.take(0) =~= Seq::<u8>::empty());
    proof {
        reveal(Seq::filter);
        assert(done.filter(named()) =~= Seq::<Seq<u8>>::empty());
        assert(byte_views(r@) =~= Seq::<Seq<u8>>::empty());
        assert(done.push(cur@) =~= seq![Seq::<u8>::empty()]);
    }
    while i < p.len()
        invariant
            i <= p@.len(),
            split_slashes(p@.take(i as int)) == done.push(cur@),
            byte_views(r@) == done.filter(named()),
        decreases p@.len() - i,
    {
        let ghost before = p@.take(i as int);
        assert(p@.take(i + 1).drop_last() =~= before);
        assert(p@.take(i + 1).last() == p@[i as int]);
        if p[i] == 47u8 {
            let ghost piece = cur@;
            proof {
                reveal(Seq::filter);
                assert(done.push(piece).drop_last() =~= done);
                assert(done.push(piece).last() == piece);
            }
            let mut next: Vec<u8> = Vec::new();
            std::mem::swap(&mut next, &mut cur);
            if is_named(&next) {
                r.push(next);
                assert(byte_views(r@) =~= done.filter(named()).push(piece));
            }
            proof {
                done = done.push(piece);
                assert(split_slashes(p@.take(i + 1)) == split_slashes(before).push(Seq::empty()));
                assert(done.push(cur@) =~= split_slashes(before).push(Seq::<u8>::empty()));
            }
        } else {
            let ghost old_cur = cur@;
            cur.push(p[i]);
            proof {
                assert(split_slashes(before).drop_last() =~= done);
                assert(split_slashes(before).last() == old_cur);
                assert(done.push(cur@) =~= split_slashes(before).drop_last().push(
                    split_slashes(before).last().push(p@[i as int]),
                ));
            }
        }
        i = i + 1;
    }
    assert(p@.take(p@.len() as int) =~= p@);
    let ghost last = cur@;
    proof {
        reveal(Seq::filter);
        assert(done.push(last).drop_last() =~= done);
        assert(done.push(last).last() == last);
    }
    if is_named(&cur) {
        r.push(cur);
        assert(byte_views(r@) =~= done.filter(named()).push(last));
    }
    r
}

/// Whether the paths `a` and `b` have the same components.
pub fn paths_equal(a: &Vec<u8>, b: &Vec<u8>) -> (r: bool)
    ensures
        r == (path_key(a@) == path_key(b@)),
{
    let a_rooted = a.len() > 0 && a[0] == 47u8;
    let b_rooted = b.len() > 0 && b[0] == 47u8;
    let a_current = !a_rooted && a.len() > 0 && a[0] == 46u8 && (a.len() == 1 || a[1] == 47u8);
    let b_current = !b_rooted && b.len() > 0 && b[0] == 46u8 && (b.len() == 1 || b[1] == 47u8);
    if a_rooted != b_rooted || a_current != b_current {
        return false;
    }
    let pa = named_parts_of(a);
    let pb = named_parts_of(b);
    if pa.len() != pb.len() {
        assert(named_parts(a@).len() != named_parts(b@).len());
        return false;
    }
    let mut i: usize = 0;
    while i < pa.len()
        invariant
            pa@.len() == pb@.len(),
            byte_views(pa@) == named_parts(a@),
            byte_views(pb@) == named_parts(b@),
            i <= pa@.len(),
            forall|k: int| 0 <= k < i ==> #[trigger] pa@[k]@ == pb@[k]@,
        decreases pa@.len() - i,
    {
        if !bytes_equal(&pa[i], &pb[i]) {
            assert(named_parts(a@)[i as int] != named_parts(b@)[i as int]);
            return false;
        }
        i = i + 1;
    }
    assert(byte_views(pa@) =~= byte_views(pb@)) by {
        assert forall|k: int| 0 <= k < pa@.len() implies byte_views(pa@)[k] == byte_views(pb@)[k] by {
            assert(pa@[k]@ == pb@[k]@);
        }
    }
    true
}

} // verus!
