use vstd::prelude::*;

verus! {

broadcast use vstd::std_specs::vec::vec_clone_deep_view_proof;

/// ASCII `/`, the separator of request paths.
pub const SLASH: u8 = 47;

/// A left-to-right scan of a request path: the segments already closed by a
/// `/`, and the segment still open.
pub open spec fn scan(p: Seq<u8>) -> (Seq<Seq<u8>>, Seq<u8>)
    decreases p.len(),
{
    if p.len() == 0 {
        (Seq::empty(), Seq::empty())
    } else {
        let (done, cur) = scan(p.drop_last());
        if p.last() == SLASH {
            (if cur.len() > 0 { done.push(cur) } else { done }, Seq::empty())
        } else {
            (done, cur.push(p.last()))
        }
    }
}

/// The non-empty `/`-separated segments of a request path, in order.
pub open spec fn segments(p: Seq<u8>) -> Seq<Seq<u8>> {
    let (done, cur) = scan(p);
    if cur.len() > 0 {
        done.push(cur)
    } else {
        done
    }
}

/// The web root joined with a request path, before canonicalisation.
pub open spec fn joined(root: Seq<Seq<u8>>, p: Seq<u8>) -> Seq<Seq<u8>> {
    root + segments(p)
}

/// `p` lies under `root`: the components of `root` are the first components
/// of `p`. Comparing whole components keeps `/srv/web2` out of `/srv/web`.
pub open spec fn within(root: Seq<Seq<u8>>, p: Seq<Seq<u8>>) -> bool {
    root.len() <= p.len() && p.subrange(0, root.len() as int) == root
}

/// Splits a request path into its non-empty segments.
pub fn request_segments(p: &[u8]) -> (r: Vec<Vec<u8>>)
    ensures
        r.deep_view() == segments(p@),
{
    let mut done: Vec<Vec<u8>> = Vec::new();
    let mut cur: Vec<u8> = Vec::new();
    let mut i: usize = 0;
    assert(p@.subrange(0, 0) == Seq::<u8>::empty());
    assert(done.deep_view() == Seq::<Seq<u8>>::empty());
    while i < p.len()
        invariant
            i <= p@.len(),
            (done.deep_view(), cur@) == scan(p@.subrange(0, i as int)),
        decreases p@.len() - i,
    {
        let ghost before = p@.subrange(0, i as int);
        assert(p@.subrange(0, i + 1).drop_last() == before);
        let ghost old_done = done.deep_view();
        let b = p[i];
        if b == SLASH {
            if cur.len() > 0 {
                let ghost c = cur@;
        assert(cur.deep_view() =~= c);
                done.push(cur);
                assert(done.deep_view() =~= old_done.push(c));
            }
            cur = Vec::new();
        } else {
            cur.push(b);
        }
        i += 1;
    }
    assert(p@.subrange(0, p@.len() as int) == p@);
    if cur.len() > 0 {
        let ghost old_done = done.deep_view();
        let ghost c = cur@;
        assert(cur.deep_view() =~= c);
        done.push(cur);
        assert(done.deep_view() =~= old_done.push(c));
    }
    done
}

/// Joins the web root with the segments of a request path.
pub fn join_request_path(root: &Vec<Vec<u8>>, p: &[u8]) -> (r: Vec<Vec<u8>>)
    ensures
        r.deep_view() == joined(root.deep_view(), p@),
{
    let mut r = root.clone();
    let mut s = request_segments(p);
    let ghost a = r.deep_view();
    let ghost b = s.deep_view();
    r.append(&mut s);
    assert(r.deep_view() == a + b);
    r
}

/// Whether `p` lies under `root`, compared component by component.
pub fn is_within(root: &Vec<Vec<u8>>, p: &Vec<Vec<u8>>) -> (r: bool)
    ensures
        r == within(root.deep_view(), p.deep_view()),
{
    if root.len() > p.len() {
        return false;
    }
    let mut i: usize = 0;
    while i < root.len()
        invariant
            root@.len() <= p@.len(),
            i <= root@.len(),
            p.deep_view().subrange(0, i as int) == root.deep_view().subrange(0, i as int),
        decreases root@.len() - i,
    {
        assert(root@[i as int].deep_view() =~= root@[i as int]@);
        assert(p@[i as int].deep_view() =~= p@[i as int]@);
        if !crate::request::bytes_eq(root[i].as_slice(), p[i].as_slice()) {
            assert(p.deep_view()[i as int] != root.deep_view()[i as int]);
            assert(p.deep_view().subrange(0, root@.len() as int)[i as int] != root.deep_view()[i as int]);
            return false;
        }
        assert(p.deep_view().subrange(0, i + 1) == root.deep_view().subrange(0, i + 1));
        i += 1;
    }
    assert(root.deep_view().subrange(0, root@.len() as int) == root.deep_view());
    true
}

} // verus!
