//! Routing of request paths to handlers through a tree of path fragments.
use crate::text::{chars_of, chars_eq_ignore_case, count_of, index_of, lemma_split_count, lemma_index_of, lemma_index_of_props, owned, slices, split, split_ranges, str_range};
use vstd::prelude::*;

verus! {

/// One segment of a route pattern.
#[derive(Debug, Clone, PartialEq, Eq)]
pub enum Fragment {
    /// A segment that must be this text.
    Static(String),
    /// Any one segment, passed to the handler as an argument (`:`).
    Argument,
    /// Any one segment (`*`).
    Wildcard,
    /// All the remaining segments (`**`).
    SuperWildcard,
}

/// The mathematical content of a `Fragment`.
pub enum FragmentView {
    Static(Seq<char>),
    Argument,
    Wildcard,
    SuperWildcard,
}

impl View for Fragment {
    type V = FragmentView;

    open spec fn view(&self) -> FragmentView {
        match self {
            Fragment::Static(s) => FragmentView::Static(s@),
            Fragment::Argument => FragmentView::Argument,
            Fragment::Wildcard => FragmentView::Wildcard,
            Fragment::SuperWildcard => FragmentView::SuperWildcard,
        }
    }
}

/// A path without one leading `/`.
pub open spec fn strip_slash(s: Seq<char>) -> Seq<char> {
    if s.len() > 0 && s[0] == '/' {
        s.drop_first()
    } else {
        s
    }
}

/// The segments of a path: what lies between the `/`s once one leading `/` is dropped.
pub open spec fn segments(path: Seq<char>) -> Seq<Seq<char>> {
    split(strip_slash(path), '/')
}

/// The fragment that a pattern segment stands for.
pub open spec fn fragment_of(seg: Seq<char>) -> FragmentView {
    if seg == seq![':'] {
        FragmentView::Argument
    } else if seg == seq!['*'] {
        FragmentView::Wildcard
    } else if seg == seq!['*', '*'] {
        FragmentView::SuperWildcard
    } else {
        FragmentView::Static(seg)
    }
}

/// The positions of the segments of `path` among its characters.
fn segment_ranges(v: &Vec<char>) -> (r: Vec<(usize, usize)>)
    ensures
        slices(v@, r@) == segments(v@),
        forall|k: int| 0 <= k < r@.len() ==> (#[trigger] r@[k]).0 <= r@[k].1 <= v@.len(),
        r@.len() >= 1,
{
    let start: usize = if v.len() > 0 && v[0] == '/' {
        1
    } else {
        0
    };
    assert(v@.subrange(start as int, v@.len() as int) =~= strip_slash(v@));
    split_ranges(v, start, v.len(), '/')
}

/// Reads a route pattern: one fragment per segment, `:` an argument, `*` a wildcard, `**`
/// a super-wildcard, anything else static text.
pub fn pattern(path: &str) -> (r: Vec<Fragment>)
    ensures
        r@.map_values(|f: Fragment| f@) == segments(path@).map_values(|s: Seq<char>| fragment_of(s)),
{
    let v = chars_of(path);
    let ranges = segment_ranges(&v);
    let ghost segs = segments(path@);
    let mut r: Vec<Fragment> = Vec::new();
    let mut k: usize = 0;
    while k < ranges.len()
        invariant
            k <= ranges@.len(),
            v@ == path@,
            segs == segments(path@),
            segs == slices(v@, ranges@),
            forall|m: int| 0 <= m < ranges@.len() ==> (#[trigger] ranges@[m]).0 <= ranges@[m].1 <= v@.len(),
            r@.map_values(|f: Fragment| f@) == segs.take(k as int).map_values(|s: Seq<char>| fragment_of(s)),
        decreases ranges@.len() - k,
    {
        let (a, b) = ranges[k];
        let ghost seg = v@.subrange(a as int, b as int);
        assert(segs[k as int] == seg);
        let f = if b - a == 1 && v[a] == ':' {
            assert(seg =~= seq![':']);
            assert(fragment_of(seg) == FragmentView::Argument);
            Fragment::Argument
        } else if b - a == 1 && v[a] == '*' {
            assert(seg =~= seq!['*']);
            assert(seq![':'][0] == ':');
            assert(fragment_of(seg) == FragmentView::Wildcard);
            Fragment::Wildcard
        } else if b - a == 2 && v[a] == '*' && v[a + 1] == '*' {
            assert(seg =~= seq!['*', '*']);
            assert(seq![':'].len() == 1 && seq!['*'].len() == 1);
            assert(fragment_of(seg) == FragmentView::SuperWildcard);
            Fragment::SuperWildcard
        } else {
            assert(seg != seq![':'] && seg != seq!['*'] && seg != seq!['*', '*']) by {
                assert(seq![':'][0] == ':' && seq![':'].len() == 1);
                assert(seq!['*'][0] == '*' && seq!['*'].len() == 1);
                assert(seq!['*', '*'][0] == '*' && seq!['*', '*'][1] == '*' && seq!['*', '*'].len() == 2);
                if b - a == 1 {
                    assert(seg[0] == v@[a as int]);
                }
                if b - a == 2 {
                    assert(seg[0] == v@[a as int]);
                    assert(seg[1] == v@[a + 1]);
                }
            }
            let text = owned(str_range(path, a, b));
            assert(text@ == seg);
            assert(fragment_of(seg) == FragmentView::Static(seg));
            Fragment::Static(text)
        };
        assert(f@ == fragment_of(seg));
        let ghost before = r@;
        r.push(f);
        assert(r@.map_values(|f: Fragment| f@) =~= before.map_values(|f: Fragment| f@).push(f@));
        assert(segs.take(k + 1) =~= segs.take(k as int).push(seg));
        assert(segs.take(k + 1).map_values(|s: Seq<char>| fragment_of(s)) =~= segs.take(
            k as int,
        ).map_values(|s: Seq<char>| fragment_of(s)).push(fragment_of(seg)));
        k = k + 1;
    }
    assert(segs.take(k as int) =~= segs);
    r
}

/// The shape of a pattern: a leading `/` changes nothing, and there is one segment, so one
/// fragment of `pattern`, per `/`-separated part: one more than the `/`s after the leading
/// one.
pub proof fn lemma_pattern_shape(path: Seq<char>)
    requires
        path.len() == 0 || path[0] != '/',
    ensures
        segments(seq!['/'] + path) == segments(path),
        segments(path) == split(path, '/'),
        segments(path).len() == count_of(path, '/') + 1,
{
    assert((seq!['/'] + path).drop_first() =~= path);
    lemma_split_count(path, '/');
}

/// Whether two fragments are the same.
fn fragment_eq(a: &Fragment, b: &Fragment) -> (r: bool)
    ensures
        r == (a@ == b@),
{
    match a {
        Fragment::Static(x) => match b {
            Fragment::Static(y) => {
                let vx = chars_of(x.as_str());
                let vy = chars_of(y.as_str());
                if vx.len() != vy.len() {
                    assert(x@.len() != y@.len());
                    return false;
                }
                let mut i: usize = 0;
                while i < vx.len()
                    invariant
                        vx@ == x@,
                        vy@ == y@,
                        a@ == FragmentView::Static(x@),
                        b@ == FragmentView::Static(y@),
                        vx@.len() == vy@.len(),
                        i <= vx@.len(),
                        forall|j: int| 0 <= j < i ==> vx@[j] == vy@[j],
                    decreases vx@.len() - i,
                {
                    if vx[i] != vy[i] {
                        assert(x@[i as int] != y@[i as int]);
                        return false;
                    }
                    i = i + 1;
                }
                assert(x@ =~= y@);
                true
            },
            _ => false,
        },
        Fragment::Argument => match b {
            Fragment::Argument => true,
            _ => false,
        },
        Fragment::Wildcard => match b {
            Fragment::Wildcard => true,
            _ => false,
        },
        Fragment::SuperWildcard => match b {
            Fragment::SuperWildcard => true,
            _ => false,
        },
    }
}

/// A copy of a fragment.
fn fragment_clone(f: &Fragment) -> (r: Fragment)
    ensures
        r@ == f@,
{
    match f {
        Fragment::Static(s) => Fragment::Static(s.clone()),
        Fragment::Argument => Fragment::Argument,
        Fragment::Wildcard => Fragment::Wildcard,
        Fragment::SuperWildcard => Fragment::SuperWildcard,
    }
}

/// A node of the route tree: the handler of the path that ends here, if any, and the
/// children, each under the fragment that leads to it.
pub struct Node<H> {
    pub handler: Option<H>,
    pub children: Vec<(Fragment, Node<H>)>,
}

/// The route tree.
pub struct Routes<H> {
    pub root: Node<H>,
}

/// The fragments that lead to the children of a node, in order.
pub open spec fn child_fragments<H>(children: Seq<(Fragment, Node<H>)>) -> Seq<FragmentView> {
    children.map_values(|c: (Fragment, Node<H>)| c.0@)
}

/// The node that a pattern leads to: at each step the first child under an equal fragment.
pub open spec fn node_at<H>(node: Node<H>, path: Seq<FragmentView>) -> Option<Node<H>>
    decreases path.len(),
{
    if path.len() == 0 {
        Some(node)
    } else {
        match index_of(child_fragments(node.children@), path[0]) {
            Some(j) => if 0 <= j < node.children@.len() {
                node_at(node.children@[j].1, path.drop_first())
            } else {
                None
            },
            None => None,
        }
    }
}

/// The handler stored under a pattern.
pub open spec fn handler_at<H>(node: Node<H>, path: Seq<FragmentView>) -> Option<H> {
    match node_at(node, path) {
        Some(n) => n.handler,
        None => None,
    }
}

/// Where a path leads, trying the children of each node in order and backtracking: a static
/// fragment matches equal text, an argument or a wildcard any one segment (an argument
/// records it), and a super-wildcard all the remaining segments. The result is the handler
/// found first and the arguments on the way to it.
pub open spec fn lookup_node<H>(node: Node<H>, segs: Seq<Seq<char>>) -> Option<(H, Seq<Seq<char>>)>
    decreases segs.len(), 1int, 0int,
{
    if segs.len() == 0 {
        match node.handler {
            Some(h) => Some((h, Seq::empty())),
            None => None,
        }
    } else {
        lookup_children(node.children@, 0, segs)
    }
}

/// What the child at position `k` and the ones after it give for `segs`, which is not empty.
pub open spec fn lookup_children<H>(children: Seq<(Fragment, Node<H>)>, k: int, segs: Seq<Seq<char>>) -> Option<(H, Seq<Seq<char>>)>
    decreases segs.len(), 0int, children.len() - k,
{
    if k < 0 || k >= children.len() || segs.len() == 0 {
        None
    } else {
        let child = children[k].1;
        let attempt = match children[k].0@ {
            FragmentView::Static(name) => if name == segs[0] {
                lookup_node(child, segs.drop_first())
            } else {
                None
            },
            FragmentView::Argument => match lookup_node(child, segs.drop_first()) {
                Some((h, args)) => Some((h, seq![segs[0]] + args)),
                None => None,
            },
            FragmentView::Wildcard => lookup_node(child, segs.drop_first()),
            FragmentView::SuperWildcard => match child.handler {
                Some(h) => Some((h, Seq::empty())),
                None => None,
            },
        };
        if attempt is Some {
            attempt
        } else {
            lookup_children(children, k + 1, segs)
        }
    }
}

/// Whether the segment `v[a..b]` is the text `name`.
fn segment_is(name: &String, v: &Vec<char>, a: usize, b: usize) -> (r: bool)
    requires
        a <= b <= v@.len(),
    ensures
        r == (name@ == v@.subrange(a as int, b as int)),
{
    let n = chars_of(name.as_str());
    if n.len() != b - a {
        return false;
    }
    let mut i: usize = 0;
    while i < n.len()
        invariant
            n@ == name@,
            n@.len() == b - a,
            a <= b <= v@.len(),
            i <= n@.len(),
            forall|j: int| 0 <= j < i ==> n@[j] == v@[a + j],
        decreases n@.len() - i,
    {
        if n[i] != v[a + i] {
            return false;
        }
        i = i + 1;
    }
    assert(name@ =~= v@.subrange(a as int, b as int));
    true
}

/// The views of a list of borrowed strings.
pub open spec fn str_views<'a>(s: Seq<&'a str>) -> Seq<Seq<char>> {
    s.map_values(|x: &'a str| x@)
}

impl<H> Node<H> {
    /// A node without a handler or children.
    pub fn new() -> (r: Self)
        ensures
            r.handler is None,
            r.children@.len() == 0,
    {
        Node { handler: None, children: Vec::new() }
    }

    /// Looks up the segments `segs[idx..]` of `path` below this node. On success the
    /// arguments on the way are added to `args`; on failure `args` is as it was.
    fn lookup_recursive<'a>(&self, path: &'a str, v: &Vec<char>, segs: &Vec<(usize, usize)>, idx: usize, args: &mut Vec<&'a str>) -> (r: Option<&H>)
        requires
            v@ == path@,
            idx <= segs@.len(),
            forall|k: int| 0 <= k < segs@.len() ==> (#[trigger] segs@[k]).0 <= segs@[k].1 <= v@.len(),
        ensures
            match lookup_node(*self, slices(v@, segs@).skip(idx as int)) {
                Some((h, a)) => r matches Some(x) && *x == h && str_views(final(args)@) == str_views(old(args)@) + a,
                None => r is None && final(args)@ == old(args)@,
            },
        decreases segs@.len() - idx, 1int,
    {
        let ghost ss = slices(v@, segs@).skip(idx as int);
        if idx == segs.len() {
            assert(ss.len() == 0);
            assert(str_views(args@) =~= str_views(args@) + Seq::<Seq<char>>::empty());
            return match &self.handler {
                Some(h) => Some(h),
                None => None,
            };
        }
        let (a, b) = segs[idx];
        let next = idx + 1;
        assert(ss[0] == v@.subrange(a as int, b as int));
        assert(ss.drop_first() =~= slices(v@, segs@).skip(idx + 1));
        let mut k: usize = 0;
        while k < self.children.len()
            invariant
                v@ == path@,
                idx < segs@.len(),
                next == idx + 1,
                forall|m: int| 0 <= m < segs@.len() ==> (#[trigger] segs@[m]).0 <= segs@[m].1 <= v@.len(),
                (a, b) == segs@[idx as int],
                ss == slices(v@, segs@).skip(idx as int),
                ss.len() > 0,
                ss[0] == v@.subrange(a as int, b as int),
                ss.drop_first() == slices(v@, segs@).skip(idx + 1),
                k <= self.children@.len(),
                lookup_node(*self, ss) == lookup_children(self.children@, k as int, ss),
                args@ == old(args)@,
            decreases self.children@.len() - k,
        {
            let (fragment, child) = &self.children[k];
            match fragment {
                Fragment::Static(name) => {
                    if segment_is(name, v, a, b) {
                        if let Some(h) = child.lookup_recursive(path, v, segs, next, args) {
                            return Some(h);
                        }
                    }
                },
                Fragment::Argument => {
                    let ghost before = args@;
                    args.push(str_range(path, a, b));
                    assert(str_views(args@) =~= str_views(before) + seq![ss[0]]);
                    if let Some(h) = child.lookup_recursive(path, v, segs, next, args) {
                        proof {
                            let (h2, a2) = lookup_node(*child, ss.drop_first())->0;
                            assert(str_views(args@) =~= str_views(before) + (seq![ss[0]] + a2));
                        }
                        return Some(h);
                    }
                    args.pop();
                    assert(args@ =~= before);
                },
                Fragment::Wildcard => {
                    if let Some(h) = child.lookup_recursive(path, v, segs, next, args) {
                        return Some(h);
                    }
                },
                Fragment::SuperWildcard => {
                    if let Some(h) = &child.handler {
                        assert(str_views(args@) =~= str_views(args@) + Seq::<Seq<char>>::empty());
                        return Some(h);
                    }
                },
            }
            k = k + 1;
        }
        None
    }
}

/// The views of a pattern's fragments.
pub open spec fn frags(path: Seq<Fragment>) -> Seq<FragmentView> {
    path.map_values(|f: Fragment| f@)
}

/// The first child under fragment `f`, if any.
fn find_child<H>(children: &Vec<(Fragment, Node<H>)>, f: &Fragment) -> (r: Option<usize>)
    ensures
        match index_of(child_fragments(children@), f@) {
            Some(j) => r matches Some(k) && k == j,
            None => r is None,
        },
{
    let ghost cf = child_fragments(children@);
    let mut k: usize = 0;
    while k < children.len()
        invariant
            k <= children@.len(),
            cf == child_fragments(children@),
            forall|m: int| 0 <= m < k ==> cf[m] != f@,
        decreases children@.len() - k,
    {
        if fragment_eq(&children[k].0, f) {
            proof {
                lemma_index_of(cf, f@, k as int);
            }
            return Some(k);
        }
        k = k + 1;
    }
    proof {
        lemma_index_of(cf, f@, k as int);
    }
    None
}

/// A node without a handler or children has no handler under any pattern.
pub proof fn lemma_new_node_empty<H>(n: Node<H>, q: Seq<FragmentView>)
    requires
        n.handler is None,
        n.children@.len() == 0,
    ensures
        handler_at(n, q) is None,
{
    if q.len() > 0 {
        assert(child_fragments(n.children@) =~= Seq::<FragmentView>::empty());
    }
}

/// Appending an element other than `x` does not move the first `x`.
proof fn lemma_index_of_push<A>(s: Seq<A>, y: A, x: A)
    ensures
        x != y ==> index_of(s.push(y), x) == index_of(s, x),
        index_of(s, x) is None && x == y ==> index_of(s.push(y), x) == Some(s.len() as int),
{
    lemma_index_of_props(s, x);
    let t = s.push(y);
    match index_of(s, x) {
        Some(i) => {
            assert forall|j: int| 0 <= j < i implies t[j] != x by {
                assert(t[j] == s[j]);
            }
            assert(t[i] == s[i]);
            lemma_index_of(t, x, i);
        },
        None => {
            assert forall|j: int| 0 <= j < s.len() implies t[j] != x by {
                assert(t[j] == s[j]);
            }
            if x == y {
                lemma_index_of(t, x, s.len() as int);
            } else {
                assert forall|j: int| 0 <= j < t.len() implies t[j] != x by {
                    if j < s.len() {
                        assert(t[j] == s[j]);
                    }
                }
                lemma_index_of(t, x, t.len() as int);
            }
        },
    }
}

/// No two of the children share a fragment, and the same holds below each of them.
pub open spec fn children_wf<H>(c: Seq<(Fragment, Node<H>)>) -> bool
    decreases c,
{
    &&& forall|i: int, j: int|
        #![trigger c[i], c[j]]
        0 <= i < j < c.len() ==> c[i].0@ != c[j].0@
    &&& forall|k: int| 0 <= k < c.len() ==> children_wf(#[trigger] c[k].1.children@)
}

/// The node `new` is what inserting `h` under the pattern `p` makes of a node with handler
/// `old_h` and children `old_c`: at the end of the pattern the handler is replaced and the
/// children stay; on the way the handler stays, the first child under a fragment equal to
/// the next one is descended into with every other child kept in place, and when there is
/// none a new child under that fragment is appended after the others, built from an empty
/// node.
pub open spec fn tree_inserted<H>(
    old_h: Option<H>,
    old_c: Seq<(Fragment, Node<H>)>,
    new: Node<H>,
    p: Seq<FragmentView>,
    h: H,
) -> bool
    decreases p.len(),
{
    if p.len() == 0 {
        new.handler == Some(h) && new.children@ == old_c
    } else {
        &&& new.handler == old_h
        &&& match index_of(child_fragments(old_c), p[0]) {
            Some(j) => {
                &&& 0 <= j < old_c.len()
                &&& new.children@.len() == old_c.len()
                &&& forall|k: int| 0 <= k < old_c.len() && k != j ==> #[trigger] new.children@[k] == old_c[k]
                &&& new.children@[j].0 == old_c[j].0
                &&& tree_inserted(old_c[j].1.handler, old_c[j].1.children@, new.children@[j].1, p.drop_first(), h)
            },
            None => {
                &&& new.children@.len() == old_c.len() + 1
                &&& forall|k: int| 0 <= k < old_c.len() ==> #[trigger] new.children@[k] == old_c[k]
                &&& new.children@[old_c.len() as int].0@ == p[0]
                &&& tree_inserted(
                    None,
                    Seq::empty(),
                    new.children@[old_c.len() as int].1,
                    p.drop_first(),
                    h,
                )
            },
        }
    }
}

/// Inserting keeps the tree free of repeated fragments: an existing child under an equal
/// fragment is reused, and a new child is added only under a fragment that no child has.
pub proof fn lemma_insert_keeps_children_wf<H>(
    old_h: Option<H>,
    old_c: Seq<(Fragment, Node<H>)>,
    new: Node<H>,
    p: Seq<FragmentView>,
    h: H,
)
    requires
        children_wf(old_c),
        tree_inserted(old_h, old_c, new, p, h),
    ensures
        children_wf(new.children@),
    decreases p.len(),
{
    let nc = new.children@;
    if p.len() > 0 {
        let cf = child_fragments(old_c);
        lemma_index_of_props(cf, p[0]);
        match index_of(cf, p[0]) {
            Some(j) => {
                lemma_insert_keeps_children_wf(
                    old_c[j].1.handler,
                    old_c[j].1.children@,
                    nc[j].1,
                    p.drop_first(),
                    h,
                );
                assert forall|a: int, b: int| 0 <= a < b < nc.len() implies #[trigger] nc[a].0@ != #[trigger] nc[b].0@ by {
                    assert(nc[a].0 == old_c[a].0);
                    assert(nc[b].0 == old_c[b].0);
                }
                assert forall|k: int| 0 <= k < nc.len() implies children_wf(#[trigger] nc[k].1.children@) by {
                    if k != j {
                        assert(nc[k] == old_c[k]);
                    }
                }
            },
            None => {
                let n = old_c.len() as int;
                lemma_insert_keeps_children_wf(None, Seq::empty(), nc[n].1, p.drop_first(), h);
                assert forall|a: int, b: int| 0 <= a < b < nc.len() implies #[trigger] nc[a].0@ != #[trigger] nc[b].0@ by {
                    assert(nc[a] == old_c[a]);
                    if b < n {
                        assert(nc[b] == old_c[b]);
                    } else {
                        assert(cf[a] == old_c[a].0@);
                    }
                }
                assert forall|k: int| 0 <= k < nc.len() implies children_wf(#[trigger] nc[k].1.children@) by {
                    if k < n {
                        assert(nc[k] == old_c[k]);
                    }
                }
            },
        }
    }
}

/// Stores `handler` under the pattern `path[i..]` below `node`, creating the nodes that are
/// missing; gives back the handler that was stored there before.
fn insert_node<H>(node: &mut Node<H>, path: &Vec<Fragment>, i: usize, handler: H) -> (r: Option<H>)
    requires
        i <= path@.len(),
    ensures
        r == handler_at(*old(node), frags(path@).skip(i as int)),
        tree_inserted(old(node).handler, old(node).children@, *final(node), frags(path@).skip(i as int), handler),
        forall|q: Seq<FragmentView>|
            #[trigger] handler_at(*final(node), q) == if q == frags(path@).skip(i as int) {
                Some(handler)
            } else {
                handler_at(*old(node), q)
            },
    decreases path@.len() - i,
{
    let ghost p = frags(path@).skip(i as int);
    let ghost old_node = *node;
    if i == path.len() {
        assert(p.len() == 0);
        let prev = node.handler.take();
        node.handler = Some(handler);
        proof {
            assert forall|q: Seq<FragmentView>|
                #[trigger] handler_at(*node, q) == if q == p {
                    Some(handler)
                } else {
                    handler_at(old_node, q)
                } by {
                if q.len() == 0 {
                    assert(q =~= p);
                }
            }
        }
        return prev;
    }
    let f = &path[i];
    assert(p[0] == f@);
    assert(p.drop_first() =~= frags(path@).skip(i + 1));
    let ghost cf = child_fragments(node.children@);
    let found = find_child(&node.children, f);
    let ghost was_found = found is Some;
    let j = match found {
        Some(j) => j,
        None => {
            node.children.push((fragment_clone(f), Node::new()));
            proof {
                lemma_index_of_push(cf, f@, f@);
                assert(child_fragments(node.children@) =~= cf.push(f@));
            }
            node.children.len() - 1
        },
    };
    let ghost mid = *node;
    let ghost cf_mid = child_fragments(mid.children@);
    assert(index_of(cf_mid, f@) == Some(j as int));
    proof {
        lemma_index_of_props(cf_mid, f@);
    }
    assert(j < node.children@.len());
    let (frag, mut child) = node.children.remove(j);
    let ghost old_child = child;
    let r = insert_node(&mut child, path, i + 1, handler);
    node.children.insert(j, (frag, child));
    proof {
        assert(node.children@ =~= mid.children@.update(j as int, (frag, child)));
        assert(frag == mid.children@[j as int].0 && old_child == mid.children@[j as int].1);
        if was_found {
            assert(mid == old_node);
            assert(index_of(cf, p[0]) == Some(j as int));
        } else {
            lemma_index_of_props(cf, f@);
            assert(index_of(cf, p[0]) is None);
            assert(j == old_node.children@.len());
            assert(old_child.children@ =~= Seq::<(Fragment, Node<H>)>::empty());
            assert forall|k: int| 0 <= k < old_node.children@.len() implies #[trigger] node.children@[k]
                == old_node.children@[k] by {
                assert(mid.children@[k] == old_node.children@[k]);
            }
        }
        assert(tree_inserted(old_node.handler, old_node.children@, *node, p, handler));
    }
    proof {
        let cf_new = child_fragments(node.children@);
        assert(cf_new =~= cf_mid);
        if !was_found {
            lemma_new_node_empty(old_child, p.drop_first());
            lemma_index_of_props(cf, f@);
        } else {
            assert(mid == old_node);
        }
        assert forall|q: Seq<FragmentView>|
            #[trigger] handler_at(*node, q) == if q == p {
                Some(handler)
            } else {
                handler_at(old_node, q)
            } by {
            if q.len() == 0 {
                assert(q != p);
            } else if q[0] == f@ {
                assert(handler_at(*node, q) == handler_at(child, q.drop_first()));
                if q == p {
                } else {
                    assert(q.drop_first() != p.drop_first()) by {
                        if q.drop_first() == p.drop_first() {
                            assert(q.len() == p.len());
                            assert forall|k: int| 0 <= k < q.len() implies q[k] == p[k] by {
                                if k > 0 {
                                    assert(q[k] == q.drop_first()[k - 1]);
                                    assert(p[k] == p.drop_first()[k - 1]);
                                }
                            }
                            assert(q =~= p);
                        }
                    }
                    if !was_found {
                        lemma_new_node_empty(old_child, q.drop_first());
                        lemma_index_of_props(cf, f@);
                    }
                }
            } else {
                if !was_found {
                    lemma_index_of_push(cf, f@, q[0]);
                }
                lemma_index_of_props(cf_mid, q[0]);
                match index_of(cf_mid, q[0]) {
                    Some(k) => {
                        assert(k != j);
                        assert(node.children@[k] == mid.children@[k]);
                        if !was_found {
                            assert(mid.children@[k] == old_node.children@[k]);
                        }
                    },
                    None => {},
                }
            }
        }
    }
    r
}

/// Every child of `node` is under a static fragment, no two under the same one.
pub open spec fn static_children<H>(node: Node<H>) -> bool {
    &&& forall|i: int| 0 <= i < node.children@.len() ==> (#[trigger] node.children@[i]).0@ is Static
    &&& forall|i: int, j: int|
        #![trigger node.children@[i], node.children@[j]]
        0 <= i < j < node.children@.len() ==> node.children@[i].0@ != node.children@[j].0@
}

/// Every node on the way that `segs`, read as static fragments, leads along has only static
/// children, each under its own fragment.
pub open spec fn static_along<H>(node: Node<H>, segs: Seq<Seq<char>>) -> bool
    decreases segs.len(),
{
    &&& static_children(node)
    &&& (segs.len() > 0 ==> match index_of(child_fragments(node.children@), FragmentView::Static(segs[0])) {
        Some(j) => 0 <= j < node.children@.len() && static_along(node.children@[j].1, segs.drop_first()),
        None => true,
    })
}

/// The static fragments for the segments `segs`.
pub open spec fn statics(segs: Seq<Seq<char>>) -> Seq<FragmentView> {
    segs.map_values(|s: Seq<char>| FragmentView::Static(s))
}

/// Among static children, trying them in order from `k` finds what the child under the
/// static fragment `segs[0]` finds, when it is at or after `k`, and nothing otherwise.
proof fn lemma_lookup_children_static<H>(node: Node<H>, segs: Seq<Seq<char>>, k: int)
    requires
        static_children(node),
        segs.len() > 0,
        0 <= k <= node.children@.len(),
    ensures
        lookup_children(node.children@, k, segs) == match index_of(child_fragments(node.children@), FragmentView::Static(segs[0])) {
            Some(j) => if j >= k {
                lookup_node(node.children@[j].1, segs.drop_first())
            } else {
                None
            },
            None => None,
        },
    decreases node.children@.len() - k,
{
    let cf = child_fragments(node.children@);
    let f = FragmentView::Static(segs[0]);
    lemma_index_of_props(cf, f);
    if k < node.children@.len() {
        lemma_lookup_children_static(node, segs, k + 1);
        assert(cf[k] == node.children@[k].0@);
        if let Some(j) = index_of(cf, f) {
            if j > k {
                assert(cf[k] != f);
            } else if j < k {
                assert(cf[j] == node.children@[j].0@);
                assert(node.children@[j].0@ != node.children@[k].0@);
            }
        }
    }
}

/// A lookup along static routes agrees with the handlers stored under the patterns: where
/// the nodes on the way have only static children, each under its own fragment, looking up
/// the segments finds the handler stored under their static fragments, with no arguments.
pub proof fn lemma_lookup_static<H>(node: Node<H>, segs: Seq<Seq<char>>)
    requires
        static_along(node, segs),
    ensures
        lookup_node(node, segs) == match handler_at(node, statics(segs)) {
            Some(h) => Some((h, Seq::<Seq<char>>::empty())),
            None => None,
        },
    decreases segs.len(),
{
    if segs.len() > 0 {
        let f = FragmentView::Static(segs[0]);
        let cf = child_fragments(node.children@);
        lemma_lookup_children_static(node, segs, 0);
        assert(statics(segs)[0] == f);
        assert(statics(segs).drop_first() =~= statics(segs.drop_first()));
        if let Some(j) = index_of(cf, f) {
            lemma_index_of_props(cf, f);
            lemma_lookup_static(node.children@[j].1, segs.drop_first());
        }
    }
}

/// Reading a path as a pattern: the static fragments of its segments, when none of them is
/// `:`, `*` or `**`.
pub proof fn lemma_pattern_static(path: Seq<char>)
    requires
        forall|i: int|
            0 <= i < segments(path).len() ==> fragment_of(#[trigger] segments(path)[i]) is Static,
    ensures
        segments(path).map_values(|s: Seq<char>| fragment_of(s)) == statics(segments(path)),
{
    let segs = segments(path);
    let m = segs.map_values(|s: Seq<char>| fragment_of(s));
    assert forall|i: int| 0 <= i < segs.len() implies m[i] == #[trigger] statics(segs)[i] by {
        assert(fragment_of(segs[i]) is Static);
    }
    assert(m =~= statics(segs));
}

/// The arguments with which the pattern `p` matches the segments `segs`, if it does: a
/// static fragment matches a segment equal to its text, `:` and `*` any one segment (`:`
/// passing it on as an argument), and `**` ends the pattern and matches all the segments
/// that are left, at least one.
pub open spec fn pattern_match(p: Seq<FragmentView>, segs: Seq<Seq<char>>) -> Option<Seq<Seq<char>>>
    decreases p.len(),
{
    if p.len() == 0 {
        if segs.len() == 0 {
            Some(Seq::empty())
        } else {
            None
        }
    } else if segs.len() == 0 {
        None
    } else {
        match p[0] {
            FragmentView::Static(name) => if name == segs[0] {
                pattern_match(p.drop_first(), segs.drop_first())
            } else {
                None
            },
            FragmentView::Argument => match pattern_match(p.drop_first(), segs.drop_first()) {
                Some(a) => Some(seq![segs[0]] + a),
                None => None,
            },
            FragmentView::Wildcard => pattern_match(p.drop_first(), segs.drop_first()),
            FragmentView::SuperWildcard => if p.len() == 1 {
                Some(Seq::empty())
            } else {
                None
            },
        }
    }
}

/// What the child at position `k` gives for `segs`, as `lookup_children` tries it.
pub open spec fn child_attempt<H>(children: Seq<(Fragment, Node<H>)>, k: int, segs: Seq<Seq<char>>) -> Option<(H, Seq<Seq<char>>)> {
    let child = children[k].1;
    match children[k].0@ {
        FragmentView::Static(name) => if name == segs[0] {
            lookup_node(child, segs.drop_first())
        } else {
            None
        },
        FragmentView::Argument => match lookup_node(child, segs.drop_first()) {
            Some((h, args)) => Some((h, seq![segs[0]] + args)),
            None => None,
        },
        FragmentView::Wildcard => lookup_node(child, segs.drop_first()),
        FragmentView::SuperWildcard => match child.handler {
            Some(h) => Some((h, Seq::empty())),
            None => None,
        },
    }
}

/// `lookup_children` tries the child at `k`, then the ones after it.
proof fn lemma_children_unfold<H>(children: Seq<(Fragment, Node<H>)>, k: int, segs: Seq<Seq<char>>)
    requires
        0 <= k < children.len(),
        segs.len() > 0,
    ensures
        lookup_children(children, k, segs) == if child_attempt(children, k, segs) is Some {
            child_attempt(children, k, segs)
        } else {
            lookup_children(children, k + 1, segs)
        },
{
}

/// What `lookup_children` finds from `k` on is what some child at or after `k` gives.
proof fn lemma_children_found<H>(children: Seq<(Fragment, Node<H>)>, k: int, segs: Seq<Seq<char>>) -> (j: int)
    requires
        0 <= k,
        segs.len() > 0,
        lookup_children(children, k, segs) is Some,
    ensures
        k <= j < children.len(),
        child_attempt(children, j, segs) == lookup_children(children, k, segs),
    decreases children.len() - k,
{
    lemma_children_unfold(children, k, segs);
    if child_attempt(children, k, segs) is Some {
        k
    } else {
        lemma_children_found(children, k + 1, segs)
    }
}

/// A child that gives something is reached: trying from any `k` at or before it finds
/// something.
proof fn lemma_children_reach<H>(children: Seq<(Fragment, Node<H>)>, k: int, j: int, segs: Seq<Seq<char>>)
    requires
        0 <= k <= j < children.len(),
        segs.len() > 0,
        child_attempt(children, j, segs) is Some,
    ensures
        lookup_children(children, k, segs) is Some,
    decreases j - k,
{
    lemma_children_unfold(children, k, segs);
    if k < j {
        lemma_children_reach(children, k + 1, j, segs);
    }
}

/// Among children without repeated fragments, the child at `k` is the first under its
/// fragment.
proof fn lemma_child_index<H>(children: Seq<(Fragment, Node<H>)>, k: int)
    requires
        children_wf(children),
        0 <= k < children.len(),
    ensures
        index_of(child_fragments(children), children[k].0@) == Some(k),
{
    let cf = child_fragments(children);
    assert forall|j: int| 0 <= j < k implies cf[j] != children[k].0@ by {
        assert(cf[j] == children[j].0@);
    }
    lemma_index_of(cf, children[k].0@, k);
}

/// A handler found by a lookup is one stored under a pattern that matches the segments,
/// with the arguments that the pattern picks out; the pattern is given back.
proof fn lemma_lookup_sound<H>(node: Node<H>, segs: Seq<Seq<char>>) -> (p: Seq<FragmentView>)
    requires
        children_wf(node.children@),
        lookup_node(node, segs) is Some,
    ensures
        lookup_node(node, segs) matches Some((h, a)) ==> handler_at(node, p) == Some(h) && pattern_match(p, segs) == Some(a),
    decreases segs.len(),
{
    if segs.len() == 0 {
        Seq::empty()
    } else {
        let c = node.children@;
        let j = lemma_children_found(c, 0, segs);
        let f = c[j].0@;
        let child = c[j].1;
        let rest = segs.drop_first();
        assert(children_wf(child.children@));
        lemma_child_index(c, j);
        let q = match f {
            FragmentView::SuperWildcard => Seq::<FragmentView>::empty(),
            _ => lemma_lookup_sound(child, rest),
        };
        let p = seq![f] + q;
        assert(p[0] == f);
        assert(p.drop_first() =~= q);
        assert(node_at(node, p) == node_at(child, q));
        p
    }
}

/// A pattern with a handler that matches the segments makes the lookup find something.
proof fn lemma_lookup_complete<H>(node: Node<H>, segs: Seq<Seq<char>>, p: Seq<FragmentView>)
    requires
        children_wf(node.children@),
        handler_at(node, p) is Some,
        pattern_match(p, segs) is Some,
    ensures
        lookup_node(node, segs) is Some,
    decreases segs.len(),
{
    if segs.len() > 0 {
        let c = node.children@;
        let cf = child_fragments(c);
        lemma_index_of_props(cf, p[0]);
        let j = index_of(cf, p[0])->0;
        assert(cf[j] == c[j].0@);
        let child = c[j].1;
        assert(node_at(node, p) == node_at(child, p.drop_first()));
        assert(children_wf(child.children@));
        match p[0] {
            FragmentView::SuperWildcard => {
                assert(p.drop_first().len() == 0);
            },
            _ => {
                lemma_lookup_complete(child, segs.drop_first(), p.drop_first());
            },
        }
        assert(child_attempt(c, j, segs) is Some);
        lemma_children_reach(c, 0, j, segs);
    }
}

/// Lookup agrees with the patterns stored in the tree. In a tree without repeated
/// fragments (as `Routes::empty` and `Routes::insert` keep it), a lookup that finds a
/// handler finds one stored under a pattern that matches the segments, with exactly the
/// segments that the pattern's `:` fragments matched as arguments; and a lookup finds
/// nothing only when no pattern that has a handler matches the segments.
pub proof fn lemma_lookup_patterns<H>(node: Node<H>, segs: Seq<Seq<char>>)
    requires
        children_wf(node.children@),
    ensures
        match lookup_node(node, segs) {
            Some((h, a)) => exists|p: Seq<FragmentView>|
                #[trigger] handler_at(node, p) == Some(h) && pattern_match(p, segs) == Some(a),
            None => forall|p: Seq<FragmentView>|
                #[trigger] handler_at(node, p) is Some ==> pattern_match(p, segs) is None,
        },
{
    if lookup_node(node, segs) is Some {
        let p = lemma_lookup_sound(node, segs);
        let (h, a) = lookup_node(node, segs)->0;
        assert(handler_at(node, p) == Some(h) && pattern_match(p, segs) == Some(a));
    } else {
        assert forall|p: Seq<FragmentView>| #[trigger] handler_at(node, p) is Some implies pattern_match(p, segs) is None by {
            if pattern_match(p, segs) is Some {
                lemma_lookup_complete(node, segs, p);
            }
        }
    }
}

impl<H> Routes<H> {
    /// A tree with no routes.
    pub fn empty() -> (r: Self)
        ensures
            r.root.handler is None,
            r.root.children@.len() == 0,
            children_wf(r.root.children@),
            forall|p: Seq<FragmentView>| #[trigger] handler_at(r.root, p) is None,
    {
        let r = Routes { root: Node::new() };
        assert forall|p: Seq<FragmentView>| #[trigger] handler_at(r.root, p) is None by {
            if p.len() > 0 {
                assert(child_fragments(r.root.children@) =~= Seq::<FragmentView>::empty());
            }
        }
        r
    }

    /// Stores `handler` under the pattern `path`, creating the nodes on the way that are
    /// missing (a fragment leads to the first child under an equal fragment); gives back the
    /// handler that was stored under the same pattern before, if any.
    pub fn insert(&mut self, path: Vec<Fragment>, handler: H) -> (r: Option<H>)
        ensures
            r == handler_at(old(self).root, frags(path@)),
            tree_inserted(old(self).root.handler, old(self).root.children@, final(self).root, frags(path@), handler),
            children_wf(old(self).root.children@) ==> children_wf(final(self).root.children@),
            forall|q: Seq<FragmentView>|
                #[trigger] handler_at(final(self).root, q) == if q == frags(path@) {
                    Some(handler)
                } else {
                    handler_at(old(self).root, q)
                },
    {
        assert(frags(path@).skip(0) =~= frags(path@));
        let ghost old_root = self.root;
        let r = insert_node(&mut self.root, &path, 0, handler);
        proof {
            if children_wf(old_root.children@) {
                lemma_insert_keeps_children_wf(old_root.handler, old_root.children@, self.root, frags(path@), handler);
            }
        }
        r
    }

    /// The handler for `path` and the arguments that its pattern picked out (see
    /// `lookup_node`); the path's segments are what lies between its `/`s once one leading `/`
    /// is dropped.
    pub fn lookup<'a, 'b>(&'b self, path: &'a str) -> (r: Option<(&'b H, Vec<&'a str>)>)
        ensures
            match lookup_node(self.root, segments(path@)) {
                Some((h, a)) => r matches Some((rh, ra)) && *rh == h && str_views(ra@) == a,
                None => r is None,
            },
    {
        let v = chars_of(path);
        let segs = segment_ranges(&v);
        let mut args: Vec<&'a str> = Vec::new();
        assert(slices(v@, segs@).skip(0) =~= slices(v@, segs@));
        let found = self.root.lookup_recursive(path, &v, &segs, 0, &mut args);
        assert(str_views(Seq::<&'a str>::empty()) =~= Seq::<Seq<char>>::empty());
        match found {
            Some(h) => {
                assert(Seq::<Seq<char>>::empty() + str_views(args@) =~= str_views(args@));
                Some((h, args))
            },
            None => None,
        }
    }
}

} // verus!
