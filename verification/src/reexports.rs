//! A namespace trie over fully qualified import paths, and its serialization
//! into the `pub mod pax_reexports { ... }` block a host crate re-exports its
//! types through.

use vstd::prelude::*;
use vstd::string::StrSliceExecFns;
use vstd::string::StringExecFns;

use crate::text::lex_lt;
use crate::text::lemma_lex_connected;
use crate::text::lemma_lex_irreflexive;
use crate::text::lemma_lex_transitive;
use crate::text::str_eq;
use crate::text::str_lex_lt;

verus! {

/// One node of the namespace trie. The root carries no namespace string;
/// every other node's `node_string` is the full path down to it.
pub struct NamespaceTrieNode {
    /// The path segment keying this node under its parent.
    pub segment: String,
    /// The full namespace path down to this node; the root holds none.
    pub node_string: Option<String>,
    /// Child nodes, kept sorted by segment.
    pub children: Vec<NamespaceTrieNode>,
}

/// The namespace path of a child under a parent with path `parent`: the
/// segment itself at the root, else the parent path extended with `::`.
pub open spec fn child_path_view(parent: Option<String>, seg: Seq<char>) -> Seq<char> {
    match parent {
        Some(p) => p@ + "::"@ + seg,
        None => seg,
    }
}

/// The namespace string of a node, the empty sequence if it has none.
pub open spec fn ns_view(n: NamespaceTrieNode) -> Seq<char> {
    match n.node_string {
        Some(s) => s@,
        None => Seq::<char>::empty(),
    }
}

/// Children are strictly sorted by segment.
pub open spec fn children_sorted(cs: Seq<NamespaceTrieNode>) -> bool {
    forall|i: int, j: int|
        0 <= i < j < cs.len() ==> lex_lt(
            (#[trigger] cs[i]).segment@,
            (#[trigger] cs[j]).segment@,
        )
}

/// Well-formedness of a whole subtree: children are sorted, and every child
/// carries the namespace string its position dictates.
pub open spec fn wf_node(n: NamespaceTrieNode) -> bool
    decreases n, 0nat,
{
    children_sorted(n.children@) && wf_children(n.node_string, n.children@)
}

/// Well-formedness of a child list under a parent with path `parent`.
pub open spec fn wf_children(parent: Option<String>, cs: Seq<NamespaceTrieNode>) -> bool
    decreases cs, 1nat,
{
    if cs.len() == 0 {
        true
    } else {
        &&& cs[0].node_string matches Some(s) && s@ == child_path_view(parent, cs[0].segment@)
        &&& wf_node(cs[0])
        &&& wf_children(parent, cs.skip(1))
    }
}

proof fn lemma_wf_children_index(parent: Option<String>, cs: Seq<NamespaceTrieNode>, i: int)
    requires
        wf_children(parent, cs),
        0 <= i < cs.len(),
    ensures
        cs[i].node_string matches Some(s) && s@ == child_path_view(parent, cs[i].segment@),
        wf_node(cs[i]),
    decreases i,
{
    if i > 0 {
        assert(cs.skip(1)[i - 1] == cs[i]);
        lemma_wf_children_index(parent, cs.skip(1), i - 1);
    }
}

proof fn lemma_wf_children_pointwise(
    parent: Option<String>,
    cs: Seq<NamespaceTrieNode>,
    ds: Seq<NamespaceTrieNode>,
)
    requires
        ds.len() == cs.len(),
        forall|i: int|
            0 <= i < cs.len() ==> {
                &&& (#[trigger] ds[i]).node_string == cs[i].node_string
                &&& ds[i].segment == cs[i].segment
                &&& wf_node(ds[i])
            },
        wf_children(parent, cs),
    ensures
        wf_children(parent, ds),
    decreases cs.len(),
{
    if cs.len() > 0 {
        assert(forall|i: int|
            0 <= i < cs.skip(1).len() ==> #[trigger] cs.skip(1)[i] == cs[i + 1]);
        assert(forall|i: int|
            0 <= i < ds.skip(1).len() ==> #[trigger] ds.skip(1)[i] == ds[i + 1]);
        lemma_wf_children_pointwise(parent, cs.skip(1), ds.skip(1));
    }
}

/// The trie reaches the segment path `p` from `n` downward.
pub open spec fn has_seg_path(n: NamespaceTrieNode, p: Seq<Seq<char>>) -> bool
    decreases p.len(),
{
    if p.len() == 0 {
        true
    } else {
        exists|i: int|
            0 <= i < n.children@.len() && (#[trigger] n.children@[i]).segment@ == p[0]
                && has_seg_path(n.children@[i], p.skip(1))
    }
}

/// `p` is an initial run of the segment path `q`.
pub open spec fn is_path_prefix(p: Seq<Seq<char>>, q: Seq<Seq<char>>) -> bool {
    p.len() <= q.len() && p == q.take(p.len() as int)
}

/// The views of a list of segments.
pub open spec fn views_of(v: Seq<String>) -> Seq<Seq<char>> {
    v.map_values(|s: String| s@)
}

/// Splitting a character sequence at every `::`, left to right.
pub open spec fn split_seq(s: Seq<char>) -> Seq<Seq<char>>
    decreases s.len(),
{
    if s.len() == 0 {
        seq![Seq::<char>::empty()]
    } else if s.len() >= 2 && s[0] == ':' && s[1] == ':' {
        seq![Seq::<char>::empty()] + split_seq(s.skip(2))
    } else {
        let r = split_seq(s.skip(1));
        seq![seq![s[0]] + r[0]] + r.skip(1)
    }
}

proof fn lemma_split_seq_nonempty(s: Seq<char>)
    ensures
        split_seq(s).len() > 0,
    decreases s.len(),
{
    if s.len() == 0 {
    } else if s.len() >= 2 && s[0] == ':' && s[1] == ':' {
    } else {
        lemma_split_seq_nonempty(s.skip(1));
    }
}

/// Splits a namespace string into its `::`-separated segments.
pub fn split_namespace(s: &str) -> (r: Vec<String>)
    ensures
        views_of(r@) == split_seq(s@),
{
    let n = s.unicode_len();
    let mut out: Vec<String> = Vec::new();
    let mut cur = String::new();
    let mut i: usize = 0;
    proof {
        assert(s@.skip(0) =~= s@);
    }
    while i < n
        invariant
            n == s@.len(),
            i <= n,
            split_seq(s@) == views_of(out@) + seq![cur@ + split_seq(s@.skip(i as int))[0]]
                + split_seq(s@.skip(i as int)).skip(1),
        decreases n - i,
    {
        let ghost rest = s@.skip(i as int);
        proof {
            lemma_split_seq_nonempty(rest);
        }
        if i + 1 < n && s.get_char(i) == ':' && s.get_char(i + 1) == ':' {
            assert(rest[0] == s@[i as int] && rest[1] == s@[i as int + 1]);
            let ghost prev_out = out@;
            let done = cur;
            cur = String::new();
            out.push(done);
            proof {
                let next = s@.skip(i as int + 2);
                assert(rest.skip(2) =~= next);
                lemma_split_seq_nonempty(next);
                assert(split_seq(rest) == seq![Seq::<char>::empty()] + split_seq(next));
                assert(split_seq(rest)[0] == Seq::<char>::empty());
                assert(split_seq(rest).skip(1) =~= split_seq(next));
                assert(views_of(out@) =~= views_of(prev_out) + seq![done@]);
                assert(done@ + split_seq(rest)[0] =~= done@);
                assert(views_of(out@) + seq![cur@ + split_seq(next)[0]] + split_seq(next).skip(1)
                    =~= split_seq(s@));
            }
            i += 2;
        } else {
            let c = s.get_char(i);
            assert(rest[0] == c);
            assert(!(rest.len() >= 2 && rest[0] == ':' && rest[1] == ':')) by {
                if rest.len() >= 2 {
                    assert(rest[1] == s@[i as int + 1]);
                }
            }
            let ghost prev_cur = cur@;
            cur.push(c);
            proof {
                let next = s@.skip(i as int + 1);
                let r = split_seq(next);
                assert(rest.skip(1) =~= next);
                lemma_split_seq_nonempty(next);
                assert(split_seq(rest) == seq![seq![c] + r[0]] + r.skip(1));
                assert(split_seq(rest)[0] == seq![c] + r[0]);
                assert(split_seq(rest).skip(1) =~= r.skip(1));
                assert(cur@ + r[0] =~= prev_cur + split_seq(rest)[0]);
                assert(views_of(out@) + seq![cur@ + r[0]] + r.skip(1) =~= split_seq(s@));
            }
            i += 1;
        }
    }
    proof {
        assert(s@.skip(n as int) =~= Seq::<char>::empty());
        assert(split_seq(s@.skip(n as int)) == seq![Seq::<char>::empty()]);
    }
    out.push(cur);
    proof {
        assert(views_of(out@) =~= split_seq(s@));
    }
    out
}

impl NamespaceTrieNode {
    /// A root node: no namespace string, no children.
    pub fn new_root() -> (r: NamespaceTrieNode)
        ensures
            r.node_string is None,
            r.children@.len() == 0,
            wf_node(r),
    {
        NamespaceTrieNode { segment: String::new(), node_string: None, children: Vec::new() }
    }

    /// Returns the index of the child keyed by `segment`, creating it (with
    /// the namespace string its position dictates) if it is not yet there.
    pub fn get_or_create_child(&mut self, segment: &str) -> (ci: usize)
        requires
            wf_node(*old(self)),
        ensures
            wf_node(*final(self)),
            final(self).segment == old(self).segment,
            final(self).node_string == old(self).node_string,
            ci < final(self).children@.len(),
            ci as int <= old(self).children@.len(),
            final(self).children@[ci as int].segment@ == segment@,
            (exists|k: int|
                0 <= k < old(self).children@.len() && (#[trigger] old(
                    self,
                ).children@[k]).segment@ == segment@) ==> *final(self) == *old(self),
            !(exists|k: int|
                0 <= k < old(self).children@.len() && (#[trigger] old(
                    self,
                ).children@[k]).segment@ == segment@) ==> {
                &&& final(self).children@ =~= old(self).children@.take(ci as int) + seq![
                    final(self).children@[ci as int],
                ] + old(self).children@.skip(ci as int)
                &&& final(self).children@[ci as int].children@.len() == 0
                &&& has_fresh_path(final(self).children@[ci as int], old(self).node_string)
            },
    {
        let n = self.children.len();
        let mut i: usize = 0;
        while i < n
            invariant
                wf_node(*self),
                *self == *old(self),
                n == self.children@.len(),
                i <= n,
                forall|j: int| 0 <= j < i ==> lex_lt((#[trigger] self.children@[j]).segment@, segment@),
            decreases n - i,
        {
            if str_eq(self.children[i].segment.as_str(), segment) {
                return i;
            }
            if str_lex_lt(segment, self.children[i].segment.as_str()) {
                proof {
                    assert forall|k: int| i <= k < self.children@.len() implies lex_lt(
                        segment@,
                        (#[trigger] self.children@[k]).segment@,
                    ) by {
                        if k > i {
                            lemma_lex_transitive(
                                segment@,
                                self.children@[i as int].segment@,
                                self.children@[k].segment@,
                            );
                        }
                    }
                    assert forall|k: int|
                        0 <= k < self.children@.len() implies (#[trigger] self.children@[k]).segment@
                        != segment@ by {
                        lemma_lex_irreflexive(segment@);
                        if self.children@[k].segment@ == segment@ {
                            assert(lex_lt(segment@, segment@));
                        }
                    }
                }
                let fresh = self.make_child(segment);
                self.children.insert(i, fresh);
                proof {
                    assert(self.children@ =~= old(self).children@.take(i as int) + seq![
                        self.children@[i as int],
                    ] + old(self).children@.skip(i as int));
                    self.lemma_after_insert(*old(self), i as int, segment@);
                }
                return i;
            }
            proof {
                if self.children@[i as int].segment@ != segment@ {
                    lemma_lex_connected(self.children@[i as int].segment@, segment@);
                }
            }
            i += 1;
        }
        proof {
            assert forall|k: int|
                0 <= k < self.children@.len() implies (#[trigger] self.children@[k]).segment@
                != segment@ by {
                lemma_lex_irreflexive(segment@);
                if self.children@[k].segment@ == segment@ {
                    assert(lex_lt(segment@, segment@));
                }
            }
        }
        let fresh = self.make_child(segment);
        let ci = self.children.len();
        self.children.push(fresh);
        proof {
            assert(self.children@ =~= old(self).children@.take(ci as int) + seq![
                self.children@[ci as int],
            ] + old(self).children@.skip(ci as int));
            self.lemma_after_insert(*old(self), ci as int, segment@);
        }
        ci
    }

    /// Builds the fresh child node for `segment` under `self`.
    fn make_child(&self, segment: &str) -> (r: NamespaceTrieNode)
        ensures
            r.segment@ == segment@,
            r.children@.len() == 0,
            r.node_string matches Some(s) && s@ == child_path_view(self.node_string, segment@),
            wf_node(r),
            has_fresh_path(r, self.node_string),
    {
        let node_string = match &self.node_string {
            Some(ns) => ns.clone().concat("::").concat(segment),
            None => String::from_str(segment),
        };
        NamespaceTrieNode {
            segment: String::from_str(segment),
            node_string: Some(node_string),
            children: Vec::new(),
        }
    }

    proof fn lemma_after_insert(
        self: &NamespaceTrieNode,
        prev: NamespaceTrieNode,
        i: int,
        seg: Seq<char>,
    )
        requires
            wf_node(prev),
            0 <= i <= prev.children@.len(),
            self.node_string == prev.node_string,
            self.segment == prev.segment,
            self.children@ =~= prev.children@.take(i) + seq![self.children@[i]]
                + prev.children@.skip(i),
            self.children@[i].segment@ == seg,
            self.children@[i].children@.len() == 0,
            has_fresh_path(self.children@[i], prev.node_string),
            forall|j: int| 0 <= j < i ==> lex_lt((#[trigger] prev.children@[j]).segment@, seg),
            forall|j: int|
                i <= j < prev.children@.len() ==> lex_lt(
                    seg,
                    (#[trigger] prev.children@[j]).segment@,
                ),
        ensures
            wf_node(*self),
    {
        let cs = self.children@;
        let ps = prev.children@;
        assert(cs.len() == ps.len() + 1);
        assert(forall|k: int| 0 <= k < i ==> cs[k] == ps[k]);
        assert(forall|k: int| i < k < cs.len() ==> cs[k] == ps[k - 1]);
        assert(children_sorted(cs)) by {
            assert forall|a: int, b: int| 0 <= a < b < cs.len() implies lex_lt(
                (#[trigger] cs[a]).segment@,
                (#[trigger] cs[b]).segment@,
            ) by {
                if a < i && b < i {
                } else if a < i && b == i {
                } else if a < i && b > i {
                } else if a == i && b > i {
                } else if a > i && b > i {
                }
            }
        }
        assert(wf_children(self.node_string, cs)) by {
            let fresh = cs[i];
            assert(wf_node(fresh)) by {
                assert(fresh.children@ =~= Seq::<NamespaceTrieNode>::empty());
            }
            lemma_wf_children_insert(prev.node_string, ps, i, fresh);
        }
    }

    /// Inserts a namespace path, creating one trie node per segment.
    pub fn insert(&mut self, namespace_string: &str)
        requires
            wf_node(*old(self)),
        ensures
            wf_node(*final(self)),
            final(self).segment == old(self).segment,
            final(self).node_string == old(self).node_string,
            has_seg_path(*final(self), split_seq(namespace_string@)),
            forall|p: Seq<Seq<char>>|
                has_seg_path(*old(self), p) ==> has_seg_path(*final(self), p),
            forall|p: Seq<Seq<char>>|
                has_seg_path(*final(self), p) ==> has_seg_path(*old(self), p) || is_path_prefix(
                    p,
                    split_seq(namespace_string@),
                ),
            has_seg_path(*old(self), split_seq(namespace_string@)) ==> *final(self) == *old(self),
    {
        let segs = split_namespace(namespace_string);
        proof {
            assert(views_of(segs@).skip(0) =~= split_seq(namespace_string@));
        }
        self.insert_segments(&segs, 0);
    }

    /// True iff the trie already reaches the segment path `segs[idx..]`.
    /// Children are sorted, so at most one child can match each segment.
    fn contains_segments(&self, segs: &Vec<String>, idx: usize) -> (r: bool)
        requires
            wf_node(*self),
            idx <= segs@.len(),
        ensures
            r == has_seg_path(*self, views_of(segs@).skip(idx as int)),
        decreases segs@.len() - idx,
    {
        let ghost p = views_of(segs@).skip(idx as int);
        if idx == segs.len() {
            assert(p.len() == 0);
            return true;
        }
        assert(p[0] == segs@[idx as int]@);
        let segment = segs[idx].as_str();
        let n = self.children.len();
        let mut i: usize = 0;
        while i < n
            invariant
                wf_node(*self),
                idx < segs@.len(),
                segs@.len() <= usize::MAX,
                p == views_of(segs@).skip(idx as int),
                p.len() > 0,
                p[0] == segs@[idx as int]@,
                segment@ == segs@[idx as int]@,
                n == self.children@.len(),
                i <= n,
                forall|j: int| 0 <= j < i ==> (#[trigger] self.children@[j]).segment@ != segment@,
            decreases n - i,
        {
            if str_eq(self.children[i].segment.as_str(), segment) {
                proof {
                    lemma_wf_children_index(self.node_string, self.children@, i as int);
                    assert forall|w: int|
                        0 <= w < self.children@.len() && w != i implies (#[trigger] self.children@[w]).segment@
                        != segment@ by {
                        if w > i {
                            lemma_lex_irreflexive(segment@);
                            if self.children@[w].segment@ == segment@ {
                                assert(lex_lt(
                                    self.children@[i as int].segment@,
                                    self.children@[w].segment@,
                                ));
                            }
                        }
                    }
                }
                let sub = self.children[i].contains_segments(segs, idx + 1);
                proof {
                    assert(views_of(segs@).skip(idx as int + 1) =~= p.skip(1));
                    if sub {
                        assert(0 <= i < self.children@.len()
                            && self.children@[i as int].segment@ == p[0] && has_seg_path(
                            self.children@[i as int],
                            p.skip(1),
                        ));
                    } else {
                        assert forall|w: int|
                            !(0 <= w < self.children@.len()
                                && (#[trigger] self.children@[w]).segment@ == p[0] && has_seg_path(
                                self.children@[w],
                                p.skip(1),
                            )) by {
                            if 0 <= w < self.children@.len() && w != i {
                                assert(self.children@[w].segment@ != segment@);
                            }
                        }
                    }
                }
                return sub;
            }
            i += 1;
        }
        proof {
            assert forall|w: int|
                !(0 <= w < self.children@.len() && (#[trigger] self.children@[w]).segment@ == p[0]
                    && has_seg_path(self.children@[w], p.skip(1))) by {}
        }
        false
    }

    /// Descends along `segs[idx..]`, creating the missing nodes.
    fn insert_segments(&mut self, segs: &Vec<String>, idx: usize)
        requires
            wf_node(*old(self)),
            idx <= segs@.len(),
        ensures
            wf_node(*final(self)),
            final(self).segment == old(self).segment,
            final(self).node_string == old(self).node_string,
            has_seg_path(*final(self), views_of(segs@).skip(idx as int)),
            forall|p: Seq<Seq<char>>|
                has_seg_path(*old(self), p) ==> has_seg_path(*final(self), p),
            forall|p: Seq<Seq<char>>|
                has_seg_path(*final(self), p) ==> has_seg_path(*old(self), p) || is_path_prefix(
                    p,
                    views_of(segs@).skip(idx as int),
                ),
            has_seg_path(*old(self), views_of(segs@).skip(idx as int)) ==> *final(self) == *old(
                self,
            ),
        decreases segs@.len() - idx,
    {
        if idx == segs.len() {
            assert(views_of(segs@).skip(idx as int).len() == 0);
            return ;
        }
        if self.contains_segments(segs, idx) {
            return ;
        }
        let ghost mid0 = *self;
        let ci = self.get_or_create_child(segs[idx].as_str());
        let ghost mid = *self;
        proof {
            lemma_wf_children_index(mid.node_string, mid.children@, ci as int);
        }
        let mut child = self.children.remove(ci);
        let ghost child0 = child;
        child.insert_segments(segs, idx + 1);
        self.children.insert(ci, child);
        proof {
            assert(child0 == mid.children@[ci as int]);
            assert(self.children@ =~= mid.children@.update(ci as int, child));
            assert(self.node_string == mid.node_string && self.segment == mid.segment);
            // well-formedness of the updated child list
            assert(wf_node(*self)) by {
                assert(children_sorted(self.children@)) by {
                    assert(forall|k: int|
                        0 <= k < self.children@.len() ==> (#[trigger] self.children@[k]).segment
                            == mid.children@[k].segment);
                }
                assert(forall|k: int|
                    0 <= k < self.children@.len() ==> (#[trigger] self.children@[k]).node_string
                        == mid.children@[k].node_string && self.children@[k].segment
                        == mid.children@[k].segment);
                assert forall|k: int| 0 <= k < self.children@.len() implies wf_node(
                    #[trigger] self.children@[k],
                ) by {
                    if k != ci {
                        lemma_wf_children_index(mid.node_string, mid.children@, k);
                    }
                }
                lemma_wf_children_pointwise(mid.node_string, mid.children@, self.children@);
            }
            // the inserted path is present
            assert(has_seg_path(*self, views_of(segs@).skip(idx as int))) by {
                let p = views_of(segs@).skip(idx as int);
                assert(p[0] == segs@[idx as int]@);
                assert(p.skip(1) =~= views_of(segs@).skip(idx as int + 1));
                assert(self.children@[ci as int] == child);
                assert(child.segment@ == segs@[idx as int]@) by {
                    assert(child0.segment@ == segs@[idx as int]@);
                }
                assert(has_seg_path(child, p.skip(1)));
            }
            // no path is reachable beyond the old ones and the inserted one
            assert forall|p: Seq<Seq<char>>| has_seg_path(*self, p) implies has_seg_path(mid0, p)
                || is_path_prefix(p, views_of(segs@).skip(idx as int)) by {
                let q = views_of(segs@).skip(idx as int);
                assert(q[0] == segs@[idx as int]@);
                if p.len() == 0 {
                    assert(p =~= q.take(0));
                } else {
                    let k = choose|k: int|
                        0 <= k < self.children@.len() && (#[trigger] self.children@[k]).segment@
                            == p[0] && has_seg_path(self.children@[k], p.skip(1));
                    if k == ci {
                        assert(self.children@[ci as int] == child);
                        assert(has_seg_path(child, p.skip(1)));
                        assert(p[0] == child0.segment@);
                        assert(child0.segment@ == segs@[idx as int]@);
                        if has_seg_path(child0, p.skip(1)) {
                            if exists|w: int|
                                0 <= w < mid0.children@.len() && (#[trigger] mid0.children@[w]).segment@
                                    == segs@[idx as int]@ {
                                assert(mid == mid0);
                                assert(child0 == mid0.children@[ci as int]);
                                assert(0 <= ci < mid0.children@.len()
                                    && mid0.children@[ci as int].segment@ == p[0] && has_seg_path(
                                    mid0.children@[ci as int],
                                    p.skip(1),
                                ));
                            } else {
                                // the child was fresh: nothing lies beneath it yet
                                assert(child0.children@.len() == 0);
                                assert(p.skip(1).len() == 0);
                                assert(p.len() == 1);
                                assert(p =~= q.take(1));
                            }
                        } else {
                            // the tail prefixes the remaining segments
                            let p1 = p.skip(1);
                            let q1 = views_of(segs@).skip(idx as int + 1);
                            assert(is_path_prefix(p1, q1));
                            assert(p =~= q.take(p.len() as int)) by {
                                assert forall|m: int| 0 <= m < p.len() implies p[m] == q.take(
                                    p.len() as int,
                                )[m] by {
                                    if m > 0 {
                                        assert(p[m] == p1[m - 1]);
                                        assert(p1[m - 1] == q1.take(p1.len() as int)[m - 1]);
                                        assert(q1.take(p1.len() as int)[m - 1] == q1[m - 1]);
                                        assert(q1[m - 1] == q[m]);
                                    }
                                }
                            }
                        }
                    } else {
                        if exists|w: int|
                            0 <= w < mid0.children@.len() && (#[trigger] mid0.children@[w]).segment@
                                == segs@[idx as int]@ {
                            assert(mid == mid0);
                            assert(self.children@[k] == mid0.children@[k]);
                            assert(0 <= k < mid0.children@.len() && mid0.children@[k].segment@
                                == p[0] && has_seg_path(mid0.children@[k], p.skip(1)));
                        } else {
                            let taken = mid0.children@.take(ci as int);
                            let rest2 = mid0.children@.skip(ci as int);
                            assert(ci as int <= mid0.children@.len());
                            assert(taken.len() == ci as int);
                            assert(mid.children@ =~= taken + seq![mid.children@[ci as int]]
                                + rest2);
                            assert(self.children@[k] == mid.children@[k]);
                            if k < ci {
                                assert(mid.children@[k] == ((taken + seq![
                                    mid.children@[ci as int],
                                ]) + rest2)[k]);
                                assert(((taken + seq![mid.children@[ci as int]]) + rest2)[k]
                                    == taken[k]);
                                assert(taken[k] == mid0.children@[k]);
                                assert(0 <= k < mid0.children@.len() && mid0.children@[k].segment@
                                    == p[0] && has_seg_path(mid0.children@[k], p.skip(1)));
                            } else {
                                assert(mid.children@[k] == rest2[k - 1 - ci]);
                                assert(rest2[k - 1 - ci] == mid0.children@[k - 1]);
                                assert(0 <= k - 1 < mid0.children@.len() && mid0.children@[k
                                    - 1].segment@ == p[0] && has_seg_path(
                                    mid0.children@[k - 1],
                                    p.skip(1),
                                ));
                            }
                        }
                    }
                }
            }
            // previously reachable paths are still reachable
            assert forall|p: Seq<Seq<char>>| has_seg_path(mid0, p) implies has_seg_path(
                *self,
                p,
            ) by {
                if p.len() != 0 {
                    let k = choose|k: int|
                        0 <= k < mid0.children@.len() && (#[trigger] mid0.children@[k]).segment@
                            == p[0] && has_seg_path(mid0.children@[k], p.skip(1));
                    if exists|w: int|
                        0 <= w < mid0.children@.len() && (#[trigger] mid0.children@[w]).segment@
                            == segs@[idx as int]@ {
                        // the child already existed: positions are unchanged
                        assert(mid == mid0);
                        if k == ci {
                            assert(has_seg_path(child, p.skip(1)));
                            assert(0 <= ci < self.children@.len() && self.children@[ci as int].segment@
                                == p[0] && has_seg_path(self.children@[ci as int], p.skip(1)));
                        } else {
                            assert(self.children@[k] == mid0.children@[k]);
                            assert(0 <= k < self.children@.len() && self.children@[k].segment@
                                == p[0] && has_seg_path(self.children@[k], p.skip(1)));
                        }
                    } else {
                        // a fresh child was inserted at ci; old children shifted
                        let taken = mid0.children@.take(ci as int);
                        let rest = mid0.children@.skip(ci as int);
                        assert(0 <= k < mid0.children@.len());
                        assert(ci as int <= mid0.children@.len());
                        assert(taken.len() == ci as int);
                        assert(mid.children@ =~= taken + seq![mid.children@[ci as int]] + rest);
                        if k < ci {
                            assert(mid.children@[k] == ((taken + seq![
                                mid.children@[ci as int],
                            ]) + rest)[k]);
                            assert(((taken + seq![mid.children@[ci as int]]) + rest)[k] == (taken
                                + seq![mid.children@[ci as int]])[k]);
                            assert((taken + seq![mid.children@[ci as int]])[k] == taken[k]);
                            assert(taken[k] == mid0.children@[k]);
                            assert(self.children@[k] == mid.children@[k]);
                            assert(0 <= k < self.children@.len() && self.children@[k].segment@
                                == p[0] && has_seg_path(self.children@[k], p.skip(1)));
                        } else {
                            assert(mid.children@[k + 1] == rest[k - ci]);
                            assert(rest[k - ci] == mid0.children@[k]);
                            assert(self.children@[k + 1] == mid.children@[k + 1]);
                            assert(0 <= k + 1 < self.children@.len() && self.children@[k
                                + 1].segment@ == p[0] && has_seg_path(
                                self.children@[k + 1],
                                p.skip(1),
                            ));
                        }
                    }
                }
            }
        }
    }
}

/// A freshly created node: it carries the namespace string for its segment
/// under a parent with path `parent`.
pub open spec fn has_fresh_path(n: NamespaceTrieNode, parent: Option<String>) -> bool {
    n.node_string matches Some(s) && s@ == child_path_view(parent, n.segment@)
}

/// The height of a trie node: one more than its tallest child.
pub open spec fn node_height(n: NamespaceTrieNode) -> nat
    decreases n, 0nat,
{
    1 + children_height(n.children@)
}

/// The height of the tallest node in a child list.
pub open spec fn children_height(cs: Seq<NamespaceTrieNode>) -> nat
    decreases cs, 1nat,
{
    if cs.len() == 0 {
        0
    } else if node_height(cs[0]) >= children_height(cs.skip(1)) {
        node_height(cs[0])
    } else {
        children_height(cs.skip(1))
    }
}

proof fn lemma_child_height(cs: Seq<NamespaceTrieNode>, i: int)
    requires
        0 <= i < cs.len(),
    ensures
        node_height(cs[i]) <= children_height(cs),
    decreases cs.len(),
{
    if i > 0 {
        assert(cs.skip(1)[i - 1] == cs[i]);
        lemma_child_height(cs.skip(1), i - 1);
    }
}

/// Four spaces of indentation per level.
pub open spec fn indent_seq(k: nat) -> Seq<char>
    decreases k,
{
    if k == 0 {
        Seq::<char>::empty()
    } else {
        "    "@ + indent_seq((k - 1) as nat)
    }
}

proof fn lemma_indent_snoc(k: nat)
    ensures
        indent_seq(k) + "    "@ == indent_seq(k + 1),
    decreases k,
{
    if k == 0 {
        assert(indent_seq(0) + "    "@ =~= "    "@ + indent_seq(0));
    } else {
        lemma_indent_snoc((k - 1) as nat);
        assert(indent_seq(k) + "    "@ =~= "    "@ + (indent_seq((k - 1) as nat) + "    "@));
        assert("    "@ + indent_seq(k) =~= indent_seq(k + 1));
    }
}

/// Builds the indentation string for `indent` levels.
fn make_indent(indent: usize) -> (r: String)
    ensures
        r@ == indent_seq(indent as nat),
{
    let mut r = String::new();
    let mut k: usize = 0;
    while k < indent
        invariant
            k <= indent,
            r@ == indent_seq(k as nat),
        decreases indent - k,
    {
        r.append("    ");
        proof {
            lemma_indent_snoc(k as nat);
        }
        k += 1;
    }
    r
}

/// The node whose namespace string reads exactly `crate`: its children are
/// spliced directly into the re-export block rather than nested in a module.
pub open spec fn is_crate_node(n: NamespaceTrieNode) -> bool {
    n.node_string matches Some(s) && s@ == "crate"@
}

/// The re-export lines of one child entry.
///
/// A leaf becomes a `pub use` of its full path; an inner node becomes a
/// `pub mod` block over its children; the `crate` node is spliced in place.
/// Entries under the spliced `crate` node put a space before the brace.
pub open spec fn ser_entry(c: NamespaceTrieNode, indent: nat, under_crate: bool) -> Seq<char>
    decreases c, 0nat,
{
    if !under_crate && is_crate_node(c) {
        ser_children(c.children@, indent, true)
    } else if c.children@.len() == 0 {
        indent_seq(indent) + "pub use "@ + ns_view(c) + ";\n"@
    } else {
        indent_seq(indent) + "pub mod "@ + c.segment@ + (if under_crate {
            " {\n"@
        } else {
            "{\n"@
        }) + ser_children(c.children@, indent + 1, false) + indent_seq(indent) + "}\n"@
    }
}

/// The re-export lines of a whole child list, in stored (sorted) order.
pub open spec fn ser_children(cs: Seq<NamespaceTrieNode>, indent: nat, under_crate: bool) -> Seq<
    char,
>
    decreases cs, 1nat,
{
    if cs.len() == 0 {
        Seq::<char>::empty()
    } else {
        ser_entry(cs[0], indent, under_crate) + ser_children(cs.skip(1), indent, under_crate)
    }
}

impl NamespaceTrieNode {
    /// Serializes the whole trie into the re-export block of a host crate.
    pub fn serialize_to_reexports(&self) -> (r: String)
        ensures
            r@ == "pub mod pax_reexports {\n"@ + ser_children(self.children@, 1, false) + "\n}"@,
    {
        let body = self.recurse_serialize_to_reexports(1);
        let mut out = String::from_str("pub mod pax_reexports {\n");
        out.append(body.as_str());
        out.append("\n}");
        proof {
            assert(out@ =~= "pub mod pax_reexports {\n"@ + ser_children(self.children@, 1, false)
                + "\n}"@);
        }
        out
    }

    /// Serializes this node's children at the given indentation level.
    pub fn recurse_serialize_to_reexports(&self, indent: usize) -> (r: String)
        ensures
            r@ == ser_children(self.children@, indent as nat, false),
    {
        let ind = make_indent(indent);
        self.serialize_children_at(ind.as_str(), Ghost(indent as nat))
    }

    /// Serialization worker: the indentation travels as a prebuilt string.
    fn serialize_children_at(&self, ind: &str, Ghost(indent): Ghost<nat>) -> (r: String)
        requires
            ind@ == indent_seq(indent),
        ensures
            r@ == ser_children(self.children@, indent, false),
        decreases node_height(*self),
    {
        let mut accum = String::new();
        let n = self.children.len();
        proof {
            assert(self.children@.skip(0) =~= self.children@);
        }
        let mut i: usize = 0;
        while i < n
            invariant
                ind@ == indent_seq(indent),
                n == self.children@.len(),
                i <= n,
                accum@ + ser_children(self.children@.skip(i as int), indent, false) == ser_children(
                    self.children@,
                    indent,
                    false,
                ),
            decreases n - i,
        {
            let ghost rest = self.children@.skip(i as int);
            let c = &self.children[i];
            assert(rest[0] == self.children@[i as int]);
            proof {
                assert(rest.skip(1) =~= self.children@.skip(i as int + 1));
                lemma_child_height(self.children@, i as int);
            }
            let is_crate = match &c.node_string {
                Some(s) => str_eq(s.as_str(), "crate"),
                None => false,
            };
            if is_crate {
                proof {
                    assert(ser_entry(rest[0], indent, false) == ser_children(
                        c.children@,
                        indent,
                        true,
                    ));
                    assert(c.children@.skip(0) =~= c.children@);
                }
                let m = c.children.len();
                let mut j: usize = 0;
                while j < m
                    invariant
                        ind@ == indent_seq(indent),
                        n == self.children@.len(),
                        i < n,
                        c == &self.children@[i as int],
                        node_height(*c) <= children_height(self.children@),
                        m == c.children@.len(),
                        j <= m,
                        accum@ + ser_children(c.children@.skip(j as int), indent, true)
                            + ser_children(self.children@.skip(i as int + 1), indent, false)
                            == ser_children(self.children@, indent, false),
                    decreases m - j,
                {
                    let ghost grest = c.children@.skip(j as int);
                    let g = &c.children[j];
                    assert(grest[0] == c.children@[j as int]);
                    proof {
                        assert(grest.skip(1) =~= c.children@.skip(j as int + 1));
                        lemma_child_height(c.children@, j as int);
                    }
                    let ghost prev = accum@;
                    if g.children.len() == 0 {
                        accum.append(ind);
                        accum.append("pub use ");
                        let ns: &str = match &g.node_string {
                            Some(s) => s.as_str(),
                            None => "",
                        };
                        proof {
                            reveal_strlit("");
                            assert(ns@ == ns_view(grest[0]));
                        }
                        accum.append(ns);
                        accum.append(";\n");
                        proof {
                            assert(accum@ =~= prev + ser_entry(grest[0], indent, true));
                        }
                    } else {
                        accum.append(ind);
                        accum.append("pub mod ");
                        accum.append(g.segment.as_str());
                        accum.append(" {\n");
                        let mut deeper = String::from_str(ind);
                        deeper.append("    ");
                        proof {
                            lemma_indent_snoc(indent);
                        }
                        let sub = g.serialize_children_at(deeper.as_str(), Ghost(indent + 1));
                        accum.append(sub.as_str());
                        accum.append(ind);
                        accum.append("}\n");
                        proof {
                            assert(accum@ =~= prev + ser_entry(grest[0], indent, true));
                        }
                    }
                    proof {
                        assert(accum@ + ser_children(c.children@.skip(j as int + 1), indent, true)
                            + ser_children(self.children@.skip(i as int + 1), indent, false)
                            =~= ser_children(self.children@, indent, false));
                    }
                    j += 1;
                }
                proof {
                    assert(c.children@.skip(m as int) =~= Seq::<NamespaceTrieNode>::empty());
                    assert(accum@ + ser_children(self.children@.skip(i as int + 1), indent, false)
                        =~= ser_children(self.children@, indent, false));
                }
            } else {
                proof {
                    assert(!is_crate_node(rest[0]));
                }
                let ghost prev = accum@;
                if c.children.len() == 0 {
                    accum.append(ind);
                    accum.append("pub use ");
                    let ns: &str = match &c.node_string {
                        Some(s) => s.as_str(),
                        None => "",
                    };
                    proof {
                        reveal_strlit("");
                        assert(ns@ == ns_view(rest[0]));
                    }
                    accum.append(ns);
                    accum.append(";\n");
                    proof {
                        assert(accum@ =~= prev + ser_entry(rest[0], indent, false));
                    }
                } else {
                    accum.append(ind);
                    accum.append("pub mod ");
                    accum.append(c.segment.as_str());
                    accum.append("{\n");
                    let mut deeper = String::from_str(ind);
                    deeper.append("    ");
                    proof {
                        lemma_indent_snoc(indent);
                    }
                    let sub = c.serialize_children_at(deeper.as_str(), Ghost(indent + 1));
                    accum.append(sub.as_str());
                    accum.append(ind);
                    accum.append("}\n");
                    proof {
                        assert(accum@ =~= prev + ser_entry(rest[0], indent, false));
                    }
                }
                proof {
                    assert(accum@ + ser_children(self.children@.skip(i as int + 1), indent, false)
                        =~= ser_children(self.children@, indent, false));
                }
            }
            i += 1;
        }
        proof {
            assert(self.children@.skip(n as int) =~= Seq::<NamespaceTrieNode>::empty());
            assert(accum@ =~= ser_children(self.children@, indent, false));
        }
        accum
    }
}

/// `out` is the re-export block of a well-formed trie `t` that reaches every
/// path in `imports` and nothing beyond their prefixes: the trie's path set
/// is pinned by the input set alone, independent of order and repetition.
pub open spec fn bundle_matches(t: NamespaceTrieNode, imports: Seq<String>, out: Seq<char>) -> bool {
    &&& wf_node(t)
    &&& t.node_string is None
    &&& forall|k: int| 0 <= k < imports.len() ==> has_seg_path(t, split_seq((#[trigger] imports[k])@))
    &&& forall|p: Seq<Seq<char>>|
        has_seg_path(t, p) && p.len() > 0 ==> exists|k: int|
            0 <= k < imports.len() && is_path_prefix(p, split_seq((#[trigger] imports[k])@))
    &&& out == "pub mod pax_reexports {\n"@ + ser_children(t.children@, 1, false) + "\n}"@
}

/// Builds a namespace trie over the given import paths and serializes it
/// into the host crate's re-export block.
pub fn bundle_reexports_into_namespace_string(sorted_reexports: &Vec<String>) -> (r: String)
    ensures
        exists|t: NamespaceTrieNode| bundle_matches(t, sorted_reexports@, r@),
{
    let mut root = NamespaceTrieNode::new_root();
    let n = sorted_reexports.len();
    let mut i: usize = 0;
    while i < n
        invariant
            n == sorted_reexports@.len(),
            i <= n,
            wf_node(root),
            root.node_string is None,
            forall|k: int|
                0 <= k < i ==> has_seg_path(root, split_seq((#[trigger] sorted_reexports@[k])@)),
            forall|p: Seq<Seq<char>>|
                has_seg_path(root, p) && p.len() > 0 ==> exists|k: int|
                    0 <= k < i && is_path_prefix(p, split_seq((#[trigger] sorted_reexports@[k])@)),
        decreases n - i,
    {
        let ghost before = root;
        root.insert(sorted_reexports[i].as_str());
        proof {
            assert forall|p: Seq<Seq<char>>|
                has_seg_path(root, p) && p.len() > 0 implies exists|k: int|
                0 <= k < i + 1 && is_path_prefix(p, split_seq((#[trigger] sorted_reexports@[k])@)) by {
                if has_seg_path(before, p) {
                    let k = choose|k: int|
                        0 <= k < i && is_path_prefix(p, split_seq((#[trigger] sorted_reexports@[k])@));
                    assert(0 <= k < i + 1 && is_path_prefix(
                        p,
                        split_seq(sorted_reexports@[k]@),
                    ));
                } else {
                    assert(is_path_prefix(p, split_seq(sorted_reexports@[i as int]@)));
                    assert(0 <= i < i + 1 && is_path_prefix(
                        p,
                        split_seq(sorted_reexports@[i as int]@),
                    ));
                }
            }
        }
        i += 1;
    }
    let out = root.serialize_to_reexports();
    proof {
        assert(bundle_matches(root, sorted_reexports@, out@));
    }
    out
}

proof fn lemma_wf_children_insert(
    parent: Option<String>,
    cs: Seq<NamespaceTrieNode>,
    i: int,
    x: NamespaceTrieNode,
)
    requires
        wf_children(parent, cs),
        0 <= i <= cs.len(),
        wf_node(x),
        x.node_string matches Some(s) && s@ == child_path_view(parent, x.segment@),
    ensures
        wf_children(parent, cs.take(i) + seq![x] + cs.skip(i)),
    decreases i,
{
    let ds = cs.take(i) + seq![x] + cs.skip(i);
    if i == 0 {
        assert(ds[0] == x);
        assert(ds.skip(1) =~= cs);
    } else {
        assert(ds[0] == cs[0]);
        lemma_wf_children_insert(parent, cs.skip(1), i - 1, x);
        assert(ds.skip(1) =~= cs.skip(1).take(i - 1) + seq![x] + cs.skip(1).skip(i - 1)) by {
            assert(forall|k: int|
                0 <= k < i - 1 ==> #[trigger] cs.skip(1).take(i - 1)[k] == cs[k + 1]);
            assert(forall|k: int|
                0 <= k < cs.skip(1).skip(i - 1).len() ==> #[trigger] cs.skip(1).skip(i - 1)[k]
                    == cs[k + i]);
        }
    }
}


/// The namespace strings of two nodes read the same (or are both absent).
pub open spec fn ns_like(a: Option<String>, b: Option<String>) -> bool {
    match (a, b) {
        (Option::<String>::None, Option::<String>::None) => true,
        (Some(x), Some(y)) => x@ == y@,
        _ => false,
    }
}

/// A trie that reaches a path reaches each of its initial runs.
proof fn lemma_path_prefix_closed(t: NamespaceTrieNode, p: Seq<Seq<char>>, m: int)
    requires
        has_seg_path(t, p),
        0 <= m <= p.len(),
    ensures
        has_seg_path(t, p.take(m)),
    decreases m,
{
    if m > 0 {
        let i = choose|i: int|
            0 <= i < t.children@.len() && (#[trigger] t.children@[i]).segment@ == p[0]
                && has_seg_path(t.children@[i], p.skip(1));
        assert(p.take(m)[0] == p[0]);
        assert(p.take(m).skip(1) =~= p.skip(1).take(m - 1));
        lemma_path_prefix_closed(t.children@[i], p.skip(1), m - 1);
        assert(0 <= i < t.children@.len() && t.children@[i].segment@ == p.take(m)[0]
            && has_seg_path(t.children@[i], p.take(m).skip(1)));
    } else {
        assert(p.take(0).len() == 0);
    }
}

/// A trie has a child keyed by `s` iff it reaches the one-segment path `s`.
proof fn lemma_child_iff_path(t: NamespaceTrieNode, s: Seq<char>)
    ensures
        has_seg_path(t, seq![s]) <==> exists|i: int|
            0 <= i < t.children@.len() && (#[trigger] t.children@[i]).segment@ == s,
{
    let p = seq![s];
    assert(p.len() == 1);
    assert(p[0] == s);
    assert(p.skip(1).len() == 0);
    if exists|i: int| 0 <= i < t.children@.len() && (#[trigger] t.children@[i]).segment@ == s {
        let i = choose|i: int|
            0 <= i < t.children@.len() && (#[trigger] t.children@[i]).segment@ == s;
        assert(has_seg_path(t.children@[i], p.skip(1)));
        assert(0 <= i < t.children@.len() && t.children@[i].segment@ == p[0] && has_seg_path(
            t.children@[i],
            p.skip(1),
        ));
    }
}

/// Some child of the list is keyed by segment `s`.
pub open spec fn has_child_seg(cs: Seq<NamespaceTrieNode>, s: Seq<char>) -> bool {
    exists|i: int| 0 <= i < cs.len() && (#[trigger] cs[i]).segment@ == s
}

/// Two sorted child lists keyed by the same segment set align position by
/// position.
proof fn lemma_sorted_children_aligned(cs1: Seq<NamespaceTrieNode>, cs2: Seq<NamespaceTrieNode>)
    requires
        children_sorted(cs1),
        children_sorted(cs2),
        forall|s: Seq<char>| #[trigger] has_child_seg(cs1, s) == has_child_seg(cs2, s),
    ensures
        cs1.len() == cs2.len(),
        forall|k: int| 0 <= k < cs1.len() ==> (#[trigger] cs1[k]).segment@ == cs2[k].segment@,
    decreases cs1.len(),
{
    if cs1.len() == 0 {
        if cs2.len() > 0 {
            assert(has_child_seg(cs2, cs2[0].segment@));
            assert(has_child_seg(cs1, cs2[0].segment@));
        }
    } else if cs2.len() == 0 {
        assert(has_child_seg(cs1, cs1[0].segment@));
        assert(has_child_seg(cs2, cs1[0].segment@));
    } else {
        // the heads carry the same segment
        assert(has_child_seg(cs1, cs1[0].segment@));
        assert(has_child_seg(cs2, cs1[0].segment@));
        assert(has_child_seg(cs2, cs2[0].segment@));
        assert(has_child_seg(cs1, cs2[0].segment@));
        let j = choose|j: int| 0 <= j < cs2.len() && (#[trigger] cs2[j]).segment@ == cs1[0].segment@;
        let i = choose|i: int| 0 <= i < cs1.len() && (#[trigger] cs1[i]).segment@ == cs2[0].segment@;
        if i > 0 && j > 0 {
            lemma_lex_transitive(cs1[0].segment@, cs1[i].segment@, cs2[j].segment@);
            lemma_lex_irreflexive(cs1[0].segment@);
        }
        assert(cs1[0].segment@ == cs2[0].segment@);
        // the tails carry the same segment sets
        assert forall|s: Seq<char>| #[trigger] has_child_seg(cs1.skip(1), s) == has_child_seg(
            cs2.skip(1),
            s,
        ) by {
            if has_child_seg(cs1.skip(1), s) {
                let i2 = choose|i2: int|
                    0 <= i2 < cs1.skip(1).len() && (#[trigger] cs1.skip(1)[i2]).segment@ == s;
                assert(cs1.skip(1)[i2] == cs1[i2 + 1]);
                assert(lex_lt(cs1[0].segment@, s));
                assert(has_child_seg(cs1, s));
                assert(has_child_seg(cs2, s));
                let j3 = choose|j3: int| 0 <= j3 < cs2.len() && (#[trigger] cs2[j3]).segment@ == s;
                if j3 == 0 {
                    lemma_lex_irreflexive(s);
                }
                assert(cs2.skip(1)[j3 - 1] == cs2[j3]);
                assert(0 <= j3 - 1 < cs2.skip(1).len() && cs2.skip(1)[j3 - 1].segment@ == s);
                assert(has_child_seg(cs2.skip(1), s));
            }
            if has_child_seg(cs2.skip(1), s) {
                let j2 = choose|j2: int|
                    0 <= j2 < cs2.skip(1).len() && (#[trigger] cs2.skip(1)[j2]).segment@ == s;
                assert(cs2.skip(1)[j2] == cs2[j2 + 1]);
                assert(lex_lt(cs2[0].segment@, s));
                assert(has_child_seg(cs2, s));
                assert(has_child_seg(cs1, s));
                let i3 = choose|i3: int| 0 <= i3 < cs1.len() && (#[trigger] cs1[i3]).segment@ == s;
                if i3 == 0 {
                    lemma_lex_irreflexive(s);
                }
                assert(cs1.skip(1)[i3 - 1] == cs1[i3]);
                assert(0 <= i3 - 1 < cs1.skip(1).len() && cs1.skip(1)[i3 - 1].segment@ == s);
                assert(has_child_seg(cs1.skip(1), s));
            }
        }
        assert(children_sorted(cs1.skip(1))) by {
            assert(forall|a: int|
                0 <= a < cs1.skip(1).len() ==> #[trigger] cs1.skip(1)[a] == cs1[a + 1]);
        }
        assert(children_sorted(cs2.skip(1))) by {
            assert(forall|a: int|
                0 <= a < cs2.skip(1).len() ==> #[trigger] cs2.skip(1)[a] == cs2[a + 1]);
        }
        lemma_sorted_children_aligned(cs1.skip(1), cs2.skip(1));
        assert forall|k: int| 0 <= k < cs1.len() implies (#[trigger] cs1[k]).segment@
            == cs2[k].segment@ by {
            if k > 0 {
                assert(cs1[k] == cs1.skip(1)[k - 1]);
                assert(cs2[k] == cs2.skip(1)[k - 1]);
            }
        }
    }
}


proof fn lemma_ser_children_pointwise_eq(
    cs1: Seq<NamespaceTrieNode>,
    cs2: Seq<NamespaceTrieNode>,
    indent: nat,
    under_crate: bool,
)
    requires
        cs1.len() == cs2.len(),
        forall|k: int|
            0 <= k < cs1.len() ==> ser_entry(#[trigger] cs1[k], indent, under_crate) == ser_entry(
                cs2[k],
                indent,
                under_crate,
            ),
    ensures
        ser_children(cs1, indent, under_crate) == ser_children(cs2, indent, under_crate),
    decreases cs1.len(),
{
    if cs1.len() > 0 {
        assert(forall|a: int| 0 <= a < cs1.skip(1).len() ==> #[trigger] cs1.skip(1)[a] == cs1[a + 1]);
        assert(forall|a: int| 0 <= a < cs2.skip(1).len() ==> #[trigger] cs2.skip(1)[a] == cs2[a + 1]);
        lemma_ser_children_pointwise_eq(cs1.skip(1), cs2.skip(1), indent, under_crate);
    }
}

proof fn lemma_child_path_lift(t: NamespaceTrieNode, k: int, p2: Seq<Seq<char>>)
    requires
        wf_node(t),
        0 <= k < t.children@.len(),
    ensures
        has_seg_path(t.children@[k], p2) == has_seg_path(
            t,
            seq![t.children@[k].segment@] + p2,
        ),
{
    let seg = t.children@[k].segment@;
    let p = seq![seg] + p2;
    assert(p.len() == 1 + p2.len());
    assert(p[0] == seg);
    assert(p.skip(1) =~= p2);
    if has_seg_path(t.children@[k], p2) {
        assert(0 <= k < t.children@.len() && t.children@[k].segment@ == p[0] && has_seg_path(
            t.children@[k],
            p.skip(1),
        ));
    }
    if has_seg_path(t, p) {
        let w = choose|w: int|
            0 <= w < t.children@.len() && (#[trigger] t.children@[w]).segment@ == p[0]
                && has_seg_path(t.children@[w], p.skip(1));
        if w != k {
            lemma_lex_irreflexive(seg);
            if w < k {
                assert(lex_lt(t.children@[w].segment@, t.children@[k].segment@));
            } else {
                assert(lex_lt(t.children@[k].segment@, t.children@[w].segment@));
            }
        }
        assert(w == k);
    }
}

/// Serialization is a function of the reachable path set: two well-formed
/// tries over the same namespace string that reach exactly the same segment
/// paths serialize identically, level by level.
pub proof fn lemma_ser_determined(
    t1: NamespaceTrieNode,
    t2: NamespaceTrieNode,
    indent: nat,
    under_crate: bool,
)
    requires
        wf_node(t1),
        wf_node(t2),
        ns_like(t1.node_string, t2.node_string),
        forall|p: Seq<Seq<char>>| #[trigger] has_seg_path(t1, p) == has_seg_path(t2, p),
    ensures
        ser_children(t1.children@, indent, under_crate) == ser_children(
            t2.children@,
            indent,
            under_crate,
        ),
    decreases node_height(t1),
{
    let cs1 = t1.children@;
    let cs2 = t2.children@;
    assert forall|s: Seq<char>| #[trigger] has_child_seg(cs1, s) == has_child_seg(cs2, s) by {
        lemma_child_iff_path(t1, s);
        lemma_child_iff_path(t2, s);
        assert(has_seg_path(t1, seq![s]) == has_seg_path(t2, seq![s]));
    }
    lemma_sorted_children_aligned(cs1, cs2);
    assert forall|k: int| 0 <= k < cs1.len() implies ser_entry(
        #[trigger] cs1[k],
        indent,
        under_crate,
    ) == ser_entry(cs2[k], indent, under_crate) by {
        let c1 = cs1[k];
        let c2 = cs2[k];
        lemma_wf_children_index(t1.node_string, cs1, k);
        lemma_wf_children_index(t2.node_string, cs2, k);
        assert(ns_like(c1.node_string, c2.node_string)) by {
            assert(c1.segment@ == c2.segment@);
        }
        assert(ns_view(c1) == ns_view(c2));
        assert(is_crate_node(c1) == is_crate_node(c2));
        assert forall|p2: Seq<Seq<char>>| #[trigger] has_seg_path(c1, p2) == has_seg_path(
            c2,
            p2,
        ) by {
            lemma_child_path_lift(t1, k, p2);
            lemma_child_path_lift(t2, k, p2);
            assert(has_seg_path(t1, seq![c1.segment@] + p2) == has_seg_path(
                t2,
                seq![c2.segment@] + p2,
            ));
        }
        assert(c1.children@.len() == 0 <==> c2.children@.len() == 0) by {
            if c1.children@.len() == 0 && c2.children@.len() > 0 {
                assert(has_child_seg(c2.children@, c2.children@[0].segment@));
                lemma_child_iff_path(c2, c2.children@[0].segment@);
                assert(has_seg_path(c1, seq![c2.children@[0].segment@]));
                lemma_child_iff_path(c1, c2.children@[0].segment@);
            }
            if c2.children@.len() == 0 && c1.children@.len() > 0 {
                assert(has_child_seg(c1.children@, c1.children@[0].segment@));
                lemma_child_iff_path(c1, c1.children@[0].segment@);
                assert(has_seg_path(c2, seq![c1.children@[0].segment@]));
                lemma_child_iff_path(c2, c1.children@[0].segment@);
            }
        }
        lemma_child_height(cs1, k);
        if !under_crate && is_crate_node(c1) {
            lemma_ser_determined(c1, c2, indent, true);
        } else if c1.children@.len() == 0 {
        } else {
            lemma_ser_determined(c1, c2, indent + 1, false);
        }
    }
    lemma_ser_children_pointwise_eq(cs1, cs2, indent, under_crate);
}

/// The re-export block is a function of the set of import paths alone: two
/// bundles whose inputs split into the same path sets — in any order, with
/// any repetition — produce the same text.
pub proof fn lemma_bundle_deterministic(
    t1: NamespaceTrieNode,
    t2: NamespaceTrieNode,
    imports1: Seq<String>,
    imports2: Seq<String>,
    out1: Seq<char>,
    out2: Seq<char>,
)
    requires
        bundle_matches(t1, imports1, out1),
        bundle_matches(t2, imports2, out2),
        forall|k: int|
            0 <= k < imports1.len() ==> exists|j: int|
                0 <= j < imports2.len() && split_seq((#[trigger] imports1[k])@) == split_seq(
                    imports2[j]@,
                ),
        forall|j: int|
            0 <= j < imports2.len() ==> exists|k: int|
                0 <= k < imports1.len() && split_seq((#[trigger] imports2[j])@) == split_seq(
                    imports1[k]@,
                ),
    ensures
        out1 == out2,
{
    assert forall|p: Seq<Seq<char>>| #[trigger] has_seg_path(t1, p) == has_seg_path(t2, p) by {
        if p.len() == 0 {
        } else {
            if has_seg_path(t1, p) {
                let k = choose|k: int|
                    0 <= k < imports1.len() && is_path_prefix(
                        p,
                        split_seq((#[trigger] imports1[k])@),
                    );
                let j = choose|j: int|
                    0 <= j < imports2.len() && split_seq((#[trigger] imports1[k])@) == split_seq(
                        imports2[j]@,
                    );
                assert(has_seg_path(t2, split_seq(imports2[j]@)));
                lemma_path_prefix_closed(t2, split_seq(imports2[j]@), p.len() as int);
                assert(has_seg_path(t2, p));
            }
            if has_seg_path(t2, p) {
                let j = choose|j: int|
                    0 <= j < imports2.len() && is_path_prefix(
                        p,
                        split_seq((#[trigger] imports2[j])@),
                    );
                let k = choose|k: int|
                    0 <= k < imports1.len() && split_seq((#[trigger] imports2[j])@) == split_seq(
                        imports1[k]@,
                    );
                assert(has_seg_path(t1, split_seq(imports1[k]@)));
                lemma_path_prefix_closed(t1, split_seq(imports1[k]@), p.len() as int);
                assert(has_seg_path(t1, p));
            }
        }
    }
    lemma_ser_determined(t1, t2, 1, false);
}

} // verus!
