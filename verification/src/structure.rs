//! The raw tree of names: a listing of slash-separated paths folded into a
//! `Node` tree, one node per distinct name under its parent.

use vstd::prelude::*;
use vstd::string::StrSliceExecFns;
use vstd::string::StringExecFns;
use vstd::std_specs::vec::vec_index_mut;

verus! {

/// One directory or file name discovered under the listing root.
pub struct Node {
    pub name: String,
    pub path: String,
    pub children: Option<Vec<Node>>,
}

/// The mathematical shape of a `Node`.
pub ghost struct NodeV {
    pub name: Seq<char>,
    pub path: Seq<char>,
    pub children: Option<Seq<NodeV>>,
}

pub open spec fn nodes_view(v: Seq<Node>) -> Seq<NodeV>
    decreases v,
    via nodes_view_decreases
{
    if v.len() == 0 {
        Seq::empty()
    } else {
        seq![node_view(v[0])] + nodes_view(v.subrange(1, v.len() as int))
    }
}

#[via_fn]
proof fn nodes_view_decreases(v: Seq<Node>) {
    if v.len() > 0 {
        vstd::seq::axiom_seq_index_decreases(v, 0);
        vstd::seq::axiom_seq_subrange_decreases(v, 1, v.len() as int);
    }
}

pub open spec fn node_view(n: Node) -> NodeV
    decreases n,
    via node_view_decreases
{
    NodeV {
        name: n.name@,
        path: n.path@,
        children: match n.children {
            Some(v) => Some(nodes_view(v@)),
            None => None,
        },
    }
}

#[via_fn]
proof fn node_view_decreases(n: Node) {
    match n.children {
        Some(v) => {
            vstd::std_specs::vec::axiom_vec_decreases_to_view(v);
        },
        None => {},
    }
}

/// `nodes_view` is the element-wise view.
pub proof fn lemma_nodes_view(v: Seq<Node>)
    ensures
        nodes_view(v).len() == v.len(),
        forall|i: int| 0 <= i < v.len() ==> nodes_view(v)[i] == node_view(v[i]),
    decreases v.len(),
{
    if v.len() > 0 {
        lemma_nodes_view(v.subrange(1, v.len() as int));
    }
}

// ---------------------------------------------------------------------------
// Slash-separated path segments
// ---------------------------------------------------------------------------

/// The first index at or after `i` that holds a slash.
pub open spec fn seg_end(s: Seq<char>, i: int) -> int
    decreases s.len() - i,
{
    if i < 0 || i >= s.len() || s[i] == '/' {
        i
    } else {
        seg_end(s, i + 1)
    }
}

pub proof fn lemma_seg_end(s: Seq<char>, i: int)
    requires
        0 <= i <= s.len(),
    ensures
        i <= seg_end(s, i) <= s.len(),
        forall|k: int| i <= k < seg_end(s, i) ==> s[k] != '/',
        seg_end(s, i) < s.len() ==> s[seg_end(s, i)] == '/',
    decreases s.len() - i,
{
    if i < s.len() && s[i] != '/' {
        lemma_seg_end(s, i + 1);
    }
}

proof fn lemma_seg_end_pinned(s: Seq<char>, i: int, j: int)
    requires
        0 <= i <= j <= s.len(),
        forall|k: int| i <= k < j ==> s[k] != '/',
        j < s.len() ==> s[j] == '/',
    ensures
        seg_end(s, i) == j,
    decreases j - i,
{
    if i < j {
        lemma_seg_end_pinned(s, i + 1, j);
    }
}

/// The slash-separated segments of `s` from `i` on; empty segments between,
/// before, or after slashes are kept.
pub open spec fn segments_from(s: Seq<char>, i: int) -> Seq<Seq<char>>
    decreases s.len() - i,
    when 0 <= i <= s.len()
    via segments_from_decreases
{
    let e = seg_end(s, i);
    if e == s.len() {
        seq![s.subrange(i, e)]
    } else {
        seq![s.subrange(i, e)] + segments_from(s, e + 1)
    }
}

#[via_fn]
proof fn segments_from_decreases(s: Seq<char>, i: int) {
    lemma_seg_end(s, i);
}

/// The slash-separated segments of a whole path.
pub open spec fn segments_of(s: Seq<char>) -> Seq<Seq<char>> {
    segments_from(s, 0)
}

/// Splits a path on slashes, keeping empty segments.
pub fn split_slash(s: &str) -> (r: Vec<String>)
    ensures
        r.deep_view() == segments_of(s@),
{
    let n = s.unicode_len();
    let mut r: Vec<String> = Vec::new();
    let mut i: usize = 0;
    loop
        invariant
            0 <= i <= n,
            n == s@.len(),
            r.deep_view() + segments_from(s@, i as int) == segments_of(s@),
        decreases n - i,
    {
        let mut j = i;
        while j < n && s.get_char(j) != '/'
            invariant
                i <= j <= n,
                n == s@.len(),
                forall|k: int| i <= k < j ==> s@[k] != '/',
            decreases n - j,
        {
            j = j + 1;
        }
        proof {
            lemma_seg_end_pinned(s@, i as int, j as int);
        }
        let seg: String = s.substring_char(i, j).to_owned();
        let ghost prev = r.deep_view();
        r.push(seg);
        proof {
            assert(r.deep_view() =~= prev.push(seg@));
        }
        if j == n {
            proof {
                assert(r.deep_view() + Seq::<Seq<char>>::empty() =~= r.deep_view());
                assert(prev.push(seg@) =~= prev + seq![seg@]);
                assert(r.deep_view() =~= segments_of(s@));
            }
            return r;
        }
        proof {
            assert(prev.push(seg@) + segments_from(s@, j + 1) =~= prev + segments_from(
                s@,
                i as int,
            ));
        }
        i = j + 1;
    }
}

// ---------------------------------------------------------------------------
// Building the tree
// ---------------------------------------------------------------------------

/// The index of the first child named `name`, if any.
pub open spec fn find_child(cs: Seq<NodeV>, name: Seq<char>, i: int) -> Option<int>
    decreases cs.len() - i,
    when 0 <= i
{
    if i >= cs.len() {
        None
    } else if cs[i].name == name {
        Some(i)
    } else {
        find_child(cs, name, i + 1)
    }
}

/// The path a child gets under its parent.
pub open spec fn child_path(parent: Seq<char>, name: Seq<char>) -> Seq<char> {
    parent + seq!['/'] + name
}

/// Inserts the chain of segments `segs[k..]` below `n`: each segment finds
/// or creates the child of that name and descends into it.
pub open spec fn insert_segs(n: NodeV, segs: Seq<Seq<char>>, k: int) -> NodeV
    decreases segs.len() - k,
    when 0 <= k
{
    if k >= segs.len() {
        n
    } else {
        let cs = match n.children {
            Some(cs) => cs,
            None => Seq::<NodeV>::empty(),
        };
        match find_child(cs, segs[k], 0) {
            Some(i) => NodeV {
                children: Some(cs.update(i, insert_segs(cs[i], segs, k + 1))),
                ..n
            },
            None => {
                let fresh = NodeV {
                    name: segs[k],
                    path: child_path(n.path, segs[k]),
                    children: None,
                };
                NodeV { children: Some(cs.push(insert_segs(fresh, segs, k + 1))), ..n }
            },
        }
    }
}

/// Folds every path of `paths[i..]` into the tree below `n`.
pub open spec fn insert_paths(n: NodeV, paths: Seq<Seq<char>>, i: int) -> NodeV
    decreases paths.len() - i,
    when 0 <= i
{
    if i >= paths.len() {
        n
    } else {
        insert_paths(insert_segs(n, segments_of(paths[i]), 0), paths, i + 1)
    }
}

/// The tree that a flat listing of paths folds into, under a root with
/// empty name and path.
pub open spec fn tree_of_paths(paths: Seq<Seq<char>>) -> NodeV {
    insert_paths(
        NodeV { name: Seq::empty(), path: Seq::empty(), children: None },
        paths,
        0,
    )
}

/// The parent's path, a slash, and the child's name.
fn join_path(parent: &String, name: &String) -> (r: String)
    ensures
        r@ == child_path(parent@, name@),
{
    let mut r = parent.clone();
    r.append("/");
    r.append(name.as_str());
    proof {
        reveal_strlit("/");
        assert("/"@ =~= seq!['/']);
        assert(r@ =~= child_path(parent@, name@));
    }
    r
}

/// Finds the child named `name`, or tells that there is none.
fn find_child_index(cs: &Vec<Node>, name: &String) -> (r: Option<usize>)
    ensures
        match r {
            Some(i) => i < cs.len() && find_child(nodes_view(cs@), name@, 0) == Some(i as int),
            None => find_child(nodes_view(cs@), name@, 0) is None,
        },
{
    let ghost cv = nodes_view(cs@);
    let mut i: usize = 0;
    while i < cs.len()
        invariant
            0 <= i <= cs.len(),
            cv == nodes_view(cs@),
            find_child(cv, name@, i as int) == find_child(cv, name@, 0),
        decreases cs.len() - i,
    {
        proof {
            lemma_nodes_view(cs@);
        }
        assert(cv[i as int] == node_view(cs@[i as int]));
        if cs[i].name == *name {
            return Some(i);
        }
        i = i + 1;
    }
    proof {
        lemma_nodes_view(cs@);
    }
    None
}

/// Descends along `parts[k..]` below `node`, creating missing children.
fn insert_from(node: &mut Node, parts: &Vec<String>, k: usize)
    requires
        k <= parts.len(),
    ensures
        node_view(*final(node)) == insert_segs(node_view(*old(node)), parts.deep_view(), k as int),
    decreases parts.len() - k,
{
    if k == parts.len() {
        return ;
    }
    let ghost oldv = node_view(*old(node));
    if node.children.is_none() {
        node.children = Some(Vec::new());
        proof {
            assert(nodes_view(Seq::<Node>::empty()) =~= Seq::<NodeV>::empty());
        }
    }
    let ghost cs = match node_view(*node).children {
        Some(cs) => cs,
        None => Seq::<NodeV>::empty(),
    };
    let ghost specs = match oldv.children {
        Some(cs) => cs,
        None => Seq::<NodeV>::empty(),
    };
    proof {
        assert(cs =~= specs);
    }
    match &mut node.children {
        Some(children) => {
            assert(parts.deep_view()[k as int] == parts@[k as int]@);
            match find_child_index(children, &parts[k]) {
                Some(i) => {
                    let ghost before = children@;
                    proof {
                        lemma_nodes_view(before);
                    }
                    let child = vec_index_mut(children, i);
                    insert_from(child, parts, k + 1);
                    proof {
                        lemma_nodes_view(children@);
                        assert(nodes_view(children@) =~= nodes_view(before).update(
                            i as int,
                            node_view(children@[i as int]),
                        ));
                    }
                },
                None => {
                    let mut fresh = Node {
                        name: parts[k].clone(),
                        path: join_path(&node.path, &parts[k]),
                        children: None,
                    };
                    insert_from(&mut fresh, parts, k + 1);
                    let ghost before = children@;
                    children.push(fresh);
                    proof {
                        lemma_nodes_view(before);
                        lemma_nodes_view(children@);
                        assert(nodes_view(children@) =~= nodes_view(before).push(
                            node_view(children@.last()),
                        ));
                    }
                },
            }
        },
        None => {
            proof {
                assert(false);
            }
        },
    }
}

/// Folds one slash-separated path into the tree below `node`.
pub fn parse_node(node: &mut Node, path: &str)
    ensures
        node_view(*final(node)) == insert_segs(
            node_view(*old(node)),
            segments_of(path@),
            0,
        ),
{
    let parts = split_slash(path);
    insert_from(node, &parts, 0);
}

/// Folds a flat listing of slash-separated paths into one tree, rooted at a
/// node with empty name and path: each path contributes one leaf, and paths
/// that share leading segments share the nodes for them.
pub fn paths_to_structure(paths: &Vec<String>) -> (r: Node)
    ensures
        node_view(r) == tree_of_paths(paths.deep_view()),
{
    let mut root = Node { name: String::new(), path: String::new(), children: None };
    let ghost pv = paths.deep_view();
    proof {
        assert(node_view(root) =~= (NodeV {
            name: Seq::empty(),
            path: Seq::empty(),
            children: None,
        }));
    }
    let mut i: usize = 0;
    while i < paths.len()
        invariant
            0 <= i <= paths.len(),
            pv == paths.deep_view(),
            insert_paths(node_view(root), pv, i as int) == tree_of_paths(pv),
        decreases paths.len() - i,
    {
        assert(pv[i as int] == paths@[i as int]@);
        parse_node(&mut root, paths[i].as_str());
        i = i + 1;
    }
    root
}

/// Builds the tree for a listing whose root has the given name and path;
/// the root's children exist even when the listing is empty.
pub fn parse_structure(name: &str, path: &str, paths: &Vec<String>) -> (r: Node)
    ensures
        node_view(r) == insert_paths(
            (NodeV { name: name@, path: path@, children: Some(Seq::empty()) }),
            paths.deep_view(),
            0,
        ),
{
    let mut root = Node {
        name: name.to_owned(),
        path: path.to_owned(),
        children: Some(Vec::new()),
    };
    let ghost pv = paths.deep_view();
    proof {
        assert(nodes_view(Seq::<Node>::empty()) =~= Seq::<NodeV>::empty());
    }
    let mut i: usize = 0;
    while i < paths.len()
        invariant
            0 <= i <= paths.len(),
            pv == paths.deep_view(),
            insert_paths(node_view(root), pv, i as int) == insert_paths(
                (NodeV { name: name@, path: path@, children: Some(Seq::empty()) }),
                pv,
                0,
            ),
        decreases paths.len() - i,
    {
        assert(pv[i as int] == paths@[i as int]@);
        parse_node(&mut root, paths[i].as_str());
        i = i + 1;
    }
    root
}

// ---------------------------------------------------------------------------
// Video extensions
// ---------------------------------------------------------------------------

/// `s` ends with `suf`.
pub open spec fn has_suffix(s: Seq<char>, suf: Seq<char>) -> bool {
    s.len() >= suf.len() && s.subrange(s.len() - suf.len(), s.len() as int) == suf
}

/// Whether `s` ends with the characters of `suf`.
fn ends_with(s: &str, suf: &str) -> (r: bool)
    ensures
        r == has_suffix(s@, suf@),
{
    let n = s.unicode_len();
    let m = suf.unicode_len();
    if n < m {
        return false;
    }
    let mut k: usize = 0;
    while k < m
        invariant
            0 <= k <= m <= n,
            n == s@.len(),
            m == suf@.len(),
            forall|t: int| 0 <= t < k ==> s@[s@.len() - m + t] == suf@[t],
        decreases m - k,
    {
        if s.get_char(n - m + k) != suf.get_char(k) {
            assert(s@.subrange(s@.len() - m, s@.len() as int)[k as int] != suf@[k as int]);
            return false;
        }
        k = k + 1;
    }
    proof {
        assert(s@.subrange(s@.len() - m, s@.len() as int) =~= suf@);
    }
    true
}

/// The recognized video file extensions, with their leading dot.
pub open spec fn is_video_name(s: Seq<char>) -> bool {
    ||| has_suffix(s, ".swf"@)
    ||| has_suffix(s, ".avi"@)
    ||| has_suffix(s, ".flv"@)
    ||| has_suffix(s, ".mpg"@)
    ||| has_suffix(s, ".rm"@)
    ||| has_suffix(s, ".mov"@)
    ||| has_suffix(s, ".wav"@)
    ||| has_suffix(s, ".asf"@)
    ||| has_suffix(s, ".3gp"@)
    ||| has_suffix(s, ".mkv"@)
    ||| has_suffix(s, ".rmvb"@)
    ||| has_suffix(s, ".mp4"@)
}

/// Whether a path names a recognized video file, by its extension.
pub fn is_video_path(s: &str) -> (r: bool)
    ensures
        r == is_video_name(s@),
{
    ends_with(s, ".swf") || ends_with(s, ".avi") || ends_with(s, ".flv") || ends_with(s, ".mpg")
        || ends_with(s, ".rm") || ends_with(s, ".mov") || ends_with(s, ".wav") || ends_with(
        s,
        ".asf",
    ) || ends_with(s, ".3gp") || ends_with(s, ".mkv") || ends_with(s, ".rmvb") || ends_with(
        s,
        ".mp4",
    )
}

} // verus!
