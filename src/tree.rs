use vstd::prelude::*;
use vstd::string::*;

use crate::chunk::ChunkInfo;
use crate::manager::{id_index, lemma_id_index_prefix, lemma_id_index_push};
use crate::types::WhiteoutSpec;

verus! {

/// How a node relates to the layers below it.
#[derive(Clone, Copy, Debug, PartialEq, Eq, Structural)]
pub enum Overlay {
    Lower,
    UpperAddition,
    UpperModification,
}

/// Kind of an OCI whiteout entry.
#[derive(Clone, Copy, Debug, PartialEq, Eq, Structural)]
pub enum WhiteoutType {
    /// `.wh.<name>`: removes `<name>` and everything under it.
    Removal,
    /// `.wh..wh..opq`: removes everything under the directory holding it.
    Opaque,
}

/// One file-system entry of an image layer.
#[derive(Clone, Debug)]
pub struct Node {
    /// Absolute path inside the image.
    pub path: String,
    /// Index of the layer the node comes from.
    pub layer_idx: u16,
    pub overlay: Overlay,
    /// The file's data chunks.
    pub chunks: Vec<ChunkInfo>,
}

/// Index of the last `/` in `p`, or -1.
pub open spec fn last_slash(p: Seq<char>) -> int
    decreases p.len(),
{
    if p.len() == 0 {
        -1
    } else if p.last() == '/' {
        p.len() - 1
    } else {
        last_slash(p.drop_last())
    }
}

/// The path up to and including its last `/`.
pub open spec fn dir_prefix(p: Seq<char>) -> Seq<char> {
    p.subrange(0, last_slash(p) + 1)
}

/// The last component of a path.
pub open spec fn base_name(p: Seq<char>) -> Seq<char> {
    p.subrange(last_slash(p) + 1, p.len() as int)
}

pub open spec fn is_opaque_name(b: Seq<char>) -> bool {
    b == seq!['.', 'w', 'h', '.', '.', 'w', 'h', '.', '.', 'o', 'p', 'q']
}

pub open spec fn has_whiteout_prefix(b: Seq<char>) -> bool {
    b.len() >= 4 && b[0] == '.' && b[1] == 'w' && b[2] == 'h' && b[3] == '.'
}

/// The OCI whiteout kind a path denotes, if any.
pub open spec fn oci_whiteout(p: Seq<char>) -> Option<WhiteoutType> {
    if is_opaque_name(base_name(p)) {
        Some(WhiteoutType::Opaque)
    } else if has_whiteout_prefix(base_name(p)) {
        Some(WhiteoutType::Removal)
    } else {
        None
    }
}

/// The path a removal whiteout removes: its own path without the prefix.
pub open spec fn whiteout_target(p: Seq<char>) -> Seq<char> {
    dir_prefix(p) + base_name(p).subrange(4, base_name(p).len() as int)
}

/// `q` is `t` or lies under directory `t`.
pub open spec fn is_under(q: Seq<char>, t: Seq<char>) -> bool {
    q == t || (q.len() > t.len() && q.subrange(0, t.len() as int) == t && q[t.len() as int] == '/')
}

/// `q` lies strictly inside the directory prefix `d` (which ends in `/`).
pub open spec fn is_inside(q: Seq<char>, d: Seq<char>) -> bool {
    q.len() > d.len() && q.subrange(0, d.len() as int) == d
}

/// Whether applying whiteout `w` removes path `q`.
pub open spec fn removed_by(q: Seq<char>, w: Seq<char>) -> bool {
    match oci_whiteout(w) {
        Some(WhiteoutType::Opaque) => is_inside(q, dir_prefix(w)),
        Some(WhiteoutType::Removal) => is_under(q, whiteout_target(w)),
        None => false,
    }
}

pub open spec fn node_paths(nodes: Seq<Node>) -> Seq<Seq<char>> {
    nodes.map_values(|n: Node| n.path@)
}

/// The nodes after applying `node` under OCI rules: a whiteout removes what
/// it shadows and is not kept; any other node replaces the node with its path,
/// or is appended.
pub open spec fn apply_oci(nodes: Seq<Node>, node: Node) -> Seq<Node> {
    if oci_whiteout(node.path@) is Some {
        nodes.filter(|n: Node| !removed_by(n.path@, node.path@))
    } else {
        match id_index(node_paths(nodes), node.path@) {
            Some(i) => nodes.update(i as int, node),
            None => nodes.push(node),
        }
    }
}

pub(crate) fn char_at(s: &str, i: usize) -> (c: char)
    requires
        i < s@.len(),
    ensures
        c == s@[i as int],
{
    s.get_char(i)
}

pub(crate) fn last_slash_of(s: &str) -> (r: Option<usize>)
    ensures
        r is None ==> last_slash(s@) == -1,
        r matches Some(i) ==> last_slash(s@) == i && i < s@.len(),
{
    let n = s.unicode_len();
    let mut i: usize = n;
    assert(s@.subrange(0, n as int) =~= s@);
    while i > 0
        invariant
            i <= n,
            n == s@.len(),
            last_slash(s@) == last_slash(s@.subrange(0, i as int)),
        decreases i,
    {
        proof {
            assert(s@.subrange(0, i as int).drop_last() =~= s@.subrange(0, i - 1));
        }
        if char_at(s, i - 1) == '/' {
            return Some(i - 1);
        }
        i = i - 1;
    }
    None
}

impl Node {
    /// The whiteout kind of this node under `spec`; only OCI whiteouts are
    /// recognized, by name.
    pub fn whiteout_type(&self, spec: WhiteoutSpec) -> (r: Option<WhiteoutType>)
        ensures
            spec == WhiteoutSpec::Oci ==> r == oci_whiteout(self.path@),
            spec != WhiteoutSpec::Oci ==> r is None,
    {
        if spec != WhiteoutSpec::Oci {
            return None;
        }
        let p = self.path.as_str();
        let n = p.unicode_len();
        let start: usize = match last_slash_of(p) {
            Some(i) => i + 1,
            None => 0,
        };
        let ghost b = base_name(p@);
        assert(b.len() == n - start);
        if n - start == 12 {
            let mut i: usize = 0;
            let mut same = true;
            let opq = ".wh..wh..opq";
            proof {
                reveal_strlit(".wh..wh..opq");
            }
            while i < 12
                invariant
                    i <= 12,
                    n == p@.len(),
                    start + 12 == n,
                    opq@ == seq!['.', 'w', 'h', '.', '.', 'w', 'h', '.', '.', 'o', 'p', 'q'],
                    b == p@.subrange(start as int, n as int),
                    same == (forall|k: int| 0 <= k < i ==> b[k] == opq@[k]),
                decreases 12 - i,
            {
                let c = char_at(p, start + i);
                assert(c == b[i as int]);
                if c != char_at(opq, i) {
                    same = false;
                }
                i = i + 1;
            }
            if same {
                assert(b =~= opq@);
                return Some(WhiteoutType::Opaque);
            }
            assert(!is_opaque_name(b)) by {
                if is_opaque_name(b) {
                    assert(forall|k: int| 0 <= k < 12 ==> b[k] == opq@[k]);
                }
            }
        }
        if n - start >= 4 && char_at(p, start) == '.' && char_at(p, start + 1) == 'w' && char_at(
            p,
            start + 2,
        ) == 'h' && char_at(p, start + 3) == '.' {
            Some(WhiteoutType::Removal)
        } else {
            None
        }
    }
}

fn has_prefix(q: &str, d: &str) -> (r: bool)
    ensures
        r == (d@.len() <= q@.len() && q@.subrange(0, d@.len() as int) == d@),
{
    let qn = q.unicode_len();
    let dn = d.unicode_len();
    if dn > qn {
        return false;
    }
    let mut i: usize = 0;
    while i < dn
        invariant
            i <= dn,
            dn <= qn,
            qn == q@.len(),
            dn == d@.len(),
            q@.subrange(0, i as int) == d@.subrange(0, i as int),
        decreases dn - i,
    {
        if char_at(q, i) != char_at(d, i) {
            assert(q@.subrange(0, dn as int)[i as int] != d@[i as int]);
            return false;
        }
        assert(q@.subrange(0, i + 1) =~= q@.subrange(0, i as int).push(q@[i as int]));
        assert(d@.subrange(0, i + 1) =~= d@.subrange(0, i as int).push(d@[i as int]));
        i = i + 1;
    }
    assert(d@.subrange(0, dn as int) =~= d@);
    true
}

fn is_under_exec(q: &str, t: &str) -> (r: bool)
    ensures
        r == is_under(q@, t@),
{
    if q.to_owned() == t.to_owned() {
        return true;
    }
    let qn = q.unicode_len();
    let tn = t.unicode_len();
    qn > tn && has_prefix(q, t) && char_at(q, tn) == '/'
}

/// What a whiteout removes, in executable form.
enum Removal {
    Inside(String),
    Under(String),
}

impl Removal {
    spec fn matches_whiteout(&self, w: Seq<char>) -> bool {
        match self {
            Removal::Inside(d) => oci_whiteout(w) == Some(WhiteoutType::Opaque) && d@ == dir_prefix(w),
            Removal::Under(t) => oci_whiteout(w) == Some(WhiteoutType::Removal) && t@
                == whiteout_target(w),
        }
    }

    fn removes(&self, q: &str) -> (r: bool)
        ensures
            forall|w: Seq<char>| self.matches_whiteout(w) ==> r == removed_by(q@, w),
    {
        match self {
            Removal::Inside(d) => q.unicode_len() > d.as_str().unicode_len() && has_prefix(q, d.as_str()),
            Removal::Under(t) => is_under_exec(q, t.as_str()),
        }
    }
}

/// The file tree of a merged image: nodes with distinct paths.
pub struct Tree {
    nodes: Vec<Node>,
}

impl Tree {
    pub closed spec fn nodes(&self) -> Seq<Node> {
        self.nodes@
    }

    /// A tree holding `nodes` as they are: the tree of the lowest layer.
    pub fn from_nodes(nodes: Vec<Node>) -> (r: Self)
        ensures
            r.nodes() == nodes@,
    {
        Tree { nodes }
    }

    /// The paths of the nodes, in order.
    pub fn paths(&self) -> (r: Vec<String>)
        ensures
            r@.len() == self.nodes().len(),
            forall|i: int| 0 <= i < r@.len() ==> r@[i]@ == self.nodes()[i].path@,
    {
        let mut r: Vec<String> = Vec::new();
        let mut i: usize = 0;
        while i < self.nodes.len()
            invariant
                i <= self.nodes@.len(),
                r@.len() == i,
                forall|k: int| 0 <= k < i ==> r@[k]@ == self.nodes@[k].path@,
            decreases self.nodes.len() - i,
        {
            r.push(self.nodes[i].path.clone());
            i = i + 1;
        }
        r
    }

    /// The nodes, in order.
    pub fn get_nodes(&self) -> (r: &Vec<Node>)
        ensures
            r@ == self.nodes(),
    {
        &self.nodes
    }

    fn removal_of(node: &Node, wt: WhiteoutType) -> (r: Removal)
        requires
            oci_whiteout(node.path@) == Some(wt),
        ensures
            r.matches_whiteout(node.path@),
    {
        let p = node.path.as_str();
        let n = p.unicode_len();
        let start: usize = match last_slash_of(p) {
            Some(i) => i + 1,
            None => 0,
        };
        let dir = p.substring_char(0, start).to_owned();
        match wt {
            WhiteoutType::Opaque => Removal::Inside(dir),
            WhiteoutType::Removal => {
                let name = p.substring_char(start + 4, n);
                let target = dir.concat(name);
                assert(base_name(p@).subrange(4, base_name(p@).len() as int) =~= p@.subrange(
                    start + 4,
                    n as int,
                ));
                Removal::Under(target)
            },
        }
    }

    /// Applies an upper-layer node under `whiteout_spec`. Under OCI rules a
    /// whiteout removes what it shadows and is itself dropped; any other node
    /// replaces the node with its path, or is appended.
    pub fn apply(&mut self, node: Node, whiteout_spec: WhiteoutSpec)
        ensures
            whiteout_spec == WhiteoutSpec::Oci ==> final(self).nodes() == apply_oci(
                old(self).nodes(),
                node,
            ),
            whiteout_spec != WhiteoutSpec::Oci ==> final(self).nodes() == match id_index(
                node_paths(old(self).nodes()),
                node.path@,
            ) {
                Some(i) => old(self).nodes().update(i as int, node),
                None => old(self).nodes().push(node),
            },
    {
        let ghost orig = self.nodes@;
        match node.whiteout_type(whiteout_spec) {
            Some(wt) => {
                let removal = Self::removal_of(&node, wt);
                let ghost w = node.path@;
                let ghost pred = |n: Node| !removed_by(n.path@, w);
                let mut rest: Vec<Node> = Vec::new();
                core::mem::swap(&mut rest, &mut self.nodes);
                let mut kept: Vec<Node> = Vec::new();
                let ghost mut i: int = 0;
                assert(orig.take(0) =~= Seq::<Node>::empty());
                assert(orig.skip(0) =~= orig);
                while rest.len() > 0
                    invariant
                        0 <= i <= orig.len(),
                        rest@ == orig.skip(i),
                        kept@ == orig.take(i).filter(pred),
                        removal.matches_whiteout(w),
                        w == node.path@,
                        orig == old(self).nodes(),
                        pred == (|n: Node| !removed_by(n.path@, w)),
                    decreases rest.len(),
                {
                    let n = rest.remove(0);
                    proof {
                        reveal(Seq::filter);
                        assert(n == orig[i]);
                        assert(orig.take(i + 1).drop_last() =~= orig.take(i));
                        assert(orig.take(i + 1).last() == orig[i]);
                        assert(rest@ =~= orig.skip(i + 1));
                    }
                    let rm = removal.removes(n.path.as_str());
                    proof {
                        assert(rm == removed_by(n.path@, w));
                        assert(pred(n) == !rm);
                        let t = orig.take(i + 1);
                        assert(t.drop_last() =~= orig.take(i));
                        reveal(Seq::filter);
                        assert(t.filter(pred) == if pred(t.last()) {
                            t.drop_last().filter(pred).push(t.last())
                        } else {
                            t.drop_last().filter(pred)
                        });
                    }
                    if !rm {
                        kept.push(n);
                    }
                    proof {
                        i = i + 1;
                    }
                }
                assert(orig.take(i) =~= orig);
                self.nodes = kept;
            },
            None => {
                let mut i: usize = 0;
                let ghost paths = node_paths(orig);
                while i < self.nodes.len()
                    invariant
                        self.nodes@ == orig,
                        orig == old(self).nodes(),
                        whiteout_spec == WhiteoutSpec::Oci ==> oci_whiteout(node.path@) is None,
                        paths == node_paths(orig),
                        i <= orig.len(),
                        id_index(paths.take(i as int), node.path@) is None,
                    decreases self.nodes.len() - i,
                {
                    proof {
                        lemma_id_index_push(paths.take(i as int), orig[i as int].path@, node.path@);
                        assert(paths.take(i as int).push(orig[i as int].path@) =~= paths.take(i + 1));
                    }
                    if self.nodes[i].path == node.path {
                        proof {
                            assert(paths[i as int] == node.path@);
                            assert(id_index(paths.take(i + 1), node.path@) == Some(i as nat));
                            lemma_id_index_prefix(paths, (i + 1) as nat, node.path@);
                            assert(id_index(paths, node.path@) == Some(i as nat));
                        }
                        self.nodes.set(i, node);
                        assert(self.nodes@ == orig.update(i as int, node));
                        return;
                    }
                    i = i + 1;
                }
                assert(paths.take(i as int) =~= paths);
                self.nodes.push(node);
            },
        }
    }
}

} // verus!
