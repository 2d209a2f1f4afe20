//! The inputs that `nix flake archive --json` reports, as a tree of plain
//! values, and the store paths collected from it in pre-order.
use crate::profile_cache::get_path;
use crate::strings::views;
use vstd::prelude::*;

verus! {

/// A node of the archive tree: its reported store path, if any, and the
/// positions of its inputs' nodes in the tree, each after its own.
#[derive(Debug, Clone)]
pub struct ArchiveNode {
    pub path: Option<String>,
    pub inputs: Vec<usize>,
}

/// A reported path without its `/nix/store/` prefix.
pub open spec fn stripped(p: Seq<char>) -> Seq<char> {
    if p.len() > 11 {
        p.subrange(11, p.len() as int)
    } else {
        p
    }
}

/// A node's own path, stripped, if it has one.
pub open spec fn own_path(n: ArchiveNode) -> Seq<Seq<char>> {
    match n.path {
        Some(p) => seq![stripped(p@)],
        None => Seq::<Seq<char>>::empty(),
    }
}

/// The paths under the first `m` inputs of node `i`, each input's own path
/// followed by those under it. An input that does not come after its parent
/// in the tree is not followed.
pub open spec fn inputs_paths(t: Seq<ArchiveNode>, i: int, m: int) -> Seq<Seq<char>>
    decreases t.len() - i, m,
{
    if !(0 <= i < t.len()) || m <= 0 || m > t[i].inputs@.len() {
        Seq::<Seq<char>>::empty()
    } else {
        let c = t[i].inputs@[m - 1] as int;
        inputs_paths(t, i, m - 1) + if i < c < t.len() {
            own_path(t[c]) + inputs_paths(t, c, t[c].inputs@.len() as int)
        } else {
            Seq::<Seq<char>>::empty()
        }
    }
}

/// The paths of node `i` and of all its inputs, in pre-order.
pub open spec fn node_paths(t: Seq<ArchiveNode>, i: int) -> Seq<Seq<char>> {
    if 0 <= i < t.len() {
        own_path(t[i]) + inputs_paths(t, i, t[i].inputs@.len() as int)
    } else {
        Seq::<Seq<char>>::empty()
    }
}

fn collect_paths(t: &Vec<ArchiveNode>, i: usize, out: &mut Vec<String>)
    requires
        i < t@.len(),
    ensures
        views(final(out)@) == views(old(out)@) + node_paths(t@, i as int),
    decreases t@.len() - i,
{
    let ghost start = views(out@);
    let node = &t[i];
    match &node.path {
        Some(p) => out.push(get_path(p.as_str())),
        None => {},
    }
    proof {
        assert(views(out@) =~= start + own_path(t@[i as int]));
    }
    let mut m: usize = 0;
    while m < node.inputs.len()
        invariant
            i < t@.len(),
            node == &t@[i as int],
            m <= node.inputs@.len(),
            views(out@) == start + own_path(t@[i as int]) + inputs_paths(t@, i as int, m as int),
        decreases node.inputs@.len() - m,
    {
        let c = node.inputs[m];
        let ghost before = views(out@);
        if i < c && c < t.len() {
            collect_paths(t, c, out);
        }
        proof {
            assert(inputs_paths(t@, i as int, m + 1) == inputs_paths(t@, i as int, m as int) + if i < c < t@.len() {
                own_path(t@[c as int]) + inputs_paths(t@, c as int, t@[c as int].inputs@.len() as int)
            } else {
                Seq::<Seq<char>>::empty()
            });
            assert(views(out@) =~= start + own_path(t@[i as int]) + inputs_paths(t@, i as int, m + 1));
        }
        m = m + 1;
    }
}

/// The store directories of the root (the first node) and of all its inputs,
/// each without its `/nix/store/` prefix, in pre-order: a node, then each of
/// its inputs in turn.
pub fn get_paths_from_doc(nodes: &Vec<ArchiveNode>) -> (r: Vec<String>)
    ensures
        views(r@) == node_paths(nodes@, 0),
{
    let mut out: Vec<String> = Vec::new();
    if nodes.len() > 0 {
        collect_paths(nodes, 0, &mut out);
        proof {
            assert(views(out@) =~= Seq::<Seq<char>>::empty() + node_paths(nodes@, 0));
        }
    } else {
        proof {
            assert(views(out@) =~= node_paths(nodes@, 0));
        }
    }
    out
}

} // verus!
