//! Expansion of a directory tree into manifest entries mirrored under a destination prefix.

use vstd::prelude::*;
use crate::error::{ErrorModel, SpecError};
use crate::package::{entries_model, entry_model, file_entry, FileEntry, FileEntryModel, FileRole};
use crate::text::slice_chars;

verus! {

/// One entry of a directory listing, as read from the file system.
#[derive(Debug)]
pub enum DirNode {
    /// A regular file (or anything else that is neither a directory nor a link).
    File { name: String, path: String },
    /// A symbolic link and the path it designates, followed one level only.
    Symlink { name: String, target: String },
    /// A directory and its own listing.
    Dir { name: String, path: String, children: Vec<DirNode> },
}

impl DirNode {
    /// The entry's own file name.
    pub open spec fn name_of(&self) -> Seq<char> {
        match self {
            DirNode::File { name, .. } => name@,
            DirNode::Symlink { name, .. } => name@,
            DirNode::Dir { name, .. } => name@,
        }
    }

    /// The path that is read for this entry: a link's target, else the entry itself.
    pub open spec fn source_of(&self) -> Seq<char> {
        match self {
            DirNode::File { path, .. } => path@,
            DirNode::Symlink { target, .. } => target@,
            DirNode::Dir { path, .. } => path@,
        }
    }
}

/// `name` appended to `prefix` as a further path component.
pub open spec fn join_path(prefix: Seq<char>, name: Seq<char>) -> Seq<char> {
    if prefix.len() == 0 {
        name
    } else if prefix.last() == '/' {
        prefix + name
    } else {
        prefix + seq!['/'] + name
    }
}

/// The length of `p` once trailing `/` are dropped from its first `i` characters.
pub open spec fn trimmed_end(p: Seq<char>, i: int) -> int
    decreases i,
{
    if 0 < i <= p.len() && p[i - 1] == '/' {
        trimmed_end(p, i - 1)
    } else {
        i
    }
}

/// Where the component that ends at `i` starts.
pub open spec fn component_start(p: Seq<char>, i: int) -> int
    decreases i,
{
    if 0 < i <= p.len() && p[i - 1] != '/' {
        component_start(p, i - 1)
    } else {
        i
    }
}

/// The last component of a path, trailing separators ignored.
pub open spec fn last_component(p: Seq<char>) -> Seq<char> {
    let e = trimmed_end(p, p.len() as int);
    p.subrange(component_start(p, e), e)
}

/// A path names a file when its last component is neither empty, `.` nor `..`.
pub open spec fn has_file_name(p: Seq<char>) -> bool {
    let c = last_component(p);
    c.len() > 0 && c != seq!['.'] && c != seq!['.', '.']
}

/// The entries one listing entry contributes under `dest`, depth first.
pub open spec fn expand_node(n: DirNode, dest: Seq<char>) -> Result<Seq<FileEntryModel>, ErrorModel>
    decreases n,
{
    if !has_file_name(n.source_of()) {
        Err(ErrorModel::MissingFileName { path: n.source_of() })
    } else {
        match n {
            DirNode::Dir { name, children, .. } => expand_nodes(
                children@,
                join_path(dest, name@),
            ),
            _ => Ok(
                seq![entry_model(n.source_of(), join_path(dest, n.name_of()), FileRole::Plain)],
            ),
        }
    }
}

/// The entries a listing contributes under `dest`, in listing order; the first failure wins.
pub open spec fn expand_nodes(ns: Seq<DirNode>, dest: Seq<char>) -> Result<
    Seq<FileEntryModel>,
    ErrorModel,
>
    decreases ns,
{
    if ns.len() == 0 {
        Ok(Seq::empty())
    } else {
        match expand_nodes(ns.subrange(0, ns.len() - 1), dest) {
            Err(e) => Err(e),
            Ok(front) => match expand_node(ns[ns.len() - 1], dest) {
                Err(e) => Err(e),
                Ok(back) => Ok(front + back),
            },
        }
    }
}

/// A failure within the first `k` entries of a listing is the failure of the whole listing.
proof fn lemma_prefix_failure(ns: Seq<DirNode>, k: int, dest: Seq<char>)
    requires
        0 <= k <= ns.len(),
        expand_nodes(ns.subrange(0, k), dest) is Err,
    ensures
        expand_nodes(ns, dest) == expand_nodes(ns.subrange(0, k), dest),
    decreases ns.len(),
{
    if k == ns.len() {
        assert(ns.subrange(0, k) =~= ns);
    } else {
        let front = ns.subrange(0, ns.len() - 1);
        assert(front.subrange(0, k) =~= ns.subrange(0, k));
        lemma_prefix_failure(front, k, dest);
    }
}

/// Appends `name` to `prefix` as a further path component.
pub fn join_path_exec(prefix: &str, name: &str) -> (r: String)
    ensures
        r@ == join_path(prefix@, name@),
{
    let n = prefix.unicode_len();
    let mut out = prefix.to_owned();
    if n > 0 && prefix.get_char(n - 1) != '/' {
        proof {
            reveal_strlit("/");
        }
        out.append("/");
    }
    out.append(name);
    out
}

/// Whether the path names a file: its last component is neither empty, `.` nor `..`.
pub fn names_a_file(p: &str) -> (r: bool)
    ensures
        r == has_file_name(p@),
{
    let n = p.unicode_len();
    let mut e = n;
    while e > 0 && p.get_char(e - 1) == '/'
        invariant
            n == p@.len(),
            e <= n,
            trimmed_end(p@, e as int) == trimmed_end(p@, n as int),
        decreases e,
    {
        e -= 1;
    }
    let mut s = e;
    while s > 0 && p.get_char(s - 1) != '/'
        invariant
            n == p@.len(),
            s <= e <= n,
            trimmed_end(p@, n as int) == e,
            component_start(p@, s as int) == component_start(p@, e as int),
        decreases s,
    {
        s -= 1;
    }
    let ghost c = p@.subrange(s as int, e as int);
    assert(c == last_component(p@));
    let len = e - s;
    if len == 0 {
        false
    } else if len == 1 {
        let dot = p.get_char(s) == '.';
        assert(c.len() == 1 && c[0] == p@[s as int]);
        if dot {
            assert(c =~= seq!['.']);
        } else {
            assert(c[0] != seq!['.'][0]);
        }
        assert(c != seq!['.', '.']);
        !dot
    } else if len == 2 {
        let dots = p.get_char(s) == '.' && p.get_char(s + 1) == '.';
        assert(c.len() == 2 && c[0] == p@[s as int] && c[1] == p@[s + 1]);
        if dots {
            assert(c =~= seq!['.', '.']);
        } else {
            assert(c[0] != seq!['.', '.'][0] || c[1] != seq!['.', '.'][1]);
        }
        assert(c != seq!['.']);
        !dots
    } else {
        assert(c != seq!['.']);
        assert(c != seq!['.', '.']);
        true
    }
}

/// Expands one listing entry under `dest`.
pub fn expand_entry(node: &DirNode, dest: &str) -> (r: Result<Vec<FileEntry>, SpecError>)
    ensures
        match r {
            Ok(v) => expand_node(*node, dest@) == Ok::<_, ErrorModel>(entries_model(v@)),
            Err(e) => expand_node(*node, dest@) == Err::<Seq<FileEntryModel>, _>(e@),
        },
    decreases node,
{
    let source = match node {
        DirNode::File { path, .. } => path,
        DirNode::Symlink { target, .. } => target,
        DirNode::Dir { path, .. } => path,
    };
    if !names_a_file(source.as_str()) {
        return Err(SpecError::MissingFileName { path: source.clone() });
    }
    match node {
        DirNode::Dir { name, children, .. } => {
            let inner = join_path_exec(dest, name.as_str());
            expand_directory(children, inner.as_str())
        },
        DirNode::File { name, .. } | DirNode::Symlink { name, .. } => {
            let target = join_path_exec(dest, name.as_str());
            let entry = file_entry(source.clone(), target, FileRole::Plain);
            let mut v: Vec<FileEntry> = Vec::new();
            v.push(entry);
            assert(entries_model(v@) =~= seq![entry@]);
            Ok(v)
        },
    }
}

/// Expands a directory listing under the destination prefix `dest`: every file and link
/// becomes one plain entry whose destination mirrors its place in the tree, every directory
/// is expanded in place; a source path without a file name stops the expansion.
pub fn expand_directory(nodes: &Vec<DirNode>, dest: &str) -> (r: Result<Vec<FileEntry>, SpecError>)
    ensures
        match r {
            Ok(v) => expand_nodes(nodes@, dest@) == Ok::<_, ErrorModel>(entries_model(v@)),
            Err(e) => expand_nodes(nodes@, dest@) == Err::<Seq<FileEntryModel>, _>(e@),
        },
    decreases nodes,
{
    let mut out: Vec<FileEntry> = Vec::new();
    let mut i: usize = 0;
    assert(nodes@.subrange(0, 0) =~= Seq::<DirNode>::empty());
    assert(entries_model(out@) =~= Seq::<FileEntryModel>::empty());
    while i < nodes.len()
        invariant
            i <= nodes@.len(),
            expand_nodes(nodes@.subrange(0, i as int), dest@) == Ok::<_, ErrorModel>(
                entries_model(out@),
            ),
        decreases nodes.len() - i,
    {
        let ghost next = nodes@.subrange(0, i + 1);
        assert(next.subrange(0, i as int) =~= nodes@.subrange(0, i as int));
        assert(next[i as int] == nodes@[i as int]);
        proof {
            broadcast use vstd::std_specs::vec::axiom_vec_index_decreases;
        }
        match expand_entry(&nodes[i], dest) {
            Err(e) => {
                proof {
                    lemma_prefix_failure(nodes@, i + 1, dest@);
                }
                return Err(e);
            },
            Ok(mut sub) => {
                let ghost front = out@;
                let ghost back = sub@;
                out.append(&mut sub);
                assert(entries_model(out@) =~= entries_model(front) + entries_model(back));
            },
        }
        i += 1;
    }
    assert(nodes@.subrange(0, nodes@.len() as int) =~= nodes@);
    Ok(out)
}

} // verus!
