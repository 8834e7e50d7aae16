//! A node of a filesystem-usage tree and the rules that fix its own size.
use core::cmp::Ordering;
use vstd::prelude::*;

use crate::extension::{counted, extension_counted, extension_of, path_extension};
use crate::text::{compare_text, flipped, text_cmp};

verus! {

/// What metadata reports for an entry: its size under the requested mode
/// (apparent or on disk) and, where the entry has one, its (inode, device) pair.
pub type Metadata = (u64, Option<(u64, u64)>);

/// One filesystem entry: its path, the size it accounts for by itself (not
/// summed over `children`), its already-built children, and the identity
/// used to collapse hard links.
#[derive(Debug, Eq)]
pub struct Node {
    pub name: String,
    pub size: u64,
    pub children: Vec<Node>,
    pub inode_device: Option<(u64, u64)>,
}

/// Deep structural equality: same path, same size, pairwise equal children.
/// The (inode, device) pair takes no part in it.
pub open spec fn same_node(a: Node, b: Node) -> bool
    decreases a,
{
    &&& a.name@ == b.name@
    &&& a.size == b.size
    &&& same_nodes(a.children@, b.children@)
}

/// Two sequences of nodes of one length, equal position by position.
pub open spec fn same_nodes(s: Seq<Node>, t: Seq<Node>) -> bool
    decreases s,
{
    &&& s.len() == t.len()
    &&& s.len() > 0 ==> {
        &&& same_node(s.last(), t.last())
        &&& same_nodes(s.drop_last(), t.drop_last())
    }
}

/// Whether two texts are the same characters.
fn same_text(a: &str, b: &str) -> (r: bool)
    ensures
        r == (a@ == b@),
{
    proof {
        crate::text::lemma_text_cmp_equal(a@, b@);
    }
    match compare_text(a, b) {
        Ordering::Equal => true,
        _ => false,
    }
}

proof fn lemma_same_nodes_index(s: Seq<Node>, t: Seq<Node>, i: int)
    requires
        same_nodes(s, t),
        0 <= i < s.len(),
    ensures
        same_node(s[i], t[i]),
    decreases s.len(),
{
    if i < s.len() - 1 {
        lemma_same_nodes_index(s.drop_last(), t.drop_last(), i);
    }
}

proof fn lemma_same_nodes_extend(s: Seq<Node>, t: Seq<Node>, i: int)
    requires
        0 <= i < s.len(),
        i < t.len(),
        same_nodes(s.take(i), t.take(i)),
        same_node(s[i], t[i]),
    ensures
        same_nodes(s.take(i + 1), t.take(i + 1)),
{
    assert(s.take(i + 1).drop_last() =~= s.take(i));
    assert(t.take(i + 1).drop_last() =~= t.take(i));
}

/// Compares two nodes deeply: path, size and every child in turn.
fn nodes_equal(a: &Node, b: &Node) -> (r: bool)
    ensures
        r == same_node(*a, *b),
    decreases a,
{
    if a.size != b.size || a.children.len() != b.children.len() {
        return false;
    }
    if !same_text(a.name.as_str(), b.name.as_str()) {
        return false;
    }
    let n = a.children.len();
    let mut i: usize = 0;
    proof {
        assert(a.children@.take(0) =~= Seq::<Node>::empty());
        assert(b.children@.take(0) =~= Seq::<Node>::empty());
    }
    while i < n
        invariant
            n == a.children@.len(),
            n == b.children@.len(),
            i <= n,
            same_nodes(a.children@.take(i as int), b.children@.take(i as int)),
        decreases n - i,
    {
        if !nodes_equal(&a.children[i], &b.children[i]) {
            proof {
                if same_nodes(a.children@, b.children@) {
                    lemma_same_nodes_index(a.children@, b.children@, i as int);
                }
            }
            return false;
        }
        proof {
            lemma_same_nodes_extend(a.children@, b.children@, i as int);
        }
        i = i + 1;
    }
    assert(a.children@.take(n as int) =~= a.children@);
    assert(b.children@.take(n as int) =~= b.children@);
    true
}

/// Copies a node with all of its children.
fn copy_node(a: &Node) -> (r: Node)
    ensures
        same_node(r, *a),
        r.inode_device == a.inode_device,
    decreases a,
{
    let n = a.children.len();
    let mut children: Vec<Node> = Vec::new();
    let mut i: usize = 0;
    assert(a.children@.take(0) =~= Seq::<Node>::empty());
    while i < n
        invariant
            n == a.children@.len(),
            i <= n,
            children@.len() == i,
            same_nodes(children@, a.children@.take(i as int)),
        decreases n - i,
    {
        let c = copy_node(&a.children[i]);
        let ghost before = children@;
        children.push(c);
        proof {
            assert(children@.drop_last() =~= before);
            assert(a.children@.take((i + 1) as int).drop_last() =~= a.children@.take(i as int));
        }
        i = i + 1;
    }
    assert(a.children@.take(n as int) =~= a.children@);
    Node { name: a.name.clone(), size: a.size, children, inode_device: a.inode_device }
}

impl Clone for Node {
    fn clone(&self) -> (r: Node)
        ensures
            same_node(r, *self),
            r.inode_device == self.inode_device,
    {
        copy_node(self)
    }
}

impl PartialEq for Node {
    fn eq(&self, other: &Node) -> (r: bool) {
        nodes_equal(self, other)
    }
}

impl vstd::std_specs::cmp::PartialEqSpecImpl for Node {
    open spec fn obeys_eq_spec() -> bool {
        true
    }

    open spec fn eq_spec(&self, other: &Node) -> bool {
        same_node(*self, *other)
    }
}

/// The order of nodes: by size, then by path text; children take no part.
pub open spec fn node_order(a: Node, b: Node) -> Ordering {
    if a.size < b.size {
        Ordering::Less
    } else if a.size > b.size {
        Ordering::Greater
    } else {
        text_cmp(a.name@, b.name@)
    }
}

impl Node {
    /// Orders by size, smaller first, and among equal sizes by path.
    pub fn cmp(&self, other: &Node) -> (r: Ordering)
        ensures
            r == node_order(*self, *other),
    {
        if self.size == other.size {
            compare_text(self.name.as_str(), other.name.as_str())
        } else if self.size < other.size {
            Ordering::Less
        } else {
            Ordering::Greater
        }
    }
}

impl PartialOrd for Node {
    fn partial_cmp(&self, other: &Node) -> (r: Option<Ordering>) {
        Some(self.cmp(other))
    }
}

impl vstd::std_specs::cmp::PartialOrdSpecImpl for Node {
    open spec fn obeys_partial_cmp_spec() -> bool {
        true
    }

    open spec fn partial_cmp_spec(&self, other: &Node) -> Option<Ordering> {
        Some(node_order(*self, *other))
    }
}

/// The size and identity that the mode rules give an entry, the first
/// matching rule winning: file-count mode counts one unit and keeps the
/// reported identity; a symlink outside apparent-size mode counts nothing and
/// has no identity; anything else takes what metadata reported.
pub open spec fn mode_entry(
    metadata: Metadata,
    use_apparent_size: bool,
    is_symlink: bool,
    by_filecount: bool,
) -> Metadata {
    if by_filecount {
        (1, metadata.1)
    } else if is_symlink && !use_apparent_size {
        (0, None)
    } else {
        metadata
    }
}

/// The size an entry accounts for: its mode size where the extension filter
/// keeps it, zero where the filter drops it.
pub open spec fn entry_size(
    allowed: Seq<String>,
    extension: Seq<char>,
    metadata: Metadata,
    use_apparent_size: bool,
    is_symlink: bool,
    by_filecount: bool,
) -> u64 {
    if counted(allowed, extension) {
        mode_entry(metadata, use_apparent_size, is_symlink, by_filecount).0
    } else {
        0
    }
}

/// Applies the mode rules to what metadata reported.
pub fn mode_size(
    metadata: Metadata,
    use_apparent_size: bool,
    is_symlink: bool,
    by_filecount: bool,
) -> (r: Metadata)
    ensures
        r == mode_entry(metadata, use_apparent_size, is_symlink, by_filecount),
{
    if by_filecount {
        (1, metadata.1)
    } else if is_symlink && !use_apparent_size {
        (0, None)
    } else {
        metadata
    }
}

/// Builds the node for `dir` from its metadata (`None` where it could not be
/// read) and its extension as already extracted.
pub fn node_with_extension(
    dir: String,
    extension: &str,
    children: Vec<Node>,
    filtered_extensions: &Vec<String>,
    use_apparent_size: bool,
    is_symlink: bool,
    by_filecount: bool,
    metadata: Option<Metadata>,
) -> (r: Option<Node>)
    ensures
        r is Some <==> metadata is Some,
        r is Some ==> r.unwrap().name@ == dir@,
        r is Some ==> r.unwrap().children@ == children@,
        r is Some ==> r.unwrap().size == entry_size(
            filtered_extensions@,
            extension@,
            metadata.unwrap(),
            use_apparent_size,
            is_symlink,
            by_filecount,
        ),
        r is Some ==> r.unwrap().inode_device == mode_entry(
            metadata.unwrap(),
            use_apparent_size,
            is_symlink,
            by_filecount,
        ).1,
{
    match metadata {
        Some(data) => {
            let (mut size, inode_device) = mode_size(
                data,
                use_apparent_size,
                is_symlink,
                by_filecount,
            );
            if !extension_counted(filtered_extensions, extension) {
                size = 0;
            }
            Some(Node { name: dir, size, children, inode_device })
        },
        None => None,
    }
}

/// Builds the node for the entry at `dir`, whose children are already built.
/// `metadata` is what the lookup for `dir` returned under the requested size
/// mode; `None` (the entry could not be read) yields no node.
pub fn build_node(
    dir: String,
    children: Vec<Node>,
    filtered_extensions: &Vec<String>,
    use_apparent_size: bool,
    is_symlink: bool,
    by_filecount: bool,
    metadata: Option<Metadata>,
) -> (r: Option<Node>)
    ensures
        r is Some <==> metadata is Some,
        r is Some ==> r.unwrap().name@ == dir@,
        r is Some ==> r.unwrap().children@ == children@,
        r is Some ==> r.unwrap().size == entry_size(
            filtered_extensions@,
            extension_of(dir@),
            metadata.unwrap(),
            use_apparent_size,
            is_symlink,
            by_filecount,
        ),
        r is Some ==> r.unwrap().inode_device == mode_entry(
            metadata.unwrap(),
            use_apparent_size,
            is_symlink,
            by_filecount,
        ).1,
        // File-count mode counts one unit, whatever the byte size.
        r is Some && by_filecount && counted(filtered_extensions@, extension_of(dir@))
            ==> r.unwrap().size == 1,
        // A symlink outside apparent-size mode counts nothing and has no identity.
        r is Some && !by_filecount && is_symlink && !use_apparent_size ==> {
            &&& r.unwrap().size == 0
            &&& r.unwrap().inode_device is None
        },
        // In apparent-size mode a symlink keeps its apparent size.
        r is Some && !by_filecount && is_symlink && use_apparent_size && counted(
            filtered_extensions@,
            extension_of(dir@),
        ) ==> r.unwrap().size == metadata.unwrap().0,
        // An extension the allow-list does not name zeroes the size, children kept.
        r is Some && !counted(filtered_extensions@, extension_of(dir@)) ==> {
            &&& r.unwrap().size == 0
            &&& r.unwrap().children@ == children@
        },
        // Without an allow-list the size is the one the mode rules gave.
        r is Some && filtered_extensions@.len() == 0 ==> r.unwrap().size == mode_entry(
            metadata.unwrap(),
            use_apparent_size,
            is_symlink,
            by_filecount,
        ).0,
{
    let extension = path_extension(dir.as_str());
    node_with_extension(
        dir,
        extension.as_str(),
        children,
        filtered_extensions,
        use_apparent_size,
        is_symlink,
        by_filecount,
        metadata,
    )
}

/// Every node equals itself.
pub proof fn lemma_same_node_reflexive(a: Node)
    ensures
        same_node(a, a),
    decreases a,
{
    lemma_same_nodes_reflexive(a.children@);
}

/// Every sequence of nodes equals itself, position by position.
pub proof fn lemma_same_nodes_reflexive(s: Seq<Node>)
    ensures
        same_nodes(s, s),
    decreases s,
{
    if s.len() > 0 {
        lemma_same_node_reflexive(s.last());
        lemma_same_nodes_reflexive(s.drop_last());
    }
}

/// A node before one that is before a third is before the third.
pub proof fn lemma_node_order_transitive(a: Node, b: Node, c: Node)
    requires
        node_order(a, b) == Ordering::Less,
        node_order(b, c) == Ordering::Less,
    ensures
        node_order(a, c) == Ordering::Less,
{
    if a.size == b.size && b.size == c.size {
        crate::text::lemma_text_cmp_transitive(a.name@, b.name@, c.name@);
    }
}

/// Nodes are ordered by size first: a smaller size comes first whatever the
/// paths; equal sizes fall back to the order of the paths. The order is
/// antisymmetric, calls two nodes equal exactly when size and path agree, and
/// nodes equal in size, path and children are equal.
pub proof fn lemma_node_order(a: Node, b: Node)
    ensures
        a.size < b.size ==> node_order(a, b) == Ordering::Less,
        a.size > b.size ==> node_order(a, b) == Ordering::Greater,
        a.size == b.size ==> node_order(a, b) == text_cmp(a.name@, b.name@),
        node_order(b, a) == flipped(node_order(a, b)),
        node_order(a, b) == Ordering::Equal <==> (a.size == b.size && a.name@ == b.name@),
        a.size == b.size && a.name@ == b.name@ && a.children@ == b.children@ ==> same_node(a, b),
{
    lemma_same_node_reflexive(a);
    crate::text::lemma_text_cmp_antisymmetric(a.name@, b.name@);
    crate::text::lemma_text_cmp_equal(a.name@, b.name@);
}

} // verus!
