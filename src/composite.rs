//! A tree of files and folders, searched as a whole through one interface.
use vstd::prelude::*;

verus! {

/// A file: a leaf of the tree.
pub struct File {
    pub name: String,
}

/// A folder: an inner node holding files and folders in the order added.
pub struct Folder {
    pub name: String,
    pub children: Vec<Node>,
}

/// A member of a folder.
pub enum Node {
    File(File),
    Folder(Folder),
}

/// One step of a search: the component looked into.
pub struct Visit {
    pub is_folder: bool,
    pub name: String,
}

impl DeepView for Visit {
    type V = (bool, Seq<char>);

    open spec fn deep_view(&self) -> (bool, Seq<char>) {
        (self.is_folder, self.name@)
    }
}

/// The components a search looks into, in order: a node itself, then, for a
/// folder, what each child's search looks into.
pub open spec fn node_visits(n: Node) -> Seq<(bool, Seq<char>)>
    decreases n,
{
    match n {
        Node::File(f) => seq![(false, f.name@)],
        Node::Folder(d) => seq![(true, d.name@)] + nodes_visits(d.children@),
    }
}

/// The visits of a sequence of nodes, one node after the other.
pub open spec fn nodes_visits(ns: Seq<Node>) -> Seq<(bool, Seq<char>)>
    decreases ns,
{
    if ns.len() == 0 {
        Seq::empty()
    } else {
        nodes_visits(ns.drop_last()) + node_visits(ns.last())
    }
}

/// Something that can be searched, and placed into a folder.
pub trait Component {
    /// The node this component becomes inside a folder.
    spec fn spec_node(&self) -> Node;

    /// Lists the components looked into when searching for `keyword`.
    fn search(&self, keyword: &str) -> (r: Vec<Visit>)
        ensures
            r.deep_view() == node_visits(self.spec_node()),
    ;

    fn into_node(self) -> (n: Node)
        ensures
            n == self.spec_node(),
    ;
}

fn visit_node(n: &Node, out: &mut Vec<Visit>)
    ensures
        final(out).deep_view() == old(out).deep_view() + node_visits(*n),
    decreases *n, 1nat,
{
    match n {
        Node::File(f) => {
            let ghost before = out.deep_view();
            out.push(Visit { is_folder: false, name: f.name.clone() });
            assert(out.deep_view() =~= before + node_visits(*n));
        },
        Node::Folder(d) => {
            visit_folder(d, out);
        },
    }
}

fn visit_folder(d: &Folder, out: &mut Vec<Visit>)
    ensures
        final(out).deep_view() == old(out).deep_view() + node_visits(Node::Folder(*d)),
    decreases *d, 0nat,
{
    let ghost before = out.deep_view();
    out.push(Visit { is_folder: true, name: d.name.clone() });
    assert(out.deep_view() =~= before + seq![(true, d.name@)]);
    let mut i: usize = 0;
    while i < d.children.len()
        invariant
            i <= d.children@.len(),
            out.deep_view() == before + seq![(true, d.name@)] + nodes_visits(
                d.children@.subrange(0, i as int),
            ),
        decreases d.children@.len() - i,
    {
        let ghost mid = out.deep_view();
        assert(decreases_to!(*d => d.children@[i as int]));
        visit_node(&d.children[i], out);
        let ghost s = d.children@.subrange(0, i as int + 1);
        assert(s.drop_last() =~= d.children@.subrange(0, i as int));
        assert(mid + node_visits(d.children@[i as int]) =~= before + seq![(true, d.name@)]
            + nodes_visits(s));
        i = i + 1;
    }
    assert(d.children@.subrange(0, i as int) =~= d.children@);
    assert(out.deep_view() =~= before + node_visits(Node::Folder(*d)));
}

impl Component for Node {
    open spec fn spec_node(&self) -> Node {
        *self
    }

    fn search(&self, _keyword: &str) -> (r: Vec<Visit>) {
        let mut out: Vec<Visit> = Vec::new();
        visit_node(self, &mut out);
        assert(out.deep_view() =~= node_visits(*self));
        out
    }

    fn into_node(self) -> (n: Node) {
        self
    }
}

impl File {
    /// A file of the given name.
    pub fn new(name: &str) -> (r: File)
        ensures
            r.name@ == name@,
    {
        File { name: name.to_owned() }
    }
}

impl Component for File {
    open spec fn spec_node(&self) -> Node {
        Node::File(*self)
    }

    fn search(&self, _keyword: &str) -> (r: Vec<Visit>) {
        let mut out: Vec<Visit> = Vec::new();
        out.push(Visit { is_folder: false, name: self.name.clone() });
        assert(out.deep_view() =~= node_visits(self.spec_node()));
        out
    }

    fn into_node(self) -> (n: Node) {
        Node::File(self)
    }
}

impl Folder {
    /// An empty folder of the given name.
    pub fn new(name: &str) -> (r: Folder)
        ensures
            r.name@ == name@,
            r.children@ == Seq::<Node>::empty(),
    {
        Folder { name: name.to_owned(), children: Vec::new() }
    }

    /// Adds a component after the ones already there.
    pub fn add_component<C: Component>(&mut self, component: C)
        ensures
            final(self).name == old(self).name,
            final(self).children@ == old(self).children@.push(component.spec_node()),
    {
        let node = component.into_node();
        self.children.push(node);
    }
}

impl Component for Folder {
    open spec fn spec_node(&self) -> Node {
        Node::Folder(*self)
    }

    fn search(&self, _keyword: &str) -> (r: Vec<Visit>) {
        let mut out: Vec<Visit> = Vec::new();
        visit_folder(self, &mut out);
        assert(out.deep_view() =~= node_visits(self.spec_node()));
        out
    }

    fn into_node(self) -> (n: Node) {
        Node::Folder(self)
    }
}

} // verus!
