//! A plain model of one rendered page's markup.
//!
//! The page is a flat sequence of nodes in document order (preorder),
//! each carrying its tag name, its class list, its own text fragment,
//! and the end of its subtree's index range. The HTML parser that
//! produces this model lives outside the library; everything the
//! scraper reads from a page is expressed over this model.

use vstd::prelude::*;

use crate::text::{append_copy, bytes_eq};

verus! {

/// One node of a page: an element (tag name and classes) or a text
/// fragment (empty name, text set). The nodes of its subtree are
/// exactly the indices in `(index, end)`.
#[derive(Debug)]
pub struct Node {
    /// Tag name; empty for a text node.
    pub name: Vec<u8>,
    /// The class names of an element.
    pub classes: Vec<Vec<u8>>,
    /// The node's own text fragment.
    pub text: Vec<u8>,
    /// One past the last index of this node's subtree.
    pub end: usize,
}

/// The mathematical value of a [`Node`].
pub struct NodeModel {
    pub name: Seq<u8>,
    pub classes: Seq<Seq<u8>>,
    pub text: Seq<u8>,
    pub end: int,
}

impl View for Node {
    type V = NodeModel;

    open spec fn view(&self) -> NodeModel {
        NodeModel {
            name: self.name@,
            classes: self.classes@.map_values(|c: Vec<u8>| c@),
            text: self.text@,
            end: self.end as int,
        }
    }
}

/// One rendered page as a flat preorder sequence of nodes.
#[derive(Debug)]
pub struct Page {
    pub nodes: Vec<Node>,
}

/// The mathematical value of a [`Page`].
pub struct PageModel {
    pub nodes: Seq<NodeModel>,
}

impl View for Page {
    type V = PageModel;

    open spec fn view(&self) -> PageModel {
        PageModel { nodes: self.nodes@.map_values(|n: Node| n@) }
    }
}

impl PageModel {
    /// Every node's subtree range lies within the page and is ahead
    /// of the node itself.
    pub open spec fn wf(self) -> bool {
        forall|i: int|
            0 <= i < self.nodes.len() ==> i < (#[trigger] self.nodes[i]).end <= self.nodes.len()
    }
}

impl Page {
    /// Check the well-formedness invariant of the page model.
    pub fn check_wf(&self) -> (r: bool)
        ensures
            r == self@.wf(),
    {
        let mut i: usize = 0;
        while i < self.nodes.len()
            invariant
                i <= self.nodes.len(),
                forall|j: int|
                    0 <= j < i ==> j < (#[trigger] self@.nodes[j]).end <= self@.nodes.len(),
            decreases self.nodes.len() - i,
        {
            let e = self.nodes[i].end;
            proof {
                assert(self@.nodes[i as int] == self.nodes@[i as int]@);
            }
            if !(i < e && e <= self.nodes.len()) {
                proof {
                    assert(!(i < self@.nodes[i as int].end <= self@.nodes.len()));
                }
                return false;
            }
            i += 1;
        }
        true
    }
}

/// The node carries the class `c`.
pub open spec fn has_class(n: NodeModel, c: Seq<u8>) -> bool {
    exists|j: int| 0 <= j < n.classes.len() && n.classes[j] == c
}

/// Does the node carry the class `c`?
pub fn node_has_class(n: &Node, c: &Vec<u8>) -> (r: bool)
    ensures
        r == has_class(n@, c@),
{
    let mut j: usize = 0;
    while j < n.classes.len()
        invariant
            j <= n.classes.len(),
            forall|k: int| 0 <= k < j ==> n@.classes[k] != c@,
        decreases n.classes.len() - j,
    {
        if bytes_eq(&n.classes[j], c) {
            proof {
                assert(n@.classes[j as int] == c@);
            }
            return true;
        }
        j += 1;
    }
    false
}

/// Concatenation of the own text fragments of the nodes in `[lo, hi)`,
/// in document order.
pub open spec fn texts_in(p: PageModel, lo: int, hi: int) -> Seq<u8>
    decreases hi - lo,
{
    if lo < 0 || lo >= hi || hi > p.nodes.len() {
        Seq::empty()
    } else {
        p.nodes[lo].text + texts_in(p, lo + 1, hi)
    }
}

/// The text content of the node at `i`: its own fragment followed by
/// those of its whole subtree, in document order.
pub open spec fn text_of(p: PageModel, i: int) -> Seq<u8> {
    texts_in(p, i, p.nodes[i].end)
}

/// Collect the text content of the node at `i`.
pub fn node_text(p: &Page, i: usize) -> (r: Vec<u8>)
    requires
        p@.wf(),
        i < p@.nodes.len(),
    ensures
        r@ == text_of(p@, i as int),
{
    let mut r: Vec<u8> = Vec::new();
    let hi = p.nodes[i].end;
    proof {
        assert(p@.nodes[i as int] == p.nodes@[i as int]@);
        assert(i < p@.nodes[i as int].end <= p@.nodes.len());
    }
    let mut j: usize = i;
    while j < hi
        invariant
            p@.wf(),
            i <= j <= hi,
            hi == p@.nodes[i as int].end,
            i < p@.nodes.len(),
            hi <= p@.nodes.len(),
            texts_in(p@, i as int, hi as int) == r@ + texts_in(p@, j as int, hi as int),
        decreases hi - j,
    {
        let ghost prev = r@;
        append_copy(&mut r, &p.nodes[j].text);
        proof {
            assert(p@.nodes[j as int].text == p.nodes@[j as int].text@);
            assert(r@ + texts_in(p@, j + 1, hi as int) =~= prev + (p@.nodes[j as int].text
                + texts_in(p@, j + 1, hi as int)));
        }
        j += 1;
    }
    proof {
        assert(texts_in(p@, j as int, hi as int) == Seq::<u8>::empty());
        assert(r@ + Seq::<u8>::empty() =~= r@);
    }
    r
}

/// First node in `[lo, hi)` carrying class `c`, in document order.
pub open spec fn first_in(p: PageModel, lo: int, hi: int, c: Seq<u8>) -> Option<int>
    decreases hi - lo,
{
    if lo < 0 || lo >= hi || hi > p.nodes.len() {
        None
    } else if has_class(p.nodes[lo], c) {
        Some(lo)
    } else {
        first_in(p, lo + 1, hi, c)
    }
}

/// Find the first node in `[lo, hi)` carrying class `c`.
pub fn find_first_with_class(p: &Page, lo: usize, hi: usize, c: &Vec<u8>) -> (r: Option<usize>)
    requires
        hi <= p@.nodes.len(),
    ensures
        match r {
            Some(i) => lo <= i < hi && first_in(p@, lo as int, hi as int, c@) == Some(i as int),
            None => first_in(p@, lo as int, hi as int, c@) is None,
        },
{
    let mut j: usize = lo;
    while j < hi
        invariant
            lo <= j,
            hi <= p@.nodes.len(),
            first_in(p@, lo as int, hi as int, c@) == first_in(p@, j as int, hi as int, c@),
        decreases hi - j,
    {
        if node_has_class(&p.nodes[j], c) {
            return Some(j);
        }
        j += 1;
    }
    None
}

/// The indices in `[lo, hi)` of the nodes carrying class `c`, in
/// document order.
pub open spec fn nodes_with_class(p: PageModel, lo: int, hi: int, c: Seq<u8>) -> Seq<int>
    decreases hi - lo,
{
    if lo < 0 || lo >= hi || hi > p.nodes.len() {
        Seq::empty()
    } else if has_class(p.nodes[lo], c) {
        seq![lo] + nodes_with_class(p, lo + 1, hi, c)
    } else {
        nodes_with_class(p, lo + 1, hi, c)
    }
}

/// Collect the indices of all nodes in the page carrying class `c`.
pub fn collect_with_class(p: &Page, c: &Vec<u8>) -> (r: Vec<usize>)
    ensures
        r@.map_values(|u: usize| u as int) == nodes_with_class(
            p@,
            0,
            p@.nodes.len() as int,
            c@,
        ),
        forall|k: int| 0 <= k < r@.len() ==> (#[trigger] r@[k]) < p@.nodes.len(),
{
    let ghost hi = p@.nodes.len() as int;
    let mut r: Vec<usize> = Vec::new();
    proof {
        assert(r@.map_values(|u: usize| u as int) + nodes_with_class(p@, 0, hi, c@)
            =~= nodes_with_class(p@, 0, hi, c@));
    }
    let mut j: usize = 0;
    while j < p.nodes.len()
        invariant
            j <= p@.nodes.len(),
            hi == p@.nodes.len() as int,
            nodes_with_class(p@, 0, hi, c@) == r@.map_values(|u: usize| u as int)
                + nodes_with_class(p@, j as int, hi, c@),
            forall|k: int| 0 <= k < r@.len() ==> (#[trigger] r@[k]) < p@.nodes.len(),
        decreases p.nodes.len() - j,
    {
        if node_has_class(&p.nodes[j], c) {
            let ghost prev = r@.map_values(|u: usize| u as int);
            r.push(j);
            proof {
                assert(r@.map_values(|u: usize| u as int) =~= prev + seq![j as int]);
                assert(prev + seq![j as int] + nodes_with_class(p@, j + 1, hi, c@) =~= prev + (
                seq![j as int] + nodes_with_class(p@, j + 1, hi, c@)));
            }
        }
        j += 1;
    }
    proof {
        assert(nodes_with_class(p@, p@.nodes.len() as int, hi, c@) == Seq::<int>::empty());
        assert(r@.map_values(|u: usize| u as int) + Seq::<int>::empty() =~= r@.map_values(
            |u: usize| u as int,
        ));
    }
    r
}

/// The texts of the anchor elements in `[lo, hi)`, in document order.
pub open spec fn anchor_texts(p: PageModel, lo: int, hi: int) -> Seq<Seq<u8>>
    decreases hi - lo,
{
    if lo < 0 || lo >= hi || hi > p.nodes.len() {
        Seq::empty()
    } else if p.nodes[lo].name == crate::markers::tag_anchor() {
        seq![text_of(p, lo)] + anchor_texts(p, lo + 1, hi)
    } else {
        anchor_texts(p, lo + 1, hi)
    }
}

/// Collect the texts of the anchor elements in `[lo, hi)`.
pub fn collect_anchor_texts(p: &Page, lo: usize, hi: usize) -> (r: Vec<Vec<u8>>)
    requires
        p@.wf(),
        hi <= p@.nodes.len(),
    ensures
        r@.map_values(|t: Vec<u8>| t@) == anchor_texts(p@, lo as int, hi as int),
{
    let anchor = crate::markers::tag_anchor_bytes();
    let mut r: Vec<Vec<u8>> = Vec::new();
    proof {
        assert(r@.map_values(|t: Vec<u8>| t@) + anchor_texts(p@, lo as int, hi as int)
            =~= anchor_texts(p@, lo as int, hi as int));
    }
    let mut j: usize = lo;
    while j < hi
        invariant
            p@.wf(),
            lo <= j,
            hi <= p@.nodes.len(),
            anchor@ == crate::markers::tag_anchor(),
            anchor_texts(p@, lo as int, hi as int) == r@.map_values(|t: Vec<u8>| t@)
                + anchor_texts(p@, j as int, hi as int),
        decreases hi - j,
    {
        if bytes_eq(&p.nodes[j].name, &anchor) {
            let t = node_text(p, j);
            let ghost prev = r@.map_values(|t: Vec<u8>| t@);
            let ghost tv = t@;
            r.push(t);
            proof {
                assert(r@.map_values(|t: Vec<u8>| t@) =~= prev + seq![tv]);
                assert(prev + seq![tv] + anchor_texts(p@, j + 1, hi as int) =~= prev + (seq![tv]
                    + anchor_texts(p@, j + 1, hi as int)));
            }
        }
        j += 1;
    }
    proof {
        assert(anchor_texts(p@, j as int, hi as int) == Seq::<Seq<u8>>::empty());
        assert(r@.map_values(|t: Vec<u8>| t@) + Seq::<Seq<u8>>::empty() =~= r@.map_values(
            |t: Vec<u8>| t@,
        ));
    }
    r
}

} // verus!
