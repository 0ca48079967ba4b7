//! The page classifier: decides, before any field extraction, whether
//! a fetched page is a "user not found" page, a page with record
//! containers, or structurally unrecognizable.

use vstd::prelude::*;

use crate::dom::{nodes_with_class, Page, PageModel};
use crate::markers::{class_container, not_found_marker, CHROME_CONTAINER_SKIP};
use crate::text::contains_seq;

verus! {

/// The classification outcome for one fetched page.
#[derive(Clone, Copy, Debug, PartialEq, Eq, Structural)]
pub enum PageVerdict {
    /// The page holds record containers beyond the template chrome.
    Valid,
    /// The page reports that the user does not exist.
    UserAbsent,
    /// No record container was found beyond the template chrome.
    Unrecognizable,
}

/// All container-class nodes of the page, in document order.
pub open spec fn containers(p: PageModel) -> Seq<int> {
    nodes_with_class(p, 0, p.nodes.len() as int, class_container())
}

/// The record containers of the page: the container-class nodes with
/// the fixed number of leading template-chrome containers skipped.
pub open spec fn record_containers(p: PageModel) -> Seq<int> {
    if containers(p).len() <= CHROME_CONTAINER_SKIP {
        Seq::empty()
    } else {
        containers(p).skip(CHROME_CONTAINER_SKIP as int)
    }
}

/// The verdict for a page with raw markup `raw` and model `p`:
/// the "not found" literal wins, then the presence of record
/// containers decides.
pub open spec fn classify_spec(raw: Seq<u8>, p: PageModel) -> PageVerdict {
    if contains_seq(raw, not_found_marker()) {
        PageVerdict::UserAbsent
    } else if record_containers(p).len() == 0 {
        PageVerdict::Unrecognizable
    } else {
        PageVerdict::Valid
    }
}

/// Classify one fetched page from its raw markup and its model.
pub fn classify(raw: &Vec<u8>, page: &Page) -> (v: PageVerdict)
    ensures
        v == classify_spec(raw@, page@),
{
    let marker = crate::markers::not_found_marker_bytes();
    if crate::text::contains_bytes(raw, &marker) {
        return PageVerdict::UserAbsent;
    }
    let container_class = crate::markers::class_container_bytes();
    let found = crate::dom::collect_with_class(page, &container_class);
    if found.len() <= CHROME_CONTAINER_SKIP {
        PageVerdict::Unrecognizable
    } else {
        PageVerdict::Valid
    }
}

} // verus!
