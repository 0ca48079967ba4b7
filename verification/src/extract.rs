//! The field extractor: reads one record container of a classified
//! page into a [`Record`], or reports exactly which marker of the
//! expected structure is missing.

use vstd::prelude::*;

use crate::dom::{first_in, text_of, Page, PageModel};
use crate::errors::{ExpectedMarker, FieldName, ScrapeError};
use crate::markers::{
    class_credits, class_rating, class_title, class_title_inner, class_year,
};
use crate::num::canonical_rating;
use crate::record::{Record, RecordModel};

verus! {

/// The record read from the container at `m`, or the structure
/// failure for the first missing marker. The four lookups run against
/// the container's subtree in a fixed order: title block and its
/// narrow-layout title, year, credits (directors), rating; the
/// director list may be empty, and an unparsable rating degrades to
/// the empty canonical rating instead of failing.
pub open spec fn extract_spec(p: PageModel, m: int) -> Result<RecordModel, ScrapeError> {
    let end = p.nodes[m].end;
    match first_in(p, m + 1, end, class_title()) {
        None => Err(
            ScrapeError::StructureChange {
                field: FieldName::Title,
                marker: ExpectedMarker::TitleBlock,
            },
        ),
        Some(t) => match first_in(p, t + 1, p.nodes[t].end, class_title_inner()) {
            None => Err(
                ScrapeError::StructureChange {
                    field: FieldName::Title,
                    marker: ExpectedMarker::TitleInner,
                },
            ),
            Some(ti) => match first_in(p, m + 1, end, class_year()) {
                None => Err(
                    ScrapeError::StructureChange {
                        field: FieldName::Year,
                        marker: ExpectedMarker::YearSpan,
                    },
                ),
                Some(y) => match first_in(p, m + 1, end, class_credits()) {
                    None => Err(
                        ScrapeError::StructureChange {
                            field: FieldName::Director,
                            marker: ExpectedMarker::CreditsBlock,
                        },
                    ),
                    Some(cr) => match first_in(p, m + 1, end, class_rating()) {
                        None => Err(
                            ScrapeError::StructureChange {
                                field: FieldName::Rating,
                                marker: ExpectedMarker::RatingBox,
                            },
                        ),
                        Some(rb) => Ok(
                            RecordModel {
                                title: text_of(p, ti),
                                year: text_of(p, y),
                                directors: crate::dom::anchor_texts(
                                    p,
                                    cr + 1,
                                    p.nodes[cr].end,
                                ),
                                rating: canonical_rating(text_of(p, rb)),
                            },
                        ),
                    },
                },
            },
        },
    }
}

/// Extract the record of the container at `m`, as [`extract_spec`]
/// describes.
pub fn extract_record(page: &Page, m: usize) -> (r: Result<Record, ScrapeError>)
    requires
        page@.wf(),
        m < page@.nodes.len(),
    ensures
        match r {
            Ok(rec) => extract_spec(page@, m as int) == Ok::<RecordModel, ScrapeError>(rec@),
            Err(e) => extract_spec(page@, m as int) == Err::<RecordModel, ScrapeError>(e),
        },
{
    proof {
        assert(page@.nodes[m as int] == page.nodes@[m as int]@);
        assert(m < page@.nodes[m as int].end <= page@.nodes.len());
    }
    let end = page.nodes[m].end;
    let title_class = crate::markers::class_title_bytes();
    let t = match crate::dom::find_first_with_class(page, m + 1, end, &title_class) {
        None => {
            return Err(
                ScrapeError::StructureChange {
                    field: FieldName::Title,
                    marker: ExpectedMarker::TitleBlock,
                },
            );
        },
        Some(t) => t,
    };
    proof {
        assert(page@.nodes[t as int] == page.nodes@[t as int]@);
        assert(t < page@.nodes[t as int].end <= page@.nodes.len());
    }
    let title_inner_class = crate::markers::class_title_inner_bytes();
    let ti = match crate::dom::find_first_with_class(
        page,
        t + 1,
        page.nodes[t].end,
        &title_inner_class,
    ) {
        None => {
            return Err(
                ScrapeError::StructureChange {
                    field: FieldName::Title,
                    marker: ExpectedMarker::TitleInner,
                },
            );
        },
        Some(ti) => ti,
    };
    let year_class = crate::markers::class_year_bytes();
    let y = match crate::dom::find_first_with_class(page, m + 1, end, &year_class) {
        None => {
            return Err(
                ScrapeError::StructureChange {
                    field: FieldName::Year,
                    marker: ExpectedMarker::YearSpan,
                },
            );
        },
        Some(y) => y,
    };
    let credits_class = crate::markers::class_credits_bytes();
    let cr = match crate::dom::find_first_with_class(page, m + 1, end, &credits_class) {
        None => {
            return Err(
                ScrapeError::StructureChange {
                    field: FieldName::Director,
                    marker: ExpectedMarker::CreditsBlock,
                },
            );
        },
        Some(cr) => cr,
    };
    proof {
        assert(page@.nodes[cr as int] == page.nodes@[cr as int]@);
        assert(cr < page@.nodes[cr as int].end <= page@.nodes.len());
    }
    let rating_class = crate::markers::class_rating_bytes();
    let rb = match crate::dom::find_first_with_class(page, m + 1, end, &rating_class) {
        None => {
            return Err(
                ScrapeError::StructureChange {
                    field: FieldName::Rating,
                    marker: ExpectedMarker::RatingBox,
                },
            );
        },
        Some(rb) => rb,
    };
    let title = crate::dom::node_text(page, ti);
    let year = crate::dom::node_text(page, y);
    let directors = crate::dom::collect_anchor_texts(page, cr + 1, page.nodes[cr].end);
    let raw_rating = crate::dom::node_text(page, rb);
    let rating = crate::num::normalize_rating(&raw_rating);
    let rec = Record { title, year, directors, rating };
    Ok(rec)
}

/// An unparsable rating text is swallowed, never escalated: whenever
/// every structural marker of the container is present, extraction
/// succeeds, whatever the rating text holds — and a rating text that
/// does not parse yields the empty rating field.
pub proof fn lemma_rating_never_fails(p: PageModel, m: int)
    requires
        0 <= m < p.nodes.len(),
        first_in(p, m + 1, p.nodes[m].end, class_title()) is Some,
        first_in(
            p,
            first_in(p, m + 1, p.nodes[m].end, class_title()).unwrap() + 1,
            p.nodes[first_in(p, m + 1, p.nodes[m].end, class_title()).unwrap()].end,
            class_title_inner(),
        ) is Some,
        first_in(p, m + 1, p.nodes[m].end, class_year()) is Some,
        first_in(p, m + 1, p.nodes[m].end, class_credits()) is Some,
        first_in(p, m + 1, p.nodes[m].end, class_rating()) is Some,
    ensures
        extract_spec(p, m) is Ok,
        crate::num::parse_i32_spec(
            crate::text::trim_spec(
                text_of(p, first_in(p, m + 1, p.nodes[m].end, class_rating()).unwrap()),
            ),
        ) is None ==> extract_spec(p, m).unwrap().rating == Seq::<u8>::empty(),
{
}

} // verus!
