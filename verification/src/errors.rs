//! The failure taxonomy shared by the classifier, the extractor and
//! the pagination driver.

use vstd::prelude::*;

verus! {

/// The field a structure failure was detected on.
#[derive(Clone, Copy, Debug, PartialEq, Eq, Structural)]
pub enum FieldName {
    /// The record containers of a page as a whole.
    Movies,
    /// The title of one record.
    Title,
    /// The year of one record.
    Year,
    /// The director list of one record.
    Director,
    /// The rating of one record.
    Rating,
}

/// The marker that was expected in the rendered markup and not found.
#[derive(Clone, Copy, Debug, PartialEq, Eq, Structural)]
pub enum ExpectedMarker {
    /// The record container class.
    RecordContainer,
    /// The title block class.
    TitleBlock,
    /// The narrow-layout title class inside the title block.
    TitleInner,
    /// The year class.
    YearSpan,
    /// The credits block class.
    CreditsBlock,
    /// The user rating box class.
    RatingBox,
}

/// A terminal failure of one scrape run.
#[derive(Clone, Copy, Debug, PartialEq, Eq, Structural)]
pub enum ScrapeError {
    /// The very first page reported that the user does not exist.
    UserNotFound { user_id: u32 },
    /// An expected marker was missing from the rendered markup.
    StructureChange { field: FieldName, marker: ExpectedMarker },
    /// No record container was found although earlier pages produced
    /// records: inferred anti-bot blocking.
    AntiBotBlock,
}

/// Whether a run that ends with error `e` may still flush the records
/// accumulated before the failure. A missing user means the input was
/// wrong and nothing is saved; the other failures leave the earlier
/// pages' records available for an optional partial save.
pub open spec fn partial_save_allowed(e: ScrapeError) -> bool {
    !(e is UserNotFound)
}

/// Executable counterpart of [`partial_save_allowed`].
pub fn allows_partial_save(e: &ScrapeError) -> (r: bool)
    ensures
        r == partial_save_allowed(*e),
{
    match e {
        ScrapeError::UserNotFound { .. } => false,
        _ => true,
    }
}

} // verus!
