//! The pagination driver's policy and the result sink's rendering.
//!
//! For each fetched page the driver classifies it, extracts its
//! records on a valid verdict, and decides whether to go on, stop
//! early with a flush, or abort with a terminal error. The fetch
//! itself, the pacing delay and the file write live outside the
//! library; the caller feeds each fetched page to [`process_page`]
//! and obeys the returned outcome.

use vstd::prelude::*;

use crate::classify::{classify_spec, record_containers, PageVerdict};
use crate::dom::{Page, PageModel};
use crate::errors::ScrapeError;
use crate::extract::extract_spec;
use crate::markers::csv_header;
use crate::record::{encode_spec, Record, RecordModel};

verus! {

/// The records accumulated over the pages of one scrape run;
/// append-only until it is rendered.
#[derive(Debug)]
pub struct Accumulator {
    records: Vec<Record>,
}

impl View for Accumulator {
    type V = Seq<RecordModel>;

    closed spec fn view(&self) -> Seq<RecordModel> {
        self.records@.map_values(|r: Record| r@)
    }
}

impl Accumulator {
    /// An empty accumulator.
    pub fn new() -> (r: Accumulator)
        ensures
            r@ == Seq::<RecordModel>::empty(),
    {
        let r = Accumulator { records: Vec::new() };
        proof {
            assert(r@ =~= Seq::<RecordModel>::empty());
        }
        r
    }

    /// The number of accumulated records.
    pub fn len(&self) -> (n: usize)
        ensures
            n == self@.len(),
    {
        self.records.len()
    }

    /// Read one accumulated record.
    pub fn get(&self, i: usize) -> (r: &Record)
        requires
            i < self@.len(),
        ensures
            r@ == self@[i as int],
    {
        &self.records[i]
    }

    /// Append one record.
    pub fn push(&mut self, r: Record)
        ensures
            final(self)@ == old(self)@.push(r@),
    {
        let ghost rv = r@;
        self.records.push(r);
        proof {
            assert(self@ =~= old(self)@.push(rv));
        }
    }
}

/// What the driver does after one page.
#[derive(Clone, Copy, Debug, PartialEq, Eq, Structural)]
pub enum StepOutcome {
    /// The page's records were appended; go on to the next page.
    Continue,
    /// The configured page count exceeded the user's actual pages:
    /// flush the accumulated records and finish successfully.
    FinishedEarly,
    /// A terminal failure; stop at once.
    Failed(ScrapeError),
}

/// The records extracted from the containers `cs` of one page, in
/// document order, stopping at the first structure failure: the
/// successfully extracted prefix, and the failure if one was hit.
pub open spec fn run_extract(p: PageModel, cs: Seq<int>) -> (Seq<RecordModel>, Option<
    ScrapeError,
>)
    decreases cs.len(),
{
    if cs.len() == 0 {
        (Seq::empty(), None)
    } else {
        match extract_spec(p, cs[0]) {
            Err(e) => (Seq::empty(), Some(e)),
            Ok(r) => {
                let (rest, e) = run_extract(p, cs.drop_first());
                (seq![r] + rest, e)
            },
        }
    }
}

/// The driver's decision table for one fetched page, over the
/// accumulator so far, the page's raw markup and model, its 1-based
/// index, and the scraped user id: the new accumulator and the
/// outcome.
pub open spec fn step_spec(
    acc: Seq<RecordModel>,
    raw: Seq<u8>,
    p: PageModel,
    page_index: int,
    user_id: u32,
) -> (Seq<RecordModel>, StepOutcome) {
    match classify_spec(raw, p) {
        PageVerdict::UserAbsent => if page_index == 1 {
            (acc, StepOutcome::Failed(ScrapeError::UserNotFound { user_id }))
        } else {
            (acc, StepOutcome::FinishedEarly)
        },
        PageVerdict::Unrecognizable => if acc.len() == 0 {
            (
                acc,
                StepOutcome::Failed(
                    ScrapeError::StructureChange {
                        field: crate::errors::FieldName::Movies,
                        marker: crate::errors::ExpectedMarker::RecordContainer,
                    },
                ),
            )
        } else {
            (acc, StepOutcome::Failed(ScrapeError::AntiBotBlock))
        },
        PageVerdict::Valid => {
            let (recs, err) = run_extract(p, record_containers(p));
            match err {
                Some(e) => (acc + recs, StepOutcome::Failed(e)),
                None => (acc + recs, StepOutcome::Continue),
            }
        },
    }
}

/// Process one fetched page: classify it, extract its records on a
/// valid verdict, and return the driver's decision, exactly as
/// [`step_spec`] describes.
pub fn process_page(
    acc: &mut Accumulator,
    raw: &Vec<u8>,
    page: &Page,
    page_index: usize,
    user_id: u32,
) -> (r: StepOutcome)
    requires
        page@.wf(),
        1 <= page_index,
    ensures
        final(acc)@ == step_spec(old(acc)@, raw@, page@, page_index as int, user_id).0,
        r == step_spec(old(acc)@, raw@, page@, page_index as int, user_id).1,
{
    match crate::classify::classify(raw, page) {
        PageVerdict::UserAbsent => {
            if page_index == 1 {
                StepOutcome::Failed(ScrapeError::UserNotFound { user_id })
            } else {
                StepOutcome::FinishedEarly
            }
        },
        PageVerdict::Unrecognizable => {
            if acc.len() == 0 {
                StepOutcome::Failed(
                    ScrapeError::StructureChange {
                        field: crate::errors::FieldName::Movies,
                        marker: crate::errors::ExpectedMarker::RecordContainer,
                    },
                )
            } else {
                StepOutcome::Failed(ScrapeError::AntiBotBlock)
            }
        },
        PageVerdict::Valid => {
            let container_class = crate::markers::class_container_bytes();
            let cs = crate::dom::collect_with_class(page, &container_class);
            let ghost rcs = record_containers(page@);
            proof {
                assert(cs@.map_values(|u: usize| u as int).skip(
                    crate::markers::CHROME_CONTAINER_SKIP as int,
                ) =~= rcs);
            }
            let mut k: usize = crate::markers::CHROME_CONTAINER_SKIP;
            let ghost done: Seq<RecordModel> = Seq::empty();
            proof {
                assert(acc@ =~= old(acc)@ + done);
                assert(rcs.skip(0) =~= rcs);
            }
            while k < cs.len()
                invariant
                    page@.wf(),
                    classify_spec(raw@, page@) == PageVerdict::Valid,
                    rcs == record_containers(page@),
                    k - crate::markers::CHROME_CONTAINER_SKIP <= run_extract(page@, rcs).0.len(),
                    crate::markers::CHROME_CONTAINER_SKIP <= k <= cs.len(),
                    cs@.map_values(|u: usize| u as int).skip(
                        crate::markers::CHROME_CONTAINER_SKIP as int,
                    ) == rcs,
                    cs.len() >= crate::markers::CHROME_CONTAINER_SKIP,
                    forall|j: int| 0 <= j < cs@.len() ==> (#[trigger] cs@[j]) < page@.nodes.len(),
                    acc@ == old(acc)@ + run_extract(page@, rcs).0.take(
                        k - crate::markers::CHROME_CONTAINER_SKIP,
                    ),
                    run_extract(page@, rcs).1 == run_extract(
                        page@,
                        rcs.skip(k - crate::markers::CHROME_CONTAINER_SKIP),
                    ).1,
                    run_extract(page@, rcs).0 == run_extract(page@, rcs).0.take(
                        k - crate::markers::CHROME_CONTAINER_SKIP,
                    ) + run_extract(page@, rcs.skip(k - crate::markers::CHROME_CONTAINER_SKIP)).0,
                decreases cs.len() - k,
            {
                let ghost off = k - crate::markers::CHROME_CONTAINER_SKIP;
                proof {
                    assert(rcs[off] == cs@[k as int] as int);
                    assert(rcs.skip(off)[0] == rcs[off]);
                    assert(rcs.skip(off).drop_first() =~= rcs.skip(off + 1));
                }
                let m = cs[k];
                match crate::extract::extract_record(page, m) {
                    Err(e) => {
                        proof {
                            assert(run_extract(page@, rcs.skip(off)).1 == Some(e));
                            assert(run_extract(page@, rcs.skip(off)).0 =~= Seq::<
                                RecordModel,
                            >::empty());
                            assert(run_extract(page@, rcs).0 =~= run_extract(page@, rcs).0.take(
                                off,
                            ));
                        }
                        return StepOutcome::Failed(e);
                    },
                    Ok(rec) => {
                        let ghost recv = rec@;
                        acc.push(rec);
                        proof {
                            let tail = run_extract(page@, rcs.skip(off + 1));
                            assert(run_extract(page@, rcs.skip(off)).0 == seq![recv] + tail.0);
                            assert(run_extract(page@, rcs.skip(off)).1 == tail.1);
                            assert(run_extract(page@, rcs).0.take(off).len() == off);
                            assert(run_extract(page@, rcs).0.len() >= off + 1);
                            assert(run_extract(page@, rcs).0[off] == recv);
                            assert(run_extract(page@, rcs).0.take(off + 1) =~= run_extract(
                                page@,
                                rcs,
                            ).0.take(off).push(recv));
                            assert(acc@ =~= old(acc)@ + run_extract(page@, rcs).0.take(off + 1));
                        }
                    },
                }
                k += 1;
            }
            proof {
                let off = k - crate::markers::CHROME_CONTAINER_SKIP;
                assert(rcs.skip(off).len() == 0);
                assert(rcs.skip(off) =~= Seq::<int>::empty());
                assert(run_extract(page@, rcs).0.take(off) =~= run_extract(page@, rcs).0);
            }
            StepOutcome::Continue
        },
    }
}

/// How one whole run ends.
#[derive(Clone, Copy, Debug, PartialEq, Eq, Structural)]
pub enum RunOutcome {
    /// Every configured page was processed; flush and finish.
    Completed,
    /// A page past the user's actual content was hit; flush and
    /// finish successfully.
    EarlyFinish,
    /// A terminal failure; the error decides whether the accumulated
    /// records may still be flushed.
    Aborted(ScrapeError),
}

/// The driver's whole loop over a run's fetched pages, each given as
/// raw markup and model, starting at the 1-based index `page_index`:
/// the final accumulator and how the run ends.
pub open spec fn drive_spec(
    acc: Seq<RecordModel>,
    inputs: Seq<(Seq<u8>, PageModel)>,
    page_index: int,
    user_id: u32,
) -> (Seq<RecordModel>, RunOutcome)
    decreases inputs.len(),
{
    if inputs.len() == 0 {
        (acc, RunOutcome::Completed)
    } else {
        let (acc2, out) = step_spec(acc, inputs[0].0, inputs[0].1, page_index, user_id);
        match out {
            StepOutcome::Continue => drive_spec(
                acc2,
                inputs.drop_first(),
                page_index + 1,
                user_id,
            ),
            StepOutcome::FinishedEarly => (acc2, RunOutcome::EarlyFinish),
            StepOutcome::Failed(e) => (acc2, RunOutcome::Aborted(e)),
        }
    }
}

/// The records of the given pages: each page's extracted records, in
/// page order then document order.
pub open spec fn pages_records(inputs: Seq<(Seq<u8>, PageModel)>) -> Seq<RecordModel>
    decreases inputs.len(),
{
    if inputs.len() == 0 {
        Seq::empty()
    } else {
        run_extract(inputs[0].1, record_containers(inputs[0].1)).0 + pages_records(
            inputs.drop_first(),
        )
    }
}

/// Law: when every page classifies `Valid` and extracts without
/// failure, the loop ends normally with the accumulator holding
/// exactly the concatenation, in page order then document order, of
/// every page's extracted records — no reordering, no drops.
pub proof fn lemma_all_valid_accumulates(
    acc: Seq<RecordModel>,
    inputs: Seq<(Seq<u8>, PageModel)>,
    page_index: int,
    user_id: u32,
)
    requires
        forall|k: int|
            0 <= k < inputs.len() ==> classify_spec(
                (#[trigger] inputs[k]).0,
                inputs[k].1,
            ) == PageVerdict::Valid,
        forall|k: int|
            0 <= k < inputs.len() ==> run_extract(
                (#[trigger] inputs[k]).1,
                record_containers(inputs[k].1),
            ).1 is None,
    ensures
        drive_spec(acc, inputs, page_index, user_id) == (
            acc + pages_records(inputs),
            RunOutcome::Completed,
        ),
    decreases inputs.len(),
{
    if inputs.len() == 0 {
        assert(acc + pages_records(inputs) =~= acc);
    } else {
        let rest = inputs.drop_first();
        assert(forall|k: int| 0 <= k < rest.len() ==> (#[trigger] rest[k]) == inputs[k + 1]);
        let recs0 = run_extract(inputs[0].1, record_containers(inputs[0].1)).0;
        lemma_all_valid_accumulates(acc + recs0, rest, page_index + 1, user_id);
        assert(acc + recs0 + pages_records(rest) =~= acc + (recs0 + pages_records(rest)));
    }
}

/// Law: the "not found" marker on the very first page aborts the run
/// with `UserNotFound`, the accumulator untouched; that error never
/// allows a partial save, so no output file is written.
pub proof fn lemma_user_absent_first_page(
    acc: Seq<RecordModel>,
    raw: Seq<u8>,
    p: PageModel,
    user_id: u32,
)
    requires
        crate::text::contains_seq(raw, crate::markers::not_found_marker()),
    ensures
        step_spec(acc, raw, p, 1, user_id) == (
            acc,
            StepOutcome::Failed(ScrapeError::UserNotFound { user_id }),
        ),
        !crate::errors::partial_save_allowed(ScrapeError::UserNotFound { user_id }),
{
}

/// Law: a "user absent" page at a 1-based index greater than one ends
/// the run successfully, with the accumulator holding exactly the
/// records of the pages before it.
pub proof fn lemma_user_absent_after_content(
    acc: Seq<RecordModel>,
    inputs: Seq<(Seq<u8>, PageModel)>,
    m: int,
    page_index: int,
    user_id: u32,
)
    requires
        page_index >= 1,
        0 <= m < inputs.len(),
        page_index + m > 1,
        forall|k: int|
            0 <= k < m ==> classify_spec((#[trigger] inputs[k]).0, inputs[k].1)
                == PageVerdict::Valid,
        forall|k: int|
            0 <= k < m ==> run_extract(
                (#[trigger] inputs[k]).1,
                record_containers(inputs[k].1),
            ).1 is None,
        classify_spec(inputs[m].0, inputs[m].1) == PageVerdict::UserAbsent,
    ensures
        drive_spec(acc, inputs, page_index, user_id) == (
            acc + pages_records(inputs.take(m)),
            RunOutcome::EarlyFinish,
        ),
    decreases m,
{
    if m == 0 {
        assert(acc + pages_records(inputs.take(0)) =~= acc);
    } else {
        let rest = inputs.drop_first();
        assert(forall|k: int| 0 <= k < rest.len() ==> (#[trigger] rest[k]) == inputs[k + 1]);
        let recs0 = run_extract(inputs[0].1, record_containers(inputs[0].1)).0;
        lemma_user_absent_after_content(acc + recs0, rest, m - 1, page_index + 1, user_id);
        assert(inputs.take(m).drop_first() =~= rest.take(m - 1));
        assert(inputs.take(m)[0] == inputs[0]);
        assert(acc + recs0 + pages_records(rest.take(m - 1)) =~= acc + (recs0 + pages_records(
            rest.take(m - 1),
        )));
    }
}

/// Law: an `Unrecognizable` verdict with records already accumulated
/// always aborts as an inferred anti-bot block, never as a structure
/// change.
pub proof fn lemma_unrecognizable_nonempty_is_block(
    acc: Seq<RecordModel>,
    raw: Seq<u8>,
    p: PageModel,
    page_index: int,
    user_id: u32,
)
    requires
        classify_spec(raw, p) == PageVerdict::Unrecognizable,
        acc.len() > 0,
    ensures
        step_spec(acc, raw, p, page_index, user_id) == (
            acc,
            StepOutcome::Failed(ScrapeError::AntiBotBlock),
        ),
{
}

/// Law: an `Unrecognizable` verdict with an empty accumulator always
/// aborts as a structure change on the record containers themselves,
/// never as an anti-bot block.
pub proof fn lemma_unrecognizable_empty_is_structure_change(
    acc: Seq<RecordModel>,
    raw: Seq<u8>,
    p: PageModel,
    page_index: int,
    user_id: u32,
)
    requires
        classify_spec(raw, p) == PageVerdict::Unrecognizable,
        acc.len() == 0,
    ensures
        step_spec(acc, raw, p, page_index, user_id) == (
            acc,
            StepOutcome::Failed(
                ScrapeError::StructureChange {
                    field: crate::errors::FieldName::Movies,
                    marker: crate::errors::ExpectedMarker::RecordContainer,
                },
            ),
        ),
{
}

/// The CSV text for a sequence of records: one encoded line per
/// record, each newline-terminated.
pub open spec fn lines_spec(records: Seq<RecordModel>) -> Seq<u8>
    decreases records.len(),
{
    if records.len() == 0 {
        Seq::empty()
    } else {
        encode_spec(records[0]) + seq![10u8] + lines_spec(records.drop_first())
    }
}

/// The full output file for a run's records: the fixed header line,
/// then one encoded line per record, all newline-terminated.
pub open spec fn render_spec(records: Seq<RecordModel>) -> Seq<u8> {
    csv_header() + seq![10u8] + lines_spec(records)
}

/// Render the accumulated records as the final CSV text, exactly as
/// [`render_spec`] describes.
pub fn render_csv(acc: &Accumulator) -> (out: Vec<u8>)
    ensures
        out@ == render_spec(acc@),
{
    let mut out = crate::markers::csv_header_bytes();
    out.push(10u8);
    proof {
        assert(acc@.skip(0) =~= acc@);
        assert(out@ =~= csv_header() + seq![10u8]);
        assert(render_spec(acc@) =~= out@ + lines_spec(acc@));
    }
    let mut i: usize = 0;
    while i < acc.len()
        invariant
            i <= acc@.len(),
            render_spec(acc@) == out@ + lines_spec(acc@.skip(i as int)),
        decreases acc@.len() - i,
    {
        proof {
            assert(acc@.skip(i as int)[0] == acc@[i as int]);
            assert(acc@.skip(i as int).drop_first() =~= acc@.skip(i + 1));
        }
        let line = crate::record::encode_record(acc.get(i));
        let ghost prev = out@;
        crate::text::append_copy(&mut out, &line);
        out.push(10u8);
        proof {
            assert(out@ =~= prev + (encode_spec(acc@[i as int]) + seq![10u8]));
            assert(prev + (encode_spec(acc@[i as int]) + seq![10u8]) + lines_spec(
                acc@.skip(i + 1),
            ) =~= prev + (encode_spec(acc@[i as int]) + seq![10u8] + lines_spec(
                acc@.skip(i + 1),
            )));
        }
        i += 1;
    }
    proof {
        assert(lines_spec(acc@.skip(i as int)) == Seq::<u8>::empty());
        assert(out@ + Seq::<u8>::empty() =~= out@);
    }
    out
}

} // verus!
