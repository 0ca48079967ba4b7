use ratings_scraper::classify::{classify, PageVerdict};
use ratings_scraper::dom::{Node, Page};
use ratings_scraper::driver::{process_page, render_csv, Accumulator, StepOutcome};
use ratings_scraper::errors::{allows_partial_save, ExpectedMarker, FieldName, ScrapeError};
use ratings_scraper::extract::extract_record;

fn el(name: &[u8], classes: Vec<&[u8]>, end: usize) -> Node {
    Node {
        name: name.to_vec(),
        classes: classes.into_iter().map(|c| c.to_vec()).collect(),
        text: Vec::new(),
        end,
    }
}

fn txt(text: &[u8], end: usize) -> Node {
    Node { name: Vec::new(), classes: Vec::new(), text: text.to_vec(), end }
}

/// One full record container occupying indices `[c, c + 11)`:
/// title block with its narrow-layout title, year, credits with one
/// director anchor, rating box.
fn container(c: usize, title: &[u8], year: &[u8], director: &[u8], rating: &[u8]) -> Vec<Node> {
    vec![
        el(b"div", vec![b"mb-4"], c + 11),
        el(b"div", vec![b"mc-title"], c + 4),
        el(b"a", vec![b"d-md-none"], c + 4),
        txt(title, c + 4),
        el(b"span", vec![b"mc-year"], c + 6),
        txt(year, c + 6),
        el(b"span", vec![b"credits"], c + 9),
        el(b"a", vec![], c + 9),
        txt(director, c + 9),
        el(b"span", vec![b"fa-user-rat-box"], c + 11),
        txt(rating, c + 11),
    ]
}

/// A page with the two template-chrome containers followed by the
/// given record containers.
fn page_with(records: Vec<(&[u8], &[u8], &[u8], &[u8])>) -> Page {
    let mut nodes = vec![el(b"div", vec![b"mb-4"], 1), el(b"div", vec![b"mb-4"], 2)];
    for (title, year, director, rating) in records {
        let c = nodes.len();
        nodes.extend(container(c, title, year, director, rating));
    }
    Page { nodes }
}

fn chrome_only_page() -> Page {
    Page { nodes: vec![el(b"div", vec![b"mb-4"], 1), el(b"div", vec![b"mb-4"], 2)] }
}

const PLAIN_HTML: &[u8] = b"<html><body>listing</body></html>";
const NOT_FOUND_HTML: &[u8] = b"<html><h1>Not Found</h1></html>";

#[test]
fn classify_valid_page() {
    let page = page_with(vec![(b"Alpha", b"2001", b"Dir A", b"7")]);
    assert!(page.check_wf());
    assert_eq!(classify(&PLAIN_HTML.to_vec(), &page), PageVerdict::Valid);
}

#[test]
fn classify_not_found_marker_wins() {
    let page = page_with(vec![(b"Alpha", b"2001", b"Dir A", b"7")]);
    assert_eq!(classify(&NOT_FOUND_HTML.to_vec(), &page), PageVerdict::UserAbsent);
}

#[test]
fn classify_chrome_only_page_is_unrecognizable() {
    let page = chrome_only_page();
    assert_eq!(classify(&PLAIN_HTML.to_vec(), &page), PageVerdict::Unrecognizable);
}

#[test]
fn extract_reads_all_fields() {
    let page = page_with(vec![(b"Alpha", b"2001", b"Dir A", b" 7 ")]);
    assert!(page.check_wf());
    let rec = extract_record(&page, 2).expect("container should extract");
    assert_eq!(rec.title, b"Alpha".to_vec());
    assert_eq!(rec.year, b"2001".to_vec());
    assert_eq!(rec.directors, vec![b"Dir A".to_vec()]);
    assert_eq!(rec.rating, b"7".to_vec());
}

#[test]
fn extract_unparsable_rating_degrades_to_empty() {
    let page = page_with(vec![(b"Beta", b"1999", b"Dir B", b"--")]);
    let rec = extract_record(&page, 2).expect("container should extract");
    assert_eq!(rec.rating, Vec::<u8>::new());
}

#[test]
fn extract_missing_title_block() {
    let mut page = page_with(vec![(b"Alpha", b"2001", b"Dir A", b"7")]);
    page.nodes[3].classes.clear();
    page.nodes[3].classes.push(b"other".to_vec());
    assert_eq!(
        extract_record(&page, 2),
        Err(ScrapeError::StructureChange {
            field: FieldName::Title,
            marker: ExpectedMarker::TitleBlock
        })
    );
}

#[test]
fn extract_missing_title_inner() {
    let mut page = page_with(vec![(b"Alpha", b"2001", b"Dir A", b"7")]);
    page.nodes[4].classes.clear();
    assert_eq!(
        extract_record(&page, 2),
        Err(ScrapeError::StructureChange {
            field: FieldName::Title,
            marker: ExpectedMarker::TitleInner
        })
    );
}

#[test]
fn extract_missing_year() {
    let mut page = page_with(vec![(b"Alpha", b"2001", b"Dir A", b"7")]);
    page.nodes[6].classes.clear();
    assert_eq!(
        extract_record(&page, 2),
        Err(ScrapeError::StructureChange {
            field: FieldName::Year,
            marker: ExpectedMarker::YearSpan
        })
    );
}

#[test]
fn extract_missing_credits() {
    let mut page = page_with(vec![(b"Alpha", b"2001", b"Dir A", b"7")]);
    page.nodes[8].classes.clear();
    assert_eq!(
        extract_record(&page, 2),
        Err(ScrapeError::StructureChange {
            field: FieldName::Director,
            marker: ExpectedMarker::CreditsBlock
        })
    );
}

#[test]
fn extract_missing_rating_box() {
    let mut page = page_with(vec![(b"Alpha", b"2001", b"Dir A", b"7")]);
    page.nodes[11].classes.clear();
    assert_eq!(
        extract_record(&page, 2),
        Err(ScrapeError::StructureChange {
            field: FieldName::Rating,
            marker: ExpectedMarker::RatingBox
        })
    );
}

#[test]
fn extract_zero_anchor_credits_is_empty_director_list() {
    let mut page = page_with(vec![(b"Alpha", b"2001", b"Dir A", b"7")]);
    // Rename the director anchor: the credits block then holds no anchors.
    page.nodes[9].name = b"span".to_vec();
    let rec = extract_record(&page, 2).expect("container should extract");
    assert_eq!(rec.directors, Vec::<Vec<u8>>::new());
}

#[test]
fn user_absent_on_first_page_is_user_not_found() {
    let mut acc = Accumulator::new();
    let page = chrome_only_page();
    let outcome = process_page(&mut acc, &NOT_FOUND_HTML.to_vec(), &page, 1, 42);
    let err = ScrapeError::UserNotFound { user_id: 42 };
    assert_eq!(outcome, StepOutcome::Failed(err));
    assert_eq!(acc.len(), 0);
    assert!(!allows_partial_save(&err));
}

#[test]
fn user_absent_on_later_page_finishes_early() {
    let mut acc = Accumulator::new();
    let valid = page_with(vec![(b"Alpha", b"2001", b"Dir A", b"7")]);
    assert_eq!(
        process_page(&mut acc, &PLAIN_HTML.to_vec(), &valid, 1, 42),
        StepOutcome::Continue
    );
    let absent = chrome_only_page();
    assert_eq!(
        process_page(&mut acc, &NOT_FOUND_HTML.to_vec(), &absent, 2, 42),
        StepOutcome::FinishedEarly
    );
    assert_eq!(acc.len(), 1);
    assert_eq!(
        render_csv(&acc),
        b"Title,Year,Directors,Rating10\n\"Alpha\",2001,\"Dir A\",7\n".to_vec()
    );
}

#[test]
fn unrecognizable_with_empty_accumulator_is_structure_change() {
    let mut acc = Accumulator::new();
    let page = chrome_only_page();
    assert_eq!(
        process_page(&mut acc, &PLAIN_HTML.to_vec(), &page, 1, 42),
        StepOutcome::Failed(ScrapeError::StructureChange {
            field: FieldName::Movies,
            marker: ExpectedMarker::RecordContainer
        })
    );
    assert_eq!(acc.len(), 0);
}

#[test]
fn unrecognizable_with_records_is_anti_bot_block() {
    let mut acc = Accumulator::new();
    let valid = page_with(vec![(b"Alpha", b"2001", b"Dir A", b"7")]);
    assert_eq!(
        process_page(&mut acc, &PLAIN_HTML.to_vec(), &valid, 1, 42),
        StepOutcome::Continue
    );
    let blocked = chrome_only_page();
    let outcome = process_page(&mut acc, &PLAIN_HTML.to_vec(), &blocked, 2, 42);
    assert_eq!(outcome, StepOutcome::Failed(ScrapeError::AntiBotBlock));
    assert!(allows_partial_save(&ScrapeError::AntiBotBlock));
    assert_eq!(acc.len(), 1);
}

#[test]
fn structure_failure_mid_page_is_terminal() {
    let mut acc = Accumulator::new();
    let mut page = page_with(vec![
        (b"Alpha", b"2001", b"Dir A", b"7"),
        (b"Beta", b"1999", b"Dir B", b"8"),
    ]);
    // Break the second container's year marker.
    page.nodes[17].classes.clear();
    let outcome = process_page(&mut acc, &PLAIN_HTML.to_vec(), &page, 1, 42);
    assert_eq!(
        outcome,
        StepOutcome::Failed(ScrapeError::StructureChange {
            field: FieldName::Year,
            marker: ExpectedMarker::YearSpan
        })
    );
    // The first container's record was already accumulated.
    assert_eq!(acc.len(), 1);
    assert_eq!(acc.get(0).title, b"Alpha".to_vec());
}

#[test]
fn two_pages_accumulate_in_order() {
    let mut acc = Accumulator::new();
    let page1 = page_with(vec![(b"Alpha", b"2001", b"Dir A", b"7")]);
    let page2 = page_with(vec![(b"Beta", b"1999", b"Dir B", b"8")]);
    assert_eq!(
        process_page(&mut acc, &PLAIN_HTML.to_vec(), &page1, 1, 42),
        StepOutcome::Continue
    );
    assert_eq!(
        process_page(&mut acc, &PLAIN_HTML.to_vec(), &page2, 2, 42),
        StepOutcome::Continue
    );
    assert_eq!(acc.len(), 2);
    assert_eq!(acc.get(0).title, b"Alpha".to_vec());
    assert_eq!(acc.get(1).title, b"Beta".to_vec());
}

#[test]
fn end_to_end_two_records_exact_file() {
    let mut acc = Accumulator::new();
    let page = page_with(vec![
        (b"Alpha", b"2001", b"Dir A", b"7"),
        (b"Beta", b"1999", b"Dir B", b"x"),
    ]);
    assert!(page.check_wf());
    assert_eq!(
        process_page(&mut acc, &PLAIN_HTML.to_vec(), &page, 1, 42),
        StepOutcome::Continue
    );
    let out = render_csv(&acc);
    assert_eq!(
        out,
        b"Title,Year,Directors,Rating10\n\"Alpha\",2001,\"Dir A\",7\n\"Beta\",1999,\"Dir B\",\n"
            .to_vec()
    );
}

#[test]
fn render_empty_accumulator_is_header_only() {
    let acc = Accumulator::new();
    assert_eq!(render_csv(&acc), b"Title,Year,Directors,Rating10\n".to_vec());
}
