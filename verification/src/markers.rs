//! The markers that couple the scraper to the target site's rendered
//! markup: the literal that identifies a missing user, the class names
//! that locate record containers and their sub-fields, and the fixed
//! number of leading non-record containers the page template carries.

use vstd::prelude::*;

verus! {

/// Containers skipped at the start of every page: the page template
/// places this many non-record elements under the container class.
pub const CHROME_CONTAINER_SKIP: usize = 2;

/// The literal that marks a "user not found" page.
pub open spec fn not_found_marker() -> Seq<u8> {
    seq![
        '<' as u8,
        'h' as u8,
        '1' as u8,
        '>' as u8,
        'N' as u8,
        'o' as u8,
        't' as u8,
        ' ' as u8,
        'F' as u8,
        'o' as u8,
        'u' as u8,
        'n' as u8,
        'd' as u8,
        '<' as u8,
        '/' as u8,
        'h' as u8,
        '1' as u8,
        '>' as u8,
    ]
}

/// Executable copy of [`not_found_marker`].
pub fn not_found_marker_bytes() -> (r: Vec<u8>)
    ensures
        r@ == not_found_marker(),
{
    let r: Vec<u8> = vec![
        '<' as u8,
        'h' as u8,
        '1' as u8,
        '>' as u8,
        'N' as u8,
        'o' as u8,
        't' as u8,
        ' ' as u8,
        'F' as u8,
        'o' as u8,
        'u' as u8,
        'n' as u8,
        'd' as u8,
        '<' as u8,
        '/' as u8,
        'h' as u8,
        '1' as u8,
        '>' as u8,
    ];
    proof {
        assert(r@ =~= not_found_marker());
    }
    r
}

/// Class name of a record container.
pub open spec fn class_container() -> Seq<u8> {
    seq!['m' as u8, 'b' as u8, '-' as u8, '4' as u8]
}

/// Executable copy of [`class_container`].
pub fn class_container_bytes() -> (r: Vec<u8>)
    ensures
        r@ == class_container(),
{
    let r: Vec<u8> = vec!['m' as u8, 'b' as u8, '-' as u8, '4' as u8];
    proof {
        assert(r@ =~= class_container());
    }
    r
}

/// Class name of the title block inside a container.
pub open spec fn class_title() -> Seq<u8> {
    seq!['m' as u8, 'c' as u8, '-' as u8, 't' as u8, 'i' as u8, 't' as u8, 'l' as u8, 'e' as u8]
}

/// Executable copy of [`class_title`].
pub fn class_title_bytes() -> (r: Vec<u8>)
    ensures
        r@ == class_title(),
{
    let r: Vec<u8> = vec![
        'm' as u8,
        'c' as u8,
        '-' as u8,
        't' as u8,
        'i' as u8,
        't' as u8,
        'l' as u8,
        'e' as u8,
    ];
    proof {
        assert(r@ =~= class_title());
    }
    r
}

/// Class name of the narrow-layout title element inside the title block.
pub open spec fn class_title_inner() -> Seq<u8> {
    seq![
        'd' as u8,
        '-' as u8,
        'm' as u8,
        'd' as u8,
        '-' as u8,
        'n' as u8,
        'o' as u8,
        'n' as u8,
        'e' as u8,
    ]
}

/// Executable copy of [`class_title_inner`].
pub fn class_title_inner_bytes() -> (r: Vec<u8>)
    ensures
        r@ == class_title_inner(),
{
    let r: Vec<u8> = vec![
        'd' as u8,
        '-' as u8,
        'm' as u8,
        'd' as u8,
        '-' as u8,
        'n' as u8,
        'o' as u8,
        'n' as u8,
        'e' as u8,
    ];
    proof {
        assert(r@ =~= class_title_inner());
    }
    r
}

/// Class name of the year element.
pub open spec fn class_year() -> Seq<u8> {
    seq!['m' as u8, 'c' as u8, '-' as u8, 'y' as u8, 'e' as u8, 'a' as u8, 'r' as u8]
}

/// Executable copy of [`class_year`].
pub fn class_year_bytes() -> (r: Vec<u8>)
    ensures
        r@ == class_year(),
{
    let r: Vec<u8> = vec![
        'm' as u8,
        'c' as u8,
        '-' as u8,
        'y' as u8,
        'e' as u8,
        'a' as u8,
        'r' as u8,
    ];
    proof {
        assert(r@ =~= class_year());
    }
    r
}

/// Class name of the credits block that lists the directors.
pub open spec fn class_credits() -> Seq<u8> {
    seq!['c' as u8, 'r' as u8, 'e' as u8, 'd' as u8, 'i' as u8, 't' as u8, 's' as u8]
}

/// Executable copy of [`class_credits`].
pub fn class_credits_bytes() -> (r: Vec<u8>)
    ensures
        r@ == class_credits(),
{
    let r: Vec<u8> = vec![
        'c' as u8,
        'r' as u8,
        'e' as u8,
        'd' as u8,
        'i' as u8,
        't' as u8,
        's' as u8,
    ];
    proof {
        assert(r@ =~= class_credits());
    }
    r
}

/// Class name of the user rating box.
pub open spec fn class_rating() -> Seq<u8> {
    seq![
        'f' as u8,
        'a' as u8,
        '-' as u8,
        'u' as u8,
        's' as u8,
        'e' as u8,
        'r' as u8,
        '-' as u8,
        'r' as u8,
        'a' as u8,
        't' as u8,
        '-' as u8,
        'b' as u8,
        'o' as u8,
        'x' as u8,
    ]
}

/// Executable copy of [`class_rating`].
pub fn class_rating_bytes() -> (r: Vec<u8>)
    ensures
        r@ == class_rating(),
{
    let r: Vec<u8> = vec![
        'f' as u8,
        'a' as u8,
        '-' as u8,
        'u' as u8,
        's' as u8,
        'e' as u8,
        'r' as u8,
        '-' as u8,
        'r' as u8,
        'a' as u8,
        't' as u8,
        '-' as u8,
        'b' as u8,
        'o' as u8,
        'x' as u8,
    ];
    proof {
        assert(r@ =~= class_rating());
    }
    r
}

/// Tag name of an anchor element.
pub open spec fn tag_anchor() -> Seq<u8> {
    seq!['a' as u8]
}

/// Executable copy of [`tag_anchor`].
pub fn tag_anchor_bytes() -> (r: Vec<u8>)
    ensures
        r@ == tag_anchor(),
{
    let r: Vec<u8> = vec!['a' as u8];
    proof {
        assert(r@ =~= tag_anchor());
    }
    r
}

/// The fixed CSV header line.
pub open spec fn csv_header() -> Seq<u8> {
    seq![
        'T' as u8,
        'i' as u8,
        't' as u8,
        'l' as u8,
        'e' as u8,
        ',' as u8,
        'Y' as u8,
        'e' as u8,
        'a' as u8,
        'r' as u8,
        ',' as u8,
        'D' as u8,
        'i' as u8,
        'r' as u8,
        'e' as u8,
        'c' as u8,
        't' as u8,
        'o' as u8,
        'r' as u8,
        's' as u8,
        ',' as u8,
        'R' as u8,
        'a' as u8,
        't' as u8,
        'i' as u8,
        'n' as u8,
        'g' as u8,
        '1' as u8,
        '0' as u8,
    ]
}

/// Executable copy of [`csv_header`].
pub fn csv_header_bytes() -> (r: Vec<u8>)
    ensures
        r@ == csv_header(),
{
    let r: Vec<u8> = vec![
        'T' as u8,
        'i' as u8,
        't' as u8,
        'l' as u8,
        'e' as u8,
        ',' as u8,
        'Y' as u8,
        'e' as u8,
        'a' as u8,
        'r' as u8,
        ',' as u8,
        'D' as u8,
        'i' as u8,
        'r' as u8,
        'e' as u8,
        'c' as u8,
        't' as u8,
        'o' as u8,
        'r' as u8,
        's' as u8,
        ',' as u8,
        'R' as u8,
        'a' as u8,
        't' as u8,
        'i' as u8,
        'n' as u8,
        'g' as u8,
        '1' as u8,
        '0' as u8,
    ];
    proof {
        assert(r@ =~= csv_header());
    }
    r
}

} // verus!
