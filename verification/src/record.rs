//! The record model and its CSV line codec.
//!
//! A record encodes as one CSV line: title and director list quoted,
//! year and rating bare, and the directors joined by commas inside
//! their single quoted field. Joining the directors is deliberately
//! lossy and is kept for compatibility with the consuming service.

use vstd::prelude::*;

use crate::text::{
    append_copy, find_byte, join_bytes, join_with, split_bytes, split_on,
};

verus! {

/// The quote byte `"`.
pub const QUOTE: u8 = 34;

/// The comma byte `,`.
pub const COMMA: u8 = 44;

/// One scraped rating entry.
#[derive(Debug, PartialEq, Eq)]
pub struct Record {
    /// Movie title text.
    pub title: Vec<u8>,
    /// Release year text.
    pub year: Vec<u8>,
    /// Director names, in document order; may be empty.
    pub directors: Vec<Vec<u8>>,
    /// Canonical rating text: a decimal integer, or empty when the
    /// scraped rating did not parse.
    pub rating: Vec<u8>,
}

/// The mathematical value of a [`Record`].
pub struct RecordModel {
    pub title: Seq<u8>,
    pub year: Seq<u8>,
    pub directors: Seq<Seq<u8>>,
    pub rating: Seq<u8>,
}

impl View for Record {
    type V = RecordModel;

    open spec fn view(&self) -> RecordModel {
        RecordModel {
            title: self.title@,
            year: self.year@,
            directors: self.directors@.map_values(|d: Vec<u8>| d@),
            rating: self.rating@,
        }
    }
}

/// The CSV line of a record: quoted title, bare year, quoted
/// comma-joined director list, bare rating.
pub open spec fn encode_spec(r: RecordModel) -> Seq<u8> {
    seq![QUOTE] + r.title + seq![QUOTE, COMMA] + r.year + seq![COMMA, QUOTE] + join_with(
        r.directors,
        COMMA,
    ) + seq![QUOTE, COMMA] + r.rating
}

/// Encode one record as its CSV line.
pub fn encode_record(r: &Record) -> (line: Vec<u8>)
    ensures
        line@ == encode_spec(r@),
{
    let mut line: Vec<u8> = Vec::new();
    line.push(QUOTE);
    append_copy(&mut line, &r.title);
    line.push(QUOTE);
    line.push(COMMA);
    append_copy(&mut line, &r.year);
    line.push(COMMA);
    line.push(QUOTE);
    let joined = join_bytes(&r.directors, COMMA);
    append_copy(&mut line, &joined);
    line.push(QUOTE);
    line.push(COMMA);
    append_copy(&mut line, &r.rating);
    proof {
        assert(line@ =~= encode_spec(r@));
    }
    line
}

/// The director fields read back from the joined directors field:
/// the empty field stands for the empty director list.
pub open spec fn decode_directors(joined: Seq<u8>) -> Seq<Seq<u8>> {
    if joined.len() == 0 {
        Seq::empty()
    } else {
        split_on(joined, COMMA)
    }
}

/// The record read back from one CSV line, when the line has the
/// quoted/bare field shape that [`encode_spec`] produces.
pub open spec fn decode_spec(line: Seq<u8>) -> Option<RecordModel> {
    if line.len() == 0 || line[0] != QUOTE {
        None
    } else {
        match find_byte(line, QUOTE, 1) {
            None => None,
            Some(t_end) => if t_end + 1 >= line.len() || line[t_end + 1] != COMMA {
                None
            } else {
                match find_byte(line, COMMA, t_end + 2) {
                    None => None,
                    Some(y_end) => if y_end + 1 >= line.len() || line[y_end + 1] != QUOTE {
                        None
                    } else {
                        match find_byte(line, QUOTE, y_end + 2) {
                            None => None,
                            Some(d_end) => if d_end + 1 >= line.len() || line[d_end + 1]
                                != COMMA {
                                None
                            } else {
                                Some(
                                    RecordModel {
                                        title: line.subrange(1, t_end),
                                        year: line.subrange(t_end + 2, y_end),
                                        directors: decode_directors(
                                            line.subrange(y_end + 2, d_end),
                                        ),
                                        rating: line.subrange(d_end + 2, line.len() as int),
                                    },
                                )
                            },
                        }
                    },
                }
            },
        }
    }
}

/// Law: encoding loses nothing of the title, the year and the rating
/// when those fields carry no embedded quote or comma: decoding the
/// encoded line recovers all three exactly. (The director list is the
/// one deliberately lossy field: it is joined into a single quoted
/// field.)
pub proof fn lemma_encode_round_trip(r: RecordModel)
    requires
        crate::text::free_of(r.title, QUOTE),
        crate::text::free_of(r.year, COMMA),
        forall|i: int|
            0 <= i < r.directors.len() ==> crate::text::free_of(
                #[trigger] r.directors[i],
                QUOTE,
            ),
    ensures
        decode_spec(encode_spec(r)) is Some,
        decode_spec(encode_spec(r)).unwrap().title == r.title,
        decode_spec(encode_spec(r)).unwrap().year == r.year,
        decode_spec(encode_spec(r)).unwrap().rating == r.rating,
{
    let line = encode_spec(r);
    let t = r.title.len() as int;
    let y = r.year.len() as int;
    let j = join_with(r.directors, COMMA);
    let d = j.len() as int;
    let g = r.rating.len() as int;
    crate::text::lemma_join_free(r.directors, COMMA, QUOTE);
    assert(line.len() == 7 + t + y + d + g);
    assert(line[0] == QUOTE);
    assert forall|i: int| 1 <= i < 1 + t implies #[trigger] line[i] == r.title[i - 1] by {}
    assert(line[1 + t] == QUOTE);
    assert(line[2 + t] == COMMA);
    assert forall|i: int| 3 + t <= i < 3 + t + y implies #[trigger] line[i] == r.year[i - 3
        - t] by {}
    assert(line[3 + t + y] == COMMA);
    assert(line[4 + t + y] == QUOTE);
    assert forall|i: int| 5 + t + y <= i < 5 + t + y + d implies #[trigger] line[i] == j[i - 5
        - t - y] by {}
    assert(line[5 + t + y + d] == QUOTE);
    assert(line[6 + t + y + d] == COMMA);
    assert forall|i: int|
        7 + t + y + d <= i < line.len() implies #[trigger] line[i] == r.rating[i - 7 - t - y
        - d] by {}
    assert(forall|i: int| 1 <= i < 1 + t ==> (#[trigger] line[i]) != QUOTE);
    crate::text::lemma_find_first_at(line, QUOTE, 1, 1 + t);
    assert(forall|i: int| 3 + t <= i < 3 + t + y ==> (#[trigger] line[i]) != COMMA);
    crate::text::lemma_find_first_at(line, COMMA, 3 + t, 3 + t + y);
    assert(forall|i: int| 5 + t + y <= i < 5 + t + y + d ==> (#[trigger] line[i]) != QUOTE);
    crate::text::lemma_find_first_at(line, QUOTE, 5 + t + y, 5 + t + y + d);
    let dec = decode_spec(line).unwrap();
    assert(dec.title =~= r.title);
    assert(dec.year =~= r.year);
    assert(dec.rating =~= r.rating);
}

/// Law: an empty director list still encodes as an empty quoted
/// field — two adjacent quotes — never as an omitted field.
pub proof fn lemma_empty_directors_encoding(r: RecordModel)
    requires
        r.directors.len() == 0,
    ensures
        encode_spec(r) == seq![QUOTE] + r.title + seq![QUOTE, COMMA] + r.year + seq![
            COMMA,
            QUOTE,
            QUOTE,
            COMMA,
        ] + r.rating,
{
    assert(join_with(r.directors, COMMA) == Seq::<u8>::empty());
    assert(encode_spec(r) =~= seq![QUOTE] + r.title + seq![QUOTE, COMMA] + r.year + seq![
        COMMA,
        QUOTE,
        QUOTE,
        COMMA,
    ] + r.rating);
}

/// Copy the bytes of `s` in `[lo, hi)`.
fn copy_range(s: &Vec<u8>, lo: usize, hi: usize) -> (r: Vec<u8>)
    requires
        lo <= hi <= s@.len(),
    ensures
        r@ == s@.subrange(lo as int, hi as int),
{
    let mut r: Vec<u8> = Vec::new();
    let mut i: usize = lo;
    while i < hi
        invariant
            lo <= i <= hi <= s@.len(),
            r@ == s@.subrange(lo as int, i as int),
        decreases hi - i,
    {
        let x = s[i];
        r.push(x);
        proof {
            assert(s@.subrange(lo as int, i + 1) =~= s@.subrange(lo as int, i as int).push(x));
        }
        i += 1;
    }
    r
}

/// Decode one CSV line back into a record, when it has the shape that
/// [`encode_spec`] produces.
pub fn decode_record(line: &Vec<u8>) -> (r: Option<Record>)
    ensures
        match r {
            Some(rec) => decode_spec(line@) == Some(rec@),
            None => decode_spec(line@) is None,
        },
{
    if line.len() == 0 || line[0] != QUOTE {
        return None;
    }
    let t_end = match crate::text::find_byte_from(line, QUOTE, 1) {
        None => { return None; },
        Some(i) => i,
    };
    if t_end + 1 >= line.len() || line[t_end + 1] != COMMA {
        return None;
    }
    let y_end = match crate::text::find_byte_from(line, COMMA, t_end + 2) {
        None => { return None; },
        Some(i) => i,
    };
    if y_end + 1 >= line.len() || line[y_end + 1] != QUOTE {
        return None;
    }
    let d_end = match crate::text::find_byte_from(line, QUOTE, y_end + 2) {
        None => { return None; },
        Some(i) => i,
    };
    if d_end + 1 >= line.len() || line[d_end + 1] != COMMA {
        return None;
    }
    let title = copy_range(line, 1, t_end);
    let year = copy_range(line, t_end + 2, y_end);
    let joined = copy_range(line, y_end + 2, d_end);
    let directors: Vec<Vec<u8>> = if joined.len() == 0 {
        Vec::new()
    } else {
        split_bytes(&joined, COMMA)
    };
    let rating = copy_range(line, d_end + 2, line.len());
    proof {
        if joined@.len() == 0 {
            assert(Seq::<Vec<u8>>::empty().map_values(|d: Vec<u8>| d@)
                =~= Seq::<Seq<u8>>::empty());
        }
    }
    let rec = Record { title, year, directors, rating };
    proof {
        assert(decode_spec(line@) == Some(rec@));
    }
    Some(rec)
}

} // verus!

