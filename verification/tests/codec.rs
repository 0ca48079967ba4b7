use ratings_scraper::record::{decode_record, encode_record, Record};

fn record(title: &[u8], year: &[u8], directors: Vec<&[u8]>, rating: &[u8]) -> Record {
    Record {
        title: title.to_vec(),
        year: year.to_vec(),
        directors: directors.into_iter().map(|d| d.to_vec()).collect(),
        rating: rating.to_vec(),
    }
}

#[test]
fn encode_single_director() {
    let r = record(b"Alpha", b"2001", vec![b"Dir A"], b"7");
    assert_eq!(encode_record(&r), b"\"Alpha\",2001,\"Dir A\",7".to_vec());
}

#[test]
fn encode_joins_directors_into_one_field() {
    let r = record(b"Alpha", b"2001", vec![b"A", b"B"], b"7");
    assert_eq!(encode_record(&r), b"\"Alpha\",2001,\"A,B\",7".to_vec());
}

#[test]
fn encode_empty_directors_is_empty_quoted_field() {
    let r = record(b"Alpha", b"2001", vec![], b"7");
    assert_eq!(encode_record(&r), b"\"Alpha\",2001,\"\",7".to_vec());
}

#[test]
fn encode_empty_rating_is_empty_field() {
    let r = record(b"Beta", b"1999", vec![b"Dir B"], b"");
    assert_eq!(encode_record(&r), b"\"Beta\",1999,\"Dir B\",".to_vec());
}

#[test]
fn decode_recovers_fields() {
    let line = b"\"Alpha\",2001,\"Dir A,Dir B\",7".to_vec();
    let rec = decode_record(&line).expect("line should decode");
    assert_eq!(rec.title, b"Alpha".to_vec());
    assert_eq!(rec.year, b"2001".to_vec());
    assert_eq!(rec.directors, vec![b"Dir A".to_vec(), b"Dir B".to_vec()]);
    assert_eq!(rec.rating, b"7".to_vec());
}

#[test]
fn decode_empty_directors_field_is_empty_list() {
    let line = b"\"Alpha\",2001,\"\",7".to_vec();
    let rec = decode_record(&line).expect("line should decode");
    assert_eq!(rec.directors, Vec::<Vec<u8>>::new());
}

#[test]
fn decode_rejects_malformed_lines() {
    assert!(decode_record(&Vec::new()).is_none());
    assert!(decode_record(&b"Alpha,2001".to_vec()).is_none());
    assert!(decode_record(&b"\"Alpha".to_vec()).is_none());
    assert!(decode_record(&b"\"Alpha\"2001".to_vec()).is_none());
}

#[test]
fn round_trip_title_year_rating() {
    let r = record(b"Alpha", b"2001", vec![b"Dir A"], b"7");
    let decoded = decode_record(&encode_record(&r)).expect("encoded line should decode");
    assert_eq!(decoded.title, r.title);
    assert_eq!(decoded.year, r.year);
    assert_eq!(decoded.rating, r.rating);
    assert_eq!(decoded.directors, r.directors);
}

#[test]
fn round_trip_empty_rating() {
    let r = record(b"Beta", b"1999", vec![b"Dir B"], b"");
    let decoded = decode_record(&encode_record(&r)).expect("encoded line should decode");
    assert_eq!(decoded.title, r.title);
    assert_eq!(decoded.year, r.year);
    assert_eq!(decoded.rating, r.rating);
}
