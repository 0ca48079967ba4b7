use ratings_scraper::pace::{make_delays, new_rng};

#[test]
fn delays_cover_every_page_and_stay_in_range() {
    let mut rng = new_rng();
    let delays = make_delays(&mut rng, 50);
    assert_eq!(delays.len(), 50);
    for d in delays {
        assert!((1..=3).contains(&d));
    }
}

#[test]
fn no_delays_for_zero_pages() {
    let mut rng = new_rng();
    assert_eq!(make_delays(&mut rng, 0), Vec::<u8>::new());
}
