use basango::domain::{DateRange, PageRange};

#[test]
fn page_range_text_round_trips() {
    let range = PageRange::parse("3:17").unwrap();
    assert_eq!(range.text(), "3:17");
    assert_eq!(PageRange::parse(&range.text()).unwrap(), range);
}

#[test]
fn date_range_text_shows_the_first_and_last_day() {
    let range = DateRange::parse("2025-01-01:2025-01-02").unwrap();
    assert_eq!(range.text(), "2025-01-01:2025-01-02");
    assert_eq!(DateRange::parse(&range.text()).unwrap(), range);
}

#[test]
fn date_range_text_of_pre_epoch_days() {
    let range = DateRange::parse("1969-12-31:1970-01-01").unwrap();
    assert_eq!(range.text(), "1969-12-31:1970-01-01");
}
