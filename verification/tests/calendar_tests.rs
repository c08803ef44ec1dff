use backend_website::calendar::{iso_date, utc_date};

#[test]
fn dates_of_unix_times() {
    assert_eq!(utc_date(0), "1970-01-01");
    assert_eq!(utc_date(86_399), "1970-01-01");
    assert_eq!(utc_date(86_400), "1970-01-02");
    assert_eq!(utc_date(951_782_400), "2000-02-29");
    assert_eq!(utc_date(1_709_164_800), "2024-02-29");
    assert_eq!(utc_date(1_709_251_200), "2024-03-01");
    assert_eq!(utc_date(1_735_689_599), "2024-12-31");
    assert_eq!(utc_date(4_107_542_400), "2100-03-01");
}

#[test]
fn dates_of_day_counts() {
    assert_eq!(iso_date(0), "1970-01-01");
    assert_eq!(iso_date(31), "1970-02-01");
    assert_eq!(iso_date(365), "1971-01-01");
    assert_eq!(iso_date(19_675), "2023-11-14");
}
