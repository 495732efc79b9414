use agents_rs::templates::calendar::{date_string, days_to_ymd, today_date_string};

#[test]
fn days_to_ymd_known_dates() {
    assert_eq!(days_to_ymd(0), (1970, 1, 1));
    assert_eq!(days_to_ymd(59), (1970, 3, 1));
    assert_eq!(days_to_ymd(11016), (2000, 2, 29));
    assert_eq!(days_to_ymd(19723), (2024, 1, 1));
    assert_eq!(days_to_ymd(-1), (1969, 12, 31));
    assert_eq!(days_to_ymd(-719468), (0, 3, 1));
}

#[test]
fn date_string_pads_the_day() {
    assert_eq!(date_string(0), "01 Jan 1970");
    assert_eq!(date_string(19723 * 86_400 + 3_600), "01 Jan 2024");
    assert_eq!(date_string(11016 * 86_400), "29 Feb 2000");
}

#[test]
fn today_date_string_has_day_month_year() {
    let t = today_date_string();
    let parts: Vec<&str> = t.split(' ').collect();
    assert_eq!(parts.len(), 3);
    assert_eq!(parts[0].len(), 2);
    assert_eq!(parts[1].len(), 3);
}
