use chrono::{NaiveDate, NaiveDateTime};
use uhd_canvas::timestamp::{
    find_capture_time, find_modification_time, find_unread_fields, first_of, list_unread,
    parse_field, parse_layouts, read_time, DateField, Reading, Timestamp,
};

fn at(year: i32, month: u8, day: u8, hour: u8, minute: u8, second: u8) -> Timestamp {
    Timestamp { year, month, day, hour, minute, second }
}

fn chrono_stem(t: Timestamp) -> String {
    let moment: NaiveDateTime = NaiveDate::from_ymd_opt(t.year, t.month as u32, t.day as u32)
        .unwrap()
        .and_hms_opt(t.hour as u32, t.minute as u32, t.second as u32)
        .unwrap();
    moment.format("%Y%m%d_%H%M%S").to_string()
}

#[test]
fn each_layout_is_read() {
    let expected = Some(at(2023, 1, 2, 10, 20, 30));
    assert_eq!(parse_layouts("2023:01:02 10:20:30"), expected);
    assert_eq!(parse_layouts("2023-01-02 10:20:30"), expected);
    assert_eq!(parse_layouts("2023/01/02 10:20:30"), expected);
}

#[test]
fn other_text_is_refused() {
    assert_eq!(parse_layouts(""), None);
    assert_eq!(parse_layouts("unknown"), None);
    assert_eq!(parse_layouts("2023.01.02 10:20:30"), None);
    assert_eq!(parse_layouts("2023:01:02"), None);
    assert_eq!(parse_layouts("2023:13:02 10:20:30"), None);
    assert_eq!(parse_layouts("2023:02:30 10:20:30"), None);
    assert_eq!(parse_layouts("2023:01:02 24:00:00"), None);
    assert_eq!(parse_layouts("2023:01:02 10:20:30 and more"), None);
    assert_eq!(parse_layouts("2023-01/02 10:20:30"), None);
}

#[test]
fn quotation_marks_around_a_field_are_stripped() {
    let expected = Some(at(2021, 12, 31, 23, 59, 59));
    assert_eq!(parse_field(Some("\"2021:12:31 23:59:59\"")), expected);
    assert_eq!(parse_field(Some("\"\"2021-12-31 23:59:59\"")), expected);
    assert_eq!(parse_field(Some("2021/12/31 23:59:59\"\"\"")), expected);
    assert_eq!(parse_field(Some("2021:12:31 23:59:59")), expected);
    assert_eq!(parse_field(Some("2021:12:31 \"23:59:59")), None);
    assert_eq!(parse_field(Some("\"\"")), None);
    assert_eq!(parse_field(None), None);
}

#[test]
fn the_first_field_with_a_date_time_decides() {
    let a = "2020:01:01 01:01:01";
    let b = "2020:02:02 02:02:02";
    let c = "2020:03:03 03:03:03";
    assert_eq!(find_capture_time(Some(a), Some(b), Some(c)), Some(at(2020, 1, 1, 1, 1, 1)));
    assert_eq!(find_capture_time(None, Some(b), Some(c)), Some(at(2020, 2, 2, 2, 2, 2)));
    assert_eq!(find_capture_time(None, None, Some(c)), Some(at(2020, 3, 3, 3, 3, 3)));
    assert_eq!(find_capture_time(Some("unknown"), Some(b), Some(c)), Some(at(2020, 2, 2, 2, 2, 2)));
    assert_eq!(find_capture_time(Some("?"), Some(""), Some(c)), Some(at(2020, 3, 3, 3, 3, 3)));
    assert_eq!(find_capture_time(Some("?"), None, Some("!")), None);
    assert_eq!(find_capture_time(None, None, None), None);
}

#[test]
fn seconds_since_1970_give_universal_time() {
    assert_eq!(find_modification_time(Some(0)), Some(at(1970, 1, 1, 0, 0, 0)));
    assert_eq!(find_modification_time(Some(1_651_393_800)), Some(at(2022, 5, 1, 8, 30, 0)));
    assert_eq!(find_modification_time(Some(951_782_399)), Some(at(2000, 2, 28, 23, 59, 59)));
    assert_eq!(find_modification_time(Some(951_782_400)), Some(at(2000, 2, 29, 0, 0, 0)));
    assert_eq!(find_modification_time(Some(253_402_300_799)), Some(at(9999, 12, 31, 23, 59, 59)));
    assert_eq!(find_modification_time(None), None);
}

#[test]
fn seconds_beyond_the_calendar_give_no_time() {
    assert_eq!(find_modification_time(Some(u64::MAX)), None);
    assert_eq!(find_modification_time(Some(i64::MAX as u64)), None);
    assert_eq!(find_modification_time(Some(i64::MAX as u64 + 1)), None);
    assert_eq!(find_modification_time(Some(9_000_000_000_000)), None);
}

#[test]
fn stem_has_year_month_day_and_time() {
    assert_eq!(at(2022, 5, 1, 8, 30, 0).stem(), "20220501_083000");
    assert_eq!(at(1999, 12, 31, 23, 59, 59).stem(), "19991231_235959");
    assert_eq!(at(7, 1, 2, 3, 4, 5).stem(), "00070102_030405");
    assert_eq!(at(0, 10, 20, 0, 0, 0).stem(), "00001020_000000");
    assert_eq!(at(9999, 1, 1, 0, 0, 0).stem(), "99990101_000000");
}

#[test]
fn stem_of_a_year_outside_four_digits_has_a_sign() {
    assert_eq!(at(10000, 1, 1, 0, 0, 0).stem(), "+100000101_000000");
    assert_eq!(at(262142, 12, 31, 1, 2, 3).stem(), "+2621421231_010203");
    assert_eq!(at(-1, 1, 1, 0, 0, 0).stem(), "-00010101_000000");
    assert_eq!(at(-9999, 1, 1, 0, 0, 0).stem(), "-99990101_000000");
    assert_eq!(at(-10000, 6, 7, 8, 9, 10).stem(), "-100000607_080910");
    assert_eq!(at(i32::MAX, 1, 1, 0, 0, 0).stem(), "+21474836470101_000000");
    assert_eq!(at(i32::MIN, 1, 1, 0, 0, 0).stem(), "-21474836480101_000000");
}

#[test]
fn stem_is_what_chrono_writes() {
    let years = [-262143, -10000, -9999, -1000, -999, -1, 0, 1, 9, 10, 99, 100, 999, 1000, 1970,
        2024, 9999, 10000, 99999, 100000, 262142];
    for year in years {
        for (month, day) in [(1, 1), (2, 28), (9, 9), (10, 10), (12, 31)] {
            for (hour, minute, second) in [(0, 0, 0), (9, 9, 9), (10, 10, 10), (23, 59, 59)] {
                let t = at(year, month, day, hour, minute, second);
                assert_eq!(t.stem(), chrono_stem(t), "{t:?}");
            }
        }
    }
}

#[test]
fn what_is_read_is_written_back() {
    let t = parse_layouts("2023:01:01 09:00:00").unwrap();
    assert_eq!(t.stem(), "20230101_090000");
    let t = parse_field(Some("\"1987-06-05 04:03:02\"")).unwrap();
    assert_eq!(t.stem(), "19870605_040302");
}

#[test]
fn stem_of_fields_out_of_range_keeps_every_digit() {
    assert_eq!(at(2022, 100, 0, 255, 60, 99).stem(), "202210000_2556099");
}

#[test]
fn fields_without_a_date_time_are_listed_up_to_the_one_that_decides() {
    let good = "2020:01:01 01:01:01";
    assert_eq!(find_unread_fields(Some(good), Some("?"), Some("?")), vec![]);
    assert_eq!(find_unread_fields(Some("?"), Some(good), Some("?")), vec![DateField::Original]);
    assert_eq!(find_unread_fields(None, Some(good), Some("?")), vec![]);
    assert_eq!(
        find_unread_fields(Some("?"), Some("??"), Some(good)),
        vec![DateField::Original, DateField::Digitized]
    );
    assert_eq!(find_unread_fields(None, Some("??"), Some(good)), vec![DateField::Digitized]);
    assert_eq!(
        find_unread_fields(Some("a"), Some("b"), Some("c")),
        vec![DateField::Original, DateField::Digitized, DateField::Changed]
    );
    assert_eq!(find_unread_fields(Some("a"), None, Some("c")), vec![
        DateField::Original,
        DateField::Changed
    ]);
    assert_eq!(find_unread_fields(None, None, None), vec![]);
    assert_eq!(find_unread_fields(None, None, Some(good)), vec![]);
}

#[test]
fn a_leap_second_is_the_second_sixty() {
    let read = parse_layouts("2016:12:31 23:59:60").unwrap();
    assert_eq!(read, at(2016, 12, 31, 23, 59, 60));
    assert_eq!(read.stem(), "20161231_235960");
    let by_chrono = NaiveDateTime::parse_from_str("2016:12:31 23:59:60", "%Y:%m:%d %H:%M:%S")
        .unwrap()
        .format("%Y%m%d_%H%M%S")
        .to_string();
    assert_eq!(read.stem(), by_chrono);
    assert_eq!(parse_field(Some("\"2016-12-31 23:59:60\"")), Some(at(2016, 12, 31, 23, 59, 60)));
    assert_eq!(parse_layouts("2016:12:31 23:59:61"), None);
}

#[test]
fn a_reading_becomes_a_date_time() {
    let plain = Reading {
        year: 2001,
        month: 2,
        day: 3,
        hour: 4,
        minute: 5,
        second: 6,
        nanosecond: 999_999_999,
    };
    assert_eq!(Timestamp::from_reading(plain), at(2001, 2, 3, 4, 5, 6));
    let leap = Reading { second: 59, nanosecond: 1_000_000_000, ..plain };
    assert_eq!(Timestamp::from_reading(leap), at(2001, 2, 3, 4, 5, 60));
    let late = Reading { second: 59, nanosecond: 1_999_999_999, ..plain };
    assert_eq!(Timestamp::from_reading(late), at(2001, 2, 3, 4, 5, 60));
    assert_eq!(read_time(Some(leap)), Some(at(2001, 2, 3, 4, 5, 60)));
    assert_eq!(read_time(None), None);
}

#[test]
fn the_first_reading_wins() {
    let a = Some(at(2001, 1, 1, 1, 1, 1));
    let b = Some(at(2002, 2, 2, 2, 2, 2));
    let c = Some(at(2003, 3, 3, 3, 3, 3));
    assert_eq!(first_of(a, b, c), a);
    assert_eq!(first_of(a, None, None), a);
    assert_eq!(first_of(None, b, c), b);
    assert_eq!(first_of(None, b, None), b);
    assert_eq!(first_of(None, None, c), c);
    assert_eq!(first_of(None, None, None), None);
}

#[test]
fn unread_fields_are_listed_from_the_readings() {
    let good = Some(at(2001, 1, 1, 1, 1, 1));
    assert_eq!(list_unread((true, true, true), (good, None, None)), vec![]);
    assert_eq!(list_unread((true, true, true), (None, good, None)), vec![DateField::Original]);
    assert_eq!(list_unread((false, true, true), (None, good, None)), vec![]);
    assert_eq!(
        list_unread((true, true, true), (None, None, good)),
        vec![DateField::Original, DateField::Digitized]
    );
    assert_eq!(
        list_unread((true, false, true), (None, None, None)),
        vec![DateField::Original, DateField::Changed]
    );
    assert_eq!(list_unread((false, false, false), (None, None, None)), vec![]);
}
