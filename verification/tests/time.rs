use postit::time::{
    days_in_month, format_date, format_due, next_date, parse_due, prev_date, shift_date, Date,
    DateTime,
};

fn dt(year: u16, month: u8, day: u8, hour: u8, minute: u8) -> DateTime {
    DateTime { year, month, day, hour, minute }
}

#[test]
fn time_parse_exact_value() {
    assert_eq!(parse_due("2024.01.03@10:30"), Ok(Some(dt(2024, 1, 3, 10, 30))));
}

#[test]
fn time_parse_trims_and_accepts_empty_as_no_due() {
    assert_eq!(parse_due(""), Ok(None));
    assert_eq!(parse_due("   \t "), Ok(None));
    assert_eq!(parse_due("  2024.01.03@10:30  "), Ok(Some(dt(2024, 1, 3, 10, 30))));
}

#[test]
fn time_parse_rejects_malformed_input() {
    assert!(parse_due("2024-01-03 10:30").is_err());
    assert!(parse_due("tomorrow").is_err());
    assert!(parse_due("2024.1.3@9:05").is_err());
    assert!(parse_due("2024.01.03@10:30extra").is_err());
}

#[test]
fn time_parse_rejects_impossible_dates() {
    assert!(parse_due("2023.02.29@00:00").is_err(), "2023 is no leap year");
    assert!(parse_due("2024.13.01@00:00").is_err());
    assert!(parse_due("2024.04.31@00:00").is_err());
    assert!(parse_due("2024.04.30@24:00").is_err());
    assert!(parse_due("2024.04.30@23:60").is_err());
    assert!(parse_due("2024.00.10@10:00").is_err());
    assert!(parse_due("2024.02.00@10:00").is_err());
}

#[test]
fn time_parse_accepts_leap_day() {
    assert_eq!(parse_due("2024.02.29@08:15"), Ok(Some(dt(2024, 2, 29, 8, 15))));
    assert_eq!(parse_due("2000.02.29@00:00"), Ok(Some(dt(2000, 2, 29, 0, 0))));
    assert!(parse_due("1900.02.29@00:00").is_err(), "1900 was no leap year");
}

#[test]
fn time_format_round_trips_through_parse() {
    for d in [
        dt(2024, 1, 3, 10, 30),
        dt(0, 1, 1, 0, 0),
        dt(9999, 12, 31, 23, 59),
        dt(2024, 2, 29, 8, 15),
    ] {
        let text = format_due(&d);
        assert_eq!(parse_due(&text), Ok(Some(d)));
    }
    assert_eq!(format_due(&dt(2024, 1, 3, 9, 5)), "2024.01.03@09:05");
}

#[test]
fn time_days_in_month_table() {
    assert_eq!(days_in_month(2023, 1), 31);
    assert_eq!(days_in_month(2023, 2), 28);
    assert_eq!(days_in_month(2024, 2), 29);
    assert_eq!(days_in_month(2100, 2), 28);
    assert_eq!(days_in_month(2000, 2), 29);
    assert_eq!(days_in_month(2023, 4), 30);
    assert_eq!(days_in_month(2023, 12), 31);
}

#[test]
fn time_date_stepping_crosses_month_and_year_ends() {
    let d = Date { year: 2023, month: 12, day: 31 };
    assert_eq!(next_date(d), Date { year: 2024, month: 1, day: 1 });
    assert_eq!(prev_date(Date { year: 2024, month: 1, day: 1 }), d);
    assert_eq!(prev_date(Date { year: 2024, month: 3, day: 1 }), Date {
        year: 2024,
        month: 2,
        day: 29,
    });
}

#[test]
fn time_shift_by_week() {
    let d = Date { year: 2024, month: 1, day: 29 };
    assert_eq!(shift_date(d, 7), Date { year: 2024, month: 2, day: 5 });
    assert_eq!(shift_date(Date { year: 2024, month: 2, day: 5 }, -7), d);
    assert_eq!(shift_date(d, 0), d);
}

#[test]
fn time_format_date_dashes() {
    assert_eq!(format_date(&Date { year: 2024, month: 1, day: 3 }), "2024-01-03");
}
