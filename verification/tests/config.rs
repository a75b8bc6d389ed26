use harvest_daily::config::{resolve, Config, RawConfig};
use harvest_daily::dates::{format_date, local_today, parse_date, today_from_ymd, u32_digits, Date};
use harvest_daily::error::Error;

fn empty_config() -> Config {
    Config {
        template_path: None,
        start_date: None,
        end_date: None,
        config_path: None,
        harvest_account_id: None,
        harvest_token: None,
        harvest_user_id: None,
    }
}

#[test]
fn merge_higher_layer_overrides() {
    let mut lo = empty_config();
    lo.harvest_token = Some("low".to_string());
    lo.harvest_account_id = Some(1);
    let mut hi = empty_config();
    hi.harvest_token = Some("high".to_string());
    let merged = Config::merge(vec![lo, hi]);
    // present in the higher layer: overrides
    assert_eq!(merged.harvest_token, Some("high".to_string()));
    // absent in the higher layer: the lower layer's value survives
    assert_eq!(merged.harvest_account_id, Some(1));
}

#[test]
fn merge_absent_field_never_clears() {
    let mut lo = empty_config();
    lo.template_path = Some("daily.hbs".to_string());
    lo.harvest_user_id = Some(7);
    let hi = empty_config();
    let merged = Config::merge(vec![lo, hi]);
    assert_eq!(merged.template_path, Some("daily.hbs".to_string()));
    assert_eq!(merged.harvest_user_id, Some(7));
}

#[test]
fn merge_of_nothing_is_empty() {
    let merged = Config::merge(vec![]);
    assert_eq!(merged.harvest_token, None);
    assert_eq!(merged.start_date, None);
}

#[test]
fn resolve_without_credentials_is_missing_credential() {
    let today = Date { year: 2024, month: 6, day: 1 };
    let r = resolve(empty_config(), None, today);
    assert!(matches!(r, Err(Error::MissingCredential)));
}

#[test]
fn resolve_token_alone_is_missing_credential() {
    let today = Date { year: 2024, month: 6, day: 1 };
    let mut cli = empty_config();
    cli.harvest_token = Some("abc".to_string());
    let r = resolve(cli, None, today);
    assert!(matches!(r, Err(Error::MissingCredential)));
}

#[test]
fn resolve_defaults_dates_to_today() {
    let today = Date { year: 2024, month: 6, day: 1 };
    let mut cli = empty_config();
    cli.harvest_token = Some("abc".to_string());
    cli.harvest_account_id = Some(123);
    let s = resolve(cli, None, today).unwrap();
    assert_eq!(s.start_date, Some(today));
    assert_eq!(s.end_date, Some(today));
    assert_eq!(s.harvest_account_id, Some(123));
}

#[test]
fn resolve_file_layer_sits_between_defaults_and_cli() {
    let today = Date { year: 2024, month: 6, day: 1 };
    let mut file = empty_config();
    file.start_date = Some(Date { year: 2024, month: 1, day: 1 });
    file.harvest_token = Some("from-file".to_string());
    file.harvest_account_id = Some(9);
    let mut cli = empty_config();
    cli.harvest_token = Some("from-cli".to_string());
    let s = resolve(cli, Some(file), today).unwrap();
    // the file's date overrides the default
    assert_eq!(s.start_date, Some(Date { year: 2024, month: 1, day: 1 }));
    // the CLI's token overrides the file's
    assert_eq!(s.harvest_token, Some("from-cli".to_string()));
    // the file's account id survives an absent CLI field
    assert_eq!(s.harvest_account_id, Some(9));
}

#[test]
fn from_raw_parses_both_dates() {
    let raw = RawConfig {
        template_path: Some("t.hbs".to_string()),
        start_date: Some("2024-01-01".to_string()),
        end_date: Some("2024-01-31".to_string()),
        config_path: None,
        harvest_account_id: Some(123),
        harvest_token: Some("abc".to_string()),
        harvest_user_id: Some(456),
    };
    let c = Config::from_raw(raw).unwrap();
    assert_eq!(c.start_date, Some(Date { year: 2024, month: 1, day: 1 }));
    assert_eq!(c.end_date, Some(Date { year: 2024, month: 1, day: 31 }));
    assert_eq!(c.template_path, Some("t.hbs".to_string()));
}

#[test]
fn from_raw_rejects_malformed_start_date() {
    let mut raw = RawConfig {
        template_path: None,
        start_date: Some("2024-1-1".to_string()),
        end_date: None,
        config_path: None,
        harvest_account_id: None,
        harvest_token: None,
        harvest_user_id: None,
    };
    match Config::from_raw(raw).unwrap_err() {
        Error::InvalidDate { field, value } => {
            assert_eq!(field, "start_date".to_string());
            assert_eq!(value, "2024-1-1".to_string());
        },
        other => panic!("unexpected error: {:?}", other),
    }
    raw = RawConfig {
        template_path: None,
        start_date: None,
        end_date: Some("not-a-date".to_string()),
        config_path: None,
        harvest_account_id: None,
        harvest_token: None,
        harvest_user_id: None,
    };
    match Config::from_raw(raw).unwrap_err() {
        Error::InvalidDate { field, value } => {
            assert_eq!(field, "end_date".to_string());
            assert_eq!(value, "not-a-date".to_string());
        },
        other => panic!("unexpected error: {:?}", other),
    }
}

#[test]
fn parse_date_accepts_canonical_dates() {
    assert_eq!(parse_date("2024-01-05"), Some(Date { year: 2024, month: 1, day: 5 }));
    assert_eq!(parse_date("0000-01-01"), Some(Date { year: 0, month: 1, day: 1 }));
    assert_eq!(parse_date("9999-12-31"), Some(Date { year: 9999, month: 12, day: 31 }));
    // leap day of a leap year
    assert_eq!(parse_date("2024-02-29"), Some(Date { year: 2024, month: 2, day: 29 }));
    // 2000 is a leap year (divisible by 400), 1900 is not
    assert_eq!(parse_date("2000-02-29"), Some(Date { year: 2000, month: 2, day: 29 }));
    assert_eq!(parse_date("1900-02-29"), None);
}

#[test]
fn parse_date_rejects_malformed_text() {
    assert_eq!(parse_date(""), None);
    assert_eq!(parse_date("2024-01-0"), None);
    assert_eq!(parse_date("2024-01-055"), None);
    assert_eq!(parse_date("2024/01/05"), None);
    assert_eq!(parse_date("2024-13-01"), None);
    assert_eq!(parse_date("2024-00-10"), None);
    assert_eq!(parse_date("2024-04-31"), None);
    assert_eq!(parse_date("2023-02-29"), None);
    assert_eq!(parse_date("20x4-01-05"), None);
}

#[test]
fn format_date_is_zero_padded() {
    assert_eq!(format_date(&Date { year: 2024, month: 1, day: 5 }), "2024-01-05".to_string());
    assert_eq!(format_date(&Date { year: 7, month: 12, day: 31 }), "0007-12-31".to_string());
}

#[test]
fn format_then_parse_returns_the_same_date() {
    let d = Date { year: 2024, month: 2, day: 29 };
    assert_eq!(parse_date(&format_date(&d)), Some(d));
}

#[test]
fn u32_digits_renders_decimal() {
    assert_eq!(u32_digits(0), "0".to_string());
    assert_eq!(u32_digits(9), "9".to_string());
    assert_eq!(u32_digits(1052), "1052".to_string());
    assert_eq!(u32_digits(4294967295), "4294967295".to_string());
}

#[test]
fn today_from_ymd_keeps_a_valid_reading() {
    assert_eq!(today_from_ymd(2024, 6, 1), Date { year: 2024, month: 6, day: 1 });
    assert_eq!(today_from_ymd(2024, 2, 29), Date { year: 2024, month: 2, day: 29 });
}

#[test]
fn today_from_ymd_clamps_the_day_into_its_month() {
    assert_eq!(today_from_ymd(2023, 2, 29), Date { year: 2023, month: 2, day: 28 });
    assert_eq!(today_from_ymd(2024, 4, 31), Date { year: 2024, month: 4, day: 30 });
}

#[test]
fn today_from_ymd_falls_back_outside_four_digit_years() {
    assert_eq!(today_from_ymd(-1, 6, 15), Date { year: 1970, month: 1, day: 1 });
    assert_eq!(today_from_ymd(10000, 6, 15), Date { year: 1970, month: 1, day: 1 });
}

#[test]
fn local_today_is_well_formed() {
    let d = local_today();
    assert!(d.check_wf());
    assert!(d.year >= 1970);
}
