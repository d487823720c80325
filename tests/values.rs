use msuc::{
    clean_nested_div_text, clean_string_with_newlines, parse_kb_from_string,
    parse_optional_string, parse_reboot_behavior, parse_search_row_id, parse_size_from_mb_string,
    parse_update_date, parse_yes_no_bool, Date, Error, RebootBehavior,
};

#[test]
fn size_of_one_decimal_megabytes() {
    assert_eq!(Ok(168715878), parse_size_from_mb_string("160.9 MB".to_string()));
    assert_eq!(Ok(165045862), parse_size_from_mb_string("157.4 MB".to_string()));
    assert_eq!(Ok(331559731), parse_size_from_mb_string("316.2 MB".to_string()));
    assert_eq!(Ok(104857), parse_size_from_mb_string("0.1 MB".to_string()));
    assert_eq!(Ok(1048576), parse_size_from_mb_string("1.0".to_string()));
}

#[test]
fn size_with_two_decimals_reads_hundredths_as_tenths() {
    assert_eq!(Ok(1687158784), parse_size_from_mb_string("160.90 MB".to_string()));
}

#[test]
fn size_rejects_non_numbers() {
    assert!(matches!(parse_size_from_mb_string("abc MB".to_string()), Err(Error::Parsing(_))));
    assert!(matches!(parse_size_from_mb_string("".to_string()), Err(Error::Parsing(_))));
    assert!(matches!(parse_size_from_mb_string("-1.0 MB".to_string()), Err(Error::Parsing(_))));
    assert!(matches!(
        parse_size_from_mb_string("99999999999999999999.9 MB".to_string()),
        Err(Error::Parsing(_))
    ));
    assert!(matches!(
        parse_size_from_mb_string("17592186044416.1 MB".to_string()),
        Err(Error::Parsing(_))
    ));
    assert_eq!(Ok(18446744073709446758), parse_size_from_mb_string("17592186044415.9 MB".to_string()));
    assert_eq!(Ok(1048576), parse_size_from_mb_string("+1.0 MB".to_string()));
}

#[test]
fn kb_from_title() {
    assert_eq!(Ok("KB5030524".to_string()), parse_kb_from_string("Foo Bar (KB5030524)".to_string()));
    assert_eq!(
        Ok("KB5022913".to_string()),
        parse_kb_from_string("Preview (KB5022913) UUP".to_string())
    );
    assert_eq!(Ok("KB2".to_string()), parse_kb_from_string("A (KB1) and (KB2)".to_string()));
    assert_eq!(Ok("KB77".to_string()), parse_kb_from_string("Unclosed (KB77".to_string()));
}

#[test]
fn kb_missing_fails() {
    assert!(matches!(parse_kb_from_string("Foo Bar".to_string()), Err(Error::Parsing(_))));
    assert!(matches!(parse_kb_from_string("Foo (kb123)".to_string()), Err(Error::Parsing(_))));
}

#[test]
fn optional_string_sentinel() {
    assert_eq!(None, parse_optional_string("n/a".to_string()));
    assert_eq!(Some("".to_string()), parse_optional_string("".to_string()));
    assert_eq!(Some("1.0".to_string()), parse_optional_string("1.0".to_string()));
}

#[test]
fn reboot_labels() {
    assert_eq!(Ok(RebootBehavior::Required), parse_reboot_behavior("Required".to_string()));
    assert_eq!(Ok(RebootBehavior::CanRequest), parse_reboot_behavior("Can request restart".to_string()));
    assert_eq!(Ok(RebootBehavior::Recommended), parse_reboot_behavior("Recommended".to_string()));
    assert_eq!(Ok(RebootBehavior::NotRequired), parse_reboot_behavior("Not required".to_string()));
    assert_eq!(Ok(RebootBehavior::NeverRestarts), parse_reboot_behavior("Never restarts".to_string()));
    assert!(matches!(parse_reboot_behavior("required".to_string()), Err(Error::Parsing(_))));
}

#[test]
fn yes_no_values() {
    assert_eq!(Ok(true), parse_yes_no_bool("Yes".to_string()));
    assert_eq!(Ok(false), parse_yes_no_bool("No".to_string()));
    assert_eq!(Ok(false), parse_yes_no_bool("".to_string()));
    assert!(matches!(parse_yes_no_bool("Maybe".to_string()), Err(Error::Parsing(_))));
}

#[test]
fn dates_month_first() {
    assert_eq!(Ok(Date { year: 2023, month: 9, day: 12 }), parse_update_date("09/12/2023".to_string()));
    assert_eq!(Ok(Date { year: 2023, month: 8, day: 15 }), parse_update_date("8/15/2023".to_string()));
    assert!(matches!(parse_update_date("2023-09-12".to_string()), Err(Error::Parsing(_))));
    assert!(matches!(parse_update_date("13/12/2023".to_string()), Err(Error::Parsing(_))));
}

#[test]
fn row_ids_split_once() {
    assert_eq!(Ok(("abc-1", "12")), parse_search_row_id("abc-1_R12"));
    assert!(matches!(parse_search_row_id("abc-1"), Err(Error::Parsing(_))));
    assert!(matches!(parse_search_row_id("a_Rb_Rc"), Err(Error::Parsing(_))));
}

#[test]
fn nested_text_keeps_last_line() {
    assert_eq!(
        Ok("Security Updates".to_string()),
        clean_nested_div_text("Classification:\n    Security Updates  ".to_string())
    );
    assert_eq!(Ok("label:".to_string()), clean_nested_div_text("label:\n".to_string()));
    assert_eq!(Ok("a".to_string()), clean_nested_div_text("a\n".to_string()));
    assert_eq!(Ok("b".to_string()), clean_nested_div_text("a\n b \n  \n\t\n".to_string()));
    assert_eq!(Ok("".to_string()), clean_nested_div_text("\n  \n".to_string()));
    assert_eq!(Ok("x".to_string()), clean_nested_div_text("x".to_string()));
}

#[test]
fn newlines_become_spaces() {
    assert_eq!("a b c", clean_string_with_newlines("  a \n b\n\tc  ".to_string()));
    assert_eq!("a  b", clean_string_with_newlines("a\n\nb".to_string()));
    assert_eq!("x y", clean_string_with_newlines("\u{3000}x\u{a0}\n\u{2003}y\u{85}".to_string()));
}

#[test]
fn error_messages() {
    assert_eq!("parse error: x", Error::Parsing("x".to_string()).message());
    assert_eq!("search error: q", Error::Search("q".to_string()).message());
    assert_eq!("msuc error: m, code: c", Error::Msuc("m".to_string(), "c".to_string()).message());
}
