use ffreader::trim::trim_str;
use ffreader::{DataField, DataFieldDef, DataFieldError, DataFieldResult};

fn echo_ok(s: String) -> DataFieldResult<String> {
    Ok(s)
}

#[test]
fn extraction_trims_both_sides() {
    let def = DataFieldDef::new("F", 0, 6, echo_ok);
    let field = DataField::try_from_row(" x y  ", &def).unwrap();
    assert_eq!(field.name(), "F");
    assert_eq!(field.data(), "x y");
}

#[test]
fn extraction_succeeds_for_well_formed_input() {
    let def = DataFieldDef::new("F", 1, 3, echo_ok);
    let field = DataField::try_from_row("abcd", &def).unwrap();
    assert_eq!(field.data(), "bc");
}

#[test]
fn extraction_clamps_at_line_end() {
    // A field reaching past the line's end is cut short, not rejected.
    let def = DataFieldDef::new("F", 1, 10, echo_ok);
    let field = DataField::try_from_row("abc  ", &def).unwrap();
    assert_eq!(field.data(), "bc");
}

#[test]
fn extraction_out_of_range_is_an_error() {
    // A field that begins at or beyond the line's end is out of range.
    let def = DataFieldDef::new("F", 10, 12, echo_ok);
    match DataField::try_from_row("abc", &def) {
        Err(DataFieldError::OutOfRange(name)) => assert_eq!(name, "F"),
        _ => panic!("expected OutOfRange"),
    }
}

#[test]
fn post_processing_transforms_the_value() {
    fn lower(s: String) -> DataFieldResult<String> {
        Ok(s.to_lowercase())
    }
    let def = DataFieldDef::new("F", 0, 4, lower as fn(String) -> DataFieldResult<String>);
    let field = DataField::try_from_row("ABcd", &def).unwrap();
    assert_eq!(field.data(), "abcd");
}

#[test]
fn post_processing_rejection_propagates() {
    fn digits_only(s: String) -> DataFieldResult<String> {
        if s.chars().all(|c| c.is_ascii_digit()) {
            Ok(s)
        } else {
            Err(DataFieldError::PostProcess(String::from("not a number")))
        }
    }
    let def = DataFieldDef::new("F", 0, 4, digits_only as fn(String) -> DataFieldResult<String>);
    match DataField::try_from_row("12x4", &def) {
        Err(DataFieldError::PostProcess(msg)) => assert_eq!(msg, "not a number"),
        _ => panic!("expected PostProcess"),
    }
    let ok = DataField::try_from_row("1234", &def).unwrap();
    assert_eq!(ok.data(), "1234");
}

#[test]
fn trimming_is_idempotent() {
    let once = trim_str("  padded value \t ");
    assert_eq!(once, "padded value");
    let twice = trim_str(once.as_str());
    assert_eq!(twice, once);
}

#[test]
fn trimming_whitespace_only_yields_empty() {
    assert_eq!(trim_str("   \t\r\n  "), "");
    assert_eq!(trim_str(""), "");
}

#[test]
fn trimming_keeps_interior_whitespace() {
    assert_eq!(trim_str("  a  b  "), "a  b");
}
