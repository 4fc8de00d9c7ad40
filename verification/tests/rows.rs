use ffreader::{DataFieldDef, DataFieldError, DataFieldResult, DataRow, DataRowError};

fn test_row() -> String {
    String::from("5412345678  54     1   123 TEST PERSN            5412345678                           5412345678001  54    4    1  Z              5412345678           TEST AVE ABC              000075                      0-0001-111.000            0        R")
}

fn echo_ok(s: String) -> DataFieldResult<String> {
    Ok(s)
}

fn test_field_defs() -> Vec<DataFieldDef<fn(String) -> DataFieldResult<String>>> {
    vec![
        DataFieldDef::new("AccountNo1", 0, 11, echo_ok),
        DataFieldDef::new("CyclNo1", 11, 16, echo_ok),
        DataFieldDef::new("Status", 16, 23, echo_ok),
        DataFieldDef::new("Demo_Name", 23, 49, echo_ok),
        DataFieldDef::new("DemoTestKey", 49, 60, echo_ok),
        DataFieldDef::new("DemoLine2", 60, 86, echo_ok),
        DataFieldDef::new("ThingID", 86, 100, echo_ok),
        DataFieldDef::new("Cycle12", 100, 105, echo_ok),
        DataFieldDef::new("DemoLength", 105, 110, echo_ok),
        DataFieldDef::new("No", 110, 114, echo_ok),
        DataFieldDef::new("Type", 114, 119, echo_ok),
        DataFieldDef::new("TST", 119, 130, echo_ok),
        DataFieldDef::new("TestKey", 130, 141, echo_ok),
        DataFieldDef::new("StreetDirection", 141, 151, echo_ok),
        DataFieldDef::new("StreetName", 151, 177, echo_ok),
        DataFieldDef::new("StreetNumber", 177, 184, echo_ok),
        DataFieldDef::new("StreetUnit", 184, 191, echo_ok),
        DataFieldDef::new("ThingSerial", 191, 205, echo_ok),
        DataFieldDef::new("Test_Key", 205, 231, echo_ok),
        DataFieldDef::new("ThingSize", 231, 237, echo_ok),
        DataFieldDef::new("Special", 237, 242, echo_ok),
    ]
}

#[test]
fn creation_extraction_works() {
    let row = test_row();
    let defs = test_field_defs();

    let datarow = DataRow::try_create(&row, &defs, 183).unwrap();

    let fields = datarow.fields();

    assert_eq!(
        fields
            .iter()
            .find(|s| s.name() == "ThingID")
            .unwrap()
            .data(),
        "5412345678001"
    );
    assert_eq!(
        fields
            .iter()
            .find(|s| s.name() == "AccountNo1")
            .unwrap()
            .data(),
        "5412345678"
    );
    assert_eq!(
        fields
            .iter()
            .find(|s| s.name() == "Special")
            .unwrap()
            .data(),
        "R"
    );
    assert_eq!(
        fields
            .iter()
            .find(|s| s.name() == "ThingSize")
            .unwrap()
            .data(),
        "0"
    );
    assert_eq!(
        fields
            .iter()
            .find(|s| s.name() == "Demo_Name")
            .unwrap()
            .data(),
        "123 TEST PERSN"
    );
}

fn reject_always(_s: String) -> DataFieldResult<String> {
    Err(DataFieldError::PostProcess(String::from("always rejected")))
}

fn reject_late(_s: String) -> DataFieldResult<String> {
    Err(DataFieldError::PostProcess(String::from("later rejection")))
}

fn never_called(_s: String) -> DataFieldResult<String> {
    panic!("post-processing must not run");
}

#[test]
fn two_fields_extracted() {
    let defs: Vec<DataFieldDef<fn(String) -> DataFieldResult<String>>> = vec![
        DataFieldDef::new("F1", 0, 2, echo_ok),
        DataFieldDef::new("F2", 2, 4, echo_ok),
    ];
    let line = "abcd      "; // "abcd" padded to the minimum length
    let row = DataRow::try_create(line, &defs, 10).unwrap();
    let fields = row.fields();
    assert_eq!(fields.len(), 2);
    assert_eq!(fields[0].name(), "F1");
    assert_eq!(fields[0].data(), "ab");
    assert_eq!(fields[1].name(), "F2");
    assert_eq!(fields[1].data(), "cd");
}

#[test]
fn interior_padding_trimmed_within_slice() {
    let defs: Vec<DataFieldDef<fn(String) -> DataFieldResult<String>>> = vec![
        DataFieldDef::new("F1", 0, 2, echo_ok),
        DataFieldDef::new("F2", 2, 7, echo_ok),
    ];
    let line = "ab   cd   "; // "ab" + 3 spaces + "cd" + padding
    let row = DataRow::try_create(line, &defs, 10).unwrap();
    let fields = row.fields();
    assert_eq!(fields[0].data(), "ab");
    assert_eq!(fields[1].data(), "cd");
}

#[test]
fn short_line_rejected_before_extraction() {
    // One character shorter than the configured minimum: rejected by length
    // alone, with no post-processing function ever invoked (a call would
    // panic here).
    let defs: Vec<DataFieldDef<fn(String) -> DataFieldResult<String>>> =
        vec![DataFieldDef::new("F1", 0, 2, never_called)];
    let line = "123456789";
    match DataRow::try_create(line, &defs, 10) {
        Err(DataRowError::BadRowLength(l)) => assert_eq!(l, 9),
        _ => panic!("expected BadRowLength"),
    }
}

#[test]
fn assembly_is_fail_fast() {
    // The second definition's post-processing always rejects: assembly
    // reports that field's error, produces no row, and never reaches the
    // third definition (whose post-processing would panic).
    let defs: Vec<DataFieldDef<fn(String) -> DataFieldResult<String>>> = vec![
        DataFieldDef::new("F1", 0, 2, echo_ok),
        DataFieldDef::new("F2", 2, 4, reject_always),
        DataFieldDef::new("F3", 4, 6, never_called),
    ];
    let line = "abcdef";
    match DataRow::try_create(line, &defs, 6) {
        Err(DataRowError::FieldError(DataFieldError::PostProcess(msg))) => {
            assert_eq!(msg, "always rejected");
        }
        _ => panic!("expected the second field's error"),
    }
}

#[test]
fn first_rejection_wins() {
    // Two rejecting definitions: the earlier one's message surfaces.
    let defs: Vec<DataFieldDef<fn(String) -> DataFieldResult<String>>> = vec![
        DataFieldDef::new("F1", 0, 2, reject_always),
        DataFieldDef::new("F2", 2, 4, reject_late),
    ];
    match DataRow::try_create("abcd", &defs, 4) {
        Err(DataRowError::FieldError(DataFieldError::PostProcess(msg))) => {
            assert_eq!(msg, "always rejected");
        }
        _ => panic!("expected the first field's error"),
    }
}

fn abc_row() -> DataRow {
    let defs: Vec<DataFieldDef<fn(String) -> DataFieldResult<String>>> = vec![
        DataFieldDef::new("A", 0, 2, echo_ok),
        DataFieldDef::new("B", 2, 4, echo_ok),
        DataFieldDef::new("C", 4, 6, echo_ok),
    ];
    DataRow::try_create("x y z ", &defs, 6).unwrap()
}

#[test]
fn reprojection_applies_caller_order() {
    let row = abc_row();
    let wanted = vec!["C", "A"];
    let picked = row.get_ordered_fields(&wanted).unwrap();
    let pairs: Vec<(String, String)> = picked
        .iter()
        .map(|f| (f.name().to_string(), f.data()))
        .collect();
    assert_eq!(
        pairs,
        vec![
            (String::from("C"), String::from("z")),
            (String::from("A"), String::from("x"))
        ]
    );
}

#[test]
fn reprojection_leaves_source_row_intact() {
    let row = abc_row();
    let first = row.get_ordered_fields(&vec!["C", "B", "A"]).unwrap();
    let second = row.get_ordered_fields(&vec!["B"]).unwrap();
    assert_eq!(first.len(), 3);
    assert_eq!(second.len(), 1);
    assert_eq!(second[0].data(), "y");
    // the source row still holds all fields in definition order
    let names: Vec<&str> = row.fields().iter().map(|f| f.name()).collect();
    assert_eq!(names, vec!["A", "B", "C"]);
}

#[test]
fn reprojection_unknown_name_fails() {
    let row = abc_row();
    match row.get_ordered_fields(&vec!["A", "Missing", "B"]) {
        Err(DataRowError::FieldNameNotFound(n)) => assert_eq!(n, "Missing"),
        _ => panic!("expected FieldNameNotFound"),
    }
}

#[test]
fn reprojection_fails_on_first_miss() {
    // The failure does not depend on earlier names being valid: the first
    // missing name is reported even when later names are missing too.
    let row = abc_row();
    match row.get_ordered_fields(&vec!["Nope", "AlsoMissing", "A"]) {
        Err(DataRowError::FieldNameNotFound(n)) => assert_eq!(n, "Nope"),
        _ => panic!("expected FieldNameNotFound"),
    }
}

#[test]
fn empty_schema_gives_empty_row() {
    let defs: Vec<DataFieldDef<fn(String) -> DataFieldResult<String>>> = Vec::new();
    let row = DataRow::try_create("anything", &defs, 0).unwrap();
    assert_eq!(row.fields().len(), 0);
}

#[test]
fn required_length_is_largest_end_offset() {
    let defs: Vec<DataFieldDef<fn(String) -> DataFieldResult<String>>> = vec![
        DataFieldDef::new("F1", 0, 4, echo_ok),
        DataFieldDef::new("F2", 2, 7, echo_ok),
        DataFieldDef::new("F3", 4, 5, echo_ok),
    ];
    assert_eq!(ffreader::datarow::required_length(&defs), 7);
    let none: Vec<DataFieldDef<fn(String) -> DataFieldResult<String>>> = Vec::new();
    assert_eq!(ffreader::datarow::required_length(&none), 0);
}

#[test]
fn error_messages_render() {
    assert_eq!(
        DataRowError::BadRowLength(183).message(),
        "Bad Row Length (183)"
    );
    assert_eq!(DataRowError::BadRowLength(0).message(), "Bad Row Length (0)");
    assert_eq!(
        DataRowError::FieldNameNotFound(String::from("Special")).message(),
        "Field Name Not Found (Special)"
    );
    assert_eq!(
        DataRowError::FieldError(DataFieldError::OutOfRange(String::from("F2"))).message(),
        "Field Out of Range (F2)"
    );
    assert_eq!(
        DataFieldError::PostProcess(String::from("caller text")).message(),
        "caller text"
    );
}

#[test]
fn decimal_rendering_is_exact() {
    assert_eq!(ffreader::decimal::decimal_string(0), "0");
    assert_eq!(ffreader::decimal::decimal_string(9), "9");
    assert_eq!(ffreader::decimal::decimal_string(10), "10");
    assert_eq!(ffreader::decimal::decimal_string(90210), "90210");
}

#[test]
fn field_error_converts_to_row_error() {
    let e = DataFieldError::PostProcess(String::from("nope"));
    match DataRowError::from(e) {
        DataRowError::FieldError(DataFieldError::PostProcess(msg)) => assert_eq!(msg, "nope"),
        _ => panic!("expected FieldError"),
    }
}
