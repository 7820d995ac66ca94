use chonkit::validation::{
    ascii_alphanumeric_clean, ascii_alphanumeric_column, ascii_alphanumeric_underscored,
    begins_with_capital_ascii_letter, char_count, ValidationErrors,
};

#[test]
fn clean_text_rule() {
    assert!(ascii_alphanumeric_clean("Hello world_-.9"));
    assert!(ascii_alphanumeric_clean(""));
    assert!(!ascii_alphanumeric_clean("semi;colon"));
    assert!(!ascii_alphanumeric_clean("čšž"));
}

#[test]
fn column_rule() {
    assert!(ascii_alphanumeric_column("table.column_1"));
    assert!(!ascii_alphanumeric_column("with space"));
    assert!(!ascii_alphanumeric_column("dash-ed"));
}

#[test]
fn underscored_and_capital_rules() {
    assert!(ascii_alphanumeric_underscored("My_Collection1"));
    assert!(!ascii_alphanumeric_underscored("My.Collection"));
    assert!(begins_with_capital_ascii_letter("Docs"));
    assert!(begins_with_capital_ascii_letter(""));
    assert!(!begins_with_capital_ascii_letter("docs"));
    assert!(!begins_with_capital_ascii_letter("_Docs"));
    assert!(!begins_with_capital_ascii_letter("Ždocs"));
}

#[test]
fn char_count_counts_characters() {
    assert_eq!(char_count("čšž"), 3);
    assert_eq!(char_count(""), 0);
}

#[test]
fn validation_errors_keep_order() {
    let mut e = ValidationErrors::new();
    assert!(e.is_empty());
    e.add("a", "first");
    e.add("b", "second");
    assert!(!e.is_empty());
    assert_eq!(e.errors[0].code, "a");
    assert_eq!(e.errors[1].message, "second");
}
