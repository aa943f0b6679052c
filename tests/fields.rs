use archive_forms::errors::FormError;
use archive_forms::fields::{
    BooleanField, ChoiceField, FormField, ListField, MultilineListField, MultilineTextField,
    OptionalChoiceField, OptionalChoiceListField, OptionalListField, OptionalMultilineListField,
    OptionalMultilineTextField, TextField,
};

fn strs(v: &[&str]) -> Vec<String> {
    v.iter().map(|s| s.to_string()).collect()
}

#[test]
fn text_field_renders_and_parses() {
    let f = TextField::new("Title", "Sample");
    assert_eq!(f.as_string(), "Title: Sample");
    let g = TextField::from_input_str("Title", "Title: Sample\n").unwrap();
    assert_eq!(g.value, "Sample");
    assert_eq!(g.name(), "Title");
}

#[test]
fn text_field_empty_is_required_error() {
    let r = TextField::from_input_str("Title", "Title:\n");
    assert!(matches!(r, Err(FormError::RequiredFieldEmpty(n)) if n == "Title"));
    let r = TextField::from_input_str("Title", "Title:   ");
    assert!(matches!(r, Err(FormError::RequiredFieldEmpty(_))));
}

#[test]
fn field_without_its_label_is_malformed() {
    let r = TextField::from_input_str("Title", "Name: x");
    assert!(matches!(r, Err(FormError::MalformedField(n)) if n == "Title"));
    let r = OptionalListField::from_input_str("Links", "Link: x");
    assert!(matches!(r, Err(FormError::MalformedField(_))));
}

#[test]
fn empty_text_field_renders_bare_label() {
    assert_eq!(TextField::new("Date", "").as_string(), "Date:");
}

#[test]
fn multiline_text_field_reads_following_lines() {
    let f = MultilineTextField::from_input_str("Description", "Description:\nSome text\nmore\n").unwrap();
    assert_eq!(f.value, "Some text\nmore");
    assert_eq!(f.as_string(), "Description:\nSome text\nmore");
    let r = MultilineTextField::from_input_str("Description", "Description:\n\n");
    assert!(matches!(r, Err(FormError::RequiredFieldEmpty(_))));
}

#[test]
fn optional_multiline_text_field_may_be_empty() {
    let f = OptionalMultilineTextField::from_input_str("NIST Notes", "NIST Notes:\n").unwrap();
    assert_eq!(f.value, "");
    assert_eq!(OptionalMultilineTextField::new("NIST Notes", "").as_string(), "NIST Notes:\n");
}

#[test]
fn list_field_splits_and_trims() {
    let f = ListField::from_input_str("Categories", "Categories: news;  documentary ;compilation\n").unwrap();
    assert_eq!(f.values, strs(&["news", "documentary", "compilation"]));
    assert_eq!(f.value(), "news; documentary; compilation");
    assert_eq!(f.as_string(), "Categories: news; documentary; compilation");
    let r = ListField::from_input_str("Categories", "Categories:\n");
    assert!(matches!(r, Err(FormError::RequiredFieldEmpty(_))));
}

#[test]
fn optional_list_field_empty_is_empty_list() {
    let f = OptionalListField::from_input_str("Links", "Links:\n").unwrap();
    assert!(f.values.is_empty());
    assert_eq!(OptionalListField::new("Links", &vec![]).as_string(), "Links:");
}

#[test]
fn multiline_list_fields() {
    let f = MultilineListField::from_input_str("Files", "Files:\na/b\nc/d\n").unwrap();
    assert_eq!(f.values, strs(&["a/b", "c/d"]));
    assert_eq!(f.as_string(), "Files:\na/b\nc/d");
    let r = MultilineListField::from_input_str("Files", "Files:\n");
    assert!(matches!(r, Err(FormError::RequiredFieldEmpty(_))));
    let g = OptionalMultilineListField::from_input_str("Files", "Files:\n").unwrap();
    assert!(g.values.is_empty());
}

#[test]
fn choice_field_placeholder_lists_candidates() {
    let mut f = ChoiceField::new("Master", "");
    f.add_choices(strs(&["One", "Two"]));
    assert_eq!(f.as_string(), "Master:\n## CHOOSE ONE ##\nOne\nTwo");
    let mut g = ChoiceField::new("Master", "One");
    g.add_choices(strs(&["One", "Two"]));
    assert_eq!(g.as_string(), "Master: One");
    let r = ChoiceField::from_input_str("Master", "Master:\n");
    assert!(matches!(r, Err(FormError::RequiredFieldEmpty(_))));
}

#[test]
fn optional_choice_field_placeholder_only_with_candidates() {
    let f = OptionalChoiceField::new("Network", "");
    assert_eq!(f.as_string(), "Network:");
    let mut g = OptionalChoiceField::new("Network", "");
    g.add_choices(strs(&["ABC News"]));
    assert_eq!(g.as_string(), "Network:\n## CHOOSE ONE OR NONE ##\nABC News");
    let h = OptionalChoiceField::from_input_str("Network", "Network:\n").unwrap();
    assert_eq!(h.value, "");
}

#[test]
fn choice_list_placeholder_holds_exactly_the_candidates() {
    let mut f = OptionalChoiceListField::new("News Broadcasts", &vec![]);
    f.add_choices(strs(&["WABC-TV (2001-09-11)", "ABC News (2001-09-11)"]));
    assert_eq!(
        f.as_string(),
        "News Broadcasts:\n## CHOOSE ONE OR DELETE ALL ##\nWABC-TV (2001-09-11)\nABC News (2001-09-11)"
    );
    let mut g = OptionalChoiceListField::new("News Broadcasts", &strs(&["A", "B"]));
    g.add_choices(strs(&["C"]));
    assert_eq!(g.as_string(), "News Broadcasts: A;B");
    let h = OptionalChoiceListField::from_input_str("News Broadcasts", "News Broadcasts: A; B\n").unwrap();
    assert_eq!(h.values, strs(&["A", "B"]));
}

#[test]
fn boolean_field_reads_yes_and_no_in_any_case() {
    assert!(BooleanField::from_input_str("Primary", "Primary: Yes").unwrap().value);
    assert!(BooleanField::from_input_str("Primary", "Primary: yEs\n").unwrap().value);
    assert!(!BooleanField::from_input_str("Primary", "Primary: NO").unwrap().value);
    let r = BooleanField::from_input_str("Primary", "Primary: maybe");
    assert!(matches!(r, Err(FormError::MalformedField(_))));
    let r = BooleanField::from_input_str("Primary", "Primary:");
    assert!(matches!(r, Err(FormError::RequiredFieldEmpty(_))));
    assert_eq!(BooleanField::new("Primary", true).as_string(), "Primary: Yes");
    assert_eq!(BooleanField::new("Missing?", false).as_string(), "Missing?: No");
}

#[test]
fn error_messages_name_the_field() {
    assert_eq!(FormError::FieldNotFound("Title".to_string()).message(), "Field Title not found");
    assert_eq!(
        FormError::RequiredFieldEmpty("Title".to_string()).message(),
        "The Title field requires at least one value"
    );
    assert_eq!(FormError::MalformedForm.message(), "The form string is not in the expected form");
}
