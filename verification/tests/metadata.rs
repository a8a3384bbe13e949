use takeoff::document::{Metadata, MetadataError};

#[test]
fn no_block_gives_defaults_and_untouched_body() {
    let source = "# Hello\n\nSome text.\n";
    let (result, body) = Metadata::parse(source);
    let metadata = result.unwrap();
    assert_eq!(body, source);
    assert!(metadata.is_draft);
    assert!(!metadata.ignore);
    assert!(metadata.template.is_none());
    assert!(metadata.extra.is_empty());
}

#[test]
fn default_metadata_is_a_draft() {
    let metadata = Metadata::default();
    assert!(metadata.is_draft);
    assert!(!metadata.ignore);
    assert!(metadata.template.is_none());
    assert!(metadata.extra.is_empty());
}

#[test]
fn block_fields_are_read_and_block_is_stripped() {
    let source = "<!-- Metadata\nis_draft = false\nignore = true\ntemplate = \"doc.html\"\n-->\n# Body\n";
    let (result, body) = Metadata::parse(source);
    let metadata = result.unwrap();
    assert_eq!(body, "\n# Body\n");
    assert!(!metadata.is_draft);
    assert!(metadata.ignore);
    assert_eq!(metadata.template.as_deref(), Some("doc.html"));
}

#[test]
fn extra_table_is_kept() {
    let source = "<!-- Metadata\n[extra]\ntitle = \"A page\"\n-->\nbody";
    let (result, body) = Metadata::parse(source);
    let metadata = result.unwrap();
    assert_eq!(body, "\nbody");
    assert_eq!(
        metadata.extra.get("title").and_then(|v| v.as_str()),
        Some("A page")
    );
}

#[test]
fn metadata_roundtrip_through_wrapped_toml() {
    let mut table = toml::map::Map::new();
    table.insert("is_draft".to_string(), toml::Value::Boolean(false));
    table.insert(
        "template".to_string(),
        toml::Value::String("page.html".to_string()),
    );
    let mut extra = toml::map::Map::new();
    extra.insert("count".to_string(), toml::Value::Integer(3));
    table.insert("extra".to_string(), toml::Value::Table(extra));
    let payload = toml::to_string(&toml::Value::Table(table)).unwrap();

    let body = "The body.\n";
    let document = format!("<!-- Metadata\n{}\n-->{}", payload, body);
    let (result, parsed_body) = Metadata::parse(&document);
    let metadata = result.unwrap();
    assert_eq!(parsed_body, body);
    assert!(!metadata.is_draft);
    assert!(!metadata.ignore);
    assert_eq!(metadata.template.as_deref(), Some("page.html"));
    assert_eq!(
        metadata.extra.get("count").and_then(|v| v.as_integer()),
        Some(3)
    );
}

#[test]
fn unterminated_block_is_reported_not_fatal() {
    let source = "<!-- Metadata\nis_draft = false";
    let (result, body) = Metadata::parse(source);
    assert!(matches!(result, Err(MetadataError::Unterminated)));
    assert_eq!(body, source);
}

#[test]
fn bad_toml_still_strips_the_block() {
    let source = "<!-- Metadata\nthis is = = not toml\n-->\nbody";
    let (result, body) = Metadata::parse(source);
    assert!(matches!(result, Err(MetadataError::Toml(_))));
    assert_eq!(body, "\nbody");
}

#[test]
fn mistyped_field_is_an_error() {
    let (result, _) = Metadata::parse("<!-- Metadata\nis_draft = \"yes\"\n-->\nbody");
    assert!(matches!(result, Err(MetadataError::Toml(_))));
}

#[test]
fn terminator_without_start_marker_keeps_everything() {
    let source = "text\n-->more text";
    let (result, body) = Metadata::parse(source);
    assert!(result.unwrap().is_draft);
    assert_eq!(body, source);
}

#[test]
fn block_in_the_middle_is_found() {
    let source = "before <!-- Metadata\nis_draft = false\n-->after";
    let (result, body) = Metadata::parse(source);
    assert!(!result.unwrap().is_draft);
    assert_eq!(body, "after");
}

#[test]
fn from_toml_applies_defaults() {
    let metadata = Metadata::from_toml("template = \"t.html\"").unwrap();
    assert!(metadata.is_draft);
    assert!(!metadata.ignore);
    assert_eq!(metadata.template.as_deref(), Some("t.html"));
    assert!(metadata.extra.is_empty());
}

#[test]
fn from_toml_rejects_a_non_table() {
    assert!(Metadata::from_toml("not toml at all = =").is_err());
}
