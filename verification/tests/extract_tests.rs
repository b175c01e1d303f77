use quote_pipeline::extract::{extract_from_markup, extract_records, ExtractError};
use quote_pipeline::record::{RawContainer, Record};

fn container_markup(text: &str, author: &str, tags: &[&str]) -> String {
    let mut tag_markup = String::new();
    for t in tags {
        tag_markup.push_str(&format!("<a class=\"tag\">{}</a>", t));
    }
    format!(
        "<div class=\"quote\"><span class=\"text\">{}</span>\
         <small class=\"author\">{}</small>\
         <div class=\"tags\">{}</div></div>",
        text, author, tag_markup
    )
}

fn page_markup(containers: &[String]) -> String {
    format!(
        "<html><body><div class=\"col\">{}</div></body></html>",
        containers.join("\n")
    )
}

fn record(text: &str, author: &str, tags: &[&str]) -> Record {
    Record {
        text: text.to_string(),
        author: author.to_string(),
        tags: tags.iter().map(|t| t.to_string()).collect(),
    }
}

#[test]
fn records_keep_container_order() {
    let page = page_markup(&[
        container_markup("Alpha", "Author A", &["one"]),
        container_markup("Beta", "Author B", &["two", "three"]),
        container_markup("Gamma", "Author C", &[]),
    ]);
    let records = extract_from_markup(&page).unwrap();
    assert_eq!(
        records,
        vec![
            record("Alpha", "Author A", &["one"]),
            record("Beta", "Author B", &["two", "three"]),
            record("Gamma", "Author C", &[]),
        ]
    );
}

#[test]
fn extraction_is_deterministic() {
    let page = page_markup(&[
        container_markup("Same input", "Same author", &["a", "b"]),
        container_markup("Again", "Else", &[]),
    ]);
    let first = extract_from_markup(&page).unwrap();
    let second = extract_from_markup(&page).unwrap();
    assert_eq!(first, second);
}

#[test]
fn page_without_containers_is_empty_not_error() {
    let page = "<html><body><p>nothing to see</p></body></html>";
    let records = extract_from_markup(page).unwrap();
    assert!(records.is_empty());
}

#[test]
fn missing_primary_text_is_reported() {
    let page = page_markup(&[
        container_markup("Fine", "Someone", &[]),
        "<div class=\"quote\"><small class=\"author\">Nameless</small></div>".to_string(),
        container_markup("Unreached", "Other", &[]),
    ]);
    let err = extract_from_markup(&page).unwrap_err();
    assert_eq!(err, ExtractError::MissingText { index: 1 });
}

#[test]
fn missing_attribution_is_reported() {
    let page = page_markup(&[
        "<div class=\"quote\"><span class=\"text\">Words</span></div>".to_string(),
    ]);
    let err = extract_from_markup(&page).unwrap_err();
    assert_eq!(err, ExtractError::MissingAuthor { index: 0 });
}

#[test]
fn missing_tags_are_an_empty_sequence() {
    let page = page_markup(&[container_markup("Quiet", "Tagless", &[])]);
    let records = extract_from_markup(&page).unwrap();
    assert_eq!(records.len(), 1);
    assert!(records[0].tags.is_empty());
}

#[test]
fn extraction_reads_sub_elements_not_raw_markup() {
    let page = page_markup(&[container_markup("Inner text only", "Just the name", &["t"])]);
    let records = extract_from_markup(&page).unwrap();
    assert_eq!(records[0].text, "Inner text only");
    assert_eq!(records[0].author, "Just the name");
    assert_ne!(records[0].text, page);
}

#[test]
fn extract_records_on_plain_containers() {
    let containers = vec![
        RawContainer {
            text: Some("One".to_string()),
            author: Some("First".to_string()),
            tags: vec!["x".to_string()],
        },
        RawContainer {
            text: Some("Two".to_string()),
            author: Some("Second".to_string()),
            tags: vec![],
        },
    ];
    let records = extract_records(&containers).unwrap();
    assert_eq!(
        records,
        vec![record("One", "First", &["x"]), record("Two", "Second", &[])]
    );
}

#[test]
fn extract_records_text_checked_before_attribution() {
    let containers = vec![RawContainer {
        text: None,
        author: None,
        tags: vec![],
    }];
    let err = extract_records(&containers).unwrap_err();
    assert_eq!(err, ExtractError::MissingText { index: 0 });
}
