use quote_pipeline::extract::{extract_from_markup, ExtractError};
use quote_pipeline::fetch::page_path;
use quote_pipeline::pipeline::{PageFailure, Pipeline, TaskPhase};
use quote_pipeline::record::{RawContainer, Record};

fn record(text: &str, author: &str, tags: &[&str]) -> Record {
    Record {
        text: text.to_string(),
        author: author.to_string(),
        tags: tags.iter().map(|t| t.to_string()).collect(),
    }
}

fn container(text: &str, author: &str, tags: &[&str]) -> RawContainer {
    RawContainer {
        text: Some(text.to_string()),
        author: Some(author.to_string()),
        tags: tags.iter().map(|t| t.to_string()).collect(),
    }
}

fn container_markup(text: &str, author: &str, tags: &[&str]) -> String {
    let mut tag_markup = String::new();
    for t in tags {
        tag_markup.push_str(&format!("<a class=\"tag\">{}</a>", t));
    }
    format!(
        "<div class=\"quote\"><span class=\"text\">{}</span>\
         <small class=\"author\">{}</small>\
         <div class=\"tags\">{}</div></div>",
        text, author, tag_markup
    )
}

#[test]
fn pool_never_exceeds_capacity() {
    let mut pl = Pipeline::new(2);
    for _ in 0..3 {
        pl.spawn_task();
    }
    assert!(pl.slots_held <= pl.capacity);
    pl.acquire_slot(0);
    assert!(pl.slots_held <= pl.capacity);
    pl.acquire_slot(1);
    assert_eq!(pl.slots_held, 2);
    assert!(pl.slots_held <= pl.capacity);
    pl.finish_task(0);
    assert_eq!(pl.slots_held, 1);
    pl.acquire_slot(2);
    assert_eq!(pl.slots_held, 2);
    assert!(pl.slots_held <= pl.capacity);
    pl.finish_task(1);
    pl.finish_task(2);
    assert_eq!(pl.slots_held, 0);
}

#[test]
fn drain_terminates_with_zero_tasks() {
    let mut pl = Pipeline::new(1);
    pl.drop_driver_handle();
    let records = pl.drain();
    assert!(records.is_empty());
    assert_eq!(pl.recv(), None);
}

#[test]
fn records_of_one_task_arrive_in_emission_order() {
    let mut pl = Pipeline::new(1);
    pl.spawn_task();
    pl.acquire_slot(0);
    pl.emit(0, record("first", "a", &[]));
    pl.emit(0, record("second", "a", &[]));
    pl.finish_task(0);
    pl.drop_driver_handle();
    assert_eq!(pl.recv(), Some(record("first", "a", &[])));
    assert_eq!(pl.recv(), Some(record("second", "a", &[])));
    assert_eq!(pl.recv(), None);
}

#[test]
fn task_phases_move_as_the_protocol_says() {
    let mut pl = Pipeline::new(4);
    pl.spawn_task();
    assert_eq!(pl.tasks, vec![TaskPhase::Spawned]);
    pl.acquire_slot(0);
    assert_eq!(pl.tasks, vec![TaskPhase::Holding]);
    pl.finish_task(0);
    assert_eq!(pl.tasks, vec![TaskPhase::Finished]);
}

#[test]
fn one_malformed_page_loses_only_its_own_records() {
    let mut pages: Vec<Vec<RawContainer>> = Vec::new();
    for p in 0..10 {
        if p == 3 {
            pages.push(vec![RawContainer {
                text: None,
                author: Some("Broken".to_string()),
                tags: vec![],
            }]);
        } else {
            pages.push(vec![container(&format!("text {}", p), &format!("author {}", p), &[])]);
        }
    }
    let report = Pipeline::run_serial(4, &pages);
    assert_eq!(report.records.len(), 9);
    let mut k = 0;
    for p in 0..10 {
        if p == 3 {
            continue;
        }
        assert_eq!(
            report.records[k],
            record(&format!("text {}", p), &format!("author {}", p), &[])
        );
        k += 1;
    }
    assert_eq!(
        report.failures,
        vec![PageFailure {
            page: 3,
            error: ExtractError::MissingText { index: 0 },
        }]
    );
}

#[test]
fn end_to_end_two_fixture_pages() {
    // Page range 1..3 of a base address: two pages, two containers each,
    // drained through a pipeline of capacity 2.
    assert_eq!(page_path(1), "page/1/");
    assert_eq!(page_path(2), "page/2/");
    let page_one = format!(
        "<html><body>{}{}</body></html>",
        container_markup("First words", "Author One", &["alpha", "beta"]),
        container_markup("Second words", "Author Two", &["gamma"]),
    );
    let page_two = format!(
        "<html><body>{}{}</body></html>",
        container_markup("Third words", "Author Three", &[]),
        container_markup("Fourth words", "Author Four", &["delta"]),
    );
    let mut pl = Pipeline::new(2);
    pl.spawn_task();
    pl.spawn_task();
    pl.acquire_slot(0);
    pl.acquire_slot(1);
    for (task, markup) in [(0, &page_one), (1, &page_two)] {
        let records = extract_from_markup(markup).unwrap();
        assert_eq!(records.len(), 2);
        for r in records {
            pl.emit(task, r);
        }
        pl.finish_task(task);
    }
    pl.drop_driver_handle();
    let delivered = pl.drain();
    assert_eq!(delivered.len(), 4);
    for r in &delivered {
        assert!(!r.text.is_empty());
        assert!(!r.author.is_empty());
    }
    // Within each page, container order is preserved.
    assert_eq!(delivered[0], record("First words", "Author One", &["alpha", "beta"]));
    assert_eq!(delivered[1], record("Second words", "Author Two", &["gamma"]));
    assert_eq!(delivered[2], record("Third words", "Author Three", &[]));
    assert_eq!(delivered[3], record("Fourth words", "Author Four", &["delta"]));
}

#[test]
fn page_paths_render_in_decimal() {
    assert_eq!(page_path(0), "page/0/");
    assert_eq!(page_path(7), "page/7/");
    assert_eq!(page_path(19), "page/19/");
    assert_eq!(page_path(305), "page/305/");
}
