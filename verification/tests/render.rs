use harvest_daily::api::{Project, Task, TimeEntry, User};
use harvest_daily::dates::Date;
use harvest_daily::error::Error;
use harvest_daily::render::render_entries;

fn entry(id: u32, notes: &str) -> TimeEntry {
    TimeEntry {
        id,
        spent_date: "2024-01-05".to_string(),
        hours: "2.5".to_string(),
        rounded_hours: "3.0".to_string(),
        created_at: "2024-01-05T09:00:00+00:00".to_string(),
        created_date: Date { year: 2024, month: 1, day: 5 },
        user: User { id: 456 },
        project: Project { id: 1, name: "Apollo".to_string() },
        task: if id % 2 == 0 {
            Some(Task { id: 2, name: "Design".to_string() })
        } else {
            None
        },
        notes: notes.to_string(),
        timer_started_at: None,
        started_time: Some("09:00".to_string()),
        ended_time: None,
    }
}

#[test]
fn rendering_the_entry_count_of_three_entries_prints_three() {
    let entries = vec![entry(1, "a"), entry(2, "b"), entry(3, "c")];
    let out = render_entries(&entries, "{{len this}}").unwrap();
    assert_eq!(out, "3".to_string());
}

#[test]
fn rendering_echoes_entry_fields() {
    let entries = vec![entry(1, "first"), entry(2, "second")];
    let out = render_entries(&entries, "{{#each this}}{{notes}}:{{project.name}};{{/each}}")
        .unwrap();
    assert_eq!(out, "first:Apollo;second:Apollo;".to_string());
}

#[test]
fn rendering_an_empty_list_counts_zero() {
    let entries: Vec<TimeEntry> = vec![];
    let out = render_entries(&entries, "{{len this}}").unwrap();
    assert_eq!(out, "0".to_string());
}

#[test]
fn rendering_equal_inputs_twice_gives_equal_output() {
    let entries = vec![entry(1, "first"), entry(2, "second")];
    let again = vec![entry(1, "first"), entry(2, "second")];
    let template = "{{#each this}}{{id}}:{{notes}};{{/each}}";
    let once = render_entries(&entries, template).unwrap();
    let twice = render_entries(&again, template).unwrap();
    assert_eq!(once, twice);
    assert_eq!(once, "1:first;2:second;".to_string());
}

#[test]
fn a_broken_template_fails_with_a_render_error() {
    let entries = vec![entry(1, "a")];
    let r = render_entries(&entries, "{{#each this}}");
    assert!(matches!(r, Err(Error::TemplateRenderError { .. })));
}
