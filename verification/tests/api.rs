use harvest_daily::api::{
    auth_headers, bearer_token, check_status, route, Project, Task, TimeEntries, TimeEntriesQuery,
    TimeEntry, User,
};
use harvest_daily::credentials::HarvestCredentials;
use harvest_daily::dates::Date;
use harvest_daily::error::Error;

fn entry(id: u32, created_date: Date) -> TimeEntry {
    TimeEntry {
        id,
        spent_date: "2024-01-05".to_string(),
        hours: "2.5".to_string(),
        rounded_hours: "2.5".to_string(),
        created_at: "2024-01-05T09:00:00+00:00".to_string(),
        created_date,
        user: User { id: 456 },
        project: Project { id: 1, name: "Apollo".to_string() },
        task: Some(Task { id: 2, name: "Design".to_string() }),
        notes: "work".to_string(),
        timer_started_at: None,
        started_time: None,
        ended_time: None,
    }
}

#[test]
fn group_by_date_scenario_two_days() {
    let day5 = Date { year: 2024, month: 1, day: 5 };
    let day20 = Date { year: 2024, month: 1, day: 20 };
    let coll = TimeEntries { time_entries: vec![entry(1, day5), entry(2, day5), entry(3, day20)] };
    let grouped = coll.group_by_date();
    assert_eq!(grouped.groups.len(), 2);
    assert_eq!(grouped.groups[0].date, day5);
    assert_eq!(grouped.groups[0].entries.len(), 2);
    // original order inside the group
    assert_eq!(grouped.groups[0].entries[0].id, 1);
    assert_eq!(grouped.groups[0].entries[1].id, 2);
    assert_eq!(grouped.groups[1].date, day20);
    assert_eq!(grouped.groups[1].entries.len(), 1);
    assert_eq!(grouped.groups[1].entries[0].id, 3);
}

#[test]
fn group_by_date_of_empty_collection_is_empty() {
    let coll = TimeEntries { time_entries: vec![] };
    let grouped = coll.group_by_date();
    assert_eq!(grouped.groups.len(), 0);
}

#[test]
fn group_by_date_is_a_partition() {
    let a = Date { year: 2024, month: 3, day: 1 };
    let b = Date { year: 2024, month: 3, day: 2 };
    let coll = TimeEntries {
        time_entries: vec![entry(1, a), entry(2, b), entry(3, a), entry(4, b), entry(5, a)],
    };
    let grouped = coll.group_by_date();
    // no entry is dropped
    let total: usize = grouped.groups.iter().map(|g| g.entries.len()).sum();
    assert_eq!(total, 5);
    // no id appears in two groups; every input id appears once
    let mut seen: Vec<u32> = vec![];
    for g in &grouped.groups {
        for e in &g.entries {
            assert!(!seen.contains(&e.id));
            seen.push(e.id);
            // each entry sits under its own creation date
            assert_eq!(e.created_date, g.date);
        }
    }
    seen.sort();
    assert_eq!(seen, vec![1, 2, 3, 4, 5]);
}

#[test]
fn bearer_token_prefixes_the_token() {
    assert_eq!(bearer_token("abc"), "Bearer abc".to_string());
}

#[test]
fn route_prefixes_the_base_url() {
    assert_eq!(route("/users/me"), "https://api.harvestapp.com/api/v2/users/me".to_string());
    assert_eq!(
        route("/time_entries"),
        "https://api.harvestapp.com/api/v2/time_entries".to_string()
    );
}

#[test]
fn auth_headers_carry_agent_bearer_and_account() {
    let credentials = HarvestCredentials { account_id: 123, token: "abc".to_string() };
    let h = auth_headers(&credentials);
    assert_eq!(h.len(), 3);
    assert_eq!(h[0], ("User-Agent".to_string(), "harvest-daily".to_string()));
    assert_eq!(h[1], ("Authorization".to_string(), "Bearer abc".to_string()));
    assert_eq!(h[2], ("Harvest-Account-ID".to_string(), "123".to_string()));
}

#[test]
fn query_params_carry_user_and_bounds() {
    let q = TimeEntriesQuery {
        user_id: 456,
        from: Some(Date { year: 2024, month: 1, day: 1 }),
        to: Some(Date { year: 2024, month: 1, day: 31 }),
    };
    let p = q.query_params();
    assert_eq!(p.len(), 3);
    assert_eq!(p[0], ("user_id".to_string(), "456".to_string()));
    assert_eq!(p[1], ("from".to_string(), "2024-01-01".to_string()));
    assert_eq!(p[2], ("to".to_string(), "2024-01-31".to_string()));
}

#[test]
fn query_params_omit_absent_bounds() {
    let q = TimeEntriesQuery { user_id: 7, from: None, to: None };
    let p = q.query_params();
    assert_eq!(p.len(), 1);
    assert_eq!(p[0], ("user_id".to_string(), "7".to_string()));
    let q = TimeEntriesQuery {
        user_id: 7,
        from: None,
        to: Some(Date { year: 2024, month: 2, day: 29 }),
    };
    let p = q.query_params();
    assert_eq!(p.len(), 2);
    assert_eq!(p[1], ("to".to_string(), "2024-02-29".to_string()));
}

#[test]
fn check_status_accepts_only_2xx() {
    assert!(check_status(200).is_ok());
    assert!(check_status(204).is_ok());
    assert!(check_status(299).is_ok());
    assert!(matches!(check_status(199), Err(Error::ApiResponseMalformed)));
    assert!(matches!(check_status(301), Err(Error::ApiResponseMalformed)));
    assert!(matches!(check_status(500), Err(Error::ApiResponseMalformed)));
}

#[test]
fn unauthorized_status_fails_as_malformed_response() {
    // HTTP 401 aborts the run with the response error; nothing retries
    assert!(matches!(check_status(401), Err(Error::ApiResponseMalformed)));
}
