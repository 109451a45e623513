use event_host::dispatch::{dispatch_plan, make_call_id, worker_jobs, Exec, Job};

fn table(names: &[&str]) -> Vec<String> {
    names.iter().map(|s| s.to_string()).collect()
}

fn flatten(plan: &[Vec<Job>]) -> Vec<(String, String, String)> {
    plan.iter()
        .flat_map(|w| w.iter())
        .map(|j| (j.export.clone(), j.event.id.clone(), j.event.data.clone()))
        .collect()
}

#[test]
fn call_ids_use_decimal_worker_numbers() {
    assert_eq!(make_call_id("handle_event1", 1), "call-handle_event1-1");
    assert_eq!(make_call_id("x", 0), "call-x-0");
    assert_eq!(make_call_id("x", 10), "call-x-10");
    assert_eq!(make_call_id("x", 907), "call-x-907");
    assert_eq!(make_call_id("", 18446744073709551615), "call--18446744073709551615");
}

#[test]
fn two_handlers_three_workers() {
    let plan = dispatch_plan(&table(&["handle_event1", "handle_event2"]), 3);
    let jobs = flatten(&plan);
    assert_eq!(jobs.len(), 6);
    for export in ["handle-event1", "handle-event2"] {
        assert_eq!(jobs.iter().filter(|j| j.0 == export).count(), 3);
    }
    let mut ids: Vec<String> = jobs.iter().map(|j| j.1.clone()).collect();
    ids.sort();
    let expected = vec![
        "call-handle_event1-1",
        "call-handle_event1-2",
        "call-handle_event1-3",
        "call-handle_event2-1",
        "call-handle_event2-2",
        "call-handle_event2-3",
    ];
    assert_eq!(ids, expected);
    assert!(jobs.iter().all(|j| j.2 == "data"));
}

#[test]
fn each_name_reaches_guest_once_per_worker() {
    let plan = dispatch_plan(&table(&["a_b"]), 5);
    let jobs = flatten(&plan);
    assert_eq!(jobs.len(), 5);
    for (w, job) in jobs.iter().enumerate() {
        assert_eq!(job.0, "a-b");
        assert_eq!(job.1, format!("call-a_b-{}", w + 1));
    }
}

#[test]
fn duplicate_registration_is_dispatched_twice() {
    let mut exec = Exec::default();
    exec.events_new();
    exec.events_listen("handle_event1");
    exec.events_listen("handle_event1");
    assert_eq!(exec.handlers().len(), 2);
    let plan = exec.events_exec(5, 3);
    let jobs = flatten(&plan);
    assert_eq!(jobs.len(), 6);
    for w in 1..=3 {
        let id = format!("call-handle_event1-{}", w);
        assert_eq!(jobs.iter().filter(|j| j.1 == id).count(), 2);
    }
}

#[test]
fn no_workers_or_no_names_plan_nothing() {
    assert!(dispatch_plan(&table(&["a"]), 0).is_empty());
    let plan = dispatch_plan(&table(&[]), 4);
    assert_eq!(plan.len(), 4);
    assert!(plan.iter().all(|w| w.is_empty()));
}

#[test]
fn one_worker_keeps_table_order() {
    let jobs = worker_jobs(&table(&["z_1", "a_2", "m"]), 2);
    let exports: Vec<&str> = jobs.iter().map(|j| j.export.as_str()).collect();
    assert_eq!(exports, vec!["z-1", "a-2", "m"]);
    assert_eq!(jobs[1].event.id, "call-a_2-2");
}
