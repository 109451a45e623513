use event_host::dispatch::{make_job, Event};
use event_host::marshal::{load_many, prepare, store_many, Action, CallError, Handler, HandlerData};

fn round_trip(s: &str) {
    let mut mem = vec![0xAAu8; 64];
    store_many(&mut mem, 7, s.as_bytes()).unwrap();
    let back = load_many(&mem, 7, s.len() as i32).unwrap();
    assert_eq!(back, s.as_bytes());
    assert_eq!(String::from_utf8(back).unwrap(), s);
    assert_eq!(mem.len(), 64);
    assert!(mem[..7].iter().all(|b| *b == 0xAA));
    assert!(mem[7 + s.len()..].iter().all(|b| *b == 0xAA));
}

#[test]
fn round_trip_empty_string() {
    round_trip("");
}

#[test]
fn round_trip_single_character() {
    round_trip("x");
}

#[test]
fn round_trip_multi_byte_characters() {
    round_trip("é€😀z");
}

#[test]
fn store_at_the_very_end_fits() {
    let mut mem = vec![0u8; 4];
    assert_eq!(store_many(&mut mem, 2, b"ab"), Ok(()));
    assert_eq!(mem, vec![0, 0, b'a', b'b']);
}

#[test]
fn store_out_of_bounds_is_refused_without_writing() {
    let mut mem = vec![0u8; 4];
    assert_eq!(
        store_many(&mut mem, 3, b"ab"),
        Err(CallError::OutOfBounds { offset: 3, len: 2 })
    );
    assert_eq!(
        store_many(&mut mem, -1, b"a"),
        Err(CallError::OutOfBounds { offset: -1, len: 1 })
    );
    assert_eq!(mem, vec![0u8; 4]);
    assert_eq!(
        load_many(&mem, 2, 3),
        Err(CallError::OutOfBounds { offset: 2, len: 3 })
    );
}

#[test]
fn handler_walks_the_calling_convention() {
    let ev = Event { id: "call-h-1".to_string(), data: "dätä".to_string() };
    let mut h = Handler::new(&ev).unwrap();
    assert_eq!(h.request(), Action::Alloc(0, 0, 1, 8));
    let mut mem = vec![0u8; 64];
    assert_eq!(h.handler(&mut mem, 16), Ok(Action::Alloc(0, 0, 1, 6)));
    assert_eq!(h.handler(&mut mem, 40), Ok(Action::Invoke(16, 8, 40, 6)));
    assert_eq!(h.request(), Action::Invoke(16, 8, 40, 6));
    assert_eq!(load_many(&mem, 16, 8).unwrap(), b"call-h-1");
    assert_eq!(load_many(&mem, 40, 6).unwrap(), "dätä".as_bytes());
}

#[test]
fn handler_with_bad_allocator_offset_traps() {
    let ev = Event { id: "abc".to_string(), data: String::new() };
    let mut h = Handler::new(&ev).unwrap();
    let mut mem = vec![0u8; 8];
    assert_eq!(h.handler(&mut mem, 6), Err(CallError::OutOfBounds { offset: 6, len: 3 }));
    assert_eq!(mem, vec![0u8; 8]);
    assert_eq!(h.request(), Action::Alloc(0, 0, 1, 3));
    assert_eq!(h.handler(&mut mem, 5), Ok(Action::Alloc(0, 0, 1, 0)));
    assert_eq!(h.handler(&mut mem, 8), Ok(Action::Invoke(5, 3, 8, 0)));
}

fn exports(names: &[&str]) -> Vec<String> {
    names.iter().map(|s| s.to_string()).collect()
}

#[test]
fn missing_handler_export_is_not_found() {
    let job = make_job("handle_event3", 1);
    let ex = exports(&["memory", "canonical_abi_realloc", "handle-event1"]);
    match prepare(&ex, &job) {
        Err(CallError::ExportNotFound(n)) => assert_eq!(n, "handle-event3"),
        _ => panic!("expected ExportNotFound"),
    }
}

#[test]
fn missing_allocator_or_memory_is_not_found() {
    let job = make_job("handle_event1", 2);
    match prepare(&exports(&["memory", "handle-event1"]), &job) {
        Err(CallError::ExportNotFound(n)) => assert_eq!(n, "canonical_abi_realloc"),
        _ => panic!("expected ExportNotFound"),
    }
    match prepare(&exports(&["canonical_abi_realloc", "handle-event1"]), &job) {
        Err(CallError::ExportNotFound(n)) => assert_eq!(n, "memory"),
        _ => panic!("expected ExportNotFound"),
    }
}

#[test]
fn prepared_job_names_its_export() {
    let job = make_job("handle_event1", 2);
    let ex = exports(&["_start", "memory", "canonical_abi_realloc", "handle-event1"]);
    let (index, h) = prepare(&ex, &job).unwrap();
    assert_eq!(index, 3);
    assert_eq!(h.request(), Action::Alloc(0, 0, 1, "call-handle_event1-2".len() as i32));
}

#[test]
fn handler_data_is_default_constructible() {
    let _d: HandlerData = HandlerData::default();
}
