use mdns::{wait_step, MdnsError, Objects, WaitStep, QUERY_TIMEOUT_MS, WAIT_BOUND_MS};

fn answer(name: &str) -> Vec<u8> {
    let mut out = vec![0, 0, 0x84, 0x00, 0, 0, 0, 1, 0, 0, 0, 0];
    for label in name.split('.') {
        out.push(label.len() as u8);
        out.extend_from_slice(label.as_bytes());
    }
    out.push(0);
    out.extend_from_slice(&[0, 1, 0x80, 1, 0, 0, 0, 120, 0, 4, 10, 0, 0, 7]);
    out
}

#[test]
fn init_twice_keeps_one_of_each() {
    let mut o: Objects<u32> = Objects::new();
    assert!(o.service.is_none() && o.querier.is_none());
    o.init_with(|| 7);
    assert_eq!(o.service, Some(7));
    assert!(o.querier.is_some());
    o.init_with(|| 8);
    assert_eq!(o.service, Some(7));
    assert_eq!(o.querier.as_ref().unwrap().created(), 0);
}

#[test]
fn init_keeps_existing_queries() {
    let mut o: Objects<u32> = Objects::new();
    o.init_with(|| 1);
    assert_eq!(o.query("a.local".to_string()), Some(0));
    o.init_with(|| 2);
    assert_eq!(o.querier.as_ref().unwrap().created(), 1);
}

#[test]
fn deinit_takes_the_transport() {
    let mut o: Objects<u32> = Objects::new();
    o.init_with(|| 7);
    o.query("host.local".to_string());
    assert_eq!(o.deinit(), Some(7));
    assert_eq!(o.service, None);
    assert!(o.querier.is_some());
    assert_eq!(o.dispatch(&[]), Ok(None));
    assert_eq!(o.deinit(), None);
}

#[test]
fn query_without_manager() {
    let mut o: Objects<u32> = Objects::new();
    assert_eq!(o.query("host.local".to_string()), None);
    assert_eq!(o.dispatch(&[]), Ok(None));
    assert_eq!(o.dispatch(&answer("host.local")), Ok(None));
}

#[test]
fn tick_hands_back_pending_packet() {
    let mut o: Objects<u32> = Objects::new();
    o.init_with(|| 7);
    let id = o.query("host.local".to_string()).unwrap();
    let packet = o.querier.as_ref().unwrap().packet_of(id).unwrap();
    assert_eq!(o.dispatch(&[]), Ok(Some(packet)));
}

#[test]
fn malformed_datagram_is_reported() {
    let mut o: Objects<u32> = Objects::new();
    o.init_with(|| 7);
    assert_eq!(o.dispatch(&[0, 1, 2, 3, 4]), Err(MdnsError::MalformedResponse));
}

#[test]
fn end_to_end_answer_completes_query() {
    let mut o: Objects<u32> = Objects::new();
    o.init_with(|| 7);
    let id = o.query("david-work.local".to_string()).unwrap();
    let status = o.querier.as_ref().unwrap().completion(id);
    assert_eq!(wait_step(status, false), WaitStep::Wait);
    assert_eq!(o.dispatch(&answer("david-work.local")), Ok(None));
    let status = o.querier.as_ref().unwrap().completion(id);
    assert_eq!(status, Ok(true));
    assert_eq!(wait_step(status, false), WaitStep::Completed);
    assert_eq!(o.deinit(), Some(7));
}

#[test]
fn wait_steps() {
    assert_eq!(wait_step(Ok(true), true), WaitStep::Completed);
    assert_eq!(wait_step(Ok(false), true), WaitStep::TimedOut);
    assert_eq!(wait_step(Ok(false), false), WaitStep::Wait);
    assert_eq!(wait_step(Err(MdnsError::UnknownQueryId), false), WaitStep::Wait);
    assert_eq!(wait_step(Err(MdnsError::UnknownQueryId), true), WaitStep::TimedOut);
}

#[test]
fn facade_constants() {
    assert_eq!(QUERY_TIMEOUT_MS, 1000);
    assert_eq!(WAIT_BOUND_MS, 5000);
}
