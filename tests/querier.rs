use dns_parser::QueryType;
use mdns::{MdnsError, Querier};

fn encoded(name: &str) -> Vec<u8> {
    let mut out = Vec::new();
    for label in name.split('.') {
        out.push(label.len() as u8);
        out.extend_from_slice(label.as_bytes());
    }
    out.push(0);
    out
}

fn response(names: &[&str]) -> Vec<u8> {
    let mut out = vec![0, 0, 0x84, 0x00, 0, 0, 0, names.len() as u8, 0, 0, 0, 0];
    for name in names {
        out.extend(encoded(name));
        out.extend_from_slice(&[0, 1, 0, 1, 0, 0, 0, 120, 0, 4, 192, 168, 1, 2]);
    }
    out
}

fn add(q: &mut Querier, name: &str, timeout: u64, now: u64) -> usize {
    q.add_at(
        name.to_string(),
        String::new(),
        "_http._tcp".to_string(),
        QueryType::A,
        false,
        timeout,
        now,
    )
}

#[test]
fn query_packet_shape_for_host_local() {
    let mut q = Querier::new();
    let id = add(&mut q, "host.local", 1000, 0);
    let packet = q.packet_of(id).unwrap();
    let mut expected = vec![0, 0, 0x01, 0x00, 0, 1, 0, 0, 0, 0, 0, 0];
    expected.extend_from_slice(&[4, b'h', b'o', b's', b't', 5, b'l', b'o', b'c', b'a', b'l', 0]);
    expected.extend_from_slice(&[0, 1, 0, 1]);
    assert_eq!(packet, expected);
}

#[test]
fn long_query_has_flags_cleared() {
    let label = "a".repeat(62);
    let name = vec![label.as_str(); 9].join(".");
    let mut q = Querier::new();
    let id = add(&mut q, &name, 1000, 0);
    let packet = q.packet_of(id).unwrap();
    assert_eq!(packet.len(), 12 + 9 * 63 + 1 + 4);
    assert_eq!(&packet[..6], &[0, 0, 0, 0, 0, 1]);
}

#[test]
fn name_fits_checks_label_lengths() {
    assert!(mdns::name_fits("host.local"));
    assert!(mdns::name_fits(""));
    assert!(mdns::name_fits(&"b".repeat(62)));
    assert!(!mdns::name_fits(&"b".repeat(63)));
    assert!(!mdns::name_fits(&format!("x.{}.local", "c".repeat(70))));
}

#[test]
fn ids_count_created_queries() {
    let mut q = Querier::new();
    assert_eq!(add(&mut q, "a.local", 10, 0), 0);
    assert_eq!(add(&mut q, "b.local", 1000, 0), 1);
    q.process_at(100);
    assert_eq!(q.pending_count(), 1);
    assert_eq!(add(&mut q, "c.local", 10, 100), 2);
    assert_eq!(q.created(), 3);
}

#[test]
fn timeout_expiry_at_the_timeout() {
    let mut q = Querier::new();
    let id = add(&mut q, "host.local", 500, 1000);
    let packet = q.packet_of(id).unwrap();
    assert_eq!(q.process_at(1000), Some(packet.clone()));
    assert_eq!(q.process_at(1499), Some(packet));
    assert_eq!(q.completion(id), Ok(false));
    assert_eq!(q.process_at(1500), None);
    assert_eq!(q.completion(id), Ok(true));
    assert_eq!(q.pending_count(), 0);
    assert_eq!(q.packet_of(id), None);
}

#[test]
fn process_resends_newest_pending() {
    let mut q = Querier::new();
    let a = add(&mut q, "a.local", 5000, 0);
    let b = add(&mut q, "b.local", 5000, 0);
    let pb = q.packet_of(b).unwrap();
    assert_eq!(q.process_at(10), Some(pb));
    assert_eq!(q.pending_count(), 2);
    assert_eq!(q.completion(a), Ok(false));
}

#[test]
fn process_with_nothing_pending() {
    let mut q = Querier::new();
    assert_eq!(q.process_at(0), None);
    assert_eq!(q.process(), None);
}

#[test]
fn answer_matching_completes_query() {
    let mut q = Querier::new();
    let id = add(&mut q, "host.local", 1000, 0);
    assert_eq!(q.parse(&response(&["host.local"])), Ok(()));
    assert_eq!(q.completion(id), Ok(true));
    assert_eq!(q.pending_count(), 0);
}

#[test]
fn answer_for_other_name_leaves_queries() {
    let mut q = Querier::new();
    let id = add(&mut q, "host.local", 1000, 0);
    assert_eq!(q.parse(&response(&["other.local"])), Ok(()));
    assert_eq!(q.completion(id), Ok(false));
    assert_eq!(q.pending_count(), 1);
}

#[test]
fn partial_match_completes_only_named_query() {
    let mut q = Querier::new();
    let a = add(&mut q, "a.local", 1000, 0);
    let b = add(&mut q, "b.local", 1000, 0);
    assert_eq!(q.parse(&response(&["a.local"])), Ok(()));
    assert_eq!(q.completion(a), Ok(true));
    assert_eq!(q.completion(b), Ok(false));
    assert_eq!(q.pending_count(), 1);
    assert!(q.packet_of(b).is_some());
}

#[test]
fn duplicate_names_are_both_answered() {
    let mut q = Querier::new();
    let a = add(&mut q, "a.local", 1000, 0);
    let b = add(&mut q, "a.local", 1000, 0);
    assert_eq!(q.parse(&response(&["a.local"])), Ok(()));
    assert_eq!(q.completion(a), Ok(true));
    assert_eq!(q.completion(b), Ok(true));
}

#[test]
fn malformed_response_is_an_error() {
    let mut q = Querier::new();
    let id = add(&mut q, "host.local", 1000, 0);
    assert_eq!(q.parse(&[1, 2, 3]), Err(MdnsError::MalformedResponse));
    let mut truncated = response(&["host.local"]);
    truncated.truncate(20);
    assert_eq!(q.parse(&truncated), Err(MdnsError::MalformedResponse));
    assert_eq!(q.completion(id), Ok(false));
    assert_eq!(q.pending_count(), 1);
}

#[test]
fn completion_never_goes_back() {
    let mut q = Querier::new();
    let id = add(&mut q, "host.local", 1000, 0);
    q.parse(&response(&["host.local"])).unwrap();
    assert_eq!(q.completion(id), Ok(true));
    add(&mut q, "host.local", 1000, 0);
    q.process_at(10);
    q.parse(&response(&["other.local"])).unwrap();
    assert_eq!(q.completion(id), Ok(true));
}

#[test]
fn unknown_id_is_an_error() {
    let mut q = Querier::new();
    assert_eq!(q.completion(0), Err(MdnsError::UnknownQueryId));
    add(&mut q, "host.local", 1000, 0);
    assert_eq!(q.completion(1), Err(MdnsError::UnknownQueryId));
    assert_eq!(q.completion(usize::MAX), Err(MdnsError::UnknownQueryId));
}

#[test]
fn add_with_clock_keeps_fields() {
    let mut q = Querier::new();
    let id = q.add(
        "host.local".to_string(),
        String::new(),
        "_http._tcp".to_string(),
        QueryType::A,
        false,
        1000,
    );
    assert_eq!(id, 0);
    assert_eq!(q.completion(id), Ok(false));
    assert_eq!(q.process().map(|p| p.len()), Some(12 + 12 + 4));
}
