use mdns::{
    after_wait, after_wake_read, received, wake_signal, CService, EspIp4Addr, EspIpAddr,
    EspIpUnion, MdnsIf, MdnsIpProtocol, PcbBinding, WaitOutcome, WorkerStep,
    ESP_IPADDR_TYPE_ANY, ESP_IPADDR_TYPE_V4, ESP_IPADDR_TYPE_V6, MDNS_PORT,
};

#[test]
fn group_address_is_little_endian() {
    let a = EspIpAddr::mdns_group();
    assert_eq!(a.addr_type, ESP_IPADDR_TYPE_V4);
    match a.u_addr {
        EspIpUnion::Ip4(v) => assert_eq!(v, EspIp4Addr { addr: u32::from_le_bytes([224, 0, 0, 251]) }),
        EspIpUnion::Ip6(_) => panic!("not an IPv4 address"),
    }
}

#[test]
fn address_family_tags() {
    assert_eq!(ESP_IPADDR_TYPE_V4, 0);
    assert_eq!(ESP_IPADDR_TYPE_V6, 6);
    assert_eq!(ESP_IPADDR_TYPE_ANY, 46);
    let a = EspIpAddr::v6([1, 2, 3, 4], 9);
    assert_eq!(a.addr_type, ESP_IPADDR_TYPE_V6);
    match a.u_addr {
        EspIpUnion::Ip6(v) => {
            assert_eq!(v.addr, [1, 2, 3, 4]);
            assert_eq!(v.zone, 9);
        }
        EspIpUnion::Ip4(_) => panic!("not an IPv6 address"),
    }
}

#[test]
fn selector_codes() {
    assert_eq!(MdnsIf::Netif0.code(), 0);
    assert_eq!(MdnsIpProtocol::Ip4.code(), 0);
    assert_eq!(MdnsIpProtocol::Ip6.code(), 1);
}

#[test]
fn native_send_goes_to_group() {
    let s = CService::new(|_: &[u8]| {});
    let w = s.send_request(vec![1, 2, 3]);
    assert_eq!(w.binding, PcbBinding { interface: MdnsIf::Netif0, protocol: MdnsIpProtocol::Ip4 });
    assert_eq!(w.port, MDNS_PORT);
    assert_eq!(w.port, 5353);
    assert_eq!(w.data, vec![1, 2, 3]);
    match w.destination.u_addr {
        EspIpUnion::Ip4(v) => assert_eq!(v.addr.to_le_bytes(), [224, 0, 0, 251]),
        EspIpUnion::Ip6(_) => panic!("not an IPv4 address"),
    }
    assert_eq!(s.binding(), w.binding);
}

#[test]
fn native_callback_is_kept() {
    let seen = std::sync::Arc::new(std::sync::Mutex::new(Vec::new()));
    let sink = seen.clone();
    let s = CService::new(move |b: &[u8]| sink.lock().unwrap().extend_from_slice(b));
    (s.receiver())(&[5, 6]);
    assert_eq!(*seen.lock().unwrap(), vec![5, 6]);
}

#[test]
fn worker_steps() {
    assert_eq!(after_wait(WaitOutcome::TimedOut), WorkerStep::Tick);
    assert_eq!(after_wait(WaitOutcome::Failed), WorkerStep::Stop);
    assert_eq!(
        after_wait(WaitOutcome::Ready { socket: true, wake: false }),
        WorkerStep::Read { socket: true, wake: false }
    );
    assert!(!after_wake_read(Some(0)));
    assert!(after_wake_read(Some(1)));
    assert!(after_wake_read(None));
}

#[test]
fn received_bytes_are_exact() {
    let mut buf = vec![0u8; 1500];
    buf[0] = 9;
    buf[1] = 8;
    buf[2] = 7;
    assert_eq!(received(&buf, 3), vec![9, 8, 7]);
    assert_eq!(received(&buf, 0), Vec::<u8>::new());
    assert_eq!(received(&buf, 1500).len(), 1500);
    assert_eq!(wake_signal(), vec![1]);
}
