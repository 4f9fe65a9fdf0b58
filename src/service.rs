//! The transports that carry mDNS datagrams: the capability they share,
//! the addresses and selectors of the native stack's interface, and the
//! decisions of the local multicast transport's worker loop.
use vstd::prelude::*;

verus! {

/// The mDNS multicast group, 224.0.0.251, as its four bytes.
pub const MDNS_GROUP: [u8; 4] = [224, 0, 0, 251];

/// The mDNS port.
pub const MDNS_PORT: u16 = 5353;

/// The address-family tag of an IPv4 address.
pub const ESP_IPADDR_TYPE_V4: u8 = 0;

/// The address-family tag of an IPv6 address.
pub const ESP_IPADDR_TYPE_V6: u8 = 6;

/// The address-family tag of an address of either family.
pub const ESP_IPADDR_TYPE_ANY: u8 = 46;

/// How long the worker waits for a descriptor before a housekeeping tick.
pub const TICK_MICROS: u32 = 100_000;

/// The most bytes the worker reads from the socket at once.
pub const DATAGRAM_LIMIT: usize = 1500;

/// The most bytes the worker reads from its wake-up channel at once.
pub const WAKE_READ_LIMIT: usize = 10;

/// The byte that the first action writes to wake the worker.
pub const WAKE_BYTE: u8 = 0x01;

/// Something that sends raw mDNS datagrams and hands every received one to
/// a callback; a call with no bytes is a housekeeping tick.
pub trait Service {
    /// Starts the transport, which will call `cb` for each datagram.
    fn init<F: Fn(&[u8]) + Send + Sync + 'static>(cb: F) -> Box<Self> where Self: Sized;

    /// Sends `packet` to the mDNS group, best effort.
    fn send(&self, packet: Vec<u8>);

    /// Wakes the transport's worker out of band, where it has one.
    fn action1(&self);

    /// A second out-of-band hook, free for a transport to use.
    fn action2(&self);

    /// A third out-of-band hook, free for a transport to use.
    fn action3(&self);

    /// Stops the transport and releases what it holds before returning.
    fn deinit(self: Box<Self>);
}

/// Starts a transport of kind `S` with the receive callback `cb`.
pub fn create_service<S: Service, F: Fn(&[u8]) + Send + Sync + 'static>(cb: F) -> Box<S> {
    S::init(cb)
}

/// An IPv4 address as the native stack holds it.
#[derive(Debug, Clone, Copy, PartialEq, Eq, Structural)]
pub struct EspIp4Addr {
    pub addr: u32,
}

/// An IPv6 address as the native stack holds it, with its zone.
#[derive(Debug, Clone, Copy, PartialEq, Eq)]
pub struct EspIp6Addr {
    pub addr: [u32; 4],
    pub zone: u8,
}

/// The value of an address of one of the two families.
#[derive(Debug, Clone, Copy)]
pub enum EspIpUnion {
    Ip4(EspIp4Addr),
    Ip6(EspIp6Addr),
}

/// An address with its family tag.
#[derive(Debug, Clone, Copy)]
pub struct EspIpAddr {
    pub u_addr: EspIpUnion,
    pub addr_type: u8,
}

/// The little-endian `u32` of four bytes.
pub open spec fn u32_le(b: [u8; 4]) -> u32 {
    (b[0] as int + 256 * b[1] as int + 65536 * b[2] as int + 16777216 * b[3] as int) as u32
}

impl EspIpAddr {
    /// The family tag agrees with the value: IPv4 for an IPv4 value, IPv6
    /// or either family for an IPv6 value.
    pub open spec fn wf(&self) -> bool {
        match self.u_addr {
            EspIpUnion::Ip4(_) => self.addr_type == ESP_IPADDR_TYPE_V4,
            EspIpUnion::Ip6(_) => self.addr_type == ESP_IPADDR_TYPE_V6 || self.addr_type
                == ESP_IPADDR_TYPE_ANY,
        }
    }

    /// The IPv4 address `addr`.
    pub fn v4(addr: u32) -> (r: EspIpAddr)
        ensures
            r.wf(),
            r.u_addr == EspIpUnion::Ip4(EspIp4Addr { addr }),
            r.addr_type == ESP_IPADDR_TYPE_V4,
    {
        EspIpAddr { u_addr: EspIpUnion::Ip4(EspIp4Addr { addr }), addr_type: ESP_IPADDR_TYPE_V4 }
    }

    /// The IPv6 address `addr` in zone `zone`.
    pub fn v6(addr: [u32; 4], zone: u8) -> (r: EspIpAddr)
        ensures
            r.wf(),
            r.u_addr == EspIpUnion::Ip6(EspIp6Addr { addr, zone }),
            r.addr_type == ESP_IPADDR_TYPE_V6,
    {
        EspIpAddr { u_addr: EspIpUnion::Ip6(EspIp6Addr { addr, zone }), addr_type: ESP_IPADDR_TYPE_V6 }
    }

    /// The mDNS group as the native stack takes it: the bytes 224, 0, 0,
    /// 251 read as a little-endian `u32`.
    pub fn mdns_group() -> (r: EspIpAddr)
        ensures
            r.wf(),
            r.addr_type == ESP_IPADDR_TYPE_V4,
            r.u_addr == EspIpUnion::Ip4(EspIp4Addr { addr: u32_le(MDNS_GROUP) }),
            r.u_addr == EspIpUnion::Ip4(EspIp4Addr { addr: 0xfb0000e0u32 }),
    {
        let b = MDNS_GROUP;
        let addr: u32 = b[0] as u32 + 256 * (b[1] as u32) + 65536 * (b[2] as u32) + 16777216 * (b[3] as u32);
        EspIpAddr::v4(addr)
    }
}

/// A network interface of the native stack.
#[derive(Debug, Clone, Copy, PartialEq, Eq, Structural)]
pub enum MdnsIf {
    Netif0,
}

impl MdnsIf {
    /// The interface's index on the native interface.
    pub fn code(&self) -> (r: u8)
        ensures
            r == 0,
    {
        match self {
            MdnsIf::Netif0 => 0,
        }
    }
}

/// An IP protocol of the native stack.
#[derive(Debug, Clone, Copy, PartialEq, Eq, Structural)]
pub enum MdnsIpProtocol {
    Ip4,
    Ip6,
}

impl MdnsIpProtocol {
    /// The protocol's code on the native interface: 0 for IPv4, 1 for IPv6.
    pub fn code(&self) -> (r: u8)
        ensures
            r == (match self {
                MdnsIpProtocol::Ip4 => 0u8,
                MdnsIpProtocol::Ip6 => 1u8,
            }),
    {
        match self {
            MdnsIpProtocol::Ip4 => 0,
            MdnsIpProtocol::Ip6 => 1,
        }
    }
}

/// A protocol control block of the native stack: an interface and a
/// protocol.
#[derive(Debug, Clone, Copy, PartialEq, Eq, Structural)]
pub struct PcbBinding {
    pub interface: MdnsIf,
    pub protocol: MdnsIpProtocol,
}

/// A datagram for the native stack to write.
#[derive(Debug)]
pub struct PcbWrite {
    pub binding: PcbBinding,
    pub destination: EspIpAddr,
    pub port: u16,
    pub data: Vec<u8>,
}

/// The transport that delegates to the native mDNS stack. It keeps the
/// receive callback; the native calls themselves are made by its host.
pub struct CService<F> {
    callback: F,
}

impl<F: Fn(&[u8])> CService<F> {
    /// The receive callback.
    pub closed spec fn callback(&self) -> F {
        self.callback
    }

    /// A transport that hands received datagrams to `cb`.
    pub fn new(cb: F) -> (r: CService<F>)
        ensures
            r.callback() == cb,
    {
        CService { callback: cb }
    }

    /// The receive callback.
    pub fn receiver(&self) -> (r: &F)
        ensures
            *r == self.callback(),
    {
        &self.callback
    }

    /// The one control block this transport uses: the default interface
    /// over IPv4, which it opens at start and closes at stop.
    pub fn binding(&self) -> (r: PcbBinding)
        ensures
            r == (PcbBinding { interface: MdnsIf::Netif0, protocol: MdnsIpProtocol::Ip4 }),
    {
        PcbBinding { interface: MdnsIf::Netif0, protocol: MdnsIpProtocol::Ip4 }
    }

    /// The native write that sends `packet`: to the mDNS group and port,
    /// on the default interface over IPv4.
    pub fn send_request(&self, packet: Vec<u8>) -> (r: PcbWrite)
        ensures
            r.binding == (PcbBinding { interface: MdnsIf::Netif0, protocol: MdnsIpProtocol::Ip4 }),
            r.destination.wf(),
            r.destination.u_addr == EspIpUnion::Ip4(EspIp4Addr { addr: u32_le(MDNS_GROUP) }),
            r.port == MDNS_PORT,
            r.data@ == packet@,
    {
        PcbWrite { binding: self.binding(), destination: EspIpAddr::mdns_group(), port: MDNS_PORT, data: packet }
    }
}

/// What the worker's wait on its two descriptors came to.
#[derive(Debug, Clone, Copy, PartialEq, Eq, Structural)]
pub enum WaitOutcome {
    /// The tick interval passed with no descriptor ready.
    TimedOut,
    /// At least one descriptor is ready to read.
    Ready { socket: bool, wake: bool },
    /// The wait itself failed.
    Failed,
}

/// What the worker does next.
#[derive(Debug, Clone, Copy, PartialEq, Eq, Structural)]
pub enum WorkerStep {
    /// Call the callback with no bytes.
    Tick,
    /// Read the descriptors that are ready, the socket first.
    Read { socket: bool, wake: bool },
    /// Leave the loop.
    Stop,
}

/// The worker's step after its wait: a tick when nothing was ready, the
/// reads of what is ready, and the end of the loop when the wait failed.
pub fn after_wait(outcome: WaitOutcome) -> (r: WorkerStep)
    ensures
        r == (match outcome {
            WaitOutcome::TimedOut => WorkerStep::Tick,
            WaitOutcome::Ready { socket, wake } => WorkerStep::Read { socket, wake },
            WaitOutcome::Failed => WorkerStep::Stop,
        }),
{
    match outcome {
        WaitOutcome::TimedOut => WorkerStep::Tick,
        WaitOutcome::Ready { socket, wake } => WorkerStep::Read { socket, wake },
        WaitOutcome::Failed => WorkerStep::Stop,
    }
}

/// Whether the worker goes on after reading its wake-up channel, given the
/// number of bytes read or `None` for a failed read: only an end of data,
/// a read of no byte, stops it.
pub fn after_wake_read(read: Option<usize>) -> (r: bool)
    ensures
        r == (read != Some(0usize)),
{
    match read {
        Some(n) => n != 0,
        None => true,
    }
}

/// The datagram to hand to the callback after the socket read `size` bytes
/// into `buf`: exactly the bytes received.
pub fn received(buf: &Vec<u8>, size: usize) -> (r: Vec<u8>)
    requires
        size <= buf@.len(),
    ensures
        r@ == buf@.subrange(0, size as int),
{
    let mut r: Vec<u8> = Vec::new();
    let mut i: usize = 0;
    while i < size
        invariant
            i <= size,
            size <= buf@.len(),
            r@ == buf@.subrange(0, i as int),
        decreases size - i,
    {
        r.push(buf[i]);
        i = i + 1;
        assert(r@ =~= buf@.subrange(0, i as int));
    }
    r
}

/// The bytes that wake the worker early.
pub fn wake_signal() -> (r: Vec<u8>)
    ensures
        r@ == seq![WAKE_BYTE],
{
    let mut r: Vec<u8> = Vec::new();
    r.push(WAKE_BYTE);
    r
}

} // verus!
