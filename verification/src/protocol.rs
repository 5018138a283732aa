//! Streaming protocols and the choice of the protocol to stream over.

use vstd::prelude::*;

verus! {

/// Transport protocols the client can stream over.
#[derive(Debug, Clone, Copy, PartialEq, Eq, Structural)]
pub enum Protocol {
    UDP,
    TCP,
    WebRTC,
    WebSocket,
    SPICE,
    RDP,
    VNC,
}

/// Display name of a protocol.
pub open spec fn protocol_name(p: Protocol) -> Seq<char> {
    match p {
        Protocol::UDP => "UDP"@,
        Protocol::TCP => "TCP"@,
        Protocol::WebRTC => "WebRTC"@,
        Protocol::WebSocket => "WebSocket"@,
        Protocol::SPICE => "SPICE"@,
        Protocol::RDP => "RDP"@,
        Protocol::VNC => "VNC"@,
    }
}

impl Protocol {
    /// The protocol's display name.
    pub fn to_string(&self) -> (s: String)
        ensures
            s@ == protocol_name(*self),
    {
        match self {
            Protocol::UDP => String::from_str("UDP"),
            Protocol::TCP => String::from_str("TCP"),
            Protocol::WebRTC => String::from_str("WebRTC"),
            Protocol::WebSocket => String::from_str("WebSocket"),
            Protocol::SPICE => String::from_str("SPICE"),
            Protocol::RDP => String::from_str("RDP"),
            Protocol::VNC => String::from_str("VNC"),
        }
    }
}

/// A protocol handler with a fixed latency, or unavailable (`None`).
#[derive(Debug, Clone, Copy, PartialEq, Eq, Structural)]
pub struct MockProtocol {
    pub protocol: Protocol,
    pub mocked_latency: Option<u64>,
}

/// A transport that the connection manager can measure and choose; each names
/// the protocol it carries.
pub trait ProtocolHandler {
    fn name(&self) -> (p: Protocol);
}

impl ProtocolHandler for MockProtocol {
    /// The protocol this stand-in was made for.
    fn name(&self) -> (p: Protocol)
        ensures
            p == self.protocol,
    {
        self.protocol
    }
}

impl MockProtocol {
    /// A handler for `protocol` that measures `mocked_latency`.
    pub fn new(protocol: Protocol, mocked_latency: Option<u64>) -> (m: Self)
        ensures
            m.protocol == protocol,
            m.mocked_latency == mocked_latency,
    {
        MockProtocol { protocol, mocked_latency }
    }
}

/// The handlers the connection manager starts with.
pub open spec fn default_handlers_spec() -> Seq<MockProtocol> {
    seq![
        MockProtocol { protocol: Protocol::UDP, mocked_latency: Some(35u64) },
        MockProtocol { protocol: Protocol::TCP, mocked_latency: Some(45u64) },
        MockProtocol { protocol: Protocol::WebRTC, mocked_latency: Some(60u64) },
        MockProtocol { protocol: Protocol::WebSocket, mocked_latency: Some(50u64) },
        MockProtocol { protocol: Protocol::SPICE, mocked_latency: None },
        MockProtocol { protocol: Protocol::RDP, mocked_latency: None },
        MockProtocol { protocol: Protocol::VNC, mocked_latency: Some(100u64) },
    ]
}

/// The handlers the connection manager starts with: UDP 35 ms, TCP 45 ms,
/// WebRTC 60 ms, WebSocket 50 ms, SPICE and RDP unavailable, VNC 100 ms.
pub fn default_handlers() -> (hs: Vec<MockProtocol>)
    ensures
        hs@ == default_handlers_spec(),
{
    let mut hs: Vec<MockProtocol> = Vec::new();
    hs.push(MockProtocol::new(Protocol::UDP, Some(35)));
    hs.push(MockProtocol::new(Protocol::TCP, Some(45)));
    hs.push(MockProtocol::new(Protocol::WebRTC, Some(60)));
    hs.push(MockProtocol::new(Protocol::WebSocket, Some(50)));
    hs.push(MockProtocol::new(Protocol::SPICE, None));
    hs.push(MockProtocol::new(Protocol::RDP, None));
    hs.push(MockProtocol::new(Protocol::VNC, Some(100)));
    assert(hs@ =~= default_handlers_spec());
    hs
}

/// Latency above which the fastest protocol is not good enough.
pub const MAX_SELECT_LATENCY_MS: u64 = 30;

/// Result `k` is a fastest measured protocol, and the first such.
pub open spec fn is_first_fastest(results: Seq<(Protocol, Option<u64>)>, k: int) -> bool {
    &&& 0 <= k < results.len()
    &&& results[k].1 is Some
    &&& forall|j: int| 0 <= j < results.len() && (#[trigger] results[j]).1 is Some ==> results[k].1->0 <= results[j].1->0
    &&& forall|j: int| 0 <= j < k && (#[trigger] results[j]).1 is Some ==> results[k].1->0 < results[j].1->0
}

/// Some protocol measured at most 30 ms.
pub open spec fn some_fast_enough(results: Seq<(Protocol, Option<u64>)>) -> bool {
    exists|j: int| 0 <= j < results.len() && (#[trigger] results[j]).1 is Some && results[j].1->0 <= MAX_SELECT_LATENCY_MS
}

/// Chooses the protocol from latency test results (`None` for an unavailable
/// protocol): the first protocol with the lowest latency when that latency is
/// at most 30 ms, else WebRTC.
pub fn select_protocol(results: &Vec<(Protocol, Option<u64>)>) -> (p: Protocol)
    ensures
        !some_fast_enough(results@) ==> p == Protocol::WebRTC,
        some_fast_enough(results@) ==> exists|k: int| is_first_fastest(results@, k) && p == results@[k].0,
{
    let mut best_protocol = Protocol::WebRTC;
    let mut lowest_latency = u64::MAX;
    let ghost mut best: int = -1;
    let mut i: usize = 0;
    while i < results.len()
        invariant
            i <= results@.len(),
            -1 <= best < i,
            best == -1 ==> lowest_latency == u64::MAX && best_protocol == Protocol::WebRTC,
            best == -1 ==> forall|j: int| 0 <= j < i && (#[trigger] results@[j]).1 is Some ==> results@[j].1->0 == u64::MAX,
            best >= 0 ==> {
                &&& results@[best].1 == Some(lowest_latency)
                &&& best_protocol == results@[best].0
                &&& forall|j: int| 0 <= j < i && (#[trigger] results@[j]).1 is Some ==> lowest_latency <= results@[j].1->0
                &&& forall|j: int| 0 <= j < best && (#[trigger] results@[j]).1 is Some ==> lowest_latency < results@[j].1->0
            },
        decreases results@.len() - i,
    {
        let (proto, latency) = results[i];
        if let Some(lat) = latency {
            if lat < lowest_latency {
                lowest_latency = lat;
                best_protocol = proto;
                proof {
                    best = i as int;
                }
            }
        }
        i = i + 1;
    }
    proof {
        if best >= 0 {
            assert(is_first_fastest(results@, best));
        }
    }
    if lowest_latency > MAX_SELECT_LATENCY_MS {
        proof {
            if some_fast_enough(results@) {
                let j = choose|j: int| 0 <= j < results@.len() && (#[trigger] results@[j]).1 is Some && results@[j].1->0 <= MAX_SELECT_LATENCY_MS;
                assert(results@[j].1 is Some);
            }
        }
        Protocol::WebRTC
    } else {
        best_protocol
    }
}

/// A measured protocol is fast enough exactly when its round trip is at most
/// 30 ms; the names are the protocols' usual ones.
pub proof fn lemma_selection_threshold(results: Seq<(Protocol, Option<u64>)>)
    ensures
        some_fast_enough(results) <==> exists|j: int|
            0 <= j < results.len() && (#[trigger] results[j]).1 is Some && results[j].1->0 <= 30,
        protocol_name(Protocol::UDP) == "UDP"@,
        protocol_name(Protocol::TCP) == "TCP"@,
        protocol_name(Protocol::WebRTC) == "WebRTC"@,
        protocol_name(Protocol::WebSocket) == "WebSocket"@,
        protocol_name(Protocol::SPICE) == "SPICE"@,
        protocol_name(Protocol::RDP) == "RDP"@,
        protocol_name(Protocol::VNC) == "VNC"@,
{
}

} // verus!
