//! The DHCPv6 prefix delegation client: its states, what it sends when its
//! timer fires, and how it answers a received message.
//!
//! The client is a state machine driven from outside: the caller owns the
//! socket and the clock, hands in the event (a timer expiry or a received
//! datagram with its source) and the current time in milliseconds of a
//! monotonic clock, and gets back the next state, whether to restart the
//! retry count, and what to send or to install.
use crate::dhcp_client::packet::{
    bytes_eq, copy_bytes, copy_prefix, find_client_id, find_iapd, find_prefix, find_server_id,
    first_client_id, first_iapd_index, first_prefix_index, first_server_id, read_reply_outcome,
    reply_outcome, same_prefix, check_decodes_safely, cut_packet, decodes_safely, packet_cut, packet_fits, decode_v6_message, dhcpv6_decode, dhcpv6_encode, encode_v6_message, IaPd, IaPdOpt, PrefixInfo, V6Opt, V6Packet, MSG_ADVERTISE,
    MSG_REBIND, MSG_RELEASE, MSG_RENEW, MSG_REPLY, MSG_REQUEST, MSG_SOLICIT,
};
use crate::net::{ipv6_display_text, ipv6_to_string};
use crate::text::{decimal, decimal_string, push_decimal};
use vstd::prelude::*;
use vstd::string::StringExecFns;

verus! {

pub const IPV6_TIMEOUT_DEFAULT_DURACTION: u64 = 10;
pub const IPV6_TIMEOUT_RENEW_DURACTION: u64 = 10;
pub const IPV6_TIMEOUT_REBIND_DURACTION: u64 = 20;

/// Default T1 in seconds: twelve hours.
pub const IPV6_T1_DEFAULT: u64 = 43200;
/// Default T2 in seconds: T1 * 1.6.
pub const IPV6_T2_DEFAULT: u64 = 69120;

/// The all-DHCP-relay-agents-and-servers multicast address, ff02::1:2.
pub const DHCPV6_MULTICAST: u128 = 0xff02_0000_0000_0000_0000_0000_0001_0002;
/// The port DHCPv6 servers listen on.
pub const LANDSCAPE_DEFAULE_DHCP_V6_SERVER_PORT: u16 = 547;
/// The port the DHCPv6 client listens on.
pub const LANDSCAPE_DEFAULE_DHCP_V6_CLIENT_PORT: u16 = 546;

/// Transaction ids are three bytes long.
pub const XID_LIMIT: u32 = 0x0100_0000;

/// The address and port a datagram came from, when it came over IPv6.
#[derive(Clone, Copy, PartialEq, Eq, Debug)]
pub struct V6SockAddr {
    pub ip: u128,
    pub port: u16,
}

/// What the caller installs when a prefix has been delegated: the route via
/// the replying server and the prefix itself.
#[derive(Clone, Copy, PartialEq, Eq, Debug)]
pub struct BoundUpdate {
    pub gateway: u128,
    pub prefix: PrefixInfo,
}

/// The states of the prefix delegation client. Times are readings in
/// milliseconds of the caller's monotonic clock.
pub enum IpV6PdState {
    /// Initial state: soliciting servers.
    Solicit { xid: u32 },
    /// Requesting the prefix that a server advertised.
    Request { xid: u32, service_id: Vec<u8>, iapd: IaPd, service_sock: V6SockAddr, send_times: u8 },
    /// The prefix is delegated and in use.
    Bound { xid: u32, service_id: Vec<u8>, iapd: IaPd, bound_time: u64 },
    Confirm,
    /// T1 has passed: renewing with the same server.
    Renew { xid: u32, service_id: Vec<u8>, iapd: IaPd, renew_time: u64, bound_time: u64 },
    /// Renewing got no answer until 80% of T2: the last renew may still be answered.
    WaitToRebind { xid: u32, service_id: Vec<u8>, iapd: IaPd, bound_time: u64 },
    /// Renewing timed out: rebinding with any server.
    Rebind { xid: u32, service_id: Vec<u8>, iapd: IaPd, rebind_time: u64, bound_time: u64 },
    Release { xid: u32, service_id: Vec<u8> },
    Decline,
    /// Finished.
    Stop,
}

// ---------------------------------------------------------------------------
// Views of a state.
// ---------------------------------------------------------------------------

/// The transaction id of a state (a stopped client answers to 0).
pub open spec fn spec_xid(s: IpV6PdState) -> u32 {
    match s {
        IpV6PdState::Solicit { xid } => xid,
        IpV6PdState::Request { xid, .. } => xid,
        IpV6PdState::Bound { xid, .. } => xid,
        IpV6PdState::Renew { xid, .. } => xid,
        IpV6PdState::WaitToRebind { xid, .. } => xid,
        IpV6PdState::Rebind { xid, .. } => xid,
        IpV6PdState::Release { xid, .. } => xid,
        _ => 0,
    }
}

/// The server identifier that a state holds, if it holds one.
pub open spec fn spec_service_id(s: IpV6PdState) -> Option<Vec<u8>> {
    match s {
        IpV6PdState::Request { service_id, .. } => Some(service_id),
        IpV6PdState::Bound { service_id, .. } => Some(service_id),
        IpV6PdState::Renew { service_id, .. } => Some(service_id),
        IpV6PdState::WaitToRebind { service_id, .. } => Some(service_id),
        IpV6PdState::Rebind { service_id, .. } => Some(service_id),
        IpV6PdState::Release { service_id, .. } => Some(service_id),
        _ => None,
    }
}

/// A state in which the client waits for a reply from its server.
pub open spec fn awaits_reply(s: IpV6PdState) -> bool {
    s is Request || s is Renew || s is WaitToRebind || s is Rebind
}

/// Which received message types a state can handle.
pub open spec fn spec_can_handle(s: IpV6PdState, msg_type: u8) -> bool {
    ||| s is Solicit && msg_type == MSG_ADVERTISE
    ||| awaits_reply(s) && msg_type == MSG_REPLY
}

/// The invariant of the client's states: every transaction id fits in three
/// bytes and a request is sent at most six times.
pub open spec fn state_wf(s: IpV6PdState) -> bool {
    match s {
        IpV6PdState::Request { xid, send_times, .. } => xid < XID_LIMIT && send_times <= 5,
        IpV6PdState::Confirm => true,
        IpV6PdState::Decline => true,
        IpV6PdState::Stop => true,
        _ => spec_xid(s) < XID_LIMIT,
    }
}

/// The states that the client never reaches and cannot act on.
pub open spec fn is_inert(s: IpV6PdState) -> bool {
    s is Confirm || s is Decline
}

// ---------------------------------------------------------------------------
// Small computations.
// ---------------------------------------------------------------------------

#[verifier::external_body]
fn random_u32() -> u32 {
    rand::random::<u32>()
}

/// The transaction id made from a random number: its low three bytes.
pub fn xid_of_random(x: u32) -> (r: u32)
    ensures
        r == x % XID_LIMIT,
{
    let r = x & 0x00FF_FFFF;
    assert(r == x % 0x0100_0000) by (bit_vector)
        requires
            r == x & 0x00FF_FFFF,
    ;
    r
}

/// A fresh transaction id: a random number cut to its low three bytes
/// (`xid_of_random`). The number is random, so all that holds of every
/// outcome is that it fits in three bytes.
pub fn get_new_ipv6_xid() -> (r: u32)
    ensures
        r < XID_LIMIT,
{
    let x = random_u32();
    xid_of_random(x)
}

/// The client identifier sent with every message: a link-layer DUID
/// (type 3, hardware type 1) followed by the MAC address.
pub fn gen_client_id(config_mac: [u8; 6]) -> (r: Vec<u8>)
    ensures
        r@ == seq![0u8, 3u8, 0u8, 1u8] + config_mac@,
{
    let mut result: Vec<u8> = Vec::with_capacity(10);
    result.push(0);
    result.push(3);
    result.push(0);
    result.push(1);
    let mut i: usize = 0;
    while i < 6
        invariant
            i <= 6,
            result@ == seq![0u8, 3u8, 0u8, 1u8] + config_mac@.take(i as int),
        decreases 6 - i,
    {
        result.push(config_mac[i]);
        assert(config_mac@.take(i + 1) =~= config_mac@.take(i as int).push(config_mac@[i as int]));
        i = i + 1;
    }
    assert(config_mac@.take(6) =~= config_mac@);
    result
}

/// T2 of an IA_PD in seconds, the default when the server gave 0.
pub open spec fn t2_or_default(t2: u32) -> u64 {
    if t2 == 0 {
        IPV6_T2_DEFAULT
    } else {
        t2 as u64
    }
}

/// How long renewing may go on, in seconds since binding: 80% of T2.
pub open spec fn renew_limit(t2: u32) -> u64 {
    (t2_or_default(t2) / 10 * 8) as u64
}

/// How long rebinding may go on, in seconds since binding: 125% of T2.
pub open spec fn rebind_limit(t2: u32) -> u64 {
    (t2_or_default(t2) / 8 * 10) as u64
}

/// Whole seconds passed from `since` to `now` (both in milliseconds), 0 if
/// the clock reading is not later.
pub open spec fn elapsed_secs(since: u64, now: u64) -> u64 {
    if now >= since {
        ((now - since) / 1000) as u64
    } else {
        0
    }
}

/// The elapsed-time option value (hundredths of a second) sent since `since`:
/// the milliseconds cut to 16 bits, divided by ten.
pub open spec fn elapsed_hundredths(since: u64, now: u64) -> u16 {
    let ms: u64 = if now >= since {
        (now - since) as u64
    } else {
        0
    };
    ((ms as u16) / 10) as u16
}

fn t2_secs(t2: u32) -> (r: u64)
    ensures
        r == t2_or_default(t2),
{
    if t2 == 0 {
        IPV6_T2_DEFAULT
    } else {
        t2 as u64
    }
}

fn secs_since(since: u64, now: u64) -> (r: u64)
    ensures
        r == elapsed_secs(since, now),
{
    if now >= since {
        (now - since) / 1000
    } else {
        0
    }
}

fn hundredths_since(since: u64, now: u64) -> (r: u16)
    ensures
        r == elapsed_hundredths(since, now),
{
    let ms: u64 = if now >= since {
        now - since
    } else {
        0
    };
    (ms as u16) / 10
}

impl IpV6PdState {
    /// The state a client starts in: soliciting, with a fresh transaction id.
    pub fn init_status() -> (r: IpV6PdState)
        ensures
            r is Solicit,
            state_wf(r),
    {
        IpV6PdState::Solicit { xid: get_new_ipv6_xid() }
    }

    /// The transaction id that a received message must carry.
    pub fn get_xid(&self) -> (r: u32)
        requires
            !is_inert(*self),
        ensures
            r == spec_xid(*self),
    {
        match self {
            IpV6PdState::Solicit { xid, .. } => *xid,
            IpV6PdState::Request { xid, .. } => *xid,
            IpV6PdState::Bound { xid, .. } => *xid,
            IpV6PdState::Renew { xid, .. } => *xid,
            IpV6PdState::WaitToRebind { xid, .. } => *xid,
            IpV6PdState::Rebind { xid, .. } => *xid,
            IpV6PdState::Release { xid, .. } => *xid,
            IpV6PdState::Stop => 0,
            _ => vstd::pervasive::unreached(),
        }
    }

    /// On leaving: the server identifier to send a release to, if the state
    /// has been in touch with a server and not released yet.
    pub fn into_release(self) -> (r: Option<Vec<u8>>)
        requires
            !(self is Confirm),
        ensures
            r == (if awaits_reply(self) || self is Bound {
                spec_service_id(self)
            } else {
                None
            }),
    {
        match self {
            IpV6PdState::Request { service_id, .. } => Some(service_id),
            IpV6PdState::Bound { service_id, .. } => Some(service_id),
            IpV6PdState::Renew { service_id, .. } => Some(service_id),
            IpV6PdState::WaitToRebind { service_id, .. } => Some(service_id),
            IpV6PdState::Rebind { service_id, .. } => Some(service_id),
            IpV6PdState::Confirm => vstd::pervasive::unreached(),
            _ => None,
        }
    }

    /// Whether a received message of this type is one the state waits for.
    pub fn can_handle_message(&self, message_type: u8) -> (r: bool)
        ensures
            r == spec_can_handle(*self, message_type),
    {
        match self {
            IpV6PdState::Solicit { .. } => message_type == MSG_ADVERTISE,
            IpV6PdState::Request { .. } => message_type == MSG_REPLY,
            IpV6PdState::Renew { .. } => message_type == MSG_REPLY,
            IpV6PdState::WaitToRebind { .. } => message_type == MSG_REPLY,
            IpV6PdState::Rebind { .. } => message_type == MSG_REPLY,
            _ => false,
        }
    }

    /// Whether a message comes from the server this state talks to: states
    /// bound to one server (request, renew, waiting to rebind) accept only a
    /// message that carries that server's identifier; the others accept any.
    pub fn check_service_id(&self, new_v6_msg: &V6Packet) -> (r: bool)
        ensures
            r == (if self is Request || self is Renew || self is WaitToRebind {
                first_server_id(new_v6_msg.opts@) == Some(spec_service_id(*self).unwrap()@)
            } else {
                true
            }),
    {
        match self {
            IpV6PdState::Request { service_id, .. }
            | IpV6PdState::Renew { service_id, .. }
            | IpV6PdState::WaitToRebind { service_id, .. } => {
                match find_server_id(&new_v6_msg.opts) {
                    Some(id) => bytes_eq(service_id, id),
                    None => false,
                }
            },
            _ => true,
        }
    }
}

// ---------------------------------------------------------------------------
// The messages the client sends.
// ---------------------------------------------------------------------------

pub open spec fn is_client_id_opt(o: V6Opt, id: Seq<u8>) -> bool {
    o matches V6Opt::ClientId(c) && c@ == id
}

pub open spec fn is_server_id_opt(o: V6Opt, id: Seq<u8>) -> bool {
    o matches V6Opt::ServerId(c) && c@ == id
}

/// The IA_PD option a client repeats to its server: the held id, T1 and T2,
/// and a copy of the first IA prefix held (none if it holds none).
pub open spec fn echoes_iapd(o: V6Opt, held: IaPd) -> bool {
    &&& o matches V6Opt::IaPd(sent)
    &&& sent.id == held.id
    &&& sent.t1 == held.t1
    &&& sent.t2 == held.t2
    &&& match first_prefix_index(held.opts@) {
        Some(k) => {
            &&& sent.opts.len() == 1
            &&& sent.opts@[0] matches IaPdOpt::IaPrefix(q)
            &&& held.opts@[k] matches IaPdOpt::IaPrefix(p)
            &&& same_prefix(p, q)
        },
        None => sent.opts.len() == 0,
    }
}

/// A request: the held IA_PD, the client id and the server id.
pub open spec fn is_request_msg(p: V6Packet, xid: u32, iapd: IaPd, cid: Seq<u8>, sid: Seq<u8>) -> bool {
    &&& p.msg_type == MSG_REQUEST
    &&& p.xid == xid
    &&& p.opts.len() == 3
    &&& echoes_iapd(p.opts@[0], iapd)
    &&& is_client_id_opt(p.opts@[1], cid)
    &&& is_server_id_opt(p.opts@[2], sid)
}

/// A renew: the held IA_PD, the time spent renewing, the client id and the
/// server id.
pub open spec fn is_renew_msg(p: V6Packet, xid: u32, iapd: IaPd, elapsed: u16, cid: Seq<u8>, sid: Seq<u8>) -> bool {
    &&& p.msg_type == MSG_RENEW
    &&& p.xid == xid
    &&& p.opts.len() == 4
    &&& echoes_iapd(p.opts@[0], iapd)
    &&& p.opts@[1] == V6Opt::ElapsedTime(elapsed)
    &&& is_client_id_opt(p.opts@[2], cid)
    &&& is_server_id_opt(p.opts@[3], sid)
}

/// A rebind: the held IA_PD, the time spent rebinding and the client id; no
/// server id, since any server may answer.
pub open spec fn is_rebind_msg(p: V6Packet, xid: u32, iapd: IaPd, elapsed: u16, cid: Seq<u8>) -> bool {
    &&& p.msg_type == MSG_REBIND
    &&& p.xid == xid
    &&& p.opts.len() == 3
    &&& echoes_iapd(p.opts@[0], iapd)
    &&& p.opts@[1] == V6Opt::ElapsedTime(elapsed)
    &&& is_client_id_opt(p.opts@[2], cid)
}

/// A solicit: the solicit options followed by the client id.
pub open spec fn is_solicit_msg(p: V6Packet, xid: u32, solicit: Seq<V6Opt>, cid: Seq<u8>) -> bool {
    &&& p.msg_type == MSG_SOLICIT
    &&& p.xid == xid
    &&& p.opts.len() == solicit.len() + 1
    &&& p.opts@.take(solicit.len() as int) == solicit
    &&& is_client_id_opt(p.opts@[solicit.len() as int], cid)
}

/// What the timer does in each state: the next state, whether the retry
/// count restarts, and the message sent now.
pub open spec fn timeout_step(
    old: IpV6PdState,
    cid: Seq<u8>,
    solicit: Seq<V6Opt>,
    now: u64,
    new: IpV6PdState,
    reset: bool,
    sent: Option<V6Packet>,
) -> bool {
    match old {
        IpV6PdState::Solicit { xid } => {
            &&& new == old
            &&& !reset
            &&& sent matches Some(p) && is_solicit_msg(p, xid, solicit, cid)
        },
        IpV6PdState::Request { xid, service_id, iapd, service_sock, send_times } => {
            &&& sent matches Some(p) && is_request_msg(p, xid, iapd, cid, service_id@)
            &&& if send_times > 4 {
                reset && (new matches IpV6PdState::Solicit { xid: x } && x < XID_LIMIT)
            } else {
                !reset && new == (IpV6PdState::Request {
                    xid,
                    service_id,
                    iapd,
                    service_sock,
                    send_times: (send_times + 1) as u8,
                })
            }
        },
        IpV6PdState::Bound { service_id, iapd, bound_time, .. } => {
            &&& sent is None
            &&& reset
            &&& new matches IpV6PdState::Renew { xid: x, service_id: s, iapd: i, renew_time: r, bound_time: b }
            &&& x < XID_LIMIT && s == service_id && i == iapd && r == now && b == bound_time
        },
        IpV6PdState::Renew { xid, service_id, iapd, renew_time, bound_time } => {
            &&& sent matches Some(p) && is_renew_msg(
                p,
                xid,
                iapd,
                elapsed_hundredths(renew_time, now),
                cid,
                service_id@,
            )
            &&& if elapsed_secs(bound_time, now) >= renew_limit(iapd.t2) {
                reset && new == (IpV6PdState::WaitToRebind { xid, service_id, iapd, bound_time })
            } else {
                !reset && new == old
            }
        },
        IpV6PdState::WaitToRebind { service_id, iapd, bound_time, .. } => {
            &&& sent is None
            &&& reset
            &&& new matches IpV6PdState::Rebind { xid: x, service_id: s, iapd: i, rebind_time: r, bound_time: b }
            &&& x < XID_LIMIT && s == service_id && i == iapd && r == now && b == bound_time
        },
        IpV6PdState::Rebind { xid, iapd, rebind_time, bound_time, .. } => {
            if elapsed_secs(bound_time, now) >= rebind_limit(iapd.t2) {
                &&& sent is None
                &&& reset
                &&& (new matches IpV6PdState::Solicit { xid: x } && x < XID_LIMIT)
            } else {
                &&& !reset
                &&& new == old
                &&& sent matches Some(p) && is_rebind_msg(p, xid, iapd, elapsed_hundredths(rebind_time, now), cid)
            }
        },
        _ => false,
    }
}

/// The states in which the timer has something to do.
pub open spec fn timer_active(s: IpV6PdState) -> bool {
    s is Solicit || s is Request || s is Bound || awaits_reply(s)
}

fn echo_iapd(iapd: &IaPd) -> (r: V6Opt)
    ensures
        echoes_iapd(r, *iapd),
{
    let mut opts: Vec<IaPdOpt> = Vec::new();
    match find_prefix(&iapd.opts) {
        Some(k) => {
            match &iapd.opts[k] {
                IaPdOpt::IaPrefix(p) => {
                    opts.push(IaPdOpt::IaPrefix(copy_prefix(p)));
                },
                _ => {},
            }
        },
        None => {},
    }
    V6Opt::IaPd(IaPd { id: iapd.id, t1: iapd.t1, t2: iapd.t2, opts })
}

/// What the client does when its timer fires: decides the message to send
/// now and the next state, and whether the retry count restarts.
///
/// A solicit or a request is (re)sent as is; a request sent more than four
/// times gives way to a new solicit. A bound client starts renewing; a renew
/// goes on until 80% of T2 after binding, then waits once more for the last
/// renew before rebinding; a rebind goes on until 125% of T2 after binding,
/// then the client starts over with a solicit.
pub fn send_current_status_packet(
    current_status: IpV6PdState,
    my_client_id: &Vec<u8>,
    solicit_opts: Vec<V6Opt>,
    now_ms: u64,
) -> (r: (IpV6PdState, bool, Option<V6Packet>))
    requires
        timer_active(current_status),
    ensures
        timeout_step(current_status, my_client_id@, solicit_opts@, now_ms, r.0, r.1, r.2),
        state_wf(current_status) ==> state_wf(r.0),
{
    match current_status {
        IpV6PdState::Solicit { xid } => {
            let ghost solicit = solicit_opts@;
            let mut opts = solicit_opts;
            opts.push(V6Opt::ClientId(copy_bytes(my_client_id)));
            assert(opts@.take(solicit.len() as int) =~= solicit);
            let msg = V6Packet { msg_type: MSG_SOLICIT, xid, opts };
            (IpV6PdState::Solicit { xid }, false, Some(msg))
        },
        IpV6PdState::Request { xid, service_id, iapd, service_sock, send_times } => {
            let mut opts: Vec<V6Opt> = Vec::new();
            opts.push(echo_iapd(&iapd));
            opts.push(V6Opt::ClientId(copy_bytes(my_client_id)));
            opts.push(V6Opt::ServerId(copy_bytes(&service_id)));
            let msg = V6Packet { msg_type: MSG_REQUEST, xid, opts };
            if send_times > 4 {
                (IpV6PdState::Solicit { xid: get_new_ipv6_xid() }, true, Some(msg))
            } else {
                (
                    IpV6PdState::Request { xid, service_id, iapd, service_sock, send_times: send_times + 1 },
                    false,
                    Some(msg),
                )
            }
        },
        IpV6PdState::Bound { xid: _, service_id, iapd, bound_time } => {
            (
                IpV6PdState::Renew { xid: get_new_ipv6_xid(), service_id, iapd, renew_time: now_ms, bound_time },
                true,
                None,
            )
        },
        IpV6PdState::Renew { xid, service_id, iapd, renew_time, bound_time } => {
            let mut opts: Vec<V6Opt> = Vec::new();
            opts.push(echo_iapd(&iapd));
            opts.push(V6Opt::ElapsedTime(hundredths_since(renew_time, now_ms)));
            opts.push(V6Opt::ClientId(copy_bytes(my_client_id)));
            opts.push(V6Opt::ServerId(copy_bytes(&service_id)));
            let msg = V6Packet { msg_type: MSG_RENEW, xid, opts };
            let limit = t2_secs(iapd.t2) / 10 * 8;
            if secs_since(bound_time, now_ms) >= limit {
                (IpV6PdState::WaitToRebind { xid, service_id, iapd, bound_time }, true, Some(msg))
            } else {
                (IpV6PdState::Renew { xid, service_id, iapd, renew_time, bound_time }, false, Some(msg))
            }
        },
        IpV6PdState::WaitToRebind { xid: _, service_id, iapd, bound_time } => {
            (
                IpV6PdState::Rebind { xid: get_new_ipv6_xid(), service_id, iapd, rebind_time: now_ms, bound_time },
                true,
                None,
            )
        },
        IpV6PdState::Rebind { xid, service_id, iapd, rebind_time, bound_time } => {
            let bind_end = t2_secs(iapd.t2) / 8 * 10;
            if secs_since(bound_time, now_ms) >= bind_end {
                return (IpV6PdState::Solicit { xid: get_new_ipv6_xid() }, true, None);
            }
            let mut opts: Vec<V6Opt> = Vec::new();
            opts.push(echo_iapd(&iapd));
            opts.push(V6Opt::ElapsedTime(hundredths_since(rebind_time, now_ms)));
            opts.push(V6Opt::ClientId(copy_bytes(my_client_id)));
            let msg = V6Packet { msg_type: MSG_REBIND, xid, opts };
            (IpV6PdState::Rebind { xid, service_id, iapd, rebind_time, bound_time }, false, Some(msg))
        },
        _ => vstd::pervasive::unreached(),
    }
}

// ---------------------------------------------------------------------------
// Received messages.
// ---------------------------------------------------------------------------

/// The checks a received message passes before any state acts on it: its
/// transaction id is the state's, a client id it carries is ours, and the
/// state waits for its type.
pub open spec fn passes_checks(old: IpV6PdState, cid: Seq<u8>, p: V6Packet) -> bool {
    &&& p.xid == spec_xid(old)
    &&& (first_client_id(p.opts@) matches Some(c) ==> c == cid)
    &&& spec_can_handle(old, p.msg_type)
}

/// An advertise a soliciting client takes up: it names a server (a non-empty
/// server id) and offers an IA_PD.
pub open spec fn advertise_usable(p: V6Packet) -> bool {
    &&& first_server_id(p.opts@) matches Some(sid) && sid.len() > 0
    &&& first_iapd_index(p.opts@) is Some
}

/// The first IA_PD of a message (meaningful when it has one).
pub open spec fn first_iapd(p: V6Packet) -> IaPd {
    p.opts@[first_iapd_index(p.opts@).unwrap()]->IaPd_0
}

/// A reply that binds: it comes from the server the state talks to (or names
/// none), carries an IA_PD whose status is success and that holds a prefix.
pub open spec fn reply_binds(old: IpV6PdState, p: V6Packet) -> bool {
    &&& (first_server_id(p.opts@) matches Some(s) ==> s == spec_service_id(old).unwrap()@)
    &&& first_iapd_index(p.opts@) is Some
    &&& reply_outcome(first_iapd(p).opts@).0
    &&& reply_outcome(first_iapd(p).opts@).1 is Some
}

/// How the client answers a decoded message that came from `from` (`None`
/// for a datagram that did not come over IPv6): the next state, whether the
/// retry timer restarts, and what to install.
pub open spec fn handle_step(
    old: IpV6PdState,
    cid: Seq<u8>,
    p: V6Packet,
    from: Option<V6SockAddr>,
    now: u64,
    new: IpV6PdState,
    reset: bool,
    update: Option<BoundUpdate>,
) -> bool {
    if from is None {
        new == old && update is None && reset
    } else if !passes_checks(old, cid, p) {
        new == old && update is None && !reset
    } else if old is Solicit {
        if advertise_usable(p) {
            &&& reset
            &&& update is None
            &&& new matches IpV6PdState::Request { xid, service_id, iapd, service_sock, send_times }
            &&& xid < XID_LIMIT
            &&& first_server_id(p.opts@) == Some(service_id@)
            &&& iapd == first_iapd(p)
            &&& from == Some(service_sock)
            &&& send_times == 0
        } else {
            new == old && update is None && !reset
        }
    } else {
        if reply_binds(old, p) {
            &&& reset
            &&& new matches IpV6PdState::Bound { xid, service_id, iapd, bound_time }
            &&& xid < XID_LIMIT
            &&& Some(service_id) == spec_service_id(old)
            &&& iapd == first_iapd(p)
            &&& bound_time == now
            &&& update == Some(
                BoundUpdate { gateway: from.unwrap().ip, prefix: reply_outcome(first_iapd(p).opts@).1.unwrap() },
            )
        } else {
            new == old && update is None && !reset
        }
    }
}

impl IpV6PdState {
    fn service_id_ref(&self) -> (r: Option<&Vec<u8>>)
        ensures
            r matches Some(id) ==> spec_service_id(*self) == Some(*id),
            r is None ==> spec_service_id(*self) is None,
    {
        match self {
            IpV6PdState::Request { service_id, .. } => Some(service_id),
            IpV6PdState::Bound { service_id, .. } => Some(service_id),
            IpV6PdState::Renew { service_id, .. } => Some(service_id),
            IpV6PdState::WaitToRebind { service_id, .. } => Some(service_id),
            IpV6PdState::Rebind { service_id, .. } => Some(service_id),
            IpV6PdState::Release { service_id, .. } => Some(service_id),
            _ => None,
        }
    }

    fn into_service_id(self) -> (r: Vec<u8>)
        requires
            spec_service_id(self) is Some,
        ensures
            Some(r) == spec_service_id(self),
    {
        match self {
            IpV6PdState::Request { service_id, .. } => service_id,
            IpV6PdState::Bound { service_id, .. } => service_id,
            IpV6PdState::Renew { service_id, .. } => service_id,
            IpV6PdState::WaitToRebind { service_id, .. } => service_id,
            IpV6PdState::Rebind { service_id, .. } => service_id,
            IpV6PdState::Release { service_id, .. } => service_id,
            _ => vstd::pervasive::unreached(),
        }
    }
}

fn take_iapd(opts: Vec<V6Opt>, k: usize) -> (r: IaPd)
    requires
        k < opts.len(),
        opts@[k as int] is IaPd,
    ensures
        r == opts@[k as int]->IaPd_0,
{
    let mut opts = opts;
    match opts.remove(k) {
        V6Opt::IaPd(pd) => pd,
        _ => vstd::pervasive::unreached(),
    }
}

/// Answers a decoded message.
///
/// A soliciting client takes up an advertise that names a server and offers
/// an IA_PD, and moves on to request it from that server. A client waiting
/// for a reply binds on a reply from its server whose IA_PD reports success
/// and holds a prefix; the caller then installs the route via the sender and
/// the prefix. Anything else leaves the state as it is.
pub fn handle_decoded(
    current_status: IpV6PdState,
    my_client_id: &Vec<u8>,
    new_v6_msg: V6Packet,
    from: Option<V6SockAddr>,
    now_ms: u64,
) -> (r: (IpV6PdState, bool, Option<BoundUpdate>))
    requires
        !is_inert(current_status),
    ensures
        handle_step(current_status, my_client_id@, new_v6_msg, from, now_ms, r.0, r.1, r.2),
        state_wf(current_status) ==> state_wf(r.0),
{
    let src = match from {
        Some(a) => a,
        None => {
            return (current_status, true, None);
        },
    };
    if new_v6_msg.xid != current_status.get_xid() {
        return (current_status, false, None);
    }
    match find_client_id(&new_v6_msg.opts) {
        Some(c) => {
            if !bytes_eq(c, my_client_id) {
                return (current_status, false, None);
            }
        },
        None => {},
    }
    if !current_status.can_handle_message(new_v6_msg.msg_type) {
        return (current_status, false, None);
    }
    let is_solicit = match &current_status {
        IpV6PdState::Solicit { .. } => true,
        _ => false,
    };
    if is_solicit {
        let my_service_id = match find_server_id(&new_v6_msg.opts) {
            Some(id) => copy_bytes(id),
            None => Vec::new(),
        };
        if my_service_id.len() == 0 {
            return (current_status, false, None);
        }
        let k = match find_iapd(&new_v6_msg.opts) {
            Some(k) => k,
            None => {
                return (current_status, false, None);
            },
        };
        let iapd = take_iapd(new_v6_msg.opts, k);
        let next = IpV6PdState::Request {
            xid: get_new_ipv6_xid(),
            service_id: my_service_id,
            iapd,
            service_sock: src,
            send_times: 0,
        };
        return (next, true, None);
    }
    match find_server_id(&new_v6_msg.opts) {
        Some(new_service_id) => {
            let same = match current_status.service_id_ref() {
                Some(sid) => bytes_eq(sid, new_service_id),
                None => vstd::pervasive::unreached(),
            };
            if !same {
                return (current_status, false, None);
            }
        },
        None => {},
    }
    let k = match find_iapd(&new_v6_msg.opts) {
        Some(k) => k,
        None => {
            return (current_status, false, None);
        },
    };
    let outcome = match &new_v6_msg.opts[k] {
        V6Opt::IaPd(pd) => read_reply_outcome(&pd.opts),
        _ => vstd::pervasive::unreached(),
    };
    let (success, ia_prefix) = outcome;
    let prefix = match ia_prefix {
        Some(x) => x,
        None => {
            return (current_status, false, None);
        },
    };
    if !success {
        return (current_status, false, None);
    }
    let iapd = take_iapd(new_v6_msg.opts, k);
    let service_id = current_status.into_service_id();
    let next = IpV6PdState::Bound { xid: get_new_ipv6_xid(), service_id, iapd, bound_time: now_ms };
    (next, true, Some(BoundUpdate { gateway: src.ip, prefix }))
}

/// Answers a received datagram: decodes it with dhcproto and acts on the
/// message, the options it does not read cut to their data (`cut_packet`). A
/// datagram that did not come over IPv6, that is too short to hold a
/// message, that dhcproto cannot read, or that fails `decodes_safely` (and so
/// is not handed to dhcproto) only restarts the retry timer.
pub fn handle_packet(
    current_status: IpV6PdState,
    my_client_id: &Vec<u8>,
    msg: &[u8],
    from: Option<V6SockAddr>,
    now_ms: u64,
) -> (r: (IpV6PdState, bool, Option<BoundUpdate>))
    requires
        !is_inert(current_status),
    ensures
        (from is None || msg@.len() < 4 || !decodes_safely(msg@) || dhcpv6_decode(msg@) is None) ==> r.0
            == current_status && r.1 && r.2 is None,
        from is Some && msg@.len() >= 4 && decodes_safely(msg@) ==> (dhcpv6_decode(msg@) matches Some(raw)
            ==> exists|p: V6Packet|
            #[trigger] packet_cut(raw, p) && handle_step(current_status, my_client_id@, p, from, now_ms, r.0, r.1, r.2)),
        state_wf(current_status) ==> state_wf(r.0),
{
    if from.is_none() {
        return (current_status, true, None);
    }
    if !check_decodes_safely(msg) {
        return (current_status, true, None);
    }
    match decode_v6_message(msg) {
        Some(raw) => {
            let p = cut_packet(raw);
            let ghost held = p;
            let r = handle_decoded(current_status, my_client_id, p, from, now_ms);
            assert(packet_cut(raw, held));
            r
        },
        None => (current_status, true, None),
    }
}

// ---------------------------------------------------------------------------
// Timer, giving up, leaving.
// ---------------------------------------------------------------------------

/// The seconds until the timer fires next: T1 once bound; the rest of T2
/// while waiting to rebind; otherwise ten seconds times the retries so far.
pub open spec fn spec_timeout_secs(s: IpV6PdState, prev_timeout_times: u64, now: u64) -> int {
    match s {
        IpV6PdState::Bound { iapd, .. } => iapd.t1 as int,
        IpV6PdState::WaitToRebind { iapd, bound_time, .. } => t2_or_default(iapd.t2) - elapsed_secs(bound_time, now),
        _ => IPV6_TIMEOUT_DEFAULT_DURACTION * prev_timeout_times,
    }
}

/// Sets up the next timeout: returns the seconds to wait and the retry count
/// after this one.
pub fn get_status_timeout_config(current_status: &IpV6PdState, prev_timeout_times: u64, now_ms: u64) -> (r: (
    u64,
    u64,
))
    requires
        prev_timeout_times < u64::MAX,
        !(current_status is Bound || current_status is WaitToRebind) ==> IPV6_TIMEOUT_DEFAULT_DURACTION
            * prev_timeout_times <= u64::MAX,
        *current_status matches IpV6PdState::WaitToRebind { iapd, bound_time, .. } ==> elapsed_secs(bound_time, now_ms)
            <= t2_or_default(iapd.t2),
    ensures
        r.0 == spec_timeout_secs(*current_status, prev_timeout_times, now_ms),
        r.1 == prev_timeout_times + 1,
{
    let current_timeout_time = match current_status {
        IpV6PdState::Bound { iapd, .. } => iapd.t1 as u64,
        IpV6PdState::WaitToRebind { iapd, bound_time, .. } => {
            let t2 = t2_secs(iapd.t2);
            t2 - secs_since(*bound_time, now_ms)
        },
        _ => IPV6_TIMEOUT_DEFAULT_DURACTION * prev_timeout_times,
    };
    (current_timeout_time, prev_timeout_times + 1)
}

/// Whether the client gives up: it has timed out more than four times while
/// soliciting.
pub fn should_give_up(timeout_times: u64, current_status: &IpV6PdState) -> (r: bool)
    ensures
        r == (timeout_times > 4 && current_status is Solicit),
{
    timeout_times > 4 && match current_status {
        IpV6PdState::Solicit { .. } => true,
        _ => false,
    }
}

/// The release a leaving client sends, if its state holds a server: the
/// server id, the client id and an elapsed time of 0, under a fresh
/// transaction id.
pub fn release_message(current_status: IpV6PdState, my_client_id: &Vec<u8>) -> (r: Option<V6Packet>)
    requires
        !(current_status is Confirm),
    ensures
        (awaits_reply(current_status) || current_status is Bound) ==> (r matches Some(p) && {
            &&& p.msg_type == MSG_RELEASE
            &&& p.xid < XID_LIMIT
            &&& p.opts.len() == 3
            &&& is_server_id_opt(p.opts@[0], spec_service_id(current_status).unwrap()@)
            &&& is_client_id_opt(p.opts@[1], my_client_id@)
            &&& p.opts@[2] == V6Opt::ElapsedTime(0)
        }),
        !(awaits_reply(current_status) || current_status is Bound) ==> r is None,
{
    match current_status.into_release() {
        Some(service_id) => {
            let mut opts: Vec<V6Opt> = Vec::new();
            opts.push(V6Opt::ServerId(service_id));
            opts.push(V6Opt::ClientId(copy_bytes(my_client_id)));
            opts.push(V6Opt::ElapsedTime(0));
            Some(V6Packet { msg_type: MSG_RELEASE, xid: get_new_ipv6_xid(), opts })
        },
        None => None,
    }
}

/// The bytes to send for a message, as dhcproto encodes it. The message
/// fits dhcproto's 16-bit option lengths (`message_fits` tells).
pub fn encode_message(msg: &V6Packet) -> (r: Option<Vec<u8>>)
    requires
        packet_fits(*msg),
    ensures
        r is Some,
        r matches Some(b) ==> dhcpv6_encode(*msg) == Some(b@),
        r matches Some(b) ==> b@.len() >= 4 && b@[0] == msg.msg_type,
{
    encode_v6_message(msg)
}

/// The arguments of the `ip` command that installs the route of a
/// delegated prefix: a default route from the prefix via the replying
/// server, on the client's interface, expiring with the prefix.
pub open spec fn route_args(u: BoundUpdate, iface_name: Seq<char>) -> Seq<Seq<char>> {
    seq![
        "-6"@,
        "route"@,
        "replace"@,
        "default"@,
        "from"@,
        ipv6_display_text(u.prefix.prefix_ip) + "/"@ + decimal(u.prefix.prefix_len as nat),
        "via"@,
        ipv6_display_text(u.gateway),
        "dev"@,
        iface_name,
        "expires"@,
        decimal(u.prefix.valid_lifetime as nat),
    ]
}

fn owned(s: &str) -> (r: String)
    ensures
        r@ == s@,
{
    String::from_str(s)
}

/// The arguments of the `ip` command that installs the route of a binding
/// (see `route_args`).
pub fn replace_ip_route_args(update: &BoundUpdate, iface_name: &String) -> (r: Vec<String>)
    ensures
        r@.map_values(|a: String| a@) == route_args(*update, iface_name@),
{
    let mut from = ipv6_to_string(update.prefix.prefix_ip);
    from.append("/");
    push_decimal(&mut from, update.prefix.prefix_len as u64);
    let mut r: Vec<String> = Vec::new();
    r.push(owned("-6"));
    r.push(owned("route"));
    r.push(owned("replace"));
    r.push(owned("default"));
    r.push(owned("from"));
    r.push(from);
    r.push(owned("via"));
    r.push(ipv6_to_string(update.gateway));
    r.push(owned("dev"));
    r.push(iface_name.clone());
    r.push(owned("expires"));
    r.push(decimal_string(update.prefix.valid_lifetime as u64));
    assert(r@.map_values(|a: String| a@) =~= route_args(*update, iface_name@));
    r
}

// ---------------------------------------------------------------------------
// Laws of the client.
// ---------------------------------------------------------------------------

/// A client becomes bound only by a reply, in a state that waits for one,
/// from the server it talks to, reporting success and holding a prefix; the
/// prefix installed is the one the reply delegates.
pub proof fn lemma_bound_only_on_successful_reply(
    old: IpV6PdState,
    cid: Seq<u8>,
    p: V6Packet,
    from: Option<V6SockAddr>,
    now: u64,
    new: IpV6PdState,
    reset: bool,
    update: Option<BoundUpdate>,
)
    requires
        handle_step(old, cid, p, from, now, new, reset, update),
        new is Bound,
        !(old is Bound),
    ensures
        awaits_reply(old),
        p.msg_type == MSG_REPLY,
        first_server_id(p.opts@) matches Some(s) ==> s == spec_service_id(old).unwrap()@,
        reply_outcome(first_iapd(p).opts@).0,
        update matches Some(u) && Some(u.prefix) == reply_outcome(first_iapd(p).opts@).1,
{
}

/// Timer steps keep talking to the same server: a state that holds a server
/// id and whose next state holds one holds the same one.
pub proof fn lemma_timer_keeps_server(
    old: IpV6PdState,
    cid: Seq<u8>,
    solicit: Seq<V6Opt>,
    now: u64,
    new: IpV6PdState,
    reset: bool,
    sent: Option<V6Packet>,
)
    requires
        timeout_step(old, cid, solicit, now, new, reset, sent),
        spec_service_id(old) is Some,
        spec_service_id(new) is Some,
    ensures
        spec_service_id(new) == spec_service_id(old),
{
}

/// Every message sent on a timer step carries the state's transaction id
/// and our client id.
pub proof fn lemma_timer_messages_identify_client(
    old: IpV6PdState,
    cid: Seq<u8>,
    solicit: Seq<V6Opt>,
    now: u64,
    new: IpV6PdState,
    reset: bool,
    sent: Option<V6Packet>,
)
    requires
        timeout_step(old, cid, solicit, now, new, reset, sent),
    ensures
        sent matches Some(p) ==> p.xid == spec_xid(old) && exists|i: int|
            0 <= i < p.opts.len() && is_client_id_opt(#[trigger] p.opts@[i], cid),
{
    match old {
        IpV6PdState::Solicit { .. } => {
            let p = sent.unwrap();
            assert(is_client_id_opt(p.opts@[solicit.len() as int], cid));
        },
        IpV6PdState::Request { .. } => {
            assert(is_client_id_opt(sent.unwrap().opts@[1], cid));
        },
        IpV6PdState::Renew { .. } => {
            assert(is_client_id_opt(sent.unwrap().opts@[2], cid));
        },
        IpV6PdState::Rebind { .. } => {
            if sent is Some {
                assert(is_client_id_opt(sent.unwrap().opts@[2], cid));
            }
        },
        _ => {},
    }
}

/// A message that does not pass the checks (wrong transaction id, another
/// client's id, or a type the state does not wait for) changes nothing.
pub proof fn lemma_unchecked_message_ignored(
    old: IpV6PdState,
    cid: Seq<u8>,
    p: V6Packet,
    from: Option<V6SockAddr>,
    now: u64,
    new: IpV6PdState,
    reset: bool,
    update: Option<BoundUpdate>,
)
    requires
        handle_step(old, cid, p, from, now, new, reset, update),
        !passes_checks(old, cid, p),
    ensures
        new == old,
        update is None,
{
}

} // verus!
