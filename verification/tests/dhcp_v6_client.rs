use landscape::dhcp_client::packet::{
    bytes_eq, check_decodes_safely, message_fits, find_iapd, find_prefix, find_server_id, read_reply_outcome, IaPd, IaPdOpt, IaPrefix, PrefixInfo,
    PrefixSubOpt, V6Opt, V6Packet, MSG_ADVERTISE, MSG_REBIND, MSG_RELEASE, MSG_RENEW, MSG_REPLY, MSG_REQUEST,
    MSG_SOLICIT,
};
use landscape::dhcp_client::v6::{
    encode_message, gen_client_id, get_new_ipv6_xid, get_status_timeout_config, handle_decoded, handle_packet,
    release_message, send_current_status_packet, should_give_up, IpV6PdState, V6SockAddr, XID_LIMIT,
};

fn cid() -> Vec<u8> {
    gen_client_id([0x00, 0xa0, 0x98, 0x39, 0x32, 0xf0])
}

fn prefix(ip: u128) -> IaPrefix {
    IaPrefix { preferred_lifetime: 3600, valid_lifetime: 7200, prefix_len: 56, prefix_ip: ip, opts: vec![] }
}

fn iapd_with(opts: Vec<IaPdOpt>) -> IaPd {
    IaPd { id: 1, t1: 100, t2: 200, opts }
}

fn server() -> V6SockAddr {
    V6SockAddr { ip: 0xfe80_0000_0000_0000_0000_0000_0000_0001, port: 547 }
}

fn advertise(xid: u32, sid: Vec<u8>, client: Vec<u8>, ip: u128) -> V6Packet {
    V6Packet {
        msg_type: MSG_ADVERTISE,
        xid,
        opts: vec![
            V6Opt::ServerId(sid),
            V6Opt::ClientId(client),
            V6Opt::IaPd(iapd_with(vec![IaPdOpt::IaPrefix(prefix(ip))])),
        ],
    }
}

fn request_state(xid: u32, send_times: u8) -> IpV6PdState {
    IpV6PdState::Request {
        xid,
        service_id: vec![9, 9],
        iapd: iapd_with(vec![IaPdOpt::IaPrefix(prefix(0x2001_0db8_0000_0000_0000_0000_0000_0000))]),
        service_sock: server(),
        send_times,
    }
}

#[test]
fn client_id_is_duid_ll_of_the_mac() {
    assert_eq!(cid(), vec![0, 3, 0, 1, 0x00, 0xa0, 0x98, 0x39, 0x32, 0xf0]);
}

#[test]
fn transaction_ids_fit_three_bytes() {
    for _ in 0..200 {
        assert!(get_new_ipv6_xid() < XID_LIMIT);
    }
    match IpV6PdState::init_status() {
        IpV6PdState::Solicit { xid } => assert!(xid < XID_LIMIT),
        _ => panic!("a new client solicits"),
    }
}

#[test]
fn solicit_carries_options_then_client_id() {
    let (next, reset, msg) = send_current_status_packet(
        IpV6PdState::Solicit { xid: 0x123456 },
        &cid(),
        vec![V6Opt::Oro(vec![23, 24])],
        0,
    );
    assert!(!reset);
    assert!(matches!(next, IpV6PdState::Solicit { xid: 0x123456 }));
    let msg = msg.unwrap();
    assert_eq!(msg.msg_type, MSG_SOLICIT);
    assert_eq!(msg.xid, 0x123456);
    assert_eq!(msg.opts.len(), 2);
    assert!(matches!(&msg.opts[0], V6Opt::Oro(c) if *c == vec![23, 24]));
    assert!(matches!(&msg.opts[1], V6Opt::ClientId(c) if *c == cid()));
}

#[test]
fn encoded_message_starts_with_type_and_xid() {
    let msg = V6Packet { msg_type: MSG_SOLICIT, xid: 0x0a0b0c, opts: vec![V6Opt::ClientId(cid())] };
    let bytes = encode_message(&msg).unwrap();
    assert_eq!(&bytes[0..4], &[1, 0x0a, 0x0b, 0x0c]);
    assert!(bytes.len() > 4);
}

#[test]
fn short_or_non_ipv6_datagrams_only_restart_the_timer() {
    let (next, reset, update) = handle_packet(IpV6PdState::Solicit { xid: 7 }, &cid(), &[2, 0, 0], Some(server()), 0);
    assert!(reset && update.is_none());
    assert!(matches!(next, IpV6PdState::Solicit { xid: 7 }));
    let (next, reset, update) = handle_packet(IpV6PdState::Solicit { xid: 7 }, &cid(), &[2, 0, 0, 7], None, 0);
    assert!(reset && update.is_none());
    assert!(matches!(next, IpV6PdState::Solicit { xid: 7 }));
}

#[test]
fn advertise_bytes_move_a_solicit_to_request() {
    let adv = advertise(0x00beef, vec![9, 9], cid(), 0x2001_0db8_0000_0000_0000_0000_0000_0000);
    let bytes = encode_message(&adv).unwrap();
    let (next, reset, update) = handle_packet(IpV6PdState::Solicit { xid: 0x00beef }, &cid(), &bytes, Some(server()), 5);
    assert!(reset);
    assert!(update.is_none());
    match next {
        IpV6PdState::Request { xid, service_id, iapd, service_sock, send_times } => {
            assert!(xid < XID_LIMIT);
            assert_eq!(service_id, vec![9, 9]);
            assert_eq!(service_sock, server());
            assert_eq!(send_times, 0);
            assert_eq!((iapd.id, iapd.t1, iapd.t2), (1, 100, 200));
            assert_eq!(find_prefix(&iapd.opts), Some(0));
        },
        _ => panic!("an advertise leads to a request"),
    }
}

#[test]
fn advertise_with_other_xid_or_client_is_ignored() {
    let adv = advertise(0x000001, vec![9, 9], cid(), 1);
    let bytes = encode_message(&adv).unwrap();
    let (next, reset, _) = handle_packet(IpV6PdState::Solicit { xid: 2 }, &cid(), &bytes, Some(server()), 0);
    assert!(!reset);
    assert!(matches!(next, IpV6PdState::Solicit { xid: 2 }));
    let adv = advertise(2, vec![9, 9], vec![1, 2, 3], 1);
    let (next, reset, _) = handle_decoded(IpV6PdState::Solicit { xid: 2 }, &cid(), adv, Some(server()), 0);
    assert!(!reset);
    assert!(matches!(next, IpV6PdState::Solicit { xid: 2 }));
}

#[test]
fn advertise_without_server_id_or_iapd_is_ignored() {
    let adv = V6Packet { msg_type: MSG_ADVERTISE, xid: 3, opts: vec![V6Opt::ClientId(cid())] };
    let (next, reset, _) = handle_decoded(IpV6PdState::Solicit { xid: 3 }, &cid(), adv, Some(server()), 0);
    assert!(!reset && matches!(next, IpV6PdState::Solicit { xid: 3 }));
    let adv = V6Packet { msg_type: MSG_ADVERTISE, xid: 3, opts: vec![V6Opt::ServerId(vec![1])] };
    let (next, reset, _) = handle_decoded(IpV6PdState::Solicit { xid: 3 }, &cid(), adv, Some(server()), 0);
    assert!(!reset && matches!(next, IpV6PdState::Solicit { xid: 3 }));
}

#[test]
fn request_echoes_iapd_and_ids_and_counts_sends() {
    let (next, reset, msg) = send_current_status_packet(request_state(42, 0), &cid(), vec![], 0);
    assert!(!reset);
    assert!(matches!(next, IpV6PdState::Request { xid: 42, send_times: 1, .. }));
    let msg = msg.unwrap();
    assert_eq!(msg.msg_type, MSG_REQUEST);
    assert_eq!(msg.xid, 42);
    assert_eq!(msg.opts.len(), 3);
    match &msg.opts[0] {
        V6Opt::IaPd(pd) => {
            assert_eq!((pd.id, pd.t1, pd.t2), (1, 100, 200));
            assert_eq!(pd.opts.len(), 1);
            assert!(matches!(&pd.opts[0], IaPdOpt::IaPrefix(p) if p.prefix_len == 56));
        },
        _ => panic!("the IA_PD comes first"),
    }
    assert!(matches!(&msg.opts[1], V6Opt::ClientId(c) if *c == cid()));
    assert!(matches!(&msg.opts[2], V6Opt::ServerId(s) if *s == vec![9, 9]));
}

#[test]
fn request_sent_five_times_gives_way_to_solicit() {
    let (next, reset, msg) = send_current_status_packet(request_state(42, 5), &cid(), vec![], 0);
    assert!(reset);
    assert!(msg.is_some());
    assert!(matches!(next, IpV6PdState::Solicit { xid } if xid < XID_LIMIT));
}

#[test]
fn successful_reply_binds_and_installs_the_prefix() {
    let reply = V6Packet {
        msg_type: MSG_REPLY,
        xid: 42,
        opts: vec![
            V6Opt::ServerId(vec![9, 9]),
            V6Opt::ClientId(cid()),
            V6Opt::IaPd(iapd_with(vec![IaPdOpt::StatusCode(0, "ok".to_string()), IaPdOpt::IaPrefix(prefix(0x2001_0db8_1234_5600_0000_0000_0000_0000))])),
        ],
    };
    let bytes = encode_message(&reply).unwrap();
    let (next, reset, update) = handle_packet(request_state(42, 2), &cid(), &bytes, Some(server()), 9000);
    assert!(reset);
    let update = update.unwrap();
    assert_eq!(update.gateway, server().ip);
    assert_eq!(
        update.prefix,
        PrefixInfo { preferred_lifetime: 3600, valid_lifetime: 7200, prefix_len: 56, prefix_ip: 0x2001_0db8_1234_5600_0000_0000_0000_0000 }
    );
    match next {
        IpV6PdState::Bound { service_id, bound_time, iapd, .. } => {
            assert_eq!(service_id, vec![9, 9]);
            assert_eq!(bound_time, 9000);
            assert_eq!(iapd.t1, 100);
        },
        _ => panic!("a successful reply binds"),
    }
}

#[test]
fn failed_reply_or_other_server_does_not_bind() {
    let failing = V6Packet {
        msg_type: MSG_REPLY,
        xid: 42,
        opts: vec![
            V6Opt::ServerId(vec![9, 9]),
            V6Opt::IaPd(iapd_with(vec![IaPdOpt::IaPrefix(prefix(5)), IaPdOpt::StatusCode(6, "NoPrefixAvail".to_string())])),
        ],
    };
    let (next, reset, update) = handle_decoded(request_state(42, 0), &cid(), failing, Some(server()), 0);
    assert!(!reset && update.is_none());
    assert!(matches!(next, IpV6PdState::Request { xid: 42, .. }));
    let other = V6Packet {
        msg_type: MSG_REPLY,
        xid: 42,
        opts: vec![V6Opt::ServerId(vec![1, 1]), V6Opt::IaPd(iapd_with(vec![IaPdOpt::IaPrefix(prefix(5))]))],
    };
    let (next, reset, update) = handle_decoded(request_state(42, 0), &cid(), other, Some(server()), 0);
    assert!(!reset && update.is_none());
    assert!(matches!(next, IpV6PdState::Request { xid: 42, .. }));
}

#[test]
fn bound_timer_starts_renewing_then_rebinding() {
    let bound = IpV6PdState::Bound { xid: 1, service_id: vec![9, 9], iapd: iapd_with(vec![]), bound_time: 1_000 };
    let (renew, reset, msg) = send_current_status_packet(bound, &cid(), vec![], 50_000);
    assert!(reset && msg.is_none());
    let xid = match &renew {
        IpV6PdState::Renew { xid, renew_time, bound_time, .. } => {
            assert_eq!((*renew_time, *bound_time), (50_000, 1_000));
            *xid
        },
        _ => panic!("a bound client renews"),
    };
    // 80% of T2 (200 s) is 160 s after binding.
    let (still, reset, msg) = send_current_status_packet(renew, &cid(), vec![], 50_500);
    assert!(!reset);
    let msg = msg.unwrap();
    assert_eq!(msg.msg_type, MSG_RENEW);
    assert_eq!(msg.xid, xid);
    assert!(matches!(msg.opts[1], V6Opt::ElapsedTime(50)));
    let (wait, reset, _) = send_current_status_packet(still, &cid(), vec![], 161_000);
    assert!(reset);
    assert!(matches!(wait, IpV6PdState::WaitToRebind { bound_time: 1_000, .. }));
    let (rebind, reset, msg) = send_current_status_packet(wait, &cid(), vec![], 162_000);
    assert!(reset && msg.is_none());
    assert!(matches!(rebind, IpV6PdState::Rebind { rebind_time: 162_000, .. }));
    let (rebind, reset, msg) = send_current_status_packet(rebind, &cid(), vec![], 163_000);
    assert!(!reset);
    let msg = msg.unwrap();
    assert_eq!(msg.msg_type, MSG_REBIND);
    assert_eq!(msg.opts.len(), 3);
    // 125% of T2 is 250 s after binding.
    let (again, reset, msg) = send_current_status_packet(rebind, &cid(), vec![], 252_000);
    assert!(reset && msg.is_none());
    assert!(matches!(again, IpV6PdState::Solicit { .. }));
}

#[test]
fn timeouts_follow_state() {
    let bound = IpV6PdState::Bound { xid: 1, service_id: vec![9], iapd: iapd_with(vec![]), bound_time: 0 };
    assert_eq!(get_status_timeout_config(&bound, 3, 0), (100, 4));
    let wait = IpV6PdState::WaitToRebind { xid: 1, service_id: vec![9], iapd: iapd_with(vec![]), bound_time: 0 };
    assert_eq!(get_status_timeout_config(&wait, 0, 170_000), (30, 1));
    assert_eq!(get_status_timeout_config(&IpV6PdState::Solicit { xid: 1 }, 2, 0), (20, 3));
    let zero_t2 = IpV6PdState::WaitToRebind { xid: 1, service_id: vec![9], iapd: IaPd { id: 1, t1: 0, t2: 0, opts: vec![] }, bound_time: 0 };
    assert_eq!(get_status_timeout_config(&zero_t2, 0, 69_000_000), (120, 1));
}

#[test]
fn gives_up_only_when_soliciting_too_long() {
    assert!(should_give_up(5, &IpV6PdState::Solicit { xid: 1 }));
    assert!(!should_give_up(4, &IpV6PdState::Solicit { xid: 1 }));
    assert!(!should_give_up(9, &request_state(1, 0)));
}

#[test]
fn release_names_server_and_client() {
    let bound = IpV6PdState::Bound { xid: 1, service_id: vec![9, 9], iapd: iapd_with(vec![]), bound_time: 0 };
    let msg = release_message(bound, &cid()).unwrap();
    assert_eq!(msg.msg_type, MSG_RELEASE);
    assert!(msg.xid < XID_LIMIT);
    assert!(matches!(&msg.opts[0], V6Opt::ServerId(s) if *s == vec![9, 9]));
    assert!(matches!(&msg.opts[1], V6Opt::ClientId(c) if *c == cid()));
    assert!(matches!(msg.opts[2], V6Opt::ElapsedTime(0)));
    assert!(release_message(IpV6PdState::Solicit { xid: 1 }, &cid()).is_none());
    assert!(release_message(IpV6PdState::Stop, &cid()).is_none());
}

#[test]
fn option_lookup_takes_the_first_of_a_kind() {
    let opts = vec![
        V6Opt::Unknown(14, vec![]),
        V6Opt::ServerId(vec![1]),
        V6Opt::IaPd(iapd_with(vec![])),
        V6Opt::ServerId(vec![2]),
    ];
    assert_eq!(find_server_id(&opts), Some(&vec![1]));
    assert_eq!(find_iapd(&opts), Some(2));
    let pd = vec![IaPdOpt::Unknown(1, vec![7]), IaPdOpt::IaPrefix(prefix(3)), IaPdOpt::IaPrefix(prefix(4))];
    assert_eq!(find_prefix(&pd), Some(1));
    assert!(bytes_eq(&vec![1, 2], &vec![1, 2]));
    assert!(!bytes_eq(&vec![1, 2], &vec![1]));
}

#[test]
fn reply_outcome_takes_last_status_and_last_prefix() {
    let opts = vec![
        IaPdOpt::StatusCode(3, String::new()),
        IaPdOpt::IaPrefix(prefix(1)),
        IaPdOpt::StatusCode(0, String::new()),
        IaPdOpt::IaPrefix(IaPrefix { preferred_lifetime: 1, valid_lifetime: 2, prefix_len: 60, prefix_ip: 7, opts: vec![PrefixSubOpt::Unknown(67, vec![1, 2])] }),
    ];
    let (ok, p) = read_reply_outcome(&opts);
    assert!(ok);
    assert_eq!(p, Some(PrefixInfo { preferred_lifetime: 1, valid_lifetime: 2, prefix_len: 60, prefix_ip: 7 }));
    assert_eq!(read_reply_outcome(&vec![]), (true, None));
}

#[test]
fn state_accessors() {
    let req = request_state(42, 0);
    assert_eq!(req.get_xid(), 42);
    assert!(req.can_handle_message(MSG_REPLY));
    assert!(!req.can_handle_message(MSG_ADVERTISE));
    assert!(IpV6PdState::Solicit { xid: 1 }.can_handle_message(MSG_ADVERTISE));
    assert!(!IpV6PdState::Stop.can_handle_message(MSG_REPLY));
    assert_eq!(IpV6PdState::Stop.get_xid(), 0);
    let from_server = V6Packet { msg_type: MSG_REPLY, xid: 42, opts: vec![V6Opt::ServerId(vec![9, 9])] };
    let from_other = V6Packet { msg_type: MSG_REPLY, xid: 42, opts: vec![V6Opt::ServerId(vec![8])] };
    let anonymous = V6Packet { msg_type: MSG_REPLY, xid: 42, opts: vec![] };
    assert!(req.check_service_id(&from_server));
    assert!(!req.check_service_id(&from_other));
    assert!(!req.check_service_id(&anonymous));
    assert!(IpV6PdState::Solicit { xid: 1 }.check_service_id(&from_other));
    assert_eq!(req.into_release(), Some(vec![9, 9]));
    assert_eq!(IpV6PdState::Solicit { xid: 1 }.into_release(), None);
}

#[test]
fn bound_prefix_route_command() {
    let update = landscape::dhcp_client::v6::BoundUpdate {
        gateway: 0xfe80_0000_0000_0000_0000_0000_0000_0001,
        prefix: PrefixInfo { preferred_lifetime: 3600, valid_lifetime: 7200, prefix_len: 56, prefix_ip: 0x2001_0db8_1234_5600_0000_0000_0000_0000 },
    };
    let args = landscape::dhcp_client::v6::replace_ip_route_args(&update, &"eth0".to_string());
    assert_eq!(
        args,
        vec!["-6", "route", "replace", "default", "from", "2001:db8:1234:5600::/56", "via", "fe80::1", "dev", "eth0", "expires", "7200"]
    );
}

#[test]
fn xid_keeps_the_low_three_bytes() {
    assert_eq!(landscape::dhcp_client::v6::xid_of_random(0x1234_5678), 0x34_5678);
    assert_eq!(landscape::dhcp_client::v6::xid_of_random(0x00ff_ffff), 0xff_ffff);
    assert_eq!(landscape::dhcp_client::v6::xid_of_random(0x0100_0000), 0);
}

fn advertise_with_unread_prefix_option() -> Vec<u8> {
    let mut b = vec![MSG_ADVERTISE, 0x00, 0xbe, 0xef];
    b.extend_from_slice(&[0, 2, 0, 2, 9, 9]);
    b.extend_from_slice(&[0, 25, 0, 46, 0, 0, 0, 1, 0, 0, 0, 100, 0, 0, 0, 200]);
    b.extend_from_slice(&[0, 26, 0, 30, 0, 0, 0x0e, 0x10, 0, 0, 0x1c, 0x20, 56]);
    b.extend_from_slice(&[0x20, 0x01, 0x0d, 0xb8, 0, 0, 0, 0, 0, 0, 0, 0, 0, 0, 0, 0]);
    b.extend_from_slice(&[0, 7, 0, 1, 255]);
    b
}

#[test]
fn unread_option_in_a_prefix_is_echoed_as_received() {
    let bytes = advertise_with_unread_prefix_option();
    assert!(check_decodes_safely(&bytes));
    let (next, reset, _) = handle_packet(IpV6PdState::Solicit { xid: 0x00beef }, &cid(), &bytes, Some(server()), 0);
    assert!(reset);
    let iapd = match &next {
        IpV6PdState::Request { iapd, .. } => iapd,
        _ => panic!("an advertise leads to a request"),
    };
    assert_eq!(iapd.opts.len(), 1);
    match &iapd.opts[0] {
        IaPdOpt::IaPrefix(p) => {
            assert_eq!((p.preferred_lifetime, p.valid_lifetime, p.prefix_len), (3600, 7200, 56));
            assert_eq!(p.prefix_ip, 0x2001_0db8_0000_0000_0000_0000_0000_0000);
            assert_eq!(p.opts.len(), 1);
            assert!(matches!(&p.opts[0], PrefixSubOpt::Unknown(7, d) if *d == vec![255]));
        },
        _ => panic!("the IA_PD holds the prefix"),
    }
    let (_, _, msg) = send_current_status_packet(next, &cid(), vec![], 0);
    let msg = msg.unwrap();
    assert!(message_fits(&msg));
    let out = encode_message(&msg).unwrap();
    let iapd_part = &bytes[10..];
    assert!(out.windows(iapd_part.len()).any(|w| w == iapd_part));
}

#[test]
fn short_status_header_is_not_handed_to_the_decoder() {
    let bytes = [MSG_ADVERTISE, 0, 0, 7, 0, 13, 0, 0, 0, 0];
    assert!(!check_decodes_safely(&bytes));
    let (next, reset, update) = handle_packet(IpV6PdState::Solicit { xid: 7 }, &cid(), &bytes, Some(server()), 0);
    assert!(reset && update.is_none());
    assert!(matches!(next, IpV6PdState::Solicit { xid: 7 }));
    assert!(!check_decodes_safely(&[MSG_REPLY, 0, 0, 1, 0, 16, 0, 3, 0, 0, 0, 0]));
    assert!(!check_decodes_safely(&[MSG_REPLY, 0, 0, 1, 0, 17, 0, 0, 0, 0, 0, 0]));
    assert!(check_decodes_safely(&[MSG_REPLY, 0, 0, 1, 0, 13, 0, 2, 0, 0]));
    assert!(check_decodes_safely(&[MSG_REPLY, 0, 0, 1, 0, 13, 0, 0, 0]));
    let nested_short = [MSG_REPLY, 0, 0, 1, 0, 25, 0, 18, 0, 0, 0, 1, 0, 0, 0, 0, 0, 0, 0, 0, 0, 13, 0, 1, 0, 0];
    assert!(!check_decodes_safely(&nested_short));
}

#[test]
fn header_bytes_inside_option_data_are_only_data() {
    let mut b = vec![MSG_ADVERTISE, 0x00, 0xbe, 0xef];
    b.extend_from_slice(&[0, 2, 0, 4, 0, 13, 0, 0]);
    b.extend_from_slice(&[0, 25, 0, 41, 0, 0, 0, 13, 0, 0, 0, 0, 0, 0, 0, 0]);
    b.extend_from_slice(&[0, 26, 0, 25, 0, 0, 0x0e, 0x10, 0, 0, 0x1c, 0x20, 56]);
    b.extend_from_slice(&[0x20, 0x01, 0x0d, 0xb8, 0, 0, 0, 0, 0, 0, 0, 0, 0, 0, 0, 0]);
    assert!(check_decodes_safely(&b));
    let (next, reset, update) = handle_packet(IpV6PdState::Solicit { xid: 0x00beef }, &cid(), &b, Some(server()), 0);
    assert!(reset && update.is_none());
    match next {
        IpV6PdState::Request { service_id, iapd, .. } => {
            assert_eq!(service_id, vec![0, 13, 0, 0]);
            assert_eq!((iapd.id, iapd.t1, iapd.t2), (13, 0, 0));
            assert_eq!(find_prefix(&iapd.opts), Some(0));
        },
        _ => panic!("the advertise is read and leads to a request"),
    }
}

#[test]
fn names_inside_a_nesting_option_are_refused() {
    let nested = [MSG_REPLY, 0, 0, 1, 0, 3, 0, 16, 0, 0, 0, 1, 0, 0, 0, 0, 0, 0, 0, 0, 0, 24, 0, 0];
    assert!(!check_decodes_safely(&nested));
    let after = [MSG_REPLY, 0, 0, 1, 0, 3, 0, 12, 0, 0, 0, 1, 0, 0, 0, 0, 0, 0, 0, 0, 0, 24, 0, 0];
    assert!(check_decodes_safely(&after));
}

#[test]
fn oversized_message_does_not_fit() {
    let small = V6Packet { msg_type: MSG_SOLICIT, xid: 1, opts: vec![V6Opt::Unknown(99, vec![0; 65527])] };
    assert!(message_fits(&small));
    assert_eq!(encode_message(&small).unwrap().len(), 65535);
    let big = V6Packet { msg_type: MSG_SOLICIT, xid: 1, opts: vec![V6Opt::Unknown(99, vec![0; 65528])] };
    assert!(!message_fits(&big));
    let oro = V6Packet { msg_type: MSG_SOLICIT, xid: 1, opts: vec![V6Opt::Oro(vec![1; 40000])] };
    assert!(!message_fits(&oro));
    let status = V6Packet { msg_type: MSG_SOLICIT, xid: 1, opts: vec![V6Opt::StatusCode(0, "é".repeat(32763))] };
    assert!(!message_fits(&status));
}
