//! The DHCPv6 messages that the prefix delegation client reads and writes,
//! held as plain values, with the decoding and encoding of dhcproto behind
//! trusted wrappers.
use dhcproto::v6::{DhcpOption, OptionCode, Status, StatusCode, UnknownOption, IAPD, IAPrefix, ORO};
use dhcproto::{Decodable, Decoder, Encodable, Encoder};
use vstd::prelude::*;

verus! {

/// DHCPv6 message type codes (RFC 8415, section 7.3).
pub const MSG_SOLICIT: u8 = 1;
pub const MSG_ADVERTISE: u8 = 2;
pub const MSG_REQUEST: u8 = 3;
pub const MSG_RENEW: u8 = 5;
pub const MSG_REBIND: u8 = 6;
pub const MSG_REPLY: u8 = 7;
pub const MSG_RELEASE: u8 = 8;

/// The status code value that reports success.
pub const STATUS_SUCCESS: u16 = 0;

/// An option nested in an IA prefix option.
///
/// `Unknown` is any option that this client does not read, by its code and
/// the data that follows its length field: as received where dhcproto does
/// not know the code, as dhcproto writes it where it does.
pub enum PrefixSubOpt {
    StatusCode(u16, String),
    Unknown(u16, Vec<u8>),
}

/// An IA prefix option: one delegated prefix.
pub struct IaPrefix {
    pub preferred_lifetime: u32,
    pub valid_lifetime: u32,
    pub prefix_len: u8,
    pub prefix_ip: u128,
    pub opts: Vec<PrefixSubOpt>,
}

/// An option nested in an IA_PD option; `Unknown` as for `PrefixSubOpt`.
pub enum IaPdOpt {
    StatusCode(u16, String),
    IaPrefix(IaPrefix),
    Unknown(u16, Vec<u8>),
}

/// An identity association for prefix delegation.
pub struct IaPd {
    pub id: u32,
    pub t1: u32,
    pub t2: u32,
    pub opts: Vec<IaPdOpt>,
}

/// A top-level option of a DHCPv6 message; `Unknown` as for `PrefixSubOpt`.
pub enum V6Opt {
    ClientId(Vec<u8>),
    ServerId(Vec<u8>),
    /// The option request option: the codes asked for.
    Oro(Vec<u16>),
    ElapsedTime(u16),
    StatusCode(u16, String),
    IaPd(IaPd),
    Unknown(u16, Vec<u8>),
}

/// A DHCPv6 client/server message: type, 24-bit transaction id, options in
/// the order in which dhcproto holds them.
pub struct V6Packet {
    pub msg_type: u8,
    pub xid: u32,
    pub opts: Vec<V6Opt>,
}

/// The numbers of a delegated prefix, which the route and prefix tables take.
#[derive(Clone, Copy, PartialEq, Eq, Debug)]
pub struct PrefixInfo {
    pub preferred_lifetime: u32,
    pub valid_lifetime: u32,
    pub prefix_len: u8,
    pub prefix_ip: u128,
}

// ---------------------------------------------------------------------------
// Option lookup, as dhcproto's `DhcpOptions::get`: the first option of a kind.
// ---------------------------------------------------------------------------

pub open spec fn first_server_id(opts: Seq<V6Opt>) -> Option<Seq<u8>>
    decreases opts.len(),
{
    if opts.len() == 0 {
        None
    } else {
        match opts[0] {
            V6Opt::ServerId(id) => Some(id@),
            _ => first_server_id(opts.drop_first()),
        }
    }
}

pub open spec fn first_client_id(opts: Seq<V6Opt>) -> Option<Seq<u8>>
    decreases opts.len(),
{
    if opts.len() == 0 {
        None
    } else {
        match opts[0] {
            V6Opt::ClientId(id) => Some(id@),
            _ => first_client_id(opts.drop_first()),
        }
    }
}

/// Index of the first IA_PD option, if any.
pub open spec fn first_iapd_index(opts: Seq<V6Opt>) -> Option<int>
    decreases opts.len(),
{
    if opts.len() == 0 {
        None
    } else {
        match opts[0] {
            V6Opt::IaPd(_) => Some(0int),
            _ => match first_iapd_index(opts.drop_first()) {
                Some(i) => Some(i + 1),
                None => None,
            },
        }
    }
}

/// Index of the first IA prefix option among the options of an IA_PD.
pub open spec fn first_prefix_index(opts: Seq<IaPdOpt>) -> Option<int>
    decreases opts.len(),
{
    if opts.len() == 0 {
        None
    } else {
        match opts[0] {
            IaPdOpt::IaPrefix(_) => Some(0int),
            _ => match first_prefix_index(opts.drop_first()) {
                Some(i) => Some(i + 1),
                None => None,
            },
        }
    }
}

proof fn lemma_first_iapd_index_bounds(opts: Seq<V6Opt>)
    ensures
        first_iapd_index(opts) matches Some(i) ==> 0 <= i < opts.len() && opts[i] is IaPd
            && forall|j: int| 0 <= j < i ==> !(opts[j] is IaPd),
        first_iapd_index(opts) is None ==> forall|j: int| 0 <= j < opts.len() ==> !(opts[j] is IaPd),
    decreases opts.len(),
{
    if opts.len() > 0 {
        lemma_first_iapd_index_bounds(opts.drop_first());
        assert forall|j: int| 1 <= j < opts.len() implies opts[j] == opts.drop_first()[j - 1] by {}
    }
}

proof fn lemma_first_prefix_index_bounds(opts: Seq<IaPdOpt>)
    ensures
        first_prefix_index(opts) matches Some(i) ==> 0 <= i < opts.len() && opts[i] is IaPrefix
            && forall|j: int| 0 <= j < i ==> !(opts[j] is IaPrefix),
        first_prefix_index(opts) is None ==> forall|j: int| 0 <= j < opts.len() ==> !(opts[j] is IaPrefix),
    decreases opts.len(),
{
    if opts.len() > 0 {
        lemma_first_prefix_index_bounds(opts.drop_first());
        assert forall|j: int| 1 <= j < opts.len() implies opts[j] == opts.drop_first()[j - 1] by {}
    }
}

/// The server identifier that a message carries first, if any.
pub fn find_server_id(opts: &Vec<V6Opt>) -> (r: Option<&Vec<u8>>)
    ensures
        match r {
            Some(id) => first_server_id(opts@) == Some(id@),
            None => first_server_id(opts@) is None,
        },
{
    let mut i: usize = 0;
    assert(opts@.skip(0) =~= opts@);
    while i < opts.len()
        invariant
            i <= opts.len(),
            first_server_id(opts@) == first_server_id(opts@.skip(i as int)),
        decreases opts.len() - i,
    {
        assert(opts@.skip(i as int)[0] == opts@[i as int]);
        match &opts[i] {
            V6Opt::ServerId(id) => {
                return Some(id);
            },
            _ => {},
        }
        assert(opts@.skip(i as int).drop_first() =~= opts@.skip(i + 1));
        i = i + 1;
    }
    None
}

/// The client identifier that a message carries first, if any.
pub fn find_client_id(opts: &Vec<V6Opt>) -> (r: Option<&Vec<u8>>)
    ensures
        match r {
            Some(id) => first_client_id(opts@) == Some(id@),
            None => first_client_id(opts@) is None,
        },
{
    let mut i: usize = 0;
    assert(opts@.skip(0) =~= opts@);
    while i < opts.len()
        invariant
            i <= opts.len(),
            first_client_id(opts@) == first_client_id(opts@.skip(i as int)),
        decreases opts.len() - i,
    {
        assert(opts@.skip(i as int)[0] == opts@[i as int]);
        match &opts[i] {
            V6Opt::ClientId(id) => {
                return Some(id);
            },
            _ => {},
        }
        assert(opts@.skip(i as int).drop_first() =~= opts@.skip(i + 1));
        i = i + 1;
    }
    None
}

/// The position of the first IA_PD option of a message, if any.
pub fn find_iapd(opts: &Vec<V6Opt>) -> (r: Option<usize>)
    ensures
        match r {
            Some(i) => first_iapd_index(opts@) == Some(i as int) && i < opts.len() && opts@[i as int] is IaPd,
            None => first_iapd_index(opts@) is None,
        },
{
    proof {
        lemma_first_iapd_index_bounds(opts@);
    }
    let mut i: usize = 0;
    while i < opts.len()
        invariant
            i <= opts.len(),
            forall|j: int| 0 <= j < i ==> !(opts@[j] is IaPd),
            first_iapd_index(opts@) matches Some(k) ==> 0 <= k < opts.len() && opts@[k] is IaPd
                && forall|j: int| 0 <= j < k ==> !(opts@[j] is IaPd),
            first_iapd_index(opts@) is None ==> forall|j: int| 0 <= j < opts.len() ==> !(opts@[j] is IaPd),
        decreases opts.len() - i,
    {
        match &opts[i] {
            V6Opt::IaPd(_) => {
                return Some(i);
            },
            _ => {},
        }
        i = i + 1;
    }
    None
}

/// The position of the first IA prefix among the options of an IA_PD, if any.
pub fn find_prefix(opts: &Vec<IaPdOpt>) -> (r: Option<usize>)
    ensures
        match r {
            Some(i) => first_prefix_index(opts@) == Some(i as int) && i < opts.len() && opts@[i as int] is IaPrefix,
            None => first_prefix_index(opts@) is None,
        },
{
    proof {
        lemma_first_prefix_index_bounds(opts@);
    }
    let mut i: usize = 0;
    while i < opts.len()
        invariant
            i <= opts.len(),
            forall|j: int| 0 <= j < i ==> !(opts@[j] is IaPrefix),
            first_prefix_index(opts@) matches Some(k) ==> 0 <= k < opts.len() && opts@[k] is IaPrefix
                && forall|j: int| 0 <= j < k ==> !(opts@[j] is IaPrefix),
            first_prefix_index(opts@) is None ==> forall|j: int| 0 <= j < opts.len() ==> !(opts@[j] is IaPrefix),
        decreases opts.len() - i,
    {
        match &opts[i] {
            IaPdOpt::IaPrefix(_) => {
                return Some(i);
            },
            _ => {},
        }
        i = i + 1;
    }
    None
}

// ---------------------------------------------------------------------------
// Reading the outcome of a reply: each status code replaces the verdict, the
// last IA prefix is the one delegated.
// ---------------------------------------------------------------------------

pub open spec fn prefix_info_of(p: IaPrefix) -> PrefixInfo {
    PrefixInfo {
        preferred_lifetime: p.preferred_lifetime,
        valid_lifetime: p.valid_lifetime,
        prefix_len: p.prefix_len,
        prefix_ip: p.prefix_ip,
    }
}

/// The verdict and the delegated prefix of the options of a replied IA_PD:
/// the verdict starts as success and each status code option sets it to
/// whether its code is success; the prefix is the last IA prefix option.
pub open spec fn reply_outcome(opts: Seq<IaPdOpt>) -> (bool, Option<PrefixInfo>)
    decreases opts.len(),
{
    if opts.len() == 0 {
        (true, None)
    } else {
        let prev = reply_outcome(opts.drop_last());
        match opts.last() {
            IaPdOpt::StatusCode(code, _) => (code == STATUS_SUCCESS, prev.1),
            IaPdOpt::IaPrefix(p) => (prev.0, Some(prefix_info_of(p))),
            _ => prev,
        }
    }
}

/// Reads the verdict and the delegated prefix of a replied IA_PD.
pub fn read_reply_outcome(opts: &Vec<IaPdOpt>) -> (r: (bool, Option<PrefixInfo>))
    ensures
        r == reply_outcome(opts@),
{
    let mut success = true;
    let mut prefix: Option<PrefixInfo> = None;
    let mut i: usize = 0;
    while i < opts.len()
        invariant
            i <= opts.len(),
            (success, prefix) == reply_outcome(opts@.take(i as int)),
        decreases opts.len() - i,
    {
        assert(opts@.take(i + 1).drop_last() =~= opts@.take(i as int));
        assert(opts@.take(i + 1).last() == opts@[i as int]);
        match &opts[i] {
            IaPdOpt::StatusCode(code, _) => {
                success = *code == STATUS_SUCCESS;
            },
            IaPdOpt::IaPrefix(p) => {
                prefix = Some(
                    PrefixInfo {
                        preferred_lifetime: p.preferred_lifetime,
                        valid_lifetime: p.valid_lifetime,
                        prefix_len: p.prefix_len,
                        prefix_ip: p.prefix_ip,
                    },
                );
            },
            _ => {},
        }
        i = i + 1;
    }
    assert(opts@.take(opts.len() as int) =~= opts@);
    (success, prefix)
}

// ---------------------------------------------------------------------------
// Copies of the parts of an IA_PD that a request repeats back to the server.
// ---------------------------------------------------------------------------

pub open spec fn same_sub_opt(a: PrefixSubOpt, b: PrefixSubOpt) -> bool {
    match (a, b) {
        (PrefixSubOpt::StatusCode(c1, m1), PrefixSubOpt::StatusCode(c2, m2)) => c1 == c2 && m1@ == m2@,
        (PrefixSubOpt::Unknown(c1, d1), PrefixSubOpt::Unknown(c2, d2)) => c1 == c2 && d1@ == d2@,
        _ => false,
    }
}

/// Two IA prefixes that carry the same numbers and the same nested options.
pub open spec fn same_prefix(a: IaPrefix, b: IaPrefix) -> bool {
    &&& a.preferred_lifetime == b.preferred_lifetime
    &&& a.valid_lifetime == b.valid_lifetime
    &&& a.prefix_len == b.prefix_len
    &&& a.prefix_ip == b.prefix_ip
    &&& a.opts.len() == b.opts.len()
    &&& forall|i: int| 0 <= i < a.opts.len() ==> same_sub_opt(#[trigger] a.opts@[i], b.opts@[i])
}

/// Byte-wise equality of two byte strings.
pub fn bytes_eq(a: &Vec<u8>, b: &Vec<u8>) -> (r: bool)
    ensures
        r == (a@ == b@),
{
    if a.len() != b.len() {
        return false;
    }
    let mut i: usize = 0;
    while i < a.len()
        invariant
            a.len() == b.len(),
            i <= a.len(),
            forall|j: int| 0 <= j < i ==> a@[j] == b@[j],
        decreases a.len() - i,
    {
        if a[i] != b[i] {
            return false;
        }
        i = i + 1;
    }
    assert(a@ =~= b@);
    true
}

pub fn copy_bytes(v: &Vec<u8>) -> (r: Vec<u8>)
    ensures
        r@ == v@,
{
    let mut r: Vec<u8> = Vec::new();
    let mut i: usize = 0;
    while i < v.len()
        invariant
            i <= v.len(),
            r@ == v@.take(i as int),
        decreases v.len() - i,
    {
        r.push(v[i]);
        assert(v@.take(i + 1) =~= v@.take(i as int).push(v@[i as int]));
        i = i + 1;
    }
    assert(v@.take(v.len() as int) =~= v@);
    r
}

fn copy_sub_opt(o: &PrefixSubOpt) -> (r: PrefixSubOpt)
    ensures
        same_sub_opt(*o, r),
{
    match o {
        PrefixSubOpt::StatusCode(c, m) => PrefixSubOpt::StatusCode(*c, m.clone()),
        PrefixSubOpt::Unknown(c, d) => PrefixSubOpt::Unknown(*c, copy_bytes(d)),
    }
}

/// A copy of an IA prefix, nested options included.
pub fn copy_prefix(p: &IaPrefix) -> (r: IaPrefix)
    ensures
        same_prefix(*p, r),
{
    let mut opts: Vec<PrefixSubOpt> = Vec::new();
    let mut i: usize = 0;
    while i < p.opts.len()
        invariant
            i <= p.opts.len(),
            opts.len() == i,
            forall|j: int| 0 <= j < i ==> same_sub_opt(#[trigger] p.opts@[j], opts@[j]),
        decreases p.opts.len() - i,
    {
        let o = copy_sub_opt(&p.opts[i]);
        opts.push(o);
        i = i + 1;
    }
    IaPrefix {
        preferred_lifetime: p.preferred_lifetime,
        valid_lifetime: p.valid_lifetime,
        prefix_len: p.prefix_len,
        prefix_ip: p.prefix_ip,
        opts,
    }
}

pub open spec fn xid_of_bytes(b1: u8, b2: u8, b3: u8) -> u32 {
    (b1 as int * 65536 + b2 as int * 256 + b3 as int) as u32
}

// ---------------------------------------------------------------------------
// Datagrams that dhcproto reads, and that this library writes back, without
// an arithmetic overflow.
// ---------------------------------------------------------------------------

/// The big-endian 16-bit number at `i` and `i + 1`.
pub open spec fn be16_at(b: Seq<u8>, i: int) -> int {
    b[i] as int * 256 + b[i + 1] as int
}

/// For an option that nests options, the bytes of its fixed part before them:
/// IA_NA and IA_PD (identity, T1, T2), IA_TA (identity), IA address (address
/// and two lifetimes), relay message (type, hop count, two addresses), IA
/// prefix (two lifetimes, length, prefix). Zero for the other codes.
pub open spec fn nested_fixed_len(code: int) -> int {
    if code == 3 || code == 25 {
        12
    } else if code == 4 {
        4
    } else if code == 5 {
        24
    } else if code == 9 {
        34
    } else if code == 26 {
        25
    } else {
        0
    }
}

/// Codes of the options that nest options and that this library keeps by
/// dhcproto's encoding: IA_NA, IA_TA, IA address, relay message, vendor
/// options.
pub open spec fn nests_unread_options(code: int) -> bool {
    code == 3 || code == 4 || code == 5 || code == 9 || code == 17
}

/// Codes of the options that carry domain names: the domain search list and
/// the NTP server option.
pub open spec fn carries_names(code: int) -> bool {
    code == 24 || code == 56
}

/// The options that dhcproto's option decoder reads from `b[p..end]`, one
/// after the other and into the options they nest, where each option takes
/// the bytes that its decoder reads (a preference or a reconfigure message
/// one byte, an elapsed time two, a server unicast address sixteen, a rapid
/// commit or a reconfigure accept none, the others their declared length),
/// and where the decoder stops at an option it cannot read for want of
/// bytes, or whose length does not suit its kind. They are safe when none of
/// them is a status code declaring fewer than two bytes, or a vendor class or
/// vendor options declaring fewer than four, once the field that dhcproto
/// reads before subtracting is there (those subtractions go past zero); and
/// when no option with domain names lies inside an option that nests options
/// and that this library keeps by dhcproto's encoding (`inside`): encoding
/// such an option sums 16-bit lengths that the names, expanded on decoding,
/// could overflow. Where the decoder stops on what an option holds (a status
/// message that is not UTF-8, an NTP server suboption it cannot read), the
/// walk goes on.
pub open spec fn options_safe(b: Seq<u8>, p: int, end: int, inside: bool) -> bool
    decreases end - p,
{
    if p < 0 || end > b.len() || end - p < 4 {
        true
    } else {
        let code = be16_at(b, p);
        let len = be16_at(b, p + 2);
        let q = p + 4;
        let rest = end - q;
        if code == 13 {
            if rest < 2 {
                true
            } else if len < 2 {
                false
            } else if len > rest {
                true
            } else {
                options_safe(b, q + len, end, inside)
            }
        } else if code == 16 || code == 17 {
            if rest < 4 {
                true
            } else if len < 4 {
                false
            } else if len > rest {
                true
            } else if code == 17 {
                options_safe(b, q + 4, q + len, true) && options_safe(b, q + len, end, inside)
            } else {
                options_safe(b, q + len, end, inside)
            }
        } else if code == 7 || code == 19 {
            if rest < 1 {
                true
            } else {
                options_safe(b, q + 1, end, inside)
            }
        } else if code == 8 {
            if rest < 2 {
                true
            } else {
                options_safe(b, q + 2, end, inside)
            }
        } else if code == 12 {
            if rest < 16 {
                true
            } else {
                options_safe(b, q + 16, end, inside)
            }
        } else if code == 14 || code == 20 {
            options_safe(b, q, end, inside)
        } else if len > rest {
            true
        } else if carries_names(code) && inside {
            false
        } else if (code == 23 && len % 16 != 0) || (code == 11 && len < 11) {
            true
        } else if nested_fixed_len(code) > 0 {
            if len < nested_fixed_len(code) {
                true
            } else {
                options_safe(b, q + nested_fixed_len(code), q + len, inside || nests_unread_options(code))
                    && options_safe(b, q + len, end, inside)
            }
        } else {
            options_safe(b, q + len, end, inside)
        }
    }
}

/// The datagrams that are handed to dhcproto: those whose options, after the
/// message type and the transaction id, are safe (`options_safe`).
pub open spec fn decodes_safely(b: Seq<u8>) -> bool {
    options_safe(b, 4, b.len() as int, false)
}

fn nested_fixed(code: usize) -> (r: usize)
    ensures
        r == nested_fixed_len(code as int),
{
    if code == 3 || code == 25 {
        12
    } else if code == 4 {
        4
    } else if code == 5 {
        24
    } else if code == 9 {
        34
    } else if code == 26 {
        25
    } else {
        0
    }
}

fn options_check(b: &[u8], start: usize, end: usize, inside: bool) -> (r: bool)
    requires
        start <= end <= b@.len(),
    ensures
        r == options_safe(b@, start as int, end as int, inside),
    decreases end - start,
{
    let mut p = start;
    while end - p >= 4
        invariant
            start <= p <= end <= b@.len(),
            options_safe(b@, start as int, end as int, inside) == options_safe(b@, p as int, end as int, inside),
        decreases end - p,
    {
        let code: usize = b[p] as usize * 256 + b[p + 1] as usize;
        let len: usize = b[p + 2] as usize * 256 + b[p + 3] as usize;
        assert(code == be16_at(b@, p as int) && len == be16_at(b@, p + 2));
        let q = p + 4;
        let rest = end - q;
        if code == 13 {
            if rest < 2 {
                return true;
            }
            if len < 2 {
                return false;
            }
            if len > rest {
                return true;
            }
            p = q + len;
        } else if code == 16 || code == 17 {
            if rest < 4 {
                return true;
            }
            if len < 4 {
                return false;
            }
            if len > rest {
                return true;
            }
            if code == 17 {
                if !options_check(b, q + 4, q + len, true) {
                    return false;
                }
            }
            p = q + len;
        } else if code == 7 || code == 19 {
            if rest < 1 {
                return true;
            }
            p = q + 1;
        } else if code == 8 {
            if rest < 2 {
                return true;
            }
            p = q + 2;
        } else if code == 12 {
            if rest < 16 {
                return true;
            }
            p = q + 16;
        } else if code == 14 || code == 20 {
            p = q;
        } else if len > rest {
            return true;
        } else if (code == 24 || code == 56) && inside {
            return false;
        } else if (code == 23 && len % 16 != 0) || (code == 11 && len < 11) {
            return true;
        } else {
            let fixed = nested_fixed(code);
            if fixed > 0 {
                if len < fixed {
                    return true;
                }
                let unread = code == 3 || code == 4 || code == 5 || code == 9 || code == 17;
                if !options_check(b, q + fixed, q + len, inside || unread) {
                    return false;
                }
            }
            p = q + len;
        }
    }
    true
}

/// Whether a datagram may be handed to dhcproto's decoder.
pub fn check_decodes_safely(b: &[u8]) -> (r: bool)
    ensures
        r == decodes_safely(b@),
{
    if b.len() < 4 {
        return true;
    }
    options_check(b, 4, b.len(), false)
}

// ---------------------------------------------------------------------------
// Messages that dhcproto's encoder writes without an arithmetic overflow.
// ---------------------------------------------------------------------------

/// The number of bytes of the UTF-8 form of a text.
pub open spec fn text_len(m: String) -> int {
    vstd::utf8::encode_utf8(m@).len() as int
}

/// The bytes that dhcproto writes for a status code option: a header of four
/// bytes, the code and the message.
pub open spec fn status_size(m: String) -> int {
    6 + text_len(m)
}

pub open spec fn sub_opt_size(o: PrefixSubOpt) -> int {
    match o {
        PrefixSubOpt::StatusCode(_, m) => status_size(m),
        PrefixSubOpt::Unknown(_, d) => 4 + d.len(),
    }
}

pub open spec fn sub_opts_size(s: Seq<PrefixSubOpt>) -> int
    decreases s.len(),
{
    if s.len() == 0 {
        0
    } else {
        sub_opts_size(s.drop_last()) + sub_opt_size(s.last())
    }
}

/// An IA prefix option takes a header, the two lifetimes, the prefix length,
/// the prefix and its nested options.
pub open spec fn iapd_opt_size(o: IaPdOpt) -> int {
    match o {
        IaPdOpt::StatusCode(_, m) => status_size(m),
        IaPdOpt::IaPrefix(x) => 29 + sub_opts_size(x.opts@),
        IaPdOpt::Unknown(_, d) => 4 + d.len(),
    }
}

pub open spec fn iapd_opts_size(s: Seq<IaPdOpt>) -> int
    decreases s.len(),
{
    if s.len() == 0 {
        0
    } else {
        iapd_opts_size(s.drop_last()) + iapd_opt_size(s.last())
    }
}

/// An IA_PD option takes a header, the identity, T1, T2 and its nested options.
pub open spec fn opt_size(o: V6Opt) -> int {
    match o {
        V6Opt::ClientId(d) => 4 + d.len(),
        V6Opt::ServerId(d) => 4 + d.len(),
        V6Opt::Oro(c) => 4 + 2 * c.len(),
        V6Opt::ElapsedTime(_) => 6,
        V6Opt::StatusCode(_, m) => status_size(m),
        V6Opt::IaPd(pd) => 16 + iapd_opts_size(pd.opts@),
        V6Opt::Unknown(_, d) => 4 + d.len(),
    }
}

pub open spec fn opts_size(s: Seq<V6Opt>) -> int
    decreases s.len(),
{
    if s.len() == 0 {
        0
    } else {
        opts_size(s.drop_last()) + opt_size(s.last())
    }
}

/// The bytes that dhcproto writes for a message: type, transaction id and
/// the options.
pub open spec fn packet_size(p: V6Packet) -> int {
    4 + opts_size(p.opts@)
}

/// The longest message whose option lengths all fit the 16-bit fields that
/// dhcproto's encoder computes without a check.
pub const MAX_MESSAGE_LEN: u64 = 65535;

pub open spec fn packet_fits(p: V6Packet) -> bool {
    packet_size(p) <= MAX_MESSAGE_LEN
}

/// A size, held at one past the longest message where it is larger.
pub open spec fn capped(x: int) -> int {
    if x > 65536 {
        65536
    } else {
        x
    }
}

fn add_capped(a: u64, b: u64) -> (r: u64)
    requires
        a <= 65536,
        b <= 65536,
    ensures
        r == capped(a + b),
{
    let s = a + b;
    if s > 65536 {
        65536
    } else {
        s
    }
}

fn len_capped(n: usize) -> (r: u64)
    ensures
        r == capped(n as int),
{
    if n > 65536 {
        65536
    } else {
        n as u64
    }
}

fn status_capped(m: &String) -> (r: u64)
    ensures
        r == capped(status_size(*m)),
{
    let n = m.as_str().as_bytes().len();
    add_capped(6, len_capped(n))
}

fn sub_opts_capped(opts: &Vec<PrefixSubOpt>) -> (r: u64)
    ensures
        r == capped(sub_opts_size(opts@)),
{
    let mut acc: u64 = 0;
    let mut i: usize = 0;
    while i < opts.len()
        invariant
            i <= opts.len(),
            acc == capped(sub_opts_size(opts@.take(i as int))),
        decreases opts.len() - i,
    {
        assert(opts@.take(i + 1).drop_last() =~= opts@.take(i as int));
        let item = match &opts[i] {
            PrefixSubOpt::StatusCode(_, m) => status_capped(m),
            PrefixSubOpt::Unknown(_, d) => add_capped(4, len_capped(d.len())),
        };
        acc = add_capped(acc, item);
        i = i + 1;
    }
    assert(opts@.take(opts.len() as int) =~= opts@);
    acc
}

fn iapd_opts_capped(opts: &Vec<IaPdOpt>) -> (r: u64)
    ensures
        r == capped(iapd_opts_size(opts@)),
{
    let mut acc: u64 = 0;
    let mut i: usize = 0;
    while i < opts.len()
        invariant
            i <= opts.len(),
            acc == capped(iapd_opts_size(opts@.take(i as int))),
        decreases opts.len() - i,
    {
        assert(opts@.take(i + 1).drop_last() =~= opts@.take(i as int));
        let item = match &opts[i] {
            IaPdOpt::StatusCode(_, m) => status_capped(m),
            IaPdOpt::IaPrefix(x) => add_capped(29, sub_opts_capped(&x.opts)),
            IaPdOpt::Unknown(_, d) => add_capped(4, len_capped(d.len())),
        };
        acc = add_capped(acc, item);
        i = i + 1;
    }
    assert(opts@.take(opts.len() as int) =~= opts@);
    acc
}

fn opts_capped(opts: &Vec<V6Opt>) -> (r: u64)
    ensures
        r == capped(opts_size(opts@)),
{
    let mut acc: u64 = 0;
    let mut i: usize = 0;
    while i < opts.len()
        invariant
            i <= opts.len(),
            acc == capped(opts_size(opts@.take(i as int))),
        decreases opts.len() - i,
    {
        assert(opts@.take(i + 1).drop_last() =~= opts@.take(i as int));
        let item = match &opts[i] {
            V6Opt::ClientId(d) => add_capped(4, len_capped(d.len())),
            V6Opt::ServerId(d) => add_capped(4, len_capped(d.len())),
            V6Opt::Oro(c) => {
                let k = len_capped(c.len());
                add_capped(4, add_capped(k, k))
            },
            V6Opt::ElapsedTime(_) => 6,
            V6Opt::StatusCode(_, m) => status_capped(m),
            V6Opt::IaPd(pd) => add_capped(16, iapd_opts_capped(&pd.opts)),
            V6Opt::Unknown(_, d) => add_capped(4, len_capped(d.len())),
        };
        acc = add_capped(acc, item);
        i = i + 1;
    }
    assert(opts@.take(opts.len() as int) =~= opts@);
    acc
}

/// Whether dhcproto can write a message: its size, options included, is at
/// most `MAX_MESSAGE_LEN` bytes.
pub fn message_fits(p: &V6Packet) -> (r: bool)
    ensures
        r == packet_fits(*p),
{
    add_capped(4, opts_capped(&p.opts)) <= MAX_MESSAGE_LEN
}

/// The data part of an option as dhcproto writes it: what follows the code
/// and the length.
fn option_data(full: Vec<u8>) -> (r: Vec<u8>)
    ensures
        full@.len() >= 4 ==> r@ == full@.skip(4),
        full@.len() < 4 ==> r@.len() == 0,
{
    let mut r: Vec<u8> = Vec::new();
    let mut i: usize = 4;
    while i < full.len()
        invariant
            4 <= i,
            full@.len() >= 4 ==> i <= full.len() && r@ == full@.subrange(4, i as int),
            full@.len() < 4 ==> r@.len() == 0,
        decreases full.len() - i,
    {
        r.push(full[i]);
        assert(full@.subrange(4, i + 1) =~= full@.subrange(4, i as int).push(full@[i as int]));
        i = i + 1;
    }
    assert(full@.len() >= 4 ==> full@.subrange(4, full@.len() as int) =~= full@.skip(4));
    r
}

// ---------------------------------------------------------------------------
// From dhcproto's encoding of an option this library does not read to its
// code and data.
// ---------------------------------------------------------------------------

/// The data part of an option as dhcproto writes it: what follows its code
/// and its length.
pub open spec fn data_part(full: Seq<u8>) -> Seq<u8> {
    if full.len() >= 4 {
        full.skip(4)
    } else {
        Seq::empty()
    }
}

pub open spec fn sub_opt_cut(raw: PrefixSubOpt, o: PrefixSubOpt) -> bool {
    match raw {
        PrefixSubOpt::Unknown(c, full) => o matches PrefixSubOpt::Unknown(c2, d) && c2 == c && d@ == data_part(full@),
        _ => o == raw,
    }
}

pub open spec fn prefix_cut(raw: IaPrefix, p: IaPrefix) -> bool {
    &&& p.preferred_lifetime == raw.preferred_lifetime
    &&& p.valid_lifetime == raw.valid_lifetime
    &&& p.prefix_len == raw.prefix_len
    &&& p.prefix_ip == raw.prefix_ip
    &&& p.opts.len() == raw.opts.len()
    &&& forall|i: int| 0 <= i < raw.opts.len() ==> sub_opt_cut(#[trigger] raw.opts@[i], p.opts@[i])
}

pub open spec fn iapd_opt_cut(raw: IaPdOpt, o: IaPdOpt) -> bool {
    match raw {
        IaPdOpt::Unknown(c, full) => o matches IaPdOpt::Unknown(c2, d) && c2 == c && d@ == data_part(full@),
        IaPdOpt::IaPrefix(x) => o matches IaPdOpt::IaPrefix(y) && prefix_cut(x, y),
        _ => o == raw,
    }
}

pub open spec fn iapd_cut(raw: IaPd, pd: IaPd) -> bool {
    &&& pd.id == raw.id
    &&& pd.t1 == raw.t1
    &&& pd.t2 == raw.t2
    &&& pd.opts.len() == raw.opts.len()
    &&& forall|i: int| 0 <= i < raw.opts.len() ==> iapd_opt_cut(#[trigger] raw.opts@[i], pd.opts@[i])
}

pub open spec fn opt_cut(raw: V6Opt, o: V6Opt) -> bool {
    match raw {
        V6Opt::Unknown(c, full) => o matches V6Opt::Unknown(c2, d) && c2 == c && d@ == data_part(full@),
        V6Opt::IaPd(x) => o matches V6Opt::IaPd(y) && iapd_cut(x, y),
        _ => o == raw,
    }
}

/// A message as decoded, whose options that this library does not read hold
/// dhcproto's encoding of them, and the same message with those options cut
/// to their data.
pub open spec fn packet_cut(raw: V6Packet, p: V6Packet) -> bool {
    &&& p.msg_type == raw.msg_type
    &&& p.xid == raw.xid
    &&& p.opts.len() == raw.opts.len()
    &&& forall|i: int| 0 <= i < raw.opts.len() ==> opt_cut(#[trigger] raw.opts@[i], p.opts@[i])
}

fn cut_sub_opts(v: Vec<PrefixSubOpt>) -> (r: Vec<PrefixSubOpt>)
    ensures
        r.len() == v.len(),
        forall|i: int| 0 <= i < v.len() ==> sub_opt_cut(#[trigger] v@[i], r@[i]),
{
    let ghost orig = v@;
    let n = v.len();
    let mut v = v;
    let mut r: Vec<PrefixSubOpt> = Vec::new();
    let mut i: usize = 0;
    while i < n
        invariant
            n == orig.len(),
            i <= n,
            v@ == orig.skip(i as int),
            r.len() == i,
            forall|j: int| 0 <= j < i ==> sub_opt_cut(#[trigger] orig[j], r@[j]),
        decreases n - i,
    {
        assert(v@[0] == orig[i as int]);
        let o = v.remove(0);
        assert(o == orig[i as int]);
        assert(v@ =~= orig.skip(i + 1));
        let c = match o {
            PrefixSubOpt::Unknown(code, full) => {
                let d = option_data(full);
                assert(d@ == data_part(full@));
                PrefixSubOpt::Unknown(code, d)
            },
            other => other,
        };
        proof {
            assert(sub_opt_cut(orig[i as int], c));
        }
        r.push(c);
        i = i + 1;
    }
    r
}

fn cut_prefix(x: IaPrefix) -> (r: IaPrefix)
    ensures
        prefix_cut(x, r),
{
    let IaPrefix { preferred_lifetime, valid_lifetime, prefix_len, prefix_ip, opts } = x;
    IaPrefix { preferred_lifetime, valid_lifetime, prefix_len, prefix_ip, opts: cut_sub_opts(opts) }
}

fn cut_iapd_opts(v: Vec<IaPdOpt>) -> (r: Vec<IaPdOpt>)
    ensures
        r.len() == v.len(),
        forall|i: int| 0 <= i < v.len() ==> iapd_opt_cut(#[trigger] v@[i], r@[i]),
{
    let ghost orig = v@;
    let n = v.len();
    let mut v = v;
    let mut r: Vec<IaPdOpt> = Vec::new();
    let mut i: usize = 0;
    while i < n
        invariant
            n == orig.len(),
            i <= n,
            v@ == orig.skip(i as int),
            r.len() == i,
            forall|j: int| 0 <= j < i ==> iapd_opt_cut(#[trigger] orig[j], r@[j]),
        decreases n - i,
    {
        assert(v@[0] == orig[i as int]);
        let o = v.remove(0);
        assert(o == orig[i as int]);
        assert(v@ =~= orig.skip(i + 1));
        let c = match o {
            IaPdOpt::Unknown(code, full) => {
                let d = option_data(full);
                assert(d@ == data_part(full@));
                IaPdOpt::Unknown(code, d)
            },
            IaPdOpt::IaPrefix(x) => IaPdOpt::IaPrefix(cut_prefix(x)),
            other => other,
        };
        proof {
            assert(iapd_opt_cut(orig[i as int], c));
        }
        r.push(c);
        i = i + 1;
    }
    r
}

fn cut_iapd(pd: IaPd) -> (r: IaPd)
    ensures
        iapd_cut(pd, r),
{
    let IaPd { id, t1, t2, opts } = pd;
    IaPd { id, t1, t2, opts: cut_iapd_opts(opts) }
}

/// Cuts each option that this library does not read, at every level, from
/// dhcproto's encoding of it to its data: the form in which it is held and
/// written out again.
pub fn cut_packet(raw: V6Packet) -> (r: V6Packet)
    ensures
        packet_cut(raw, r),
{
    let V6Packet { msg_type, xid, opts } = raw;
    let ghost orig = opts@;
    let n = opts.len();
    let mut v = opts;
    let mut r: Vec<V6Opt> = Vec::new();
    let mut i: usize = 0;
    while i < n
        invariant
            n == orig.len(),
            i <= n,
            v@ == orig.skip(i as int),
            r.len() == i,
            forall|j: int| 0 <= j < i ==> opt_cut(#[trigger] orig[j], r@[j]),
        decreases n - i,
    {
        assert(v@[0] == orig[i as int]);
        let o = v.remove(0);
        assert(o == orig[i as int]);
        assert(v@ =~= orig.skip(i + 1));
        let c = match o {
            V6Opt::Unknown(code, full) => {
                let d = option_data(full);
                assert(d@ == data_part(full@));
                V6Opt::Unknown(code, d)
            },
            V6Opt::IaPd(pd) => V6Opt::IaPd(cut_iapd(pd)),
            other => other,
        };
        proof {
            assert(opt_cut(orig[i as int], c));
        }
        r.push(c);
        i = i + 1;
    }
    V6Packet { msg_type, xid, opts: r }
}

// ---------------------------------------------------------------------------
// Wire format, by dhcproto.
// ---------------------------------------------------------------------------

#[verifier::external_type_specification]
#[verifier::external_body]
pub struct ExDhcpV6Option(DhcpOption);

#[verifier::external_type_specification]
#[verifier::external_body]
pub struct ExDhcpV6Iapd(IAPD);

#[verifier::external_type_specification]
#[verifier::external_body]
pub struct ExDhcpV6IaPrefix(IAPrefix);

#[verifier::external_type_specification]
#[verifier::external_body]
pub struct ExDhcpV6Oro(ORO);

#[verifier::external_type_specification]
#[verifier::external_body]
pub struct ExDhcpV6StatusCode(StatusCode);

/// What dhcproto's `Message::decode` reads from a byte string, as a value of
/// this library in which each option that the library does not read holds
/// its code and what dhcproto's `Encodable::to_vec` writes for it, header
/// included; `None` where that encoder reports an error.
pub uninterp spec fn dhcpv6_decode(bytes: Seq<u8>) -> Option<V6Packet>;

/// What dhcproto's `Message::encode` writes for a message of this library,
/// `None` where it reports an error.
pub uninterp spec fn dhcpv6_encode(packet: V6Packet) -> Option<Seq<u8>>;

/// Decodes a DHCPv6 message with dhcproto's `Message::decode`.
///
/// An option that this library reads becomes its value here; any other
/// option is `Unknown` with its code and what dhcproto's `Encodable::to_vec`
/// writes for it, header included (`cut_packet` then keeps the data part).
/// The datagram meets `decodes_safely`: on the others dhcproto's decoder can
/// subtract past zero, or its encoder overflow.
///
/// Claims, from dhcproto's source: fewer than four bytes fail; otherwise the
/// result is the name `dhcpv6_decode` of the bytes, and a message carries the
/// first byte as its type and the next three, big endian, as its transaction
/// id.
#[verifier::external_body]
pub(crate) fn decode_v6_message(bytes: &[u8]) -> (r: Option<V6Packet>)
    requires
        decodes_safely(bytes@),
    ensures
        bytes@.len() < 4 ==> r is None,
        bytes@.len() >= 4 ==> r == dhcpv6_decode(bytes@),
        r matches Some(p) ==> p.msg_type == bytes@[0] && p.xid == xid_of_bytes(bytes@[1], bytes@[2], bytes@[3]),
{
    match dhcproto::v6::Message::decode(&mut Decoder::new(bytes)) {
        Ok(m) => {
            let opts: Option<Vec<V6Opt>> = m.opts().iter().map(top_opt_from).collect();
            opts.map(|opts| V6Packet { msg_type: u8::from(m.msg_type()), xid: m.xid_num(), opts })
        },
        Err(_) => None,
    }
}

/// Encodes a message with dhcproto: `Message::new_with_id`, `set_xid_num`,
/// the options inserted into its option list, then `Message::encode`.
///
/// Claims, from dhcproto's source: a message within `packet_fits` is written
/// without an error (the encoder fails only where its write offset overflows
/// a `usize`), as the bytes that are the name `dhcpv6_encode` of the message;
/// they start with the message type and the low three bytes of the
/// transaction id, big endian.
#[verifier::external_body]
pub(crate) fn encode_v6_message(p: &V6Packet) -> (r: Option<Vec<u8>>)
    requires
        packet_fits(*p),
    ensures
        r is Some,
        r matches Some(b) ==> dhcpv6_encode(*p) == Some(b@),
        r matches Some(b) ==> b@.len() >= 4 && b@[0] == p.msg_type
            && b@[1] == ((p.xid / 65536) % 256) as u8 && b@[2] == ((p.xid / 256) % 256) as u8
            && b@[3] == (p.xid % 256) as u8,
{
    let mut msg = dhcproto::v6::Message::new_with_id(p.msg_type.into(), [0, 0, 0]);
    msg.set_xid_num(p.xid);
    p.opts.iter().for_each(|o| msg.opts_mut().insert(top_opt_to(o)));
    let mut buf = Vec::new();
    match msg.encode(&mut Encoder::new(&mut buf)) {
        Ok(()) => Some(buf),
        Err(_) => None,
    }
}

/// The code of an option that this library does not read, by dhcproto's
/// `OptionCode::from`, and what dhcproto's `Encodable::to_vec` writes for
/// it; `None` where the encoder reports an error.
#[verifier::external_body]
fn raw_option(o: &DhcpOption) -> Option<(u16, Vec<u8>)> {
    o.to_vec().ok().map(|full| (u16::from(OptionCode::from(o)), full))
}

#[verifier::external_body]
fn sub_opt_from(o: &DhcpOption) -> Option<PrefixSubOpt> {
    match o {
        DhcpOption::StatusCode(s) => {
            let (c, m) = status_from(s);
            Some(PrefixSubOpt::StatusCode(c, m))
        },
        other => raw_option(other).map(|(c, d)| PrefixSubOpt::Unknown(c, d)),
    }
}

#[verifier::external_body]
fn iapd_opt_from(o: &DhcpOption) -> Option<IaPdOpt> {
    match o {
        DhcpOption::StatusCode(s) => {
            let (c, m) = status_from(s);
            Some(IaPdOpt::StatusCode(c, m))
        },
        DhcpOption::IAPrefix(x) => prefix_from(x).map(IaPdOpt::IaPrefix),
        other => raw_option(other).map(|(c, d)| IaPdOpt::Unknown(c, d)),
    }
}

#[verifier::external_body]
fn prefix_from(x: &IAPrefix) -> Option<IaPrefix> {
    let opts: Option<Vec<PrefixSubOpt>> = x.opts.iter().map(sub_opt_from).collect();
    opts.map(|opts| IaPrefix {
        preferred_lifetime: x.preferred_lifetime,
        valid_lifetime: x.valid_lifetime,
        prefix_len: x.prefix_len,
        prefix_ip: u128::from(x.prefix_ip),
        opts,
    })
}

#[verifier::external_body]
fn status_from(s: &StatusCode) -> (u16, String) {
    (u16::from(s.status), s.msg.clone())
}

#[verifier::external_body]
fn oro_from(oro: &ORO) -> Vec<u16> {
    oro.opts.iter().map(|c| u16::from(*c)).collect()
}

#[verifier::external_body]
fn iapd_from(pd: &IAPD) -> Option<IaPd> {
    let opts: Option<Vec<IaPdOpt>> = pd.opts.iter().map(iapd_opt_from).collect();
    opts.map(|opts| IaPd { id: pd.id, t1: pd.t1, t2: pd.t2, opts })
}

#[verifier::external_body]
fn top_opt_from(o: &DhcpOption) -> Option<V6Opt> {
    match o {
        DhcpOption::ClientId(id) => Some(V6Opt::ClientId(id.clone())),
        DhcpOption::ServerId(id) => Some(V6Opt::ServerId(id.clone())),
        DhcpOption::ORO(oro) => Some(V6Opt::Oro(oro_from(oro))),
        DhcpOption::ElapsedTime(t) => Some(V6Opt::ElapsedTime(*t)),
        DhcpOption::StatusCode(s) => {
            let (c, m) = status_from(s);
            Some(V6Opt::StatusCode(c, m))
        },
        DhcpOption::IAPD(pd) => iapd_from(pd).map(V6Opt::IaPd),
        other => raw_option(other).map(|(c, d)| V6Opt::Unknown(c, d)),
    }
}

#[verifier::external_body]
fn sub_opt_to(o: &PrefixSubOpt) -> DhcpOption {
    match o {
        PrefixSubOpt::StatusCode(c, m) => DhcpOption::StatusCode(status_to(*c, m)),
        PrefixSubOpt::Unknown(c, d) => DhcpOption::Unknown(UnknownOption::new(OptionCode::from(*c), d.clone())),
    }
}

#[verifier::external_body]
fn iapd_opt_to(o: &IaPdOpt) -> DhcpOption {
    match o {
        IaPdOpt::StatusCode(c, m) => DhcpOption::StatusCode(status_to(*c, m)),
        IaPdOpt::IaPrefix(x) => DhcpOption::IAPrefix(IAPrefix {
            preferred_lifetime: x.preferred_lifetime,
            valid_lifetime: x.valid_lifetime,
            prefix_len: x.prefix_len,
            prefix_ip: x.prefix_ip.into(),
            opts: x.opts.iter().map(sub_opt_to).collect(),
        }),
        IaPdOpt::Unknown(c, d) => DhcpOption::Unknown(UnknownOption::new(OptionCode::from(*c), d.clone())),
    }
}

#[verifier::external_body]
fn status_to(c: u16, m: &String) -> StatusCode {
    StatusCode { status: Status::from(c), msg: m.clone() }
}

#[verifier::external_body]
fn oro_to(codes: &Vec<u16>) -> ORO {
    ORO { opts: codes.iter().map(|c| OptionCode::from(*c)).collect() }
}

#[verifier::external_body]
fn iapd_to(pd: &IaPd) -> IAPD {
    IAPD { id: pd.id, t1: pd.t1, t2: pd.t2, opts: pd.opts.iter().map(iapd_opt_to).collect() }
}

#[verifier::external_body]
fn top_opt_to(o: &V6Opt) -> DhcpOption {
    match o {
        V6Opt::ClientId(id) => DhcpOption::ClientId(id.clone()),
        V6Opt::ServerId(id) => DhcpOption::ServerId(id.clone()),
        V6Opt::Oro(codes) => DhcpOption::ORO(oro_to(codes)),
        V6Opt::ElapsedTime(t) => DhcpOption::ElapsedTime(*t),
        V6Opt::StatusCode(c, m) => DhcpOption::StatusCode(status_to(*c, m)),
        V6Opt::IaPd(pd) => DhcpOption::IAPD(iapd_to(pd)),
        V6Opt::Unknown(c, d) => DhcpOption::Unknown(UnknownOption::new(OptionCode::from(*c), d.clone())),
    }
}

} // verus!
