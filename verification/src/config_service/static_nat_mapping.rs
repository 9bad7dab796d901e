//! Static NAT port mappings: the items a configuration stands for, the items
//! to delete and to add when the configurations change, and the default
//! mappings of a fresh router.
use crate::net::IpAddress;
use std::collections::HashMap;
use vstd::prelude::*;
use vstd::std_specs::hash::{group_hash_axioms, obeys_key_model, builds_valid_hashers};
use vstd::string::StringExecFns;

verus! {

broadcast use group_hash_axioms;

/// The UDP protocol number.
pub const IPPROTO_UDP: u8 = 17;
/// The port the DHCPv4 client listens on.
pub const LANDSCAPE_DEFAULE_DHCP_V4_CLIENT_PORT: u16 = 68;
/// The port the DHCPv6 client listens on.
pub const LANDSCAPE_DEFAULE_DHCP_V6_CLIENT_PORT: u16 = 546;

#[derive(Clone, Copy, PartialEq, Eq, Structural, Debug)]
pub struct StaticMapPair {
    pub wan_port: u16,
    pub lan_port: u16,
}

/// A static mapping rule: WAN ports forwarded to LAN ports of an IPv4 and/or
/// IPv6 LAN address, for the listed transport protocols of each family.
pub struct StaticNatMappingConfig {
    pub mapping_pair_ports: Vec<StaticMapPair>,
    pub wan_iface_name: Option<String>,
    pub lan_ipv4: Option<u32>,
    pub lan_ipv6: Option<u128>,
    pub ipv4_l4_protocol: Vec<u8>,
    pub ipv6_l4_protocol: Vec<u8>,
    pub id: u128,
    pub enable: bool,
    pub remark: String,
}

/// One installed mapping: a WAN port of an interface (any interface when
/// none is named) to a LAN address and port, for one protocol.
pub struct StaticNatMappingItem {
    pub wan_port: u16,
    pub lan_port: u16,
    pub lan_ip: IpAddress,
    pub l4_protocol: u8,
    pub wan_iface_name: Option<String>,
}

/// An item as a value: the fields, the interface name by its text.
pub type ItemView = (u16, u16, IpAddress, u8, Option<Seq<char>>);

pub open spec fn name_view(n: Option<String>) -> Option<Seq<char>> {
    match n {
        Some(s) => Some(s@),
        None => None,
    }
}

pub open spec fn item_view(i: StaticNatMappingItem) -> ItemView {
    (i.wan_port, i.lan_port, i.lan_ip, i.l4_protocol, name_view(i.wan_iface_name))
}

pub open spec fn items_view(s: Seq<StaticNatMappingItem>) -> Seq<ItemView> {
    s.map_values(|i: StaticNatMappingItem| item_view(i))
}

/// The items of one port pair for one address and its protocols.
pub open spec fn family_items(p: StaticMapPair, ip: IpAddress, protos: Seq<u8>, name: Option<Seq<char>>) -> Seq<ItemView> {
    protos.map_values(|proto: u8| (p.wan_port, p.lan_port, ip, proto, name))
}

/// The items of one port pair: the IPv4 ones, then the IPv6 ones.
pub open spec fn pair_items(c: StaticNatMappingConfig, p: StaticMapPair) -> Seq<ItemView> {
    (match c.lan_ipv4 {
        Some(a) => family_items(p, IpAddress::V4(a), c.ipv4_l4_protocol@, name_view(c.wan_iface_name)),
        None => Seq::empty(),
    }) + (match c.lan_ipv6 {
        Some(a) => family_items(p, IpAddress::V6(a), c.ipv6_l4_protocol@, name_view(c.wan_iface_name)),
        None => Seq::empty(),
    })
}

pub open spec fn pairs_items(c: StaticNatMappingConfig, pairs: Seq<StaticMapPair>) -> Seq<ItemView>
    decreases pairs.len(),
{
    if pairs.len() == 0 {
        Seq::empty()
    } else {
        pairs_items(c, pairs.drop_last()) + pair_items(c, pairs.last())
    }
}

/// The items a rule stands for: for each port pair, each IPv4 protocol with
/// the IPv4 LAN address and each IPv6 protocol with the IPv6 LAN address.
pub open spec fn config_items(c: StaticNatMappingConfig) -> Seq<ItemView> {
    pairs_items(c, c.mapping_pair_ports@)
}

/// The items of the enabled rules of a list, in order.
pub open spec fn enabled_items(rules: Seq<StaticNatMappingConfig>) -> Seq<ItemView>
    decreases rules.len(),
{
    if rules.len() == 0 {
        Seq::empty()
    } else {
        enabled_items(rules.drop_last()) + if rules.last().enable {
            config_items(rules.last())
        } else {
            Seq::empty()
        }
    }
}

/// Whether `v` is an item that rule `c` stands for on port pair `p`: the
/// pair's ports, the rule's interface, and either the IPv4 LAN address with
/// one of the IPv4 protocols or the IPv6 LAN address with one of the IPv6
/// protocols.
pub open spec fn maps_pair(c: StaticNatMappingConfig, p: StaticMapPair, v: ItemView) -> bool {
    &&& v.0 == p.wan_port
    &&& v.1 == p.lan_port
    &&& v.4 == name_view(c.wan_iface_name)
    &&& {
        ||| (c.lan_ipv4 matches Some(a) && v.2 == IpAddress::V4(a) && c.ipv4_l4_protocol@.contains(v.3))
        ||| (c.lan_ipv6 matches Some(a) && v.2 == IpAddress::V6(a) && c.ipv6_l4_protocol@.contains(v.3))
    }
}

/// The number of items a rule gives per port pair: its IPv4 protocols when
/// it has an IPv4 LAN address, plus its IPv6 protocols when it has an IPv6
/// one.
pub open spec fn items_per_pair(c: StaticNatMappingConfig) -> int {
    (if c.lan_ipv4 is Some {
        c.ipv4_l4_protocol@.len() as int
    } else {
        0
    }) + (if c.lan_ipv6 is Some {
        c.ipv6_l4_protocol@.len() as int
    } else {
        0
    })
}

proof fn lemma_concat_contains<T>(a: Seq<T>, b: Seq<T>, v: T)
    ensures
        (a + b).contains(v) <==> a.contains(v) || b.contains(v),
{
    if (a + b).contains(v) {
        let i = choose|i: int| 0 <= i < (a + b).len() && (a + b)[i] == v;
        if i < a.len() {
            assert(a[i] == v);
        } else {
            assert(b[i - a.len()] == v);
        }
    }
    if a.contains(v) {
        let i = choose|i: int| 0 <= i < a.len() && a[i] == v;
        assert((a + b)[i] == v);
    }
    if b.contains(v) {
        let i = choose|i: int| 0 <= i < b.len() && b[i] == v;
        assert((a + b)[a.len() + i] == v);
    }
}

proof fn lemma_family_contains(p: StaticMapPair, ip: IpAddress, protos: Seq<u8>, name: Option<Seq<char>>, v: ItemView)
    ensures
        family_items(p, ip, protos, name).contains(v) <==> (v.0 == p.wan_port && v.1 == p.lan_port && v.2 == ip
            && v.4 == name && protos.contains(v.3)),
        family_items(p, ip, protos, name).len() == protos.len(),
{
    let f = family_items(p, ip, protos, name);
    if f.contains(v) {
        let i = choose|i: int| 0 <= i < f.len() && f[i] == v;
        assert(protos[i] == v.3);
    }
    if v.0 == p.wan_port && v.1 == p.lan_port && v.2 == ip && v.4 == name && protos.contains(v.3) {
        let i = choose|i: int| 0 <= i < protos.len() && protos[i] == v.3;
        assert(f[i] == v);
    }
}

proof fn lemma_pair_items(c: StaticNatMappingConfig, p: StaticMapPair, v: ItemView)
    ensures
        pair_items(c, p).contains(v) <==> maps_pair(c, p, v),
        pair_items(c, p).len() == items_per_pair(c),
{
    let n = name_view(c.wan_iface_name);
    let a4 = match c.lan_ipv4 {
        Some(a) => family_items(p, IpAddress::V4(a), c.ipv4_l4_protocol@, n),
        None => Seq::empty(),
    };
    let a6 = match c.lan_ipv6 {
        Some(a) => family_items(p, IpAddress::V6(a), c.ipv6_l4_protocol@, n),
        None => Seq::empty(),
    };
    lemma_concat_contains(a4, a6, v);
    if let Some(a) = c.lan_ipv4 {
        lemma_family_contains(p, IpAddress::V4(a), c.ipv4_l4_protocol@, n, v);
    }
    if let Some(a) = c.lan_ipv6 {
        lemma_family_contains(p, IpAddress::V6(a), c.ipv6_l4_protocol@, n, v);
    }
}

proof fn lemma_pairs_items(c: StaticNatMappingConfig, pairs: Seq<StaticMapPair>, v: ItemView)
    ensures
        pairs_items(c, pairs).contains(v) <==> exists|k: int| 0 <= k < pairs.len() && maps_pair(c, #[trigger] pairs[k], v),
        pairs_items(c, pairs).len() == pairs.len() * items_per_pair(c),
    decreases pairs.len(),
{
    if pairs.len() > 0 {
        let pre = pairs.drop_last();
        lemma_pairs_items(c, pre, v);
        lemma_pair_items(c, pairs.last(), v);
        lemma_concat_contains(pairs_items(c, pre), pair_items(c, pairs.last()), v);
        if exists|k: int| 0 <= k < pairs.len() && maps_pair(c, #[trigger] pairs[k], v) {
            let k = choose|k: int| 0 <= k < pairs.len() && maps_pair(c, #[trigger] pairs[k], v);
            if k < pre.len() {
                assert(pre[k] == pairs[k]);
            }
        }
        if exists|k: int| 0 <= k < pre.len() && maps_pair(c, #[trigger] pre[k], v) {
            let k = choose|k: int| 0 <= k < pre.len() && maps_pair(c, #[trigger] pre[k], v);
            assert(pairs[k] == pre[k]);
        }
        let n = pairs.len() as int;
        let m = items_per_pair(c);
        assert((n - 1) * m + m == n * m) by (nonlinear_arith);
    }
}

/// The items of a rule are exactly those it stands for on one of its port
/// pairs (`maps_pair`): each IPv4 protocol goes with the IPv4 LAN address,
/// each IPv6 protocol with the IPv6 LAN address; and there is one item for
/// each pair and each such protocol.
pub proof fn lemma_rule_items(c: StaticNatMappingConfig, v: ItemView)
    ensures
        config_items(c).contains(v) <==> exists|k: int|
            0 <= k < c.mapping_pair_ports@.len() && maps_pair(c, #[trigger] c.mapping_pair_ports@[k], v),
        config_items(c).len() == c.mapping_pair_ports@.len() * items_per_pair(c),
{
    lemma_pairs_items(c, c.mapping_pair_ports@, v);
}

/// The items of the enabled rules of two lists one after the other are the
/// items of each list one after the other.
pub proof fn lemma_enabled_items_piecewise(a: Seq<StaticNatMappingConfig>, b: Seq<StaticNatMappingConfig>)
    ensures
        enabled_items(a + b) == enabled_items(a) + enabled_items(b),
    decreases b.len(),
{
    if b.len() == 0 {
        assert(a + b =~= a);
        assert(enabled_items(a) + enabled_items(b) =~= enabled_items(a));
    } else {
        lemma_enabled_items_piecewise(a, b.drop_last());
        assert((a + b).drop_last() =~= a + b.drop_last());
        assert((a + b).last() == b.last());
        let tail = if b.last().enable {
            config_items(b.last())
        } else {
            Seq::empty()
        };
        assert(enabled_items(a) + enabled_items(b.drop_last()) + tail =~= enabled_items(a) + (enabled_items(
            b.drop_last(),
        ) + tail));
    }
}

/// One rule gives its items when enabled, none when not.
pub proof fn lemma_one_rule_items(c: StaticNatMappingConfig)
    ensures
        enabled_items(seq![c]) == if c.enable {
            config_items(c)
        } else {
            Seq::empty()
        },
{
    assert(seq![c].drop_last() =~= Seq::<StaticNatMappingConfig>::empty());
    assert(seq![c].last() == c);
    assert(enabled_items(seq![c].drop_last()) =~= Seq::<ItemView>::empty());
    assert(Seq::<ItemView>::empty() + config_items(c) =~= config_items(c));
    assert(Seq::<ItemView>::empty() + Seq::<ItemView>::empty() =~= Seq::<ItemView>::empty());
}

fn copy_name(n: &Option<String>) -> (r: Option<String>)
    ensures
        name_view(r) == name_view(*n),
{
    match n {
        Some(s) => Some(s.clone()),
        None => None,
    }
}

fn push_family(out: &mut Vec<StaticNatMappingItem>, p: StaticMapPair, ip: IpAddress, protos: &Vec<u8>, name: &Option<String>)
    ensures
        items_view(final(out)@) == items_view(old(out)@) + family_items(p, ip, protos@, name_view(*name)),
{
    let ghost start = items_view(out@);
    let mut i: usize = 0;
    while i < protos.len()
        invariant
            i <= protos.len(),
            items_view(out@) == start + family_items(p, ip, protos@.take(i as int), name_view(*name)),
        decreases protos.len() - i,
    {
        let ghost prev = out@;
        let item = StaticNatMappingItem {
            wan_port: p.wan_port,
            lan_port: p.lan_port,
            lan_ip: ip,
            l4_protocol: protos[i],
            wan_iface_name: copy_name(name),
        };
        out.push(item);
        proof {
            assert(protos@.take(i + 1) =~= protos@.take(i as int).push(protos@[i as int]));
            assert(items_view(out@) =~= items_view(prev).push(item_view(item)));
            assert(family_items(p, ip, protos@.take(i + 1), name_view(*name)) =~= family_items(
                p,
                ip,
                protos@.take(i as int),
                name_view(*name),
            ).push(item_view(item)));
            assert(items_view(out@) =~= start + family_items(p, ip, protos@.take(i + 1), name_view(*name)));
        }
        i = i + 1;
    }
    assert(protos@.take(protos.len() as int) =~= protos@);
}

impl StaticNatMappingConfig {
    /// The items this rule stands for.
    pub fn convert_to_item(&self) -> (r: Vec<StaticNatMappingItem>)
        ensures
            items_view(r@) == config_items(*self),
    {
        let mut out: Vec<StaticNatMappingItem> = Vec::new();
        let mut k: usize = 0;
        assert(items_view(out@) =~= Seq::<ItemView>::empty());
        while k < self.mapping_pair_ports.len()
            invariant
                k <= self.mapping_pair_ports.len(),
                items_view(out@) == pairs_items(*self, self.mapping_pair_ports@.take(k as int)),
            decreases self.mapping_pair_ports.len() - k,
        {
            let p = self.mapping_pair_ports[k];
            let ghost before = items_view(out@);
            match self.lan_ipv4 {
                Some(a) => push_family(&mut out, p, IpAddress::V4(a), &self.ipv4_l4_protocol, &self.wan_iface_name),
                None => {},
            }
            match self.lan_ipv6 {
                Some(a) => push_family(&mut out, p, IpAddress::V6(a), &self.ipv6_l4_protocol, &self.wan_iface_name),
                None => {},
            }
            proof {
                let t = self.mapping_pair_ports@.take(k + 1);
                assert(t.drop_last() =~= self.mapping_pair_ports@.take(k as int));
                assert(t.last() == p);
                assert(items_view(out@) =~= before + pair_items(*self, p));
            }
            k = k + 1;
        }
        assert(self.mapping_pair_ports@.take(self.mapping_pair_ports.len() as int) =~= self.mapping_pair_ports@);
        out
    }
}

/// The items of the enabled rules.
pub fn collect_enabled_items(rules: &Vec<StaticNatMappingConfig>) -> (r: Vec<StaticNatMappingItem>)
    ensures
        items_view(r@) == enabled_items(rules@),
{
    let mut out: Vec<StaticNatMappingItem> = Vec::new();
    let mut i: usize = 0;
    assert(items_view(out@) =~= Seq::<ItemView>::empty());
    while i < rules.len()
        invariant
            i <= rules.len(),
            items_view(out@) == enabled_items(rules@.take(i as int)),
        decreases rules.len() - i,
    {
        let ghost before = items_view(out@);
        if rules[i].enable {
            let mut items = rules[i].convert_to_item();
            let ghost iv = items_view(items@);
            out.append(&mut items);
            assert(items_view(out@) =~= before + iv);
        } else {
            assert(items_view(out@) =~= before + Seq::<ItemView>::empty());
        }
        proof {
            let t = rules@.take(i + 1);
            assert(t.drop_last() =~= rules@.take(i as int));
            assert(t.last() == rules@[i as int]);
        }
        i = i + 1;
    }
    assert(rules@.take(rules.len() as int) =~= rules@);
    out
}

fn names_eq(a: &Option<String>, b: &Option<String>) -> (r: bool)
    ensures
        r == (name_view(*a) == name_view(*b)),
{
    match (a, b) {
        (Some(x), Some(y)) => *x == *y,
        (None, None) => true,
        _ => false,
    }
}

fn items_eq(a: &StaticNatMappingItem, b: &StaticNatMappingItem) -> (r: bool)
    ensures
        r == (item_view(*a) == item_view(*b)),
{
    a.wan_port == b.wan_port && a.lan_port == b.lan_port && a.lan_ip == b.lan_ip && a.l4_protocol == b.l4_protocol
        && names_eq(&a.wan_iface_name, &b.wan_iface_name)
}

fn contains_item(s: &Vec<StaticNatMappingItem>, x: &StaticNatMappingItem) -> (r: bool)
    ensures
        r == items_view(s@).contains(item_view(*x)),
{
    let mut i: usize = 0;
    while i < s.len()
        invariant
            i <= s.len(),
            forall|j: int| 0 <= j < i ==> item_view(s@[j]) != item_view(*x),
        decreases s.len() - i,
    {
        if items_eq(&s[i], x) {
            assert(items_view(s@)[i as int] == item_view(*x));
            return true;
        }
        i = i + 1;
    }
    assert forall|j: int| 0 <= j < items_view(s@).len() implies items_view(s@)[j] != item_view(*x) by {
        assert(items_view(s@)[j] == item_view(s@[j]));
    }
    false
}

fn copy_item(x: &StaticNatMappingItem) -> (r: StaticNatMappingItem)
    ensures
        item_view(r) == item_view(*x),
{
    StaticNatMappingItem {
        wan_port: x.wan_port,
        lan_port: x.lan_port,
        lan_ip: x.lan_ip,
        l4_protocol: x.l4_protocol,
        wan_iface_name: copy_name(&x.wan_iface_name),
    }
}

pub open spec fn no_duplicates(s: Seq<ItemView>) -> bool {
    forall|i: int, j: int| 0 <= i < j < s.len() ==> s[i] != s[j]
}

/// The items of `a` that `b` lacks, each once.
fn difference(a: &Vec<StaticNatMappingItem>, b: &Vec<StaticNatMappingItem>) -> (r: Vec<StaticNatMappingItem>)
    ensures
        items_view(r@).to_set() == items_view(a@).to_set().difference(items_view(b@).to_set()),
        no_duplicates(items_view(r@)),
{
    let mut out: Vec<StaticNatMappingItem> = Vec::new();
    let mut i: usize = 0;
    while i < a.len()
        invariant
            i <= a.len(),
            forall|v: ItemView| #[trigger] items_view(out@).contains(v) <==> (items_view(a@.take(i as int)).contains(v)
                && !items_view(b@).contains(v)),
            no_duplicates(items_view(out@)),
        decreases a.len() - i,
    {
        let ghost before = items_view(out@);
        let x = &a[i];
        let in_b = contains_item(b, x);
        let in_out = contains_item(&out, x);
        let pushed = !in_b && !in_out;
        if pushed {
            out.push(copy_item(x));
            assert(items_view(out@) =~= before.push(item_view(*x)));
        }
        proof {
            let xv = item_view(*x);
            assert(xv == item_view(a@[i as int]));
            assert(pushed ==> items_view(out@) == before.push(xv));
            assert(!pushed ==> items_view(out@) == before);
            assert(in_b == items_view(b@).contains(xv));
            assert(in_out == before.contains(xv));
            if pushed {
                assert forall|k: int, l: int| 0 <= k < l < items_view(out@).len() implies items_view(out@)[k] != items_view(out@)[l] by {
                    if l == before.len() {
                        assert(before[k] == items_view(out@)[k]);
                        if before[k] == xv {
                            assert(before.contains(xv));
                        }
                    } else {
                        assert(before[k] == items_view(out@)[k]);
                        assert(before[l] == items_view(out@)[l]);
                    }
                }
            }
            let at = items_view(a@.take(i + 1));
            assert(at =~= items_view(a@.take(i as int)).push(item_view(a@[i as int])));
            assert forall|v: ItemView| #[trigger] items_view(out@).contains(v) <==> (at.contains(v)
                && !items_view(b@).contains(v)) by {
                if v == item_view(a@[i as int]) {
                    assert(at[i as int] == v);
                }
                if items_view(a@.take(i as int)).contains(v) {
                    let k = choose|k: int| 0 <= k < i && items_view(a@.take(i as int))[k] == v;
                    assert(at[k] == v);
                }
                if at.contains(v) && v != item_view(a@[i as int]) {
                    let k = choose|k: int| 0 <= k < at.len() && at[k] == v;
                    assert(items_view(a@.take(i as int))[k] == v);
                }
                if items_view(out@).contains(v) && !before.contains(v) {
                    let k = choose|k: int| 0 <= k < items_view(out@).len() && items_view(out@)[k] == v;
                    if k < before.len() {
                        assert(before[k] == v);
                    }
                }
                if before.contains(v) {
                    let k = choose|k: int| 0 <= k < before.len() && before[k] == v;
                    assert(items_view(out@)[k] == v);
                }
                assert(before.contains(v) <==> (items_view(a@.take(i as int)).contains(v) && !items_view(b@).contains(v)));
                if v != xv {
                    assert(items_view(out@).contains(v) <==> before.contains(v));
                    assert(at.contains(v) <==> items_view(a@.take(i as int)).contains(v));
                } else {
                    assert(at.contains(v));
                    if pushed {
                        assert(items_view(out@)[before.len() as int] == xv);
                    }
                }
            }
        }
        i = i + 1;
    }
    assert(a@.take(a.len() as int) =~= a@);
    assert(items_view(out@).to_set() =~= items_view(a@).to_set().difference(items_view(b@).to_set()));
    out
}

/// The mapping items to remove and to install when the rules change from
/// `old_rules` to `rules`: the items of the old enabled rules that the new
/// ones lack, and the items of the new enabled rules that the old ones
/// lacked, each once.
pub fn update_mapping_rules(rules: &Vec<StaticNatMappingConfig>, old_rules: &Vec<StaticNatMappingConfig>) -> (r: (
    Vec<StaticNatMappingItem>,
    Vec<StaticNatMappingItem>,
))
    ensures
        items_view(r.0@).to_set() == enabled_items(old_rules@).to_set().difference(enabled_items(rules@).to_set()),
        items_view(r.1@).to_set() == enabled_items(rules@).to_set().difference(enabled_items(old_rules@).to_set()),
        no_duplicates(items_view(r.0@)),
        no_duplicates(items_view(r.1@)),
{
    let new_items = collect_enabled_items(rules);
    let old_items = collect_enabled_items(old_rules);
    let to_delete = difference(&old_items, &new_items);
    let to_add = difference(&new_items, &old_items);
    (to_delete, to_add)
}

/// Applying the change leaves exactly the items of the new enabled rules
/// installed: the old items less the deleted ones, plus the added ones.
pub proof fn lemma_mapping_update_reaches_new_rules(old_items: Set<ItemView>, new_items: Set<ItemView>)
    ensures
        old_items.difference(old_items.difference(new_items)).union(new_items.difference(old_items)) == new_items,
{
    assert(old_items.difference(old_items.difference(new_items)).union(new_items.difference(old_items)) =~= new_items);
}

/// Rules that did not change ask for nothing: no item is removed and none
/// is added.
pub proof fn lemma_mapping_update_unchanged(items: Set<ItemView>)
    ensures
        items.difference(items) == Set::<ItemView>::empty(),
{
    assert(items.difference(items) =~= Set::<ItemView>::empty());
}

/// The enabled rules by id; of two rules with one id the later wins.
pub fn mapping_rule_into_hash(mappings: Vec<StaticNatMappingConfig>) -> (r: HashMap<u128, StaticNatMappingConfig>)
    ensures
        forall|id: u128| #[trigger] r@.contains_key(id) <==> exists|i: int| 0 <= i < mappings.len() && mappings@[i].enable && mappings@[i].id == id,
        forall|id: u128| #[trigger] r@.contains_key(id) ==> exists|i: int|
            0 <= i < mappings.len() && r@[id] == mappings@[i] && mappings@[i].enable && mappings@[i].id == id
                && forall|j: int| i < j < mappings.len() && mappings@[j].enable ==> mappings@[j].id != id,
{
    assert(obeys_key_model::<u128>() && builds_valid_hashers::<std::collections::hash_map::RandomState>());
    let ghost input = mappings@;
    let len0 = mappings.len();
    assert(input.len() == len0);
    let mut result: HashMap<u128, StaticNatMappingConfig> = HashMap::new();
    let mut rest = mappings;
    let mut rev: Vec<StaticNatMappingConfig> = Vec::new();
    while rest.len() > 0
        invariant
            rev@ + rest@.reverse() =~= input.reverse(),
        decreases rest.len(),
    {
        let x = rest.pop().unwrap();
        rev.push(x);
        proof {
            assert(rest@.push(x).reverse() =~= seq![x] + rest@.reverse());
        }
    }
    let ghost n = input.len();
    let mut i: usize = 0;
    assert(rev@ =~= input.reverse());
    while rev.len() > 0
        invariant
            rev@.len() + i == n,
            n == input.len(),
            n <= usize::MAX,
            forall|j: int| 0 <= j < rev@.len() ==> rev@[j] == input[n - 1 - j],
            forall|id: u128| #[trigger] result@.contains_key(id) <==> exists|k: int| 0 <= k < i && input[k].enable && input[k].id == id,
            forall|id: u128| #[trigger] result@.contains_key(id) ==> exists|k: int|
                0 <= k < i && result@[id] == input[k] && input[k].enable && input[k].id == id
                    && forall|j: int| k < j < i && input[j].enable ==> input[j].id != id,
        decreases rev.len(),
    {
        let m = rev.pop().unwrap();
        assert(m == input[i as int]);
        if m.enable {
            let id = m.id;
            result.insert(id, m);
        }
        proof {
            assert forall|id: u128| #[trigger] result@.contains_key(id) implies exists|k: int|
                0 <= k < i + 1 && result@[id] == input[k] && input[k].enable && input[k].id == id
                    && forall|j: int| k < j < i + 1 && input[j].enable ==> input[j].id != id by {
                if input[i as int].enable && input[i as int].id == id {
                    assert(result@[id] == input[i as int]);
                } else {
                    let k = choose|k: int|
                        0 <= k < i && result@[id] == input[k] && input[k].enable && input[k].id == id
                            && forall|j: int| k < j < i && input[j].enable ==> input[j].id != id;
                    assert(forall|j: int| k < j < i + 1 && input[j].enable ==> input[j].id != id);
                }
            }
        }
        i = i + 1;
    }
    result
}

/// The mappings a fresh router starts with, under two ids: the DHCPv4
/// client port (UDP 68 on any IPv4 LAN address) and the DHCPv6 client port
/// (UDP 546 on any IPv6 LAN address), both enabled.
pub open spec fn is_default_mappings(r: Seq<StaticNatMappingConfig>, v4_id: u128, v6_id: u128) -> bool {
    &&& r.len() == 2
    &&& r[0].mapping_pair_ports@ == seq![StaticMapPair { wan_port: LANDSCAPE_DEFAULE_DHCP_V4_CLIENT_PORT, lan_port: LANDSCAPE_DEFAULE_DHCP_V4_CLIENT_PORT }]
    &&& r[0].wan_iface_name is None
    &&& r[0].lan_ipv4 == Some(0u32)
    &&& r[0].lan_ipv6 is None
    &&& r[0].ipv4_l4_protocol@ == seq![IPPROTO_UDP]
    &&& r[0].ipv6_l4_protocol@.len() == 0
    &&& r[0].id == v4_id
    &&& r[0].enable
    &&& r[0].remark@ == "Default DHCPv4 Client Port"@
    &&& r[1].mapping_pair_ports@ == seq![StaticMapPair { wan_port: LANDSCAPE_DEFAULE_DHCP_V6_CLIENT_PORT, lan_port: LANDSCAPE_DEFAULE_DHCP_V6_CLIENT_PORT }]
    &&& r[1].wan_iface_name is None
    &&& r[1].lan_ipv4 is None
    &&& r[1].lan_ipv6 == Some(0u128)
    &&& r[1].ipv4_l4_protocol@.len() == 0
    &&& r[1].ipv6_l4_protocol@ == seq![IPPROTO_UDP]
    &&& r[1].id == v6_id
    &&& r[1].enable
    &&& r[1].remark@ == "Default DHCPv6 Client Port"@
}

/// The default mappings under the ids given.
pub fn default_static_mapping_rule(v4_id: u128, v6_id: u128) -> (r: Vec<StaticNatMappingConfig>)
    ensures
        is_default_mappings(r@, v4_id, v6_id),
{
    let mut result: Vec<StaticNatMappingConfig> = Vec::with_capacity(5);
    let mut v4_pairs: Vec<StaticMapPair> = Vec::new();
    v4_pairs.push(StaticMapPair { wan_port: LANDSCAPE_DEFAULE_DHCP_V4_CLIENT_PORT, lan_port: LANDSCAPE_DEFAULE_DHCP_V4_CLIENT_PORT });
    let mut v4_protos: Vec<u8> = Vec::new();
    v4_protos.push(IPPROTO_UDP);
    result.push(
        StaticNatMappingConfig {
            mapping_pair_ports: v4_pairs,
            wan_iface_name: None,
            lan_ipv4: Some(0),
            lan_ipv6: None,
            ipv4_l4_protocol: v4_protos,
            ipv6_l4_protocol: Vec::new(),
            id: v4_id,
            enable: true,
            remark: String::from_str("Default DHCPv4 Client Port"),
        },
    );
    let mut v6_pairs: Vec<StaticMapPair> = Vec::new();
    v6_pairs.push(StaticMapPair { wan_port: LANDSCAPE_DEFAULE_DHCP_V6_CLIENT_PORT, lan_port: LANDSCAPE_DEFAULE_DHCP_V6_CLIENT_PORT });
    let mut v6_protos: Vec<u8> = Vec::new();
    v6_protos.push(IPPROTO_UDP);
    result.push(
        StaticNatMappingConfig {
            mapping_pair_ports: v6_pairs,
            wan_iface_name: None,
            lan_ipv4: None,
            lan_ipv6: Some(0),
            ipv4_l4_protocol: Vec::new(),
            ipv6_l4_protocol: v6_protos,
            id: v6_id,
            enable: true,
            remark: String::from_str("Default DHCPv6 Client Port"),
        },
    );
    result
}

#[verifier::external_body]
fn new_uuid_v4() -> (r: u128) {
    uuid::Uuid::new_v4().as_u128()
}

/// The default mappings under fresh random (version 4) ids.
pub fn default_static_mapping_rule_with_new_ids() -> (r: Vec<StaticNatMappingConfig>)
    ensures
        is_default_mappings(r@, r@[0].id, r@[1].id),
{
    let v4_id = new_uuid_v4();
    let v6_id = new_uuid_v4();
    default_static_mapping_rule(v4_id, v6_id)
}

} // verus!
