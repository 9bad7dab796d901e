//! Flow-scoped rules: grouping by flow, the ordering of rules, the expansion
//! of destination IP rules and firewall blacklists into addresses through
//! the GeoIP cache, and the cache updates of the GeoIP service.
use crate::config_service::geo_cache::{ascii_upper, cache_lookup, GeoCache, GeoConfigKey, GeoIpConfig, IpConfig};
use crate::sorting::{stable_sort_by_key, stable_sorted, SortKey};
use vstd::prelude::*;
use vstd::string::StringExecFns;

verus! {

// ---------------------------------------------------------------------------
// Grouping by flow.
// ---------------------------------------------------------------------------

/// Configurations that belong to a flow.
pub trait FlowScoped {
    spec fn flow_of(&self) -> u32;

    fn flow_id(&self) -> (r: u32)
        ensures
            r == self.flow_of(),
    ;
}

/// The flows of a list of configurations, each once, in order of first
/// appearance.
pub open spec fn flows_in_order<T: FlowScoped>(s: Seq<T>) -> Seq<u32>
    decreases s.len(),
{
    if s.len() == 0 {
        Seq::empty()
    } else {
        let f = flows_in_order(s.drop_last());
        if f.contains(s.last().flow_of()) {
            f
        } else {
            f.push(s.last().flow_of())
        }
    }
}

/// The configurations of one flow, in order.
pub open spec fn flow_members<T: FlowScoped>(s: Seq<T>, flow: u32) -> Seq<T> {
    s.filter(|x: T| x.flow_of() == flow)
}

proof fn lemma_flows_unique<T: FlowScoped>(s: Seq<T>)
    ensures
        forall|a: int, b: int| 0 <= a < b < flows_in_order(s).len() ==> flows_in_order(s)[a] != flows_in_order(s)[b],
    decreases s.len(),
{
    if s.len() > 0 {
        lemma_flows_unique(s.drop_last());
        let f = flows_in_order(s.drop_last());
        if !f.contains(s.last().flow_of()) {
            assert forall|a: int, b: int| 0 <= a < b < flows_in_order(s).len() implies flows_in_order(s)[a]
                != flows_in_order(s)[b] by {
                if b == f.len() && f[a] == s.last().flow_of() {
                    assert(f.contains(s.last().flow_of()));
                }
            }
        }
    }
}

proof fn lemma_members_empty_when_absent<T: FlowScoped>(s: Seq<T>, flow: u32)
    requires
        !flows_in_order(s).contains(flow),
    ensures
        flow_members(s, flow).len() == 0,
    decreases s.len(),
{
    reveal_with_fuel(Seq::filter, 1);
    if s.len() > 0 {
        let f = flows_in_order(s.drop_last());
        if f.contains(flow) {
            let j = choose|j: int| 0 <= j < f.len() && f[j] == flow;
            if !f.contains(s.last().flow_of()) {
                assert(flows_in_order(s)[j] == flow);
            }
        }
        lemma_members_empty_when_absent(s.drop_last(), flow);
        if s.last().flow_of() == flow {
            if !f.contains(flow) {
                assert(flows_in_order(s)[f.len() as int] == flow);
            }
        }
    }
}

/// Groups configurations by flow: the flows in order of first appearance,
/// each with its configurations in their order.
pub fn group_by_flow<T: FlowScoped>(items: Vec<T>) -> (r: (Vec<u32>, Vec<Vec<T>>))
    ensures
        r.0@ == flows_in_order(items@),
        r.1.len() == r.0.len(),
        forall|j: int| 0 <= j < r.1.len() ==> (#[trigger] r.1@[j])@ == flow_members(items@, r.0@[j]),
{
    let ghost input = items@;
    let len0 = items.len();
    let mut rest = items;
    let mut rev: Vec<T> = Vec::new();
    while rest.len() > 0
        invariant
            rev@ + rest@.reverse() =~= input.reverse(),
        decreases rest.len(),
    {
        let x = rest.pop().unwrap();
        rev.push(x);
        proof {
            assert(rest@.push(x).reverse() =~= seq![x] + rest@.reverse());
        }
    }
    assert(rev@ =~= input.reverse());
    let ghost n = input.len();
    let mut flows: Vec<u32> = Vec::new();
    let mut groups: Vec<Vec<T>> = Vec::new();
    let mut i: usize = 0;
    while rev.len() > 0
        invariant
            rev@.len() + i == n,
            n == input.len(),
            n == len0,
            forall|j: int| 0 <= j < rev@.len() ==> rev@[j] == input[n - 1 - j],
            flows@ == flows_in_order(input.take(i as int)),
            groups.len() == flows.len(),
            forall|j: int| 0 <= j < groups.len() ==> (#[trigger] groups@[j])@ == flow_members(input.take(i as int), flows@[j]),
        decreases rev.len(),
    {
        let x = rev.pop().unwrap();
        let ghost before = input.take(i as int);
        let ghost after = input.take(i + 1);
        proof {
            assert(x == input[i as int]);
            assert(after.drop_last() =~= before);
            assert(after.last() == x);
            lemma_flows_unique(before);
            reveal_with_fuel(Seq::filter, 1);
        }
        let f = x.flow_id();
        let mut k: usize = 0;
        let mut found = false;
        while !found && k < flows.len()
            invariant
                k <= flows.len(),
                forall|j: int| 0 <= j < k ==> flows@[j] != f,
                found ==> k < flows.len() && flows@[k as int] == f,
            decreases flows.len() - k + if found { 0int } else { 1int },
        {
            if flows[k] == f {
                found = true;
            } else {
                k = k + 1;
            }
        }
        let ghost old_groups = groups@;
        if found {
            let mut g = groups.remove(k);
            g.push(x);
            groups.insert(k, g);
            proof {
                assert(flows_in_order(before).contains(f)) by {
                    assert(flows_in_order(before)[k as int] == f);
                }
                assert forall|j: int| 0 <= j < groups.len() implies (#[trigger] groups@[j])@ == flow_members(after, flows@[j]) by {
                    reveal_with_fuel(Seq::filter, 1);
                    if j != k as int {
                        assert(groups@[j] == old_groups[j]);
                        assert(flows@[j] != f);
                    } else {
                        assert(groups@[j]@ == old_groups[j]@.push(x));
                    }
                }
            }
        } else {
            proof {
                assert(!flows_in_order(before).contains(f)) by {
                    if flows_in_order(before).contains(f) {
                        let j = choose|j: int| 0 <= j < flows@.len() && flows_in_order(before)[j] == f;
                        assert(flows@[j] == f);
                    }
                }
                lemma_members_empty_when_absent(before, f);
            }
            flows.push(f);
            let mut g: Vec<T> = Vec::new();
            g.push(x);
            groups.push(g);
            proof {
                assert forall|j: int| 0 <= j < groups.len() implies (#[trigger] groups@[j])@ == flow_members(after, flows@[j]) by {
                    reveal_with_fuel(Seq::filter, 1);
                    if j < groups.len() - 1 {
                        assert(groups@[j] == old_groups[j]);
                        assert(flows@[j] != f);
                    } else {
                        assert(flow_members(before, f) =~= Seq::<T>::empty());
                        assert(groups@[j]@ =~= seq![x]);
                    }
                }
            }
        }
        i = i + 1;
    }
    assert(input.take(n as int) =~= input);
    (flows, groups)
}

// ---------------------------------------------------------------------------
// Destination IP rules.
// ---------------------------------------------------------------------------

/// Where the addresses of a rule come from.
pub enum WanIPRuleSource {
    GeoKey(GeoConfigKey),
    Config(IpConfig),
}

/// A rule that marks traffic of a flow to destination addresses.
pub struct WanIpRuleConfig {
    pub id: u128,
    pub index: u32,
    pub enable: bool,
    pub mark: u32,
    pub source: Vec<WanIPRuleSource>,
    pub remark: String,
    pub flow_id: u32,
}

/// One address block marked for a flow, with the priority of its rule.
#[derive(Clone, Copy, PartialEq, Eq, Structural, Debug)]
pub struct IpMarkInfo {
    pub mark: u32,
    pub cidr: IpConfig,
    pub priority: u16,
}

impl FlowScoped for WanIpRuleConfig {
    open spec fn flow_of(&self) -> u32 {
        self.flow_id
    }

    fn flow_id(&self) -> (r: u32) {
        self.flow_id
    }
}

/// Destination rules are applied in the order of their index.
impl SortKey for WanIpRuleConfig {
    open spec fn sort_key(&self) -> u64 {
        self.index as u64
    }

    fn get_sort_key(&self) -> (r: u64) {
        self.index as u64
    }
}

/// The address blocks a source stands for.
pub open spec fn source_ips(s: WanIPRuleSource, cache: Seq<GeoIpConfig>) -> Seq<IpConfig> {
    match s {
        WanIPRuleSource::GeoKey(k) => cache_lookup(cache, k.name@, ascii_upper(k.key@)),
        WanIPRuleSource::Config(c) => seq![c],
    }
}

/// The address blocks of a list of sources, in order.
pub open spec fn sources_ips(s: Seq<WanIPRuleSource>, cache: Seq<GeoIpConfig>) -> Seq<IpConfig>
    decreases s.len(),
{
    if s.len() == 0 {
        Seq::empty()
    } else {
        sources_ips(s.drop_last(), cache) + source_ips(s.last(), cache)
    }
}

/// The marks of one rule: each of its address blocks with the rule's mark
/// and, as priority, its index cut to 16 bits.
pub open spec fn rule_marks(r: WanIpRuleConfig, cache: Seq<GeoIpConfig>) -> Seq<IpMarkInfo> {
    sources_ips(r.source@, cache).map_values(|c: IpConfig| IpMarkInfo { mark: r.mark, cidr: c, priority: r.index as u16 })
}

pub open spec fn rules_marks(rules: Seq<WanIpRuleConfig>, cache: Seq<GeoIpConfig>) -> Seq<IpMarkInfo>
    decreases rules.len(),
{
    if rules.len() == 0 {
        Seq::empty()
    } else {
        rules_marks(rules.drop_last(), cache) + rule_marks(rules.last(), cache)
    }
}

fn push_marks(out: &mut Vec<IpMarkInfo>, r: &WanIpRuleConfig, cache: &GeoCache)
    ensures
        final(out)@ == old(out)@ + rule_marks(*r, cache.entries@),
{
    let ghost start = out@;
    let mut i: usize = 0;
    while i < r.source.len()
        invariant
            i <= r.source.len(),
            out@ == start + sources_ips(r.source@.take(i as int), cache.entries@).map_values(
                |c: IpConfig| IpMarkInfo { mark: r.mark, cidr: c, priority: r.index as u16 },
            ),
        decreases r.source.len() - i,
    {
        let ips = match &r.source[i] {
            WanIPRuleSource::GeoKey(k) => cache.lookup(&k.name, &k.key),
            WanIPRuleSource::Config(c) => {
                let mut v: Vec<IpConfig> = Vec::new();
                v.push(*c);
                v
            },
        };
        let ghost before = out@;
        let mut j: usize = 0;
        while j < ips.len()
            invariant
                j <= ips.len(),
                out@ == before + ips@.take(j as int).map_values(
                    |c: IpConfig| IpMarkInfo { mark: r.mark, cidr: c, priority: r.index as u16 },
                ),
            decreases ips.len() - j,
        {
            out.push(IpMarkInfo { mark: r.mark, cidr: ips[j], priority: r.index as u16 });
            assert(ips@.take(j + 1) =~= ips@.take(j as int).push(ips@[j as int]));
            assert(out@ =~= before + ips@.take(j + 1).map_values(
                |c: IpConfig| IpMarkInfo { mark: r.mark, cidr: c, priority: r.index as u16 },
            ));
            j = j + 1;
        }
        proof {
            assert(ips@.take(ips.len() as int) =~= ips@);
            let t = r.source@.take(i + 1);
            assert(t.drop_last() =~= r.source@.take(i as int));
            assert(t.last() == r.source@[i as int]);
            assert(ips@ == source_ips(r.source@[i as int], cache.entries@));
            let f = |c: IpConfig| IpMarkInfo { mark: r.mark, cidr: c, priority: r.index as u16 };
            assert((sources_ips(r.source@.take(i as int), cache.entries@) + ips@).map_values(f) =~= sources_ips(
                r.source@.take(i as int),
                cache.entries@,
            ).map_values(f) + ips@.map_values(f));
            assert(out@ =~= start + sources_ips(t, cache.entries@).map_values(f));
        }
        i = i + 1;
    }
    assert(r.source@.take(r.source.len() as int) =~= r.source@);
}

/// The marks of a list of rules: for each rule in order, each address block
/// its sources stand for (a GeoIP key stands for the cached list of that
/// key, a block for itself) with the rule's mark and index as priority.
pub fn convert_config_to_runtime_rule(configs: &Vec<WanIpRuleConfig>, cache: &GeoCache) -> (r: Vec<IpMarkInfo>)
    ensures
        r@ == rules_marks(configs@, cache.entries@),
{
    let mut out: Vec<IpMarkInfo> = Vec::new();
    let mut i: usize = 0;
    while i < configs.len()
        invariant
            i <= configs.len(),
            out@ == rules_marks(configs@.take(i as int), cache.entries@),
        decreases configs.len() - i,
    {
        push_marks(&mut out, &configs[i], cache);
        proof {
            let t = configs@.take(i + 1);
            assert(t.drop_last() =~= configs@.take(i as int));
            assert(t.last() == configs@[i as int]);
        }
        i = i + 1;
    }
    assert(configs@.take(configs.len() as int) =~= configs@);
    out
}

/// The rules of a flow as they are applied: the enabled ones, by index.
pub open spec fn applied_rules(rules: Seq<WanIpRuleConfig>) -> Seq<WanIpRuleConfig> {
    stable_sorted(rules.filter(|r: WanIpRuleConfig| r.enable))
}

/// Keeps the enabled rules and orders them by index, rules of equal index in
/// their order.
pub fn prepare_flow_rules(rules: Vec<WanIpRuleConfig>) -> (r: Vec<WanIpRuleConfig>)
    ensures
        r@ == applied_rules(rules@),
{
    let ghost input = rules@;
    let ghost pred = |r: WanIpRuleConfig| r.enable;
    let len0 = rules.len();
    let mut rest = rules;
    let mut rev: Vec<WanIpRuleConfig> = Vec::new();
    while rest.len() > 0
        invariant
            rev@ + rest@.reverse() =~= input.reverse(),
        decreases rest.len(),
    {
        let x = rest.pop().unwrap();
        rev.push(x);
        proof {
            assert(rest@.push(x).reverse() =~= seq![x] + rest@.reverse());
        }
    }
    assert(rev@ =~= input.reverse());
    let ghost n = input.len();
    let mut kept: Vec<WanIpRuleConfig> = Vec::new();
    let mut i: usize = 0;
    while rev.len() > 0
        invariant
            rev@.len() + i == n,
            n == input.len(),
            n == len0,
            forall|j: int| 0 <= j < rev@.len() ==> rev@[j] == input[n - 1 - j],
            pred == (|r: WanIpRuleConfig| r.enable),
            kept@ == input.take(i as int).filter(pred),
        decreases rev.len(),
    {
        let x = rev.pop().unwrap();
        proof {
            assert(x == input[i as int]);
            let t = input.take(i + 1);
            assert(t.drop_last() =~= input.take(i as int));
            assert(t.last() == x);
            reveal_with_fuel(Seq::filter, 1);
        }
        let keep = x.enable;
        if keep {
            kept.push(x);
        }
        proof {
            reveal_with_fuel(Seq::filter, 1);
            assert(kept@ == input.take(i + 1).filter(pred));
        }
        i = i + 1;
    }
    assert(input.take(n as int) =~= input);
    stable_sort_by_key(kept)
}

/// What the router installs for one flow: the marks of its enabled rules,
/// by index.
pub fn update_flow_dst_ip_map(rules: Vec<WanIpRuleConfig>, cache: &GeoCache) -> (r: Vec<IpMarkInfo>)
    ensures
        r@ == rules_marks(applied_rules(rules@), cache.entries@),
{
    let applied = prepare_flow_rules(rules);
    convert_config_to_runtime_rule(&applied, cache)
}

/// A change of many destination rules: per flow, in order of first
/// appearance, the flow and the marks to install for it.
pub fn update_many_dst_ip_rules(new_configs: Vec<WanIpRuleConfig>, cache: &GeoCache) -> (r: Vec<(u32, Vec<IpMarkInfo>)>)
    ensures
        r.len() == flows_in_order(new_configs@).len(),
        forall|j: int|
            0 <= j < r.len() ==> (#[trigger] r@[j]).0 == flows_in_order(new_configs@)[j] && r@[j].1@ == rules_marks(
                applied_rules(flow_members(new_configs@, r@[j].0)),
                cache.entries@,
            ),
{
    let (flows, groups) = group_by_flow(new_configs);
    let ghost g0 = groups@;
    let mut groups = groups;
    let mut out: Vec<(u32, Vec<IpMarkInfo>)> = Vec::new();
    let mut rev: Vec<Vec<WanIpRuleConfig>> = Vec::new();
    while groups.len() > 0
        invariant
            rev@ + groups@.reverse() =~= g0.reverse(),
        decreases groups.len(),
    {
        let x = groups.pop().unwrap();
        rev.push(x);
        proof {
            assert(groups@.push(x).reverse() =~= seq![x] + groups@.reverse());
        }
    }
    assert(rev@ =~= g0.reverse());
    let mut i: usize = 0;
    while rev.len() > 0
        invariant
            rev@.len() + i == flows.len(),
            g0.len() == flows.len(),
            flows@ == flows_in_order(new_configs@),
            forall|j: int| 0 <= j < g0.len() ==> (#[trigger] g0[j])@ == flow_members(new_configs@, flows@[j]),
            forall|j: int| 0 <= j < rev@.len() ==> rev@[j] == g0[g0.len() - 1 - j],
            out.len() == i,
            forall|j: int|
                0 <= j < i ==> (#[trigger] out@[j]).0 == flows@[j] && out@[j].1@ == rules_marks(
                    applied_rules(flow_members(new_configs@, out@[j].0)),
                    cache.entries@,
                ),
        decreases rev.len(),
    {
        let g = rev.pop().unwrap();
        assert(g == g0[i as int]);
        let marks = update_flow_dst_ip_map(g, cache);
        out.push((flows[i], marks));
        i = i + 1;
    }
    out
}

// ---------------------------------------------------------------------------
// Firewall blacklists.
// ---------------------------------------------------------------------------

/// Where a blacklist takes its addresses from.
pub enum FirewallBlacklistSource {
    GeoKey(GeoConfigKey),
    Config(IpConfig),
}

pub struct FirewallBlacklistConfig {
    pub id: u128,
    pub enable: bool,
    pub source: Vec<FirewallBlacklistSource>,
    pub remark: String,
}

pub open spec fn blacklist_source_ips(s: FirewallBlacklistSource, cache: Seq<GeoIpConfig>) -> Seq<IpConfig> {
    match s {
        FirewallBlacklistSource::GeoKey(k) => cache_lookup(cache, k.name@, ascii_upper(k.key@)),
        FirewallBlacklistSource::Config(c) => seq![c],
    }
}

pub open spec fn blacklist_sources_ips(s: Seq<FirewallBlacklistSource>, cache: Seq<GeoIpConfig>) -> Seq<IpConfig>
    decreases s.len(),
{
    if s.len() == 0 {
        Seq::empty()
    } else {
        blacklist_sources_ips(s.drop_last(), cache) + blacklist_source_ips(s.last(), cache)
    }
}

/// The blocked addresses of a list of blacklists: the address blocks of the
/// sources of the enabled ones, in order.
pub open spec fn blacklist_ips(configs: Seq<FirewallBlacklistConfig>, cache: Seq<GeoIpConfig>) -> Seq<IpConfig>
    decreases configs.len(),
{
    if configs.len() == 0 {
        Seq::empty()
    } else {
        blacklist_ips(configs.drop_last(), cache) + if configs.last().enable {
            blacklist_sources_ips(configs.last().source@, cache)
        } else {
            Seq::empty()
        }
    }
}

/// Resolving two lists of blacklists one after the other gives the two
/// resolutions one after the other: no blacklist's blocks are dropped,
/// repeated or moved by the ones around it.
pub proof fn lemma_blacklists_resolve_piecewise(a: Seq<FirewallBlacklistConfig>, b: Seq<FirewallBlacklistConfig>, cache: Seq<GeoIpConfig>)
    ensures
        blacklist_ips(a + b, cache) == blacklist_ips(a, cache) + blacklist_ips(b, cache),
    decreases b.len(),
{
    if b.len() == 0 {
        assert(a + b =~= a);
        assert(blacklist_ips(a, cache) + blacklist_ips(b, cache) =~= blacklist_ips(a, cache));
    } else {
        lemma_blacklists_resolve_piecewise(a, b.drop_last(), cache);
        assert((a + b).drop_last() =~= a + b.drop_last());
        assert((a + b).last() == b.last());
        let tail = if b.last().enable {
            blacklist_sources_ips(b.last().source@, cache)
        } else {
            Seq::empty()
        };
        assert(blacklist_ips(a, cache) + blacklist_ips(b.drop_last(), cache) + tail =~= blacklist_ips(a, cache) + (
        blacklist_ips(b.drop_last(), cache) + tail));
    }
}

/// One blacklist resolves to the blocks of its sources when it is enabled,
/// and to none when it is not.
pub proof fn lemma_one_blacklist_resolves(c: FirewallBlacklistConfig, cache: Seq<GeoIpConfig>)
    ensures
        blacklist_ips(seq![c], cache) == if c.enable {
            blacklist_sources_ips(c.source@, cache)
        } else {
            Seq::empty()
        },
{
    assert(seq![c].drop_last() =~= Seq::<FirewallBlacklistConfig>::empty());
    assert(seq![c].last() == c);
    assert(blacklist_ips(seq![c].drop_last(), cache) =~= Seq::<IpConfig>::empty());
    if c.enable {
        assert(Seq::<IpConfig>::empty() + blacklist_sources_ips(c.source@, cache) =~= blacklist_sources_ips(c.source@, cache));
    } else {
        assert(Seq::<IpConfig>::empty() + Seq::<IpConfig>::empty() =~= Seq::<IpConfig>::empty());
    }
}

/// The sources of a blacklist contribute their blocks in order: two runs of
/// sources give their blocks one after the other.
pub proof fn lemma_sources_resolve_piecewise(a: Seq<FirewallBlacklistSource>, b: Seq<FirewallBlacklistSource>, cache: Seq<GeoIpConfig>)
    ensures
        blacklist_sources_ips(a + b, cache) == blacklist_sources_ips(a, cache) + blacklist_sources_ips(b, cache),
    decreases b.len(),
{
    if b.len() == 0 {
        assert(a + b =~= a);
        assert(blacklist_sources_ips(a, cache) + blacklist_sources_ips(b, cache) =~= blacklist_sources_ips(a, cache));
    } else {
        lemma_sources_resolve_piecewise(a, b.drop_last(), cache);
        assert((a + b).drop_last() =~= a + b.drop_last());
        assert((a + b).last() == b.last());
        assert(blacklist_sources_ips(a, cache) + blacklist_sources_ips(b.drop_last(), cache) + blacklist_source_ips(
            b.last(),
            cache,
        ) =~= blacklist_sources_ips(a, cache) + (blacklist_sources_ips(b.drop_last(), cache) + blacklist_source_ips(
            b.last(),
            cache,
        )));
    }
}

/// A plain block is blocked as it is; a GeoIP key stands for the blocks the
/// cache holds under its name and upper-cased key.
pub proof fn lemma_one_source_resolves(s: FirewallBlacklistSource, cache: Seq<GeoIpConfig>)
    ensures
        blacklist_sources_ips(seq![s], cache) == match s {
            FirewallBlacklistSource::Config(c) => seq![c],
            FirewallBlacklistSource::GeoKey(k) => cache_lookup(cache, k.name@, ascii_upper(k.key@)),
        },
{
    assert(seq![s].drop_last() =~= Seq::<FirewallBlacklistSource>::empty());
    assert(seq![s].last() == s);
    assert(blacklist_sources_ips(seq![s].drop_last(), cache) =~= Seq::<IpConfig>::empty());
    assert(Seq::<IpConfig>::empty() + blacklist_source_ips(s, cache) =~= blacklist_source_ips(s, cache));
}

/// Resolves blacklists into the address blocks to block.
pub fn resolve_configs(configs: &Vec<FirewallBlacklistConfig>, cache: &GeoCache) -> (r: Vec<IpConfig>)
    ensures
        r@ == blacklist_ips(configs@, cache.entries@),
{
    let mut out: Vec<IpConfig> = Vec::new();
    let mut i: usize = 0;
    while i < configs.len()
        invariant
            i <= configs.len(),
            out@ == blacklist_ips(configs@.take(i as int), cache.entries@),
        decreases configs.len() - i,
    {
        let c = &configs[i];
        let ghost before = out@;
        if c.enable {
            let mut k: usize = 0;
            while k < c.source.len()
                invariant
                    k <= c.source.len(),
                    out@ == before + blacklist_sources_ips(c.source@.take(k as int), cache.entries@),
                decreases c.source.len() - k,
            {
                let mut ips = match &c.source[k] {
                    FirewallBlacklistSource::GeoKey(g) => cache.lookup(&g.name, &g.key),
                    FirewallBlacklistSource::Config(ip) => {
                        let mut v: Vec<IpConfig> = Vec::new();
                        v.push(*ip);
                        v
                    },
                };
                let ghost iv = ips@;
                out.append(&mut ips);
                proof {
                    let t = c.source@.take(k + 1);
                    assert(t.drop_last() =~= c.source@.take(k as int));
                    assert(t.last() == c.source@[k as int]);
                    assert(out@ =~= before + blacklist_sources_ips(t, cache.entries@));
                }
                k = k + 1;
            }
            assert(c.source@.take(c.source.len() as int) =~= c.source@);
        } else {
            assert(out@ =~= before + Seq::<IpConfig>::empty());
        }
        proof {
            let t = configs@.take(i + 1);
            assert(t.drop_last() =~= configs@.take(i as int));
            assert(t.last() == configs@[i as int]);
        }
        i = i + 1;
    }
    assert(configs@.take(configs.len() as int) =~= configs@);
    out
}

/// What a change of the blacklists hands to the packet filter: the blocked
/// addresses of the new blacklists and those of the old ones, which the
/// filter reconciles.
pub fn resolve_and_sync_blacklist(
    new_configs: &Vec<FirewallBlacklistConfig>,
    old_configs: &Vec<FirewallBlacklistConfig>,
    cache: &GeoCache,
) -> (r: (Vec<IpConfig>, Vec<IpConfig>))
    ensures
        r.0@ == blacklist_ips(new_configs@, cache.entries@),
        r.1@ == blacklist_ips(old_configs@, cache.entries@),
{
    (resolve_configs(new_configs, cache), resolve_configs(old_configs, cache))
}

// ---------------------------------------------------------------------------
// DNS redirect rules.
// ---------------------------------------------------------------------------

/// The rule-update events a deleted redirect rule causes: one for every flow
/// it applied to, or one for all flows if it applied to none in particular.
pub fn redirect_delete_events(apply_flows: &Vec<u32>) -> (r: Vec<Option<u32>>)
    ensures
        apply_flows.len() == 0 ==> r@ == seq![None::<u32>],
        apply_flows.len() > 0 ==> r@ == apply_flows@.map_values(|f: u32| Some(f)),
{
    let mut r: Vec<Option<u32>> = Vec::new();
    if apply_flows.len() == 0 {
        r.push(None);
        return r;
    }
    let mut i: usize = 0;
    while i < apply_flows.len()
        invariant
            i <= apply_flows.len(),
            r@ == apply_flows@.take(i as int).map_values(|f: u32| Some(f)),
        decreases apply_flows.len() - i,
    {
        r.push(Some(apply_flows[i]));
        assert(apply_flows@.take(i + 1).map_values(|f: u32| Some(f)) =~= apply_flows@.take(i as int).map_values(
            |f: u32| Some(f),
        ).push(Some(apply_flows@[i as int])));
        i = i + 1;
    }
    assert(apply_flows@.take(apply_flows.len() as int) =~= apply_flows@);
    r
}

} // verus!
