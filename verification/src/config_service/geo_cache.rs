//! The GeoIP list cache: address blocks stored by source name and upper-case
//! key, read by the rules that name a GeoIP list and rewritten when a source
//! is refreshed, replaced by direct data or loaded from uploaded bytes.
use crate::net::IpAddress;
use vstd::prelude::*;

verus! {

/// An address block.
#[derive(Clone, Copy, PartialEq, Eq, Structural, Debug)]
pub struct IpConfig {
    pub ip: IpAddress,
    pub prefix: u8,
}

/// A reference to a list of the GeoIP database: the source name and the key.
pub struct GeoConfigKey {
    pub name: String,
    pub key: String,
}

/// A cached GeoIP list: the address blocks of one key of one source.
pub struct GeoIpConfig {
    pub name: String,
    pub key: String,
    pub values: Vec<IpConfig>,
}

/// The key a cached list is stored under.
pub struct GeoFileCacheKey {
    pub name: String,
    pub key: String,
}

/// ASCII upper case: lower-case ASCII letters raised, other characters kept.
pub open spec fn ascii_upper(s: Seq<char>) -> Seq<char> {
    s.map_values(|c: char| if 'a' <= c <= 'z' { (c as u32 - 32) as char } else { c })
}

/// Upper-cases the ASCII letters of a text with the standard library's
/// `str::to_ascii_uppercase`, whose documented behaviour the contract states.
#[verifier::external_body]
fn to_ascii_uppercase(s: &str) -> (r: String)
    ensures
        r@ == ascii_upper(s@),
{
    s.to_ascii_uppercase()
}

/// The GeoIP lists read from the cache, by (name, key).
pub struct GeoCache {
    pub entries: Vec<GeoIpConfig>,
}

/// The addresses a cache holds for a (name, key) pair: the list of the first
/// entry stored under it, none if there is none.
pub open spec fn cache_lookup(c: Seq<GeoIpConfig>, name: Seq<char>, key: Seq<char>) -> Seq<IpConfig>
    decreases c.len(),
{
    if c.len() == 0 {
        Seq::empty()
    } else if c[0].name@ == name && c[0].key@ == key {
        c[0].values@
    } else {
        cache_lookup(c.drop_first(), name, key)
    }
}

fn str_eq(a: &String, b: &String) -> (r: bool)
    ensures
        r == (a@ == b@),
{
    *a == *b
}

fn copy_ips(v: &Vec<IpConfig>) -> (r: Vec<IpConfig>)
    ensures
        r@ == v@,
{
    let mut r: Vec<IpConfig> = Vec::new();
    let mut i: usize = 0;
    while i < v.len()
        invariant
            i <= v.len(),
            r@ == v@.take(i as int),
        decreases v.len() - i,
    {
        r.push(v[i]);
        assert(v@.take(i + 1) =~= v@.take(i as int).push(v@[i as int]));
        i = i + 1;
    }
    assert(v@.take(v.len() as int) =~= v@);
    r
}

impl GeoCache {
    /// The addresses cached under a name and a key (matched as stored, the
    /// key in upper case).
    pub fn lookup(&self, name: &String, key: &String) -> (r: Vec<IpConfig>)
        ensures
            r@ == cache_lookup(self.entries@, name@, ascii_upper(key@)),
    {
        let upper = to_ascii_uppercase(key.as_str());
        let mut i: usize = 0;
        assert(self.entries@.skip(0) =~= self.entries@);
        while i < self.entries.len()
            invariant
                i <= self.entries.len(),
                upper@ == ascii_upper(key@),
                cache_lookup(self.entries@, name@, upper@) == cache_lookup(self.entries@.skip(i as int), name@, upper@),
            decreases self.entries.len() - i,
        {
            assert(self.entries@.skip(i as int)[0] == self.entries@[i as int]);
            if str_eq(&self.entries[i].name, name) && str_eq(&self.entries[i].key, &upper) {
                assert(cache_lookup(self.entries@.skip(i as int), name@, upper@) == self.entries@[i as int].values@);
                return copy_ips(&self.entries[i].values);
            }
            assert(self.entries@.skip(i as int).drop_first() =~= self.entries@.skip(i + 1));
            i = i + 1;
        }
        Vec::new()
    }
}

/// Whether a cache holds an entry stored under a (name, key) pair.
pub open spec fn cache_has(c: Seq<GeoIpConfig>, name: Seq<char>, key: Seq<char>) -> bool
    decreases c.len(),
{
    if c.len() == 0 {
        false
    } else if c[0].name@ == name && c[0].key@ == key {
        true
    } else {
        cache_has(c.drop_first(), name, key)
    }
}

/// One list of a GeoIP source as it is loaded: a key, in any case, and its
/// address blocks.
pub struct GeoIpDirectItem {
    pub key: String,
    pub values: Vec<IpConfig>,
}

/// Whether some item of a loaded source is stored under a key.
pub open spec fn items_have(items: Seq<GeoIpDirectItem>, key: Seq<char>) -> bool {
    exists|i: int| 0 <= i < items.len() && ascii_upper(#[trigger] items[i].key@) == key
}

/// The list a loaded source stores under a key: that of its last item whose
/// upper-cased key it is (a later item overwrites an earlier one), none if
/// there is none.
pub open spec fn items_value(items: Seq<GeoIpDirectItem>, key: Seq<char>) -> Seq<IpConfig>
    decreases items.len(),
{
    if items.len() == 0 {
        Seq::empty()
    } else if ascii_upper(items.last().key@) == key {
        items.last().values@
    } else {
        items_value(items.drop_last(), key)
    }
}

/// Which entries a rewrite of the cache keeps.
enum CacheFilter {
    /// All but the one stored under this (name, key).
    AllBut(String, String),
    /// All but those of this source.
    OtherSources(String),
    /// Those of the listed sources.
    Sources(Vec<String>),
}

spec fn filter_keeps(f: CacheFilter, name: Seq<char>, key: Seq<char>) -> bool {
    match f {
        CacheFilter::AllBut(n, k) => !(name == n@ && key == k@),
        CacheFilter::OtherSources(n) => name != n@,
        CacheFilter::Sources(ns) => names_contain(ns@, name),
    }
}

/// Whether a list of source names holds a name.
pub open spec fn names_contain(names: Seq<String>, name: Seq<char>) -> bool {
    exists|i: int| 0 <= i < names.len() && (#[trigger] names[i])@ == name
}

spec fn filter_cache(c: Seq<GeoIpConfig>, f: CacheFilter) -> Seq<GeoIpConfig>
    decreases c.len(),
{
    if c.len() == 0 {
        Seq::empty()
    } else if filter_keeps(f, c[0].name@, c[0].key@) {
        seq![c[0]] + filter_cache(c.drop_first(), f)
    } else {
        filter_cache(c.drop_first(), f)
    }
}

proof fn lemma_filter_lookup(c: Seq<GeoIpConfig>, f: CacheFilter, n: Seq<char>, k: Seq<char>)
    ensures
        cache_has(filter_cache(c, f), n, k) == (cache_has(c, n, k) && filter_keeps(f, n, k)),
        cache_lookup(filter_cache(c, f), n, k) == if filter_keeps(f, n, k) {
            cache_lookup(c, n, k)
        } else {
            Seq::empty()
        },
    decreases c.len(),
{
    if c.len() > 0 {
        lemma_filter_lookup(c.drop_first(), f, n, k);
        if filter_keeps(f, c[0].name@, c[0].key@) {
            let r = seq![c[0]] + filter_cache(c.drop_first(), f);
            assert(r[0] == c[0]);
            assert(r.drop_first() =~= filter_cache(c.drop_first(), f));
        }
    }
}

proof fn lemma_absent_lookup(c: Seq<GeoIpConfig>, n: Seq<char>, k: Seq<char>)
    ensures
        !cache_has(c, n, k) ==> cache_lookup(c, n, k) == Seq::<IpConfig>::empty(),
    decreases c.len(),
{
    if c.len() > 0 {
        lemma_absent_lookup(c.drop_first(), n, k);
    }
}

proof fn lemma_push_lookup(c: Seq<GeoIpConfig>, e: GeoIpConfig, n: Seq<char>, k: Seq<char>)
    ensures
        cache_has(c.push(e), n, k) == (cache_has(c, n, k) || (e.name@ == n && e.key@ == k)),
        cache_lookup(c.push(e), n, k) == if cache_has(c, n, k) {
            cache_lookup(c, n, k)
        } else if e.name@ == n && e.key@ == k {
            e.values@
        } else {
            Seq::empty()
        },
    decreases c.len(),
{
    let p = c.push(e);
    if c.len() == 0 {
        assert(p[0] == e);
        assert(p.drop_first() =~= Seq::<GeoIpConfig>::empty());
        assert(!cache_has(p.drop_first(), n, k));
        assert(cache_lookup(p.drop_first(), n, k) == Seq::<IpConfig>::empty());
    } else {
        assert(p[0] == c[0]);
        assert(p.drop_first() =~= c.drop_first().push(e));
        lemma_push_lookup(c.drop_first(), e, n, k);
    }
}

fn names_hold(names: &Vec<String>, name: &String) -> (r: bool)
    ensures
        r == names_contain(names@, name@),
{
    let mut i: usize = 0;
    while i < names.len()
        invariant
            i <= names.len(),
            forall|j: int| 0 <= j < i ==> (#[trigger] names@[j])@ != name@,
        decreases names.len() - i,
    {
        if str_eq(&names[i], name) {
            return true;
        }
        i = i + 1;
    }
    false
}

fn keeps(f: &CacheFilter, name: &String, key: &String) -> (r: bool)
    ensures
        r == filter_keeps(*f, name@, key@),
{
    match f {
        CacheFilter::AllBut(n, k) => !(str_eq(name, n) && str_eq(key, k)),
        CacheFilter::OtherSources(n) => !str_eq(name, n),
        CacheFilter::Sources(ns) => names_hold(ns, name),
    }
}

fn filter_entries(entries: Vec<GeoIpConfig>, f: &CacheFilter) -> (r: Vec<GeoIpConfig>)
    ensures
        r@ == filter_cache(entries@, *f),
{
    let ghost c0 = entries@;
    let mut rest = entries;
    let mut kept: Vec<GeoIpConfig> = Vec::new();
    while rest.len() > 0
        invariant
            kept@ + filter_cache(rest@, *f) == filter_cache(c0, *f),
        decreases rest.len(),
    {
        let ghost before = rest@;
        let e = rest.remove(0);
        assert(rest@ =~= before.drop_first());
        if keeps(f, &e.name, &e.key) {
            let ghost k0 = kept@;
            kept.push(e);
            assert(k0.push(e) + filter_cache(rest@, *f) =~= k0 + (seq![e] + filter_cache(rest@, *f)));
        }
    }
    assert(kept@ + Seq::<GeoIpConfig>::empty() =~= kept@);
    kept
}

impl GeoCache {
    /// An empty cache.
    pub fn new() -> (r: GeoCache)
        ensures
            r.entries@ == Seq::<GeoIpConfig>::empty(),
    {
        GeoCache { entries: Vec::new() }
    }

    fn rewrite(&mut self, f: CacheFilter) -> (ghost_filter: Ghost<CacheFilter>)
        ensures
            ghost_filter@ == f,
            final(self).entries@ == filter_cache(old(self).entries@, f),
    {
        let mut entries: Vec<GeoIpConfig> = Vec::new();
        std::mem::swap(&mut entries, &mut self.entries);
        self.entries = filter_entries(entries, &f);
        Ghost(f)
    }

    /// Stores a list under its (name, key), in place of any list stored
    /// there before.
    pub fn set(&mut self, info: GeoIpConfig)
        ensures
            forall|n: Seq<char>, k: Seq<char>|
                #[trigger] cache_has(final(self).entries@, n, k) == (cache_has(old(self).entries@, n, k) || (
                n == info.name@ && k == info.key@)),
            forall|n: Seq<char>, k: Seq<char>|
                #[trigger] cache_lookup(final(self).entries@, n, k) == if n == info.name@ && k
                    == info.key@ {
                    info.values@
                } else {
                    cache_lookup(old(self).entries@, n, k)
                },
    {
        let ghost old_entries = self.entries@;
        let f = CacheFilter::AllBut(info.name.clone(), info.key.clone());
        let Ghost(gf) = self.rewrite(f);
        let ghost kept = self.entries@;
        self.entries.push(info);
        assert forall|n: Seq<char>, k: Seq<char>|
            #[trigger] cache_has(self.entries@, n, k) == (cache_has(old_entries, n, k) || (n
                == info.name@ && k == info.key@)) by {
            lemma_filter_lookup(old_entries, gf, n, k);
            lemma_push_lookup(kept, info, n, k);
        }
        assert forall|n: Seq<char>, k: Seq<char>|
            #[trigger] cache_lookup(self.entries@, n, k) == if n == info.name@ && k == info.key@ {
                info.values@
            } else {
                cache_lookup(old_entries, n, k)
            } by {
            lemma_filter_lookup(old_entries, gf, n, k);
            lemma_push_lookup(kept, info, n, k);
            lemma_absent_lookup(old_entries, n, k);
        }
    }

    /// Removes the list stored under a (name, key), if there is one.
    pub fn del(&mut self, name: &String, key: &String)
        ensures
            forall|n: Seq<char>, k: Seq<char>|
                #[trigger] cache_has(final(self).entries@, n, k) == (cache_has(old(self).entries@, n, k) && !(
                n == name@ && k == key@)),
            forall|n: Seq<char>, k: Seq<char>|
                #[trigger] cache_lookup(final(self).entries@, n, k) == if n == name@ && k == key@ {
                    Seq::empty()
                } else {
                    cache_lookup(old(self).entries@, n, k)
                },
    {
        let ghost old_entries = self.entries@;
        let Ghost(gf) = self.rewrite(CacheFilter::AllBut(name.clone(), key.clone()));
        assert forall|n: Seq<char>, k: Seq<char>|
            #[trigger] cache_has(self.entries@, n, k) == (cache_has(old_entries, n, k) && !(n
                == name@ && k == key@)) by {
            lemma_filter_lookup(old_entries, gf, n, k);
        }
        assert forall|n: Seq<char>, k: Seq<char>|
            #[trigger] cache_lookup(self.entries@, n, k) == if n == name@ && k == key@ {
                Seq::empty()
            } else {
                cache_lookup(old_entries, n, k)
            } by {
            lemma_filter_lookup(old_entries, gf, n, k);
        }
    }

    /// Keeps the lists of the listed sources only; those of any other
    /// source are removed.
    pub fn retain_sources(&mut self, names: Vec<String>)
        ensures
            forall|n: Seq<char>, k: Seq<char>|
                #[trigger] cache_has(final(self).entries@, n, k) == (cache_has(old(self).entries@, n, k)
                    && names_contain(names@, n)),
            forall|n: Seq<char>, k: Seq<char>|
                #[trigger] cache_lookup(final(self).entries@, n, k) == if names_contain(names@, n) {
                    cache_lookup(old(self).entries@, n, k)
                } else {
                    Seq::empty()
                },
    {
        let ghost old_entries = self.entries@;
        let ghost gnames = names@;
        let Ghost(gf) = self.rewrite(CacheFilter::Sources(names));
        assert forall|n: Seq<char>, k: Seq<char>|
            #[trigger] cache_has(self.entries@, n, k) == (cache_has(old_entries, n, k)
                && names_contain(gnames, n)) by {
            lemma_filter_lookup(old_entries, gf, n, k);
        }
        assert forall|n: Seq<char>, k: Seq<char>|
            #[trigger] cache_lookup(self.entries@, n, k) == if names_contain(gnames, n) {
                cache_lookup(old_entries, n, k)
            } else {
                Seq::empty()
            } by {
            lemma_filter_lookup(old_entries, gf, n, k);
        }
    }

    /// Stores the lists of a loaded source, each under the source name and
    /// its key in upper case; lists stored before under other keys stay.
    pub fn merge_source(&mut self, name: &String, items: Vec<GeoIpDirectItem>)
        ensures
            forall|n: Seq<char>, k: Seq<char>|
                #[trigger] cache_has(final(self).entries@, n, k) == (cache_has(old(self).entries@, n, k) || (
                n == name@ && items_have(items@, k))),
            forall|n: Seq<char>, k: Seq<char>|
                #[trigger] cache_lookup(final(self).entries@, n, k) == if n == name@ && items_have(
                    items@,
                    k,
                ) {
                    items_value(items@, k)
                } else {
                    cache_lookup(old(self).entries@, n, k)
                },
    {
        let ghost old_entries = self.entries@;
        let ghost all = items@;
        let total: usize = items.len();
        let mut rest = items;
        let mut i: usize = 0;
        assert(all.skip(0) =~= all);
        while rest.len() > 0
            invariant
                i <= all.len(),
                all.len() == total,
                rest@ == all.skip(i as int),
                forall|n: Seq<char>, k: Seq<char>|
                    #[trigger] cache_has(self.entries@, n, k) == (cache_has(old_entries, n, k) || (n
                        == name@ && items_have(all.take(i as int), k))),
                forall|n: Seq<char>, k: Seq<char>|
                    #[trigger] cache_lookup(self.entries@, n, k) == if n == name@ && items_have(
                        all.take(i as int),
                        k,
                    ) {
                        items_value(all.take(i as int), k)
                    } else {
                        cache_lookup(old_entries, n, k)
                    },
            decreases rest.len(),
        {
            assert(i < all.len());
            let item = rest.remove(0);
            assert(item == all[i as int]);
            assert(rest@ =~= all.skip(i + 1));
            let upper = to_ascii_uppercase(item.key.as_str());
            let ghost item_key = item.key@;
            let ghost item_values = item.values@;
            let ghost pre = self.entries@;
            self.set(GeoIpConfig { name: name.clone(), key: upper, values: item.values });
            let ghost t0 = all.take(i as int);
            let ghost t1 = all.take(i + 1);
            assert(t1.drop_last() =~= t0);
            assert(t1.last() == all[i as int]);
            assert forall|k: Seq<char>| #[trigger] items_have(t1, k) == (items_have(t0, k) || ascii_upper(item_key) == k) by {
                if ascii_upper(item_key) == k {
                    assert(ascii_upper(t1[i as int].key@) == k);
                }
                if items_have(t0, k) {
                    let j = choose|j: int| 0 <= j < t0.len() && ascii_upper(#[trigger] t0[j].key@) == k;
                    assert(t1[j] == t0[j]);
                }
                if items_have(t1, k) && !(ascii_upper(item_key) == k) {
                    let j = choose|j: int| 0 <= j < t1.len() && ascii_upper(#[trigger] t1[j].key@) == k;
                    assert(j < i);
                    assert(t0[j] == t1[j]);
                }
            }
            assert forall|k: Seq<char>| #[trigger] items_value(t1, k) == if ascii_upper(item_key) == k { item_values } else { items_value(t0, k) } by {
            }
            i = i + 1;
        }
        assert(all.take(all.len() as int) =~= all);
    }

    /// Replaces the lists of a source by those of its loaded data: each item
    /// is stored under the source name and its key in upper case, and the
    /// lists the source had under keys the data lacks are removed.
    pub fn replace_source(&mut self, name: &String, items: Vec<GeoIpDirectItem>)
        ensures
            forall|n: Seq<char>, k: Seq<char>|
                #[trigger] cache_has(final(self).entries@, n, k) == if n == name@ {
                    items_have(items@, k)
                } else {
                    cache_has(old(self).entries@, n, k)
                },
            forall|n: Seq<char>, k: Seq<char>|
                #[trigger] cache_lookup(final(self).entries@, n, k) == if n == name@ {
                    items_value(items@, k)
                } else {
                    cache_lookup(old(self).entries@, n, k)
                },
    {
        let ghost old_entries = self.entries@;
        let Ghost(gf) = self.rewrite(CacheFilter::OtherSources(name.clone()));
        let ghost mid = self.entries@;
        let ghost gitems = items@;
        self.merge_source(name, items);
        assert forall|n: Seq<char>, k: Seq<char>|
            #[trigger] cache_has(self.entries@, n, k) == if n == name@ {
                items_have(gitems, k)
            } else {
                cache_has(old_entries, n, k)
            } by {
            lemma_filter_lookup(old_entries, gf, n, k);
            assert(cache_has(mid, n, k) == (cache_has(old_entries, n, k) && n != name@));
        }
        assert forall|n: Seq<char>, k: Seq<char>|
            #[trigger] cache_lookup(self.entries@, n, k) == if n == name@ {
                items_value(gitems, k)
            } else {
                cache_lookup(old_entries, n, k)
            } by {
            lemma_filter_lookup(old_entries, gf, n, k);
            lemma_items_value_absent(gitems, k);
        }
    }
}

proof fn lemma_items_value_absent(items: Seq<GeoIpDirectItem>, k: Seq<char>)
    ensures
        !items_have(items, k) ==> items_value(items, k) == Seq::<IpConfig>::empty(),
    decreases items.len(),
{
    if items.len() > 0 {
        lemma_items_value_absent(items.drop_last(), k);
        if !items_have(items, k) {
            assert(ascii_upper(items[items.len() - 1].key@) != k);
            assert forall|j: int| 0 <= j < items.drop_last().len() implies ascii_upper(#[trigger] items.drop_last()[j].key@) != k by {
                assert(items.drop_last()[j] == items[j]);
            }
        }
    }
}

// ---------------------------------------------------------------------------
// Refreshing the sources.
// ---------------------------------------------------------------------------

/// Milliseconds in a day: how long a downloaded source stays current.
pub const MILL_A_DAY: u64 = 86_400_000;

/// Where a GeoIP source takes its lists from.
pub enum GeoIpSource {
    /// A file to download, due again at `next_update_at` (milliseconds since
    /// the epoch).
    Url { url: String, next_update_at: u64 },
    /// Lists given directly.
    Direct { data: Vec<GeoIpDirectItem> },
}

/// A configured GeoIP source.
pub struct GeoIpSourceConfig {
    pub id: u128,
    pub name: String,
    pub source: GeoIpSource,
}

/// What a refresh does with one configured source, named by its position.
#[derive(Clone, Copy, PartialEq, Eq, Structural, Debug)]
pub enum RefreshStep {
    /// Download its file and replace its lists.
    Download(usize),
    /// Replace its lists by its direct data.
    WriteDirect(usize),
}

/// Whether a downloaded source is due: always when forced, otherwise once
/// its next update time has passed.
pub open spec fn url_due(force: bool, next_update_at: u64, now: u64) -> bool {
    force || next_update_at < now
}

/// The step a refresh takes for one source, if any.
pub open spec fn step_for(c: GeoIpSourceConfig, i: int, force: bool, now: u64) -> Seq<RefreshStep> {
    match c.source {
        GeoIpSource::Url { next_update_at, .. } => if url_due(force, next_update_at, now) {
            seq![RefreshStep::Download(i as usize)]
        } else {
            Seq::empty()
        },
        GeoIpSource::Direct { .. } => seq![RefreshStep::WriteDirect(i as usize)],
    }
}

/// The steps of a refresh, in the order of the sources.
pub open spec fn refresh_steps(c: Seq<GeoIpSourceConfig>, force: bool, now: u64) -> Seq<RefreshStep>
    decreases c.len(),
{
    if c.len() == 0 {
        Seq::empty()
    } else {
        refresh_steps(c.drop_last(), force, now) + step_for(c.last(), c.len() - 1, force, now)
    }
}

/// The steps of a refresh at time `now` (milliseconds): each downloaded
/// source that is due is downloaded, each direct source rewritten.
pub fn refresh_plan(configs: &Vec<GeoIpSourceConfig>, force: bool, now: u64) -> (r: Vec<RefreshStep>)
    ensures
        r@ == refresh_steps(configs@, force, now),
{
    let mut r: Vec<RefreshStep> = Vec::new();
    let mut i: usize = 0;
    while i < configs.len()
        invariant
            i <= configs.len(),
            r@ == refresh_steps(configs@.take(i as int), force, now),
        decreases configs.len() - i,
    {
        let ghost t1 = configs@.take(i + 1);
        assert(t1.drop_last() =~= configs@.take(i as int));
        assert(t1.last() == configs@[i as int]);
        match &configs[i].source {
            GeoIpSource::Url { next_update_at, .. } => {
                if force || *next_update_at < now {
                    r.push(RefreshStep::Download(i));
                } else {
                    assert(r@ =~= r@ + Seq::<RefreshStep>::empty());
                }
            },
            GeoIpSource::Direct { .. } => {
                r.push(RefreshStep::WriteDirect(i));
            },
        }
        i = i + 1;
    }
    assert(configs@.take(configs.len() as int) =~= configs@);
    r
}

/// The time a source downloaded at `now` is due again: a day later, held
/// at the largest time.
pub fn next_update_after(now: u64) -> (r: u64)
    ensures
        r == if now + MILL_A_DAY <= u64::MAX { now + MILL_A_DAY } else { u64::MAX as int },
{
    now.saturating_add(MILL_A_DAY)
}

/// The names of the configured sources: what a forced refresh keeps in the
/// cache.
pub fn source_names(configs: &Vec<GeoIpSourceConfig>) -> (r: Vec<String>)
    ensures
        r.len() == configs.len(),
        forall|i: int| 0 <= i < r.len() ==> (#[trigger] r@[i])@ == configs@[i].name@,
{
    let mut r: Vec<String> = Vec::new();
    let mut i: usize = 0;
    while i < configs.len()
        invariant
            i <= configs.len(),
            r.len() == i,
            forall|j: int| 0 <= j < i ==> (#[trigger] r@[j])@ == configs@[j].name@,
        decreases configs.len() - i,
    {
        r.push(configs[i].name.clone());
        i = i + 1;
    }
    r
}

/// Takes in the lists of a downloaded source: they replace what the cache
/// held for the source, and the source is due again a day after `now`.
pub fn finish_download(cache: &mut GeoCache, config: &mut GeoIpSourceConfig, items: Vec<GeoIpDirectItem>, now: u64)
    ensures
        forall|n: Seq<char>, k: Seq<char>|
            #[trigger] cache_lookup(final(cache).entries@, n, k) == if n == old(config).name@ {
                items_value(items@, k)
            } else {
                cache_lookup(old(cache).entries@, n, k)
            },
        forall|n: Seq<char>, k: Seq<char>|
            #[trigger] cache_has(final(cache).entries@, n, k) == if n == old(config).name@ {
                items_have(items@, k)
            } else {
                cache_has(old(cache).entries@, n, k)
            },
        final(config).id == old(config).id,
        final(config).name == old(config).name,
        match (old(config).source, final(config).source) {
            (GeoIpSource::Url { url: u0, .. }, GeoIpSource::Url { url: u1, next_update_at }) =>
                u1 == u0 && next_update_at == if now + MILL_A_DAY <= u64::MAX { now + MILL_A_DAY } else { u64::MAX as int },
            (GeoIpSource::Direct { data: d0 }, GeoIpSource::Direct { data: d1 }) => d1 == d0,
            _ => false,
        },
{
    cache.replace_source(&config.name, items);
    match &mut config.source {
        GeoIpSource::Url { next_update_at, .. } => {
            *next_update_at = next_update_after(now);
        },
        GeoIpSource::Direct { .. } => {},
    }
}

} // verus!
