//! Which host names were resolved to which addresses, for a while.
use crate::assoc::{distinct, lemma_absent, lemma_at, lemma_push, lemma_remove, lemma_update, map_of};
use crate::text::str_eq;
use vstd::prelude::*;

verus! {

/// How long a mapping is kept by default, in nanoseconds: five minutes.
pub const DEFAULT_CACHE_TIMEOUT: u128 = 300_000_000_000;

/// An internet address, as the number that its bytes in network order denote.
#[derive(Debug, Clone, Copy, PartialEq, Eq, Structural)]
pub enum IpAddr {
    V4(u32),
    V6(u128),
}

/// What is known of an address.
#[derive(Debug)]
pub struct HostnameCacheEntry {
    pub hostname: String,
    pub port: u16,
    /// When the mapping was last used, in nanoseconds on a clock that never goes back.
    pub last_used: u128,
}

impl Clone for HostnameCacheEntry {
    fn clone(&self) -> (r: Self)
        ensures
            r == *self,
    {
        HostnameCacheEntry {
            hostname: self.hostname.clone(),
            port: self.port,
            last_used: self.last_used,
        }
    }
}

/// What is known of an address.
pub struct EntryView {
    pub hostname: Seq<char>,
    pub port: u16,
    pub last_used: u128,
}

impl View for HostnameCacheEntry {
    type V = EntryView;

    open spec fn view(&self) -> EntryView {
        EntryView { hostname: self.hostname@, port: self.port, last_used: self.last_used }
    }
}

impl EntryView {
    /// The host name and port.
    pub open spec fn key(self) -> (Seq<char>, u16) {
        (self.hostname, self.port)
    }

    /// Whether the mapping was not used for longer than the timeout.
    pub open spec fn expired(self, timeout: u128, now: u128) -> bool {
        now > self.last_used + timeout
    }
}

/// The contents of the cache: from addresses to host names, and from host names to addresses.
pub struct CacheView {
    pub forward: Map<IpAddr, EntryView>,
    pub reverse: Map<(Seq<char>, u16), IpAddr>,
    pub timeout: u128,
}

impl CacheView {
    /// Whether an address leads back from every host name that leads to it.
    pub open spec fn consistent(self) -> bool {
        forall|k: (Seq<char>, u16)| #[trigger]
            self.reverse.contains_key(k) ==> self.forward.contains_key(self.reverse[k])
                && self.forward[self.reverse[k]].key() == k
    }

    /// Whether the mapping of an address is there and has expired.
    pub open spec fn stale(self, ip: IpAddr, now: u128) -> bool {
        self.forward.contains_key(ip) && self.forward[ip].expired(self.timeout, now)
    }

    /// The way from host names to addresses after an address has given up a host name: that no
    /// longer leads anywhere, where it led to this address.
    pub open spec fn released(self, k: (Seq<char>, u16), ip: IpAddr) -> Map<
        (Seq<char>, u16),
        IpAddr,
    > {
        if self.reverse.contains_key(k) && self.reverse[k] == ip {
            self.reverse.remove(k)
        } else {
            self.reverse
        }
    }

    /// The cache without its expired mappings: those of addresses, and those of host names that
    /// lead to such an address.
    pub open spec fn cleaned(self, now: u128) -> CacheView {
        CacheView {
            forward: Map::new(
                |ip: IpAddr| self.forward.contains_key(ip) && !self.stale(ip, now),
                |ip: IpAddr| self.forward[ip],
            ),
            reverse: Map::new(
                |k: (Seq<char>, u16)|
                    self.reverse.contains_key(k) && !self.stale(self.reverse[k], now),
                |k: (Seq<char>, u16)| self.reverse[k],
            ),
            timeout: self.timeout,
        }
    }

    /// The cache with a mapping added. Where the address had another host name, that no longer
    /// leads anywhere.
    pub open spec fn inserted(self, ip: IpAddr, hostname: Seq<char>, port: u16, now: u128) -> CacheView {
        let entry = EntryView { hostname, port, last_used: now };
        let kept = if self.forward.contains_key(ip) && self.forward[ip].key() != entry.key() {
            self.reverse.remove(self.forward[ip].key())
        } else {
            self.reverse
        };
        CacheView {
            forward: self.forward.insert(ip, entry),
            reverse: kept.insert(entry.key(), ip),
            timeout: self.timeout,
        }
    }

    /// The cache with the mapping of an address, where there is one, marked as used.
    pub open spec fn touched(self, ip: IpAddr, now: u128) -> CacheView {
        if self.forward.contains_key(ip) {
            CacheView {
                forward: self.forward.insert(
                    ip,
                    EntryView { last_used: now, ..self.forward[ip] },
                ),
                ..self
            }
        } else {
            self
        }
    }

    /// The host name and port of an address.
    pub open spec fn hostname_of(self, ip: IpAddr) -> Option<(Seq<char>, u16)> {
        if self.forward.contains_key(ip) {
            Some(self.forward[ip].key())
        } else {
            None
        }
    }

    /// The address of a host name and port.
    pub open spec fn ip_of(self, hostname: Seq<char>, port: u16) -> Option<IpAddr> {
        if self.reverse.contains_key((hostname, port)) {
            Some(self.reverse[(hostname, port)])
        } else {
            None
        }
    }
}

/// A cache of resolved host names.
#[derive(Debug)]
pub struct HostnameCache {
    ip_to_hostname: Vec<(IpAddr, HostnameCacheEntry)>,
    hostname_to_ip: Vec<((String, u16), IpAddr)>,
    cache_timeout: u128,
}

impl View for HostnameCache {
    type V = CacheView;

    closed spec fn view(&self) -> CacheView {
        CacheView {
            forward: map_of(self.forward_list()),
            reverse: map_of(self.reverse_list()),
            timeout: self.cache_timeout,
        }
    }
}

impl HostnameCache {
    spec fn forward_list(&self) -> Seq<(IpAddr, EntryView)> {
        self.ip_to_hostname@.map_values(|p: (IpAddr, HostnameCacheEntry)| (p.0, p.1@))
    }

    spec fn reverse_list(&self) -> Seq<((Seq<char>, u16), IpAddr)> {
        self.hostname_to_ip@.map_values(|p: ((String, u16), IpAddr)| ((p.0.0@, p.0.1), p.1))
    }

    /// Whether no address and no host name occurs twice, and the two directions fit together.
    pub closed spec fn wf(&self) -> bool {
        distinct(self.forward_list()) && distinct(self.reverse_list()) && self@.consistent()
    }

    /// An empty cache that keeps mappings for the given time, in nanoseconds.
    pub fn new(cache_timeout: u128) -> (r: HostnameCache)
        ensures
            r.wf(),
            r@ == (CacheView {
                forward: Map::empty(),
                reverse: Map::empty(),
                timeout: cache_timeout,
            }),
    {
        let r = HostnameCache {
            ip_to_hostname: Vec::new(),
            hostname_to_ip: Vec::new(),
            cache_timeout,
        };
        assert(r@.forward =~= Map::<IpAddr, EntryView>::empty());
        assert(r@.reverse =~= Map::<(Seq<char>, u16), IpAddr>::empty());
        r
    }

    /// An empty cache that keeps mappings for five minutes.
    pub fn with_default_timeout() -> (r: HostnameCache)
        ensures
            r.wf(),
            r@ == (CacheView {
                forward: Map::empty(),
                reverse: Map::empty(),
                timeout: DEFAULT_CACHE_TIMEOUT,
            }),
    {
        HostnameCache::new(DEFAULT_CACHE_TIMEOUT)
    }

    fn find_ip(&self, ip: &IpAddr) -> (r: Option<usize>)
        requires
            distinct(self.forward_list()),
        ensures
            match r {
                Some(i) => i < self.ip_to_hostname@.len() && self.ip_to_hostname@[i as int].0 == *ip
                    && self@.forward.contains_key(*ip) && self@.forward[*ip]
                    == self.ip_to_hostname@[i as int].1@,
                None => !self@.forward.contains_key(*ip),
            },
    {
        let mut i: usize = 0;
        while i < self.ip_to_hostname.len()
            invariant
                i <= self.ip_to_hostname@.len(),
                distinct(self.forward_list()),
                forall|k: int| 0 <= k < i ==> (#[trigger] self.ip_to_hostname@[k]).0 != *ip,
            decreases self.ip_to_hostname@.len() - i,
        {
            if self.ip_to_hostname[i].0 == *ip {
                proof {
                    lemma_at(self.forward_list(), i as int);
                }
                return Some(i);
            }
            i = i + 1;
        }
        proof {
            assert forall|k: int| 0 <= k < self.forward_list().len() implies (
            #[trigger] self.forward_list()[k]).0 != *ip by {
                assert(self.ip_to_hostname@[k].0 != *ip);
            }
            lemma_absent(self.forward_list(), *ip);
        }
        None
    }

    fn find_key(&self, hostname: &str, port: u16) -> (r: Option<usize>)
        requires
            distinct(self.reverse_list()),
        ensures
            match r {
                Some(i) => i < self.hostname_to_ip@.len() && self.hostname_to_ip@[i as int].0.0@
                    == hostname@ && self.hostname_to_ip@[i as int].0.1 == port
                    && self@.reverse.contains_key((hostname@, port)) && self@.reverse[(
                    hostname@,
                    port,
                )] == self.hostname_to_ip@[i as int].1,
                None => !self@.reverse.contains_key((hostname@, port)),
            },
    {
        let mut i: usize = 0;
        while i < self.hostname_to_ip.len()
            invariant
                i <= self.hostname_to_ip@.len(),
                distinct(self.reverse_list()),
                forall|k: int|
                    0 <= k < i ==> (#[trigger] self.reverse_list()[k]).0 != (hostname@, port),
            decreases self.hostname_to_ip@.len() - i,
        {
            assert(self.reverse_list()[i as int].0 == (
                self.hostname_to_ip@[i as int].0.0@,
                self.hostname_to_ip@[i as int].0.1,
            ));
            if self.hostname_to_ip[i].0.1 == port && str_eq(
                self.hostname_to_ip[i].0.0.as_str(),
                hostname,
            ) {
                proof {
                    lemma_at(self.reverse_list(), i as int);
                }
                return Some(i);
            }
            i = i + 1;
        }
        proof {
            lemma_absent(self.reverse_list(), (hostname@, port));
        }
        None
    }

    fn remove_key(&mut self, hostname: &str, port: u16)
        requires
            distinct(old(self).reverse_list()),
        ensures
            distinct(final(self).reverse_list()),
            final(self).ip_to_hostname == old(self).ip_to_hostname,
            final(self).cache_timeout == old(self).cache_timeout,
            final(self)@.reverse == old(self)@.reverse.remove((hostname@, port)),
    {
        match self.find_key(hostname, port) {
            Some(i) => {
                proof {
                    lemma_remove(self.reverse_list(), i as int);
                }
                let _ = self.hostname_to_ip.remove(i);
                assert(self.reverse_list() =~= old(self).reverse_list().remove(i as int));
            },
            None => {
                assert(self@.reverse =~= self@.reverse.remove((hostname@, port)));
            },
        }
    }

    fn release_key(&mut self, hostname: &str, port: u16, ip: IpAddr)
        requires
            distinct(old(self).reverse_list()),
        ensures
            distinct(final(self).reverse_list()),
            final(self).ip_to_hostname == old(self).ip_to_hostname,
            final(self).cache_timeout == old(self).cache_timeout,
            final(self)@.reverse == old(self)@.released((hostname@, port), ip),
    {
        match self.find_key(hostname, port) {
            Some(i) => {
                if self.hostname_to_ip[i].1 == ip {
                    self.remove_key(hostname, port);
                }
            },
            None => {},
        }
    }

    /// Adds a mapping, or renews it.
    pub fn insert(&mut self, ip: IpAddr, hostname: String, port: u16, now: u128)
        requires
            old(self).wf(),
        ensures
            final(self).wf(),
            final(self)@ == old(self)@.inserted(ip, hostname@, port, now),
    {
        let entry = HostnameCacheEntry { hostname: hostname.clone(), port, last_used: now };
        let ghost target = old(self)@.inserted(ip, hostname@, port, now);
        match self.find_ip(&ip) {
            Some(i) => {
                let old_hostname: String = self.ip_to_hostname[i].1.hostname.clone();
                let old_port: u16 = self.ip_to_hostname[i].1.port;
                if !str_eq(old_hostname.as_str(), hostname.as_str()) || old_port != port {
                    self.remove_key(old_hostname.as_str(), old_port);
                }
                let ghost list = self.forward_list();
                proof {
                    assert(list[i as int].0 == ip);
                    lemma_update(list, i as int, entry@);
                }
                self.ip_to_hostname[i] = (ip, entry);
                assert(self.forward_list() =~= list.update(i as int, (ip, entry@)));
            },
            None => {
                let ghost list = self.forward_list();
                proof {
                    lemma_push(list, ip, entry@);
                }
                self.ip_to_hostname.push((ip, entry));
                assert(self.forward_list() =~= list.push((ip, entry@)));
            },
        }
        assert(self@.forward =~= target.forward);
        match self.find_key(hostname.as_str(), port) {
            Some(j) => {
                let ghost list = self.reverse_list();
                proof {
                    assert(list[j as int].0 == (hostname@, port));
                    lemma_update(list, j as int, ip);
                }
                self.hostname_to_ip[j] = ((hostname, port), ip);
                assert(self.reverse_list() =~= list.update(j as int, ((hostname@, port), ip)));
            },
            None => {
                let ghost list = self.reverse_list();
                proof {
                    lemma_push(list, (hostname@, port), ip);
                }
                self.hostname_to_ip.push(((hostname, port), ip));
                assert(self.reverse_list() =~= list.push(((hostname@, port), ip)));
            },
        }
        assert(self@.reverse =~= target.reverse);
        proof {
            insert_keeps_consistency(old(self)@, ip, hostname@, port, now);
        }
    }

    /// The host name and port of an address. Expired mappings are dropped first; the mapping that
    /// is found counts as used.
    pub fn get_hostname(&mut self, ip: &IpAddr, _port: u16, now: u128) -> (r: Option<(String, u16)>)
        requires
            old(self).wf(),
        ensures
            final(self).wf(),
            final(self)@ == old(self)@.cleaned(now).touched(*ip, now),
            match r {
                Some((h, p)) => old(self)@.cleaned(now).hostname_of(*ip) == Some((h@, p)),
                None => old(self)@.cleaned(now).hostname_of(*ip) is None,
            },
    {
        self.cleanup_expired(now);
        match self.find_ip(ip) {
            Some(i) => {
                let ghost list = self.forward_list();
                let ghost before = self@;
                let hostname: String = self.ip_to_hostname[i].1.hostname.clone();
                let port: u16 = self.ip_to_hostname[i].1.port;
                let found: String = hostname.clone();
                let entry = HostnameCacheEntry { hostname, port, last_used: now };
                proof {
                    assert(list[i as int].0 == *ip);
                    lemma_update(list, i as int, entry@);
                }
                self.ip_to_hostname[i] = (*ip, entry);
                assert(self.forward_list() =~= list.update(i as int, (*ip, entry@)));
                proof {
                    assert(self@.forward =~= before.touched(*ip, now).forward);
                    assert(before.consistent());
                    assert forall|k: (Seq<char>, u16)| #[trigger]
                        self@.reverse.contains_key(k) implies self@.forward.contains_key(
                        self@.reverse[k],
                    ) && self@.forward[self@.reverse[k]].key() == k by {
                        assert(before.reverse.contains_key(k));
                    }
                }
                Some((found, port))
            },
            None => None,
        }
    }

    /// The address of a host name and port. Expired mappings are dropped first.
    pub fn get_ip(&mut self, hostname: &str, port: u16, now: u128) -> (r: Option<IpAddr>)
        requires
            old(self).wf(),
        ensures
            final(self).wf(),
            final(self)@ == old(self)@.cleaned(now),
            r == old(self)@.cleaned(now).ip_of(hostname@, port),
    {
        self.cleanup_expired(now);
        match self.find_key(hostname, port) {
            Some(i) => Some(self.hostname_to_ip[i].1),
            None => None,
        }
    }

    /// Drops the expired mappings.
    pub fn cleanup_expired(&mut self, now: u128)
        requires
            old(self).wf(),
        ensures
            final(self).wf(),
            final(self)@ == old(self)@.cleaned(now),
    {
        let ghost first = self@;
        let ghost mut removed: Set<IpAddr> = Set::empty();
        let mut i: usize = 0;
        while i < self.ip_to_hostname.len()
            invariant
                i <= self.ip_to_hostname@.len(),
                distinct(self.forward_list()),
                distinct(self.reverse_list()),
                self.cache_timeout == first.timeout,
                first.consistent(),
                forall|ip: IpAddr| #[trigger] removed.contains(ip) ==> first.stale(ip, now),
                forall|k: int|
                    0 <= k < i ==> !first.stale((#[trigger] self.ip_to_hostname@[k]).0, now),
                forall|ip: IpAddr|
                    #![trigger self@.forward.contains_key(ip)]
                    #![trigger first.forward.contains_key(ip)]
                    self@.forward.contains_key(ip) <==> first.forward.contains_key(ip)
                        && !removed.contains(ip),
                forall|ip: IpAddr| #[trigger]
                    self@.forward.contains_key(ip) ==> self@.forward[ip] == first.forward[ip],
                forall|k: (Seq<char>, u16)|
                    #![trigger self@.reverse.contains_key(k)]
                    #![trigger first.reverse.contains_key(k)]
                    self@.reverse.contains_key(k) <==> first.reverse.contains_key(k)
                        && !removed.contains(first.reverse[k]),
                forall|k: (Seq<char>, u16)| #[trigger]
                    self@.reverse.contains_key(k) ==> self@.reverse[k] == first.reverse[k],
            decreases self.ip_to_hostname@.len() - i,
        {
            let ghost before = *self;
            proof {
                assert(self.forward_list()[i as int] == (
                    self.ip_to_hostname@[i as int].0,
                    self.ip_to_hostname@[i as int].1@,
                ));
                lemma_at(self.forward_list(), i as int);
            }
            let last_used: u128 = self.ip_to_hostname[i].1.last_used;
            let age: u128 = if now > last_used {
                now - last_used
            } else {
                0
            };
            if age > self.cache_timeout {
                proof {
                    lemma_remove(self.forward_list(), i as int);
                }
                let (ip, entry) = self.ip_to_hostname.remove(i);
                assert(self.forward_list() =~= before.forward_list().remove(i as int));
                let ghost middle = *self;
                self.release_key(entry.hostname.as_str(), entry.port, ip);
                proof {
                    let grown = removed.insert(ip);
                    assert(before.ip_to_hostname@[i as int] == (ip, entry));
                    assert(before@.forward.contains_key(ip));
                    assert(first.forward[ip] == entry@);
                    assert(middle.hostname_to_ip == before.hostname_to_ip);
                    assert(self@.reverse == before@.released(entry@.key(), ip));
                    assert(self@.forward == before@.forward.remove(ip));
                    assert(first.stale(ip, now));
                    assert forall|k: (Seq<char>, u16)|
                        self@.reverse.contains_key(k) == (first.reverse.contains_key(k)
                            && !grown.contains(first.reverse[k])) by {
                        if first.reverse.contains_key(k) && first.reverse[k] == ip {
                            assert(first.forward[ip].key() == k);
                        }
                        assert(before@.reverse.contains_key(k) == (first.reverse.contains_key(k)
                            && !removed.contains(first.reverse[k])));
                    }
                    assert forall|k: (Seq<char>, u16)| #[trigger]
                        self@.reverse.contains_key(k) implies self@.reverse[k]
                        == first.reverse[k] by {
                        assert(before@.reverse.contains_key(k));
                    }
                    removed = grown;
                    assert forall|k: int| 0 <= k < i implies !first.stale(
                        (#[trigger] self.ip_to_hostname@[k]).0,
                        now,
                    ) by {
                        assert(self.ip_to_hostname@[k] == before.ip_to_hostname@[k]);
                    }
                }
            } else {
                assert(!first.stale(self.ip_to_hostname@[i as int].0, now));
                i = i + 1;
            }
        }
        proof {
            let target = first.cleaned(now);
            assert forall|ip: IpAddr| self@.forward.contains_key(ip)
                == target.forward.contains_key(ip) by {
                if self@.forward.contains_key(ip) {
                    let j = choose|j: int| crate::assoc::holds_at(self.forward_list(), ip, j);
                    assert(crate::assoc::holds_at(self.forward_list(), ip, j));
                    assert(self.ip_to_hostname@[j].0 == ip);
                    assert(!first.stale(ip, now));
                }
            }
            assert(self@.forward =~= target.forward);
            assert forall|k: (Seq<char>, u16)| self@.reverse.contains_key(k)
                == target.reverse.contains_key(k) by {
                if first.reverse.contains_key(k) {
                    let ip = first.reverse[k];
                    assert(first.forward.contains_key(ip));
                    assert(self@.forward.contains_key(ip) == target.forward.contains_key(ip));
                }
            }
            assert(self@.reverse =~= target.reverse);
            cleaning_keeps_consistency(first, now);
        }
    }
}

impl Default for HostnameCache {
    fn default() -> (r: Self)
        ensures
            r.wf(),
            r@ == (CacheView {
                forward: Map::empty(),
                reverse: Map::empty(),
                timeout: DEFAULT_CACHE_TIMEOUT,
            }),
    {
        HostnameCache::with_default_timeout()
    }
}

// ---------------------------------------------------------------------------
// Laws
// ---------------------------------------------------------------------------

/// Adding a mapping keeps the two directions together.
pub proof fn insert_keeps_consistency(
    cache: CacheView,
    ip: IpAddr,
    hostname: Seq<char>,
    port: u16,
    now: u128,
)
    requires
        cache.consistent(),
    ensures
        cache.inserted(ip, hostname, port, now).consistent(),
{
    let after = cache.inserted(ip, hostname, port, now);
    assert forall|k: (Seq<char>, u16)| #[trigger]
        after.reverse.contains_key(k) implies after.forward.contains_key(after.reverse[k])
        && after.forward[after.reverse[k]].key() == k by {
        if k != (hostname, port) {
            assert(cache.reverse.contains_key(k));
        }
    }
}

/// Dropping expired mappings keeps the two directions together.
pub proof fn cleaning_keeps_consistency(cache: CacheView, now: u128)
    requires
        cache.consistent(),
    ensures
        cache.cleaned(now).consistent(),
{
    let after = cache.cleaned(now);
    assert forall|k: (Seq<char>, u16)| #[trigger]
        after.reverse.contains_key(k) implies after.forward.contains_key(after.reverse[k])
        && after.forward[after.reverse[k]].key() == k by {
        assert(cache.reverse.contains_key(k));
    }
}

/// A mapping that was added is found by its address until the timeout has passed, and no longer.
pub proof fn inserted_address_is_found_until_timeout(
    cache: CacheView,
    ip: IpAddr,
    hostname: Seq<char>,
    port: u16,
    now: u128,
    later: u128,
)
    ensures
        cache.inserted(ip, hostname, port, now).cleaned(later).hostname_of(ip) == if later <= now
            + cache.timeout {
            Some((hostname, port))
        } else {
            None
        },
{
}

/// A mapping that was added is found by its host name until the timeout has passed, and no longer,
/// whatever other addresses had that host name.
pub proof fn inserted_hostname_is_found_until_timeout(
    cache: CacheView,
    ip: IpAddr,
    hostname: Seq<char>,
    port: u16,
    now: u128,
    later: u128,
)
    ensures
        cache.inserted(ip, hostname, port, now).cleaned(later).ip_of(hostname, port) == if later
            <= now + cache.timeout {
            Some(ip)
        } else {
            None
        },
{
}

/// Dropping expired mappings drops nothing else: a host name that leads to an address whose mapping
/// is not expired still does.
pub proof fn cleaning_keeps_live_hostnames(
    cache: CacheView,
    hostname: Seq<char>,
    port: u16,
    now: u128,
)
    ensures
        cache.ip_of(hostname, port) matches Some(ip) && !cache.stale(ip, now) ==> cache.cleaned(
            now,
        ).ip_of(hostname, port) == cache.ip_of(hostname, port),
{
}

/// Adding a mapping changes where no other host name leads than the one that is added and the one
/// that the address had before.
pub proof fn insert_keeps_other_hostnames(
    cache: CacheView,
    ip: IpAddr,
    hostname: Seq<char>,
    port: u16,
    now: u128,
    other: (Seq<char>, u16),
)
    requires
        other != (hostname, port),
        cache.hostname_of(ip) != Some(other),
    ensures
        cache.inserted(ip, hostname, port, now).ip_of(other.0, other.1) == cache.ip_of(
            other.0,
            other.1,
        ),
{
}

/// A host name that an address gives up for another one leads nowhere, not even to another address
/// that has it.
pub proof fn renaming_forgets_the_old_hostname(
    cache: CacheView,
    ip: IpAddr,
    hostname: Seq<char>,
    port: u16,
    now: u128,
    former: (Seq<char>, u16),
)
    requires
        cache.hostname_of(ip) == Some(former),
        former != (hostname, port),
    ensures
        cache.inserted(ip, hostname, port, now).ip_of(former.0, former.1) is None,
{
}

/// An address that is found by a host name is found again with that host name.
pub proof fn lookups_agree(cache: CacheView, hostname: Seq<char>, port: u16, now: u128)
    requires
        cache.consistent(),
    ensures
        cache.cleaned(now).ip_of(hostname, port) matches Some(ip) ==> cache.cleaned(
            now,
        ).hostname_of(ip) == Some((hostname, port)),
{
    cleaning_keeps_consistency(cache, now);
    if cache.cleaned(now).reverse.contains_key((hostname, port)) {
    }
}

/// Using a mapping keeps it from expiring for another timeout.
pub proof fn use_renews_a_mapping(cache: CacheView, ip: IpAddr, now: u128, later: u128)
    requires
        cache.cleaned(now).hostname_of(ip) is Some,
        later <= now + cache.timeout,
    ensures
        cache.cleaned(now).touched(ip, now).cleaned(later).hostname_of(ip) == cache.cleaned(
            now,
        ).hostname_of(ip),
{
}

/// Adding a mapping records its host name, its port and the time for its address, and leaves what is
/// known of other addresses and the timeout as they are.
pub proof fn insert_keeps_other_addresses(
    cache: CacheView,
    ip: IpAddr,
    hostname: Seq<char>,
    port: u16,
    now: u128,
    other: IpAddr,
)
    ensures
        ({
            let after = cache.inserted(ip, hostname, port, now);
            &&& after.timeout == cache.timeout
            &&& after.forward.contains_key(ip)
            &&& after.forward[ip] == (EntryView { hostname, port, last_used: now })
            &&& other != ip ==> after.forward.contains_key(other) == cache.forward.contains_key(
                other,
            ) && (cache.forward.contains_key(other) ==> after.forward[other]
                == cache.forward[other])
            &&& after.ip_of(hostname, port) == Some(ip)
        }),
{
}

/// Cleaning drops the mapping of an address exactly where more than the timeout has passed since it
/// was last used, and changes none of the others; a host name that led to a dropped address leads
/// nowhere, and none leads anywhere else than before.
pub proof fn cleaning_drops_what_was_not_used(
    cache: CacheView,
    ip: IpAddr,
    hostname: Seq<char>,
    port: u16,
    now: u128,
)
    ensures
        ({
            let after = cache.cleaned(now);
            let held = cache.forward.contains_key(ip);
            let late = now > cache.forward[ip].last_used + cache.timeout;
            let target = cache.ip_of(hostname, port);
            let target_late = target is Some && cache.forward.contains_key(target->0) && now
                > cache.forward[target->0].last_used + cache.timeout;
            &&& after.timeout == cache.timeout
            &&& after.forward.contains_key(ip) <==> held && !late
            &&& held && !late ==> after.forward[ip] == cache.forward[ip]
            &&& after.ip_of(hostname, port) == if target_late {
                None
            } else {
                target
            }
        }),
{
}

/// Using an address renews the time of its mapping and nothing else; using one that is not known
/// changes nothing.
pub proof fn use_changes_only_the_time(
    cache: CacheView,
    ip: IpAddr,
    other: IpAddr,
    now: u128,
)
    ensures
        ({
            let after = cache.touched(ip, now);
            &&& after.timeout == cache.timeout
            &&& after.reverse == cache.reverse
            &&& !cache.forward.contains_key(ip) ==> after == cache
            &&& cache.forward.contains_key(ip) ==> {
                &&& after.forward.contains_key(ip)
                &&& after.forward[ip].last_used == now
                &&& after.forward[ip].hostname == cache.forward[ip].hostname
                &&& after.forward[ip].port == cache.forward[ip].port
            }
            &&& other != ip ==> after.forward.contains_key(other) == cache.forward.contains_key(
                other,
            ) && (cache.forward.contains_key(other) ==> after.forward[other]
                == cache.forward[other])
        }),
{
}

/// Looking up an address gives the host name and port of its mapping, and looking up a host name
/// and port gives the address that they lead to; what is not there is not found.
pub proof fn lookups_read_the_cache(
    cache: CacheView,
    ip: IpAddr,
    hostname: Seq<char>,
    port: u16,
)
    ensures
        cache.hostname_of(ip) is Some <==> cache.forward.contains_key(ip),
        cache.forward.contains_key(ip) ==> cache.hostname_of(ip) == Some(
            (cache.forward[ip].hostname, cache.forward[ip].port),
        ),
        cache.ip_of(hostname, port) is Some <==> cache.reverse.contains_key((hostname, port)),
        cache.reverse.contains_key((hostname, port)) ==> cache.ip_of(hostname, port) == Some(
            cache.reverse[(hostname, port)],
        ),
{
}

} // verus!
