//! Admission control: a bound on all connections and on the connections of
//! each client address, whose count is forgotten after five idle minutes.
//! Addresses are keyed by 128 bits (IPv4 in its IPv6-mapped form); clock
//! readings are nanoseconds on a monotonic clock.
use vstd::prelude::*;
use std::collections::HashMap;

verus! {

broadcast use vstd::std_specs::hash::group_hash_axioms;

/// Connections of one address and when it was last admitted.
#[derive(Debug, Clone, Copy, PartialEq, Eq, Structural)]
pub struct PerIpEntry {
    pub count: usize,
    pub last_seen_ns: u64,
}

/// Idle time after which an address's count starts again from zero.
pub const IDLE_RESET_NS: u64 = 300_000_000_000;

/// The entry that admission works on: the stored one, or a fresh one seen
/// now; its count is forgotten where the address was idle for longer than
/// `IDLE_RESET_NS`.
pub open spec fn entry_at(m: Map<u128, PerIpEntry>, ip: u128, now_ns: u64) -> PerIpEntry {
    let e = if m.contains_key(ip) {
        m[ip]
    } else {
        PerIpEntry { count: 0, last_seen_ns: now_ns }
    };
    let idle: int = if now_ns >= e.last_seen_ns {
        now_ns - e.last_seen_ns
    } else {
        0
    };
    if idle > IDLE_RESET_NS {
        PerIpEntry { count: 0, last_seen_ns: e.last_seen_ns }
    } else {
        e
    }
}

/// The entries after a release of `ip`: its count goes down by one, not
/// below zero; an address never seen is left alone.
pub open spec fn released_entries(m: Map<u128, PerIpEntry>, ip: u128) -> Map<u128, PerIpEntry> {
    if m.contains_key(ip) {
        m.insert(
            ip,
            PerIpEntry {
                count: if m[ip].count == 0 {
                    0
                } else {
                    (m[ip].count - 1) as usize
                },
                last_seen_ns: m[ip].last_seen_ns,
            },
        )
    } else {
        m
    }
}

/// The global count after a release: one less, wrapping below zero as an
/// atomic subtraction does.
pub open spec fn released_count(g: usize) -> usize {
    if g == 0 {
        usize::MAX
    } else {
        (g - 1) as usize
    }
}

/// Releasing an address right after it was admitted gives the global count
/// back, and leaves the address with the count that admission started from
/// (its stored count, or zero after an idle spell), seen at the admission's
/// clock reading.
pub proof fn lemma_release_undoes_acquire(m: Map<u128, PerIpEntry>, global: usize, ip: u128, now_ns: u64)
    requires
        global < usize::MAX,
        entry_at(m, ip, now_ns).count < usize::MAX,
    ensures
        released_count((global + 1) as usize) == global,
        released_entries(
            m.insert(ip, PerIpEntry { count: (entry_at(m, ip, now_ns).count + 1) as usize, last_seen_ns: now_ns }),
            ip,
        ) == m.insert(ip, PerIpEntry { count: entry_at(m, ip, now_ns).count, last_seen_ns: now_ns }),
{
    let admitted = m.insert(ip, PerIpEntry { count: (entry_at(m, ip, now_ns).count + 1) as usize, last_seen_ns: now_ns });
    assert(released_entries(admitted, ip) =~= m.insert(
        ip,
        PerIpEntry { count: entry_at(m, ip, now_ns).count, last_seen_ns: now_ns },
    ));
}

/// What admitting `ip` at clock reading `now_ns` does to the entries and the
/// global count, and whether the connection is admitted, with bounds `max_g`
/// and `max_ip` (see `ConnectionLimiter::acquire`).
pub open spec fn acquire_model(
    m: Map<u128, PerIpEntry>,
    g: usize,
    max_g: usize,
    max_ip: usize,
    ip: u128,
    now_ns: u64,
) -> (Map<u128, PerIpEntry>, usize, bool) {
    if g >= max_g {
        (m, g, false)
    } else {
        let e = entry_at(m, ip, now_ns);
        if e.count < max_ip {
            (m.insert(ip, PerIpEntry { count: (e.count + 1) as usize, last_seen_ns: now_ns }), (g + 1) as usize, true)
        } else {
            (m.insert(ip, e), g, false)
        }
    }
}

/// A call on a limiter: an admission of an address at a clock reading, or
/// the release of one of its connections.
#[derive(Debug, Clone, Copy, PartialEq, Eq, Structural)]
pub enum LimiterOp {
    Acquire(u128, u64),
    Release(u128),
}

/// The state after `ops` on a new limiter with bounds `max_g` and `max_ip`:
/// the entries, the global count, how many connections were admitted and how
/// many released.
pub open spec fn run_ops(ops: Seq<LimiterOp>, max_g: usize, max_ip: usize) -> (Map<u128, PerIpEntry>, usize, nat, nat)
    decreases ops.len(),
{
    if ops.len() == 0 {
        (Map::empty(), 0, 0, 0)
    } else {
        let prev = run_ops(ops.drop_last(), max_g, max_ip);
        match ops.last() {
            LimiterOp::Acquire(ip, now_ns) => {
                let a = acquire_model(prev.0, prev.1, max_g, max_ip, ip, now_ns);
                (a.0, a.1, if a.2 {
                    prev.2 + 1
                } else {
                    prev.2
                }, prev.3)
            },
            LimiterOp::Release(ip) => (released_entries(prev.0, ip), released_count(prev.1), prev.2, prev.3 + 1),
        }
    }
}

/// Each release in `ops` releases a connection that was admitted and not
/// yet released: before it, more were admitted than released.
pub open spec fn releases_matched(ops: Seq<LimiterOp>, max_g: usize, max_ip: usize) -> bool {
    forall|k: int|
        0 <= k < ops.len() && #[trigger] ops[k] is Release ==> run_ops(ops.subrange(0, k), max_g, max_ip).3 < run_ops(
            ops.subrange(0, k),
            max_g,
            max_ip,
        ).2
}

/// Admission control over any sequence of calls on a new limiter whose
/// releases each release an admitted connection: the global count is the
/// number admitted less the number released and never exceeds `max_g`, and
/// no address ever counts more than `max_ip` connections.
pub proof fn lemma_limiter_bounds(ops: Seq<LimiterOp>, max_g: usize, max_ip: usize)
    requires
        releases_matched(ops, max_g, max_ip),
    ensures
        run_ops(ops, max_g, max_ip).1 == run_ops(ops, max_g, max_ip).2 - run_ops(ops, max_g, max_ip).3,
        run_ops(ops, max_g, max_ip).1 <= max_g,
        forall|ip: u128|
            #[trigger] run_ops(ops, max_g, max_ip).0.contains_key(ip) ==> run_ops(ops, max_g, max_ip).0[ip].count
                <= max_ip,
    decreases ops.len(),
{
    if ops.len() > 0 {
        let pre = ops.drop_last();
        assert forall|k: int| 0 <= k < pre.len() && #[trigger] pre[k] is Release implies run_ops(
            pre.subrange(0, k),
            max_g,
            max_ip,
        ).3 < run_ops(pre.subrange(0, k), max_g, max_ip).2 by {
            assert(pre.subrange(0, k) =~= ops.subrange(0, k));
            assert(ops[k] is Release);
        }
        lemma_limiter_bounds(pre, max_g, max_ip);
        let prev = run_ops(pre, max_g, max_ip);
        match ops.last() {
            LimiterOp::Acquire(ip, now_ns) => {
                let e = entry_at(prev.0, ip, now_ns);
                assert(prev.0.contains_key(ip) ==> prev.0[ip].count <= max_ip);
                assert(e.count <= max_ip);
            },
            LimiterOp::Release(ip) => {
                assert(ops.subrange(0, ops.len() - 1) =~= pre);
                assert(ops[ops.len() - 1] is Release);
            },
        }
    }
}

/// A refused admission changes no count: the global count stays, other
/// addresses' entries stay, and the address keeps its count (forgotten only
/// where it was idle for longer than `IDLE_RESET_NS`).
pub proof fn lemma_refused_acquire_keeps_counts(
    m: Map<u128, PerIpEntry>,
    g: usize,
    max_g: usize,
    max_ip: usize,
    ip: u128,
    now_ns: u64,
)
    requires
        !acquire_model(m, g, max_g, max_ip, ip, now_ns).2,
    ensures
        acquire_model(m, g, max_g, max_ip, ip, now_ns).1 == g,
        forall|k: u128|
            k != ip ==> (#[trigger] acquire_model(m, g, max_g, max_ip, ip, now_ns).0.contains_key(k) == m.contains_key(k))
                && (m.contains_key(k) ==> acquire_model(m, g, max_g, max_ip, ip, now_ns).0[k] == m[k]),
        g < max_g ==> acquire_model(m, g, max_g, max_ip, ip, now_ns).0[ip].count == entry_at(m, ip, now_ns).count,
        g >= max_g ==> acquire_model(m, g, max_g, max_ip, ip, now_ns).0 == m,
{
}

/// The admission rule for one address, stated over the stored entries: with
/// all `max_g` connections taken nothing is admitted; otherwise an address
/// never seen, or idle for more than five minutes (300 s) since its last
/// admission, is admitted exactly when `max_ip` is positive, and one seen
/// within the last five minutes exactly when it holds fewer than `max_ip`
/// connections. An admission counts one more connection globally and for
/// the address, seen now.
pub proof fn lemma_admission_rule(
    m: Map<u128, PerIpEntry>,
    g: usize,
    max_g: usize,
    max_ip: usize,
    ip: u128,
    now_ns: u64,
)
    ensures
        ({
            let a = acquire_model(m, g, max_g, max_ip, ip, now_ns);
            &&& g >= max_g ==> !a.2
            &&& (g < max_g && !m.contains_key(ip)) ==> (a.2 <==> max_ip > 0)
            &&& (g < max_g && m.contains_key(ip) && now_ns > m[ip].last_seen_ns + 300_000_000_000int) ==> (a.2
                <==> max_ip > 0)
            &&& (g < max_g && m.contains_key(ip) && now_ns <= m[ip].last_seen_ns + 300_000_000_000int) ==> (a.2
                <==> m[ip].count < max_ip)
            &&& a.2 ==> a.1 == g + 1 && a.0.contains_key(ip) && a.0[ip].last_seen_ns == now_ns && a.0[ip].count
                == 1 + if m.contains_key(ip) && now_ns <= m[ip].last_seen_ns + 300_000_000_000int {
                m[ip].count as int
            } else {
                0int
            }
        }),
{
}

/// Bounds on all connections and on those of each address.
pub struct ConnectionLimiter {
    max_global: usize,
    max_per_ip: usize,
    per_ip: HashMap<u128, PerIpEntry>,
    global_count: usize,
}

impl ConnectionLimiter {
    /// The bound on all connections.
    pub closed spec fn max_global(&self) -> usize {
        self.max_global
    }

    /// The bound on the connections of one address.
    pub closed spec fn max_per_ip(&self) -> usize {
        self.max_per_ip
    }

    /// The entries of the addresses seen so far.
    pub closed spec fn entries(&self) -> Map<u128, PerIpEntry> {
        self.per_ip@
    }

    /// The number of connections admitted and not yet released.
    pub closed spec fn global_count(&self) -> usize {
        self.global_count
    }

    /// A limiter with the given bounds and no connections.
    pub fn new(max_connections: usize, max_per_ip: usize) -> (r: ConnectionLimiter)
        ensures
            r.max_global() == max_connections,
            r.max_per_ip() == max_per_ip,
            r.entries() == Map::<u128, PerIpEntry>::empty(),
            r.global_count() == 0,
    {
        ConnectionLimiter { max_global: max_connections, max_per_ip, per_ip: HashMap::new(), global_count: 0 }
    }

    /// Admits a connection from `ip` at clock reading `now_ns`, or refuses it
    /// where all connections are at their bound or the address's are. Past the
    /// global check the address's entry is stored (fresh, or with its count
    /// forgotten after an idle spell) even when the connection is refused.
    pub fn acquire(&mut self, ip: u128, now_ns: u64) -> (r: Result<(), ()>)
        ensures
            final(self).max_global() == old(self).max_global(),
            final(self).max_per_ip() == old(self).max_per_ip(),
            old(self).global_count() >= old(self).max_global() ==> r is Err && *final(self) == *old(self),
            old(self).global_count() <= old(self).max_global() ==> final(self).global_count()
                <= final(self).max_global(),
            (forall|k: u128|
                #[trigger] old(self).entries().contains_key(k) ==> old(self).entries()[k].count
                    <= old(self).max_per_ip()) ==> (forall|k: u128|
                #[trigger] final(self).entries().contains_key(k) ==> final(self).entries()[k].count
                    <= final(self).max_per_ip()),
            (final(self).entries(), final(self).global_count(), r is Ok) == acquire_model(
                old(self).entries(),
                old(self).global_count(),
                old(self).max_global(),
                old(self).max_per_ip(),
                ip,
                now_ns,
            ),
            old(self).global_count() < old(self).max_global() ==> {
                let e = entry_at(old(self).entries(), ip, now_ns);
                if e.count < old(self).max_per_ip() {
                    &&& r is Ok
                    &&& final(self).entries() == old(self).entries().insert(
                        ip,
                        PerIpEntry { count: (e.count + 1) as usize, last_seen_ns: now_ns },
                    )
                    &&& final(self).global_count() == old(self).global_count() + 1
                } else {
                    &&& r is Err
                    &&& final(self).entries() == old(self).entries().insert(ip, e)
                    &&& final(self).global_count() == old(self).global_count()
                }
            },
    {
        if self.global_count >= self.max_global {
            return Err(());
        }
        let stored = match self.per_ip.get(&ip) {
            Some(e) => *e,
            None => PerIpEntry { count: 0, last_seen_ns: now_ns },
        };
        let idle = if now_ns >= stored.last_seen_ns {
            now_ns - stored.last_seen_ns
        } else {
            0
        };
        let entry = if idle > IDLE_RESET_NS {
            PerIpEntry { count: 0, last_seen_ns: stored.last_seen_ns }
        } else {
            stored
        };
        assert(entry == entry_at(self.per_ip@, ip, now_ns));
        if entry.count >= self.max_per_ip {
            self.per_ip.insert(ip, entry);
            return Err(());
        }
        self.per_ip.insert(ip, PerIpEntry { count: entry.count + 1, last_seen_ns: now_ns });
        self.global_count = self.global_count + 1;
        Ok(())
    }

    /// Releases a connection of `ip`: the global count goes down by one
    /// (wrapping, as an atomic subtraction does) and the address's count by
    /// one, not below zero.
    pub fn release(&mut self, ip: u128)
        ensures
            final(self).max_global() == old(self).max_global(),
            final(self).max_per_ip() == old(self).max_per_ip(),
            final(self).global_count() == released_count(old(self).global_count()),
            final(self).entries() == released_entries(old(self).entries(), ip),
    {
        self.global_count = if self.global_count == 0 {
            usize::MAX
        } else {
            self.global_count - 1
        };
        match self.per_ip.get(&ip) {
            Some(e) => {
                let entry = *e;
                let count = if entry.count == 0 {
                    0
                } else {
                    entry.count - 1
                };
                self.per_ip.insert(ip, PerIpEntry { count, last_seen_ns: entry.last_seen_ns });
            },
            None => {},
        }
    }
}

} // verus!
