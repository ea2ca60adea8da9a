//! When the server reacts to a change, and when it stops.

use vstd::hash_map::StringHashMap;
use vstd::prelude::*;

use crate::paths::{join_native, parent_of};
#[allow(unused_imports)]
use crate::paths::{joined_native, parent};
use crate::text::{chars_of, concat, decimal_of, owned, parse_u32, string_of};
#[allow(unused_imports)]
use crate::text::{decimal, digits_value, opt_str, parse_decimal};

verus! {

/// The port that the server listens on unless told otherwise.
pub const DEFAULT_PORT: u16 = 30110;

/// How long a further change of a file is left alone, in nanoseconds.
pub const WATCH_DEBOUNCE_NANOS: u64 = 50_000_000;

/// How often the clients are looked at, in seconds.
pub const CLIENT_CHECK_INTERVAL_SECS: u64 = 60;

/// How long the server goes on without clients, in nanoseconds.
pub const IDLE_SHUTDOWN_NANOS: u64 = 600_000_000_000;

// ---------------------------------------------------------------------------
// Arguments
// ---------------------------------------------------------------------------
/// The port that a text names, or the default one.
pub open spec fn port_of(arg: Option<Seq<char>>) -> u16 {
    match arg {
        Some(s) => match parse_decimal(s, u16::MAX as nat) {
            Some(n) => n as u16,
            None => DEFAULT_PORT,
        },
        None => DEFAULT_PORT,
    }
}

proof fn lemma_smaller_limit(s: Seq<char>, from: int, acc: nat)
    requires
        0 <= from <= s.len(),
        acc <= u16::MAX,
    ensures
        digits_value(s, from, acc, u16::MAX as nat) == (match digits_value(
            s,
            from,
            acc,
            u32::MAX as nat,
        ) {
            Some(n) if n <= u16::MAX => Some(n),
            _ => None,
        }),
    decreases s.len() - from,
{
    if from < s.len() && crate::text::digit(s[from]) {
        let next = acc * 10 + ((s[from] as u32) - ('0' as u32)) as nat;
        if next <= u16::MAX {
            lemma_smaller_limit(s, from + 1, next);
        } else {
            lemma_grows(s, from + 1, next);
        }
    }
}

proof fn lemma_grows(s: Seq<char>, from: int, acc: nat)
    requires
        0 <= from <= s.len(),
    ensures
        match digits_value(s, from, acc, u32::MAX as nat) {
            Some(n) => n >= acc,
            None => true,
        },
    decreases s.len() - from,
{
    if from < s.len() && crate::text::digit(s[from]) {
        let next = acc * 10 + ((s[from] as u32) - ('0' as u32)) as nat;
        lemma_grows(s, from + 1, next);
    }
}

/// The port that a text names, or the default one.
pub fn parse_port(arg: Option<&str>) -> (r: u16)
    ensures
        r == port_of(opt_str(arg)),
{
    match arg {
        Some(s) => {
            let v = chars_of(s);
            proof {
                if s@.len() > 0 {
                    lemma_smaller_limit(s@, 0, 0);
                    lemma_smaller_limit(s@, 1, 0);
                }
            }
            match parse_u32(v.as_slice()) {
                Some(n) => {
                    if n <= 65535 {
                        n as u16
                    } else {
                        DEFAULT_PORT
                    }
                },
                None => DEFAULT_PORT,
            }
        },
        None => DEFAULT_PORT,
    }
}

/// The address of the server.
pub fn server_addr(port: u16) -> (r: String)
    ensures
        r@ == "127.0.0.1:"@ + decimal(port as nat),
{
    let d = string_of(decimal_of(port as u64).as_slice());
    concat("127.0.0.1:", d.as_str())
}

/// Where the server writes its log: beside the list of its projects, or where it
/// was started.
pub fn log_path(registry: Option<&str>, windows: bool) -> (r: String)
    ensures
        r@ == (match registry {
            Some(p) => joined_native(
                match parent(p@, windows) {
                    Some(d) => d,
                    None => "."@,
                },
                "u_scanner.log"@,
                windows,
            ),
            None => "u_scanner.log"@,
        }),
{
    match registry {
        Some(p) => {
            let v = chars_of(p);
            let dir = match parent_of(v.as_slice(), windows) {
                Some(d) => string_of(d),
                None => owned("."),
            };
            join_native(dir.as_str(), "u_scanner.log", windows)
        },
        None => owned("u_scanner.log"),
    }
}

// ---------------------------------------------------------------------------
// Changes
// ---------------------------------------------------------------------------
/// The change comes too soon after one that was taken.
pub open spec fn too_soon(seen: Map<Seq<char>, u64>, path: Seq<char>, now: u64) -> bool {
    seen.contains_key(path) && now - seen[path] < WATCH_DEBOUNCE_NANOS
}

/// When each path was last taken, once the change was looked at.
pub open spec fn after_change(seen: Map<Seq<char>, u64>, path: Seq<char>, now: u64) -> Map<
    Seq<char>,
    u64,
> {
    if too_soon(seen, path, now) {
        seen
    } else {
        seen.insert(path, now)
    }
}

/// When the changes of each path were last taken, in nanoseconds since the server
/// started.
pub struct Debounce {
    last_seen: StringHashMap<u64>,
}

impl View for Debounce {
    type V = Map<Seq<char>, u64>;

    closed spec fn view(&self) -> Map<Seq<char>, u64> {
        self.last_seen@
    }
}

impl Debounce {
    /// Nothing was taken yet.
    pub fn new() -> (r: Debounce)
        ensures
            r@ == Map::<Seq<char>, u64>::empty(),
    {
        Debounce { last_seen: StringHashMap::new() }
    }

    /// Whether a change at the time `now` is left alone, because another of the same
    /// path was taken just before; else it is noted.
    pub fn should_skip_by_debounce(&mut self, path: &str, now: u64) -> (r: bool)
        ensures
            r == too_soon(old(self)@, path@, now),
            final(self)@ == after_change(old(self)@, path@, now),
    {
        match self.last_seen.get(path) {
            Some(last) => {
                let last: u64 = *last;
                let elapsed: u64 = if now >= last {
                    now - last
                } else {
                    0
                };
                if elapsed < WATCH_DEBOUNCE_NANOS {
                    return true;
                }
            },
            None => {},
        }
        self.last_seen.insert(owned(path), now);
        false
    }
}

/// Two changes of one path that are both taken lie at least the given time apart,
/// and changes of other paths make no difference.
pub proof fn law_taken_changes_lie_apart(
    seen: Map<Seq<char>, u64>,
    path: Seq<char>,
    other: Seq<char>,
    first: u64,
    between: u64,
    second: u64,
)
    requires
        other != path,
        !too_soon(seen, path, first),
    ensures
        ({
            let a = after_change(seen, path, first);
            let b = after_change(a, other, between);
            &&& too_soon(b, path, second) == (second - first < WATCH_DEBOUNCE_NANOS)
            &&& too_soon(a, other, between) == too_soon(seen, other, between)
        }),
{
}

// ---------------------------------------------------------------------------
// Clients
// ---------------------------------------------------------------------------
/// The processes that use the server, and when it was last of use, in nanoseconds
/// since it started.
#[derive(Debug, Clone)]
pub struct Clients {
    pub pids: Vec<u32>,
    pub last_activity: u64,
}

/// The first `n` processes that still run.
pub open spec fn running(pids: Seq<u32>, alive: Seq<u32>, n: int) -> Seq<u32>
    decreases n,
{
    if n <= 0 {
        seq![]
    } else if alive.contains(pids[n - 1]) {
        running(pids, alive, n - 1).push(pids[n - 1])
    } else {
        running(pids, alive, n - 1)
    }
}

/// Whether the number is in the list.
fn has_pid(list: &Vec<u32>, pid: u32) -> (r: bool)
    ensures
        r == list@.contains(pid),
{
    let mut i: usize = 0;
    while i < list.len()
        invariant
            i <= list@.len(),
            forall|j: int| 0 <= j < i ==> list@[j] != pid,
        decreases list.len() - i,
    {
        if list[i] == pid {
            return true;
        }
        i = i + 1;
    }
    false
}

impl Clients {
    /// No process is listed twice.
    pub open spec fn wf(self) -> bool {
        self.pids@.no_duplicates()
    }

    /// No clients yet.
    pub fn new(now: u64) -> (r: Clients)
        ensures
            r.wf(),
            r.pids@.len() == 0,
            r.last_activity == now,
    {
        Clients { pids: Vec::new(), last_activity: now }
    }

    /// Lists a client. Whether it is a new one.
    pub fn register_client(&mut self, pid: u32, now: u64) -> (r: bool)
        requires
            old(self).wf(),
        ensures
            final(self).wf(),
            r == !old(self).pids@.contains(pid),
            final(self).pids@ == (if r {
                old(self).pids@.push(pid)
            } else {
                old(self).pids@
            }),
            final(self).last_activity == now,
    {
        self.last_activity = now;
        if has_pid(&self.pids, pid) {
            false
        } else {
            self.pids.push(pid);
            true
        }
    }

    /// Drops the clients that do not run any more.
    pub fn remove_dead_clients(&mut self, alive: &Vec<u32>)
        requires
            old(self).wf(),
        ensures
            final(self).wf(),
            final(self).pids@ == running(old(self).pids@, alive@, old(self).pids@.len() as int),
            final(self).last_activity == old(self).last_activity,
    {
        let ghost all = self.pids@;
        let mut kept: Vec<u32> = Vec::new();
        let mut i: usize = 0;
        while i < self.pids.len()
            invariant
                i <= all.len(),
                self.pids@ == all,
                self.last_activity == old(self).last_activity,
                kept@ == running(all, alive@, i as int),
            decreases self.pids.len() - i,
        {
            if has_pid(alive, self.pids[i]) {
                kept.push(self.pids[i]);
            }
            i = i + 1;
        }
        proof {
            lemma_running(all, alive@, all.len() as int);
        }
        self.pids = kept;
    }

    /// Whether the server stops: it has no clients, and has not had any for long.
    /// With clients it counts as in use now.
    pub fn should_shutdown_for_idle(&mut self, now: u64) -> (r: bool)
        ensures
            final(self).pids@ == old(self).pids@,
            r == (old(self).pids@.len() == 0 && now - old(self).last_activity
                > IDLE_SHUTDOWN_NANOS),
            final(self).last_activity == (if old(self).pids@.len() == 0 {
                old(self).last_activity
            } else {
                now
            }),
    {
        if self.pids.len() == 0 {
            now >= self.last_activity && now - self.last_activity > IDLE_SHUTDOWN_NANOS
        } else {
            self.last_activity = now;
            false
        }
    }
}

proof fn lemma_running(pids: Seq<u32>, alive: Seq<u32>, n: int)
    requires
        pids.no_duplicates(),
        0 <= n <= pids.len(),
    ensures
        running(pids, alive, n).no_duplicates(),
        forall|p: u32| #[trigger]
            running(pids, alive, n).contains(p) <==> pids.take(n).contains(p) && alive.contains(p),
    decreases n,
{
    if n > 0 {
        lemma_running(pids, alive, n - 1);
        let before = running(pids, alive, n - 1);
        let after = running(pids, alive, n);
        let last = pids[n - 1];
        let few = pids.take(n - 1);
        let more = pids.take(n);
        assert(more =~= few.push(last));
        assert(!few.contains(last)) by {
            if few.contains(last) {
                let k = choose|k: int| 0 <= k < few.len() && few[k] == last;
                assert(pids[k] == pids[n - 1]);
            }
        }
        assert(!before.contains(last));
        assert forall|p: u32| #[trigger] after.contains(p) <==> more.contains(p) && alive.contains(
            p,
        ) by {
            if after.contains(p) && p != last {
                let k = choose|k: int| 0 <= k < after.len() && after[k] == p;
                assert(before[k] == p);
                assert(before.contains(p));
                let m = choose|m: int| 0 <= m < few.len() && few[m] == p;
                assert(more[m] == p);
            }
            if after.contains(p) && p == last {
                assert(more[n - 1] == p);
                assert(alive.contains(p)) by {
                    if !alive.contains(last) {
                        assert(before.contains(p));
                    }
                }
            }
            if more.contains(p) && alive.contains(p) {
                if p == last {
                    assert(after[after.len() - 1] == p);
                } else {
                    let m = choose|m: int| 0 <= m < more.len() && more[m] == p;
                    assert(few[m] == p);
                    assert(before.contains(p));
                    let k = choose|k: int| 0 <= k < before.len() && before[k] == p;
                    assert(after[k] == p);
                }
            }
        }
    } else {
        assert forall|p: u32| !pids.take(0).contains(p) by {}
    }
}

/// A client stays listed exactly while it runs.
pub proof fn law_only_running_clients_stay(pids: Seq<u32>, alive: Seq<u32>, pid: u32)
    requires
        pids.no_duplicates(),
    ensures
        running(pids, alive, pids.len() as int).contains(pid) <==> pids.contains(pid)
            && alive.contains(pid),
{
    lemma_running(pids, alive, pids.len() as int);
    assert(pids.take(pids.len() as int) =~= pids);
}

} // verus!
