//! A per-key sliding-window rate limiter.
//!
//! Each key owns a fixed-length histogram of buckets. A bucket covers one
//! `interval`; the first bucket is the one that began at the entry's `earlier`
//! moment. Charging a key first ages its histogram to the present, then adds
//! the ticket to the first bucket unless the whole window would exceed the
//! configured capacity.
//!
//! Moments and intervals are plain nanosecond counts. A limiter measures
//! moments from the instant it was built.
use std::collections::BTreeMap;
use std::time::Duration;
use std::time::Instant;
use vstd::prelude::*;
use vstd::std_specs::cmp::OrdSpec;
use vstd::std_specs::iter::IteratorSpec;

verus! {

/// The integer cost charged against a rate-limit bucket.
pub type Ticket = u16;

/// The answer to a charge that would push a key's window over its capacity.
#[derive(Debug, PartialEq, Eq, Structural)]
pub struct OverLimit;

/// What a limiter is built from.
#[derive(Debug)]
pub struct Options {
    /// maximum ticket count for each entry
    pub capacity: Ticket,
    /// ticket amounts are not tracked at each moment, but
    /// instead histogram'd into buckets of `interval` nanoseconds
    pub interval: u64,
    /// number of buckets in each entry's window
    pub length: usize,
}

impl Default for Options {
    fn default() -> (o: Self)
        ensures
            o.capacity == 1,
            o.interval == 1_000_000_000,
            o.length == 5,
    {
        Options { capacity: 1, interval: 1_000_000_000, length: 5 }
    }
}

/// The sum of all buckets of a histogram.
pub open spec fn total(tickets: Seq<Ticket>) -> nat
    decreases tickets.len(),
{
    if tickets.len() == 0 {
        0
    } else {
        total(tickets.drop_last()) + tickets.last() as nat
    }
}

/// A histogram of `n` empty buckets.
pub open spec fn empty_buckets(n: nat) -> Seq<Ticket> {
    Seq::new(n, |j: int| 0u16)
}

/// A histogram moved `by` buckets towards the past: the first `by` buckets
/// are fresh and empty, the rest hold what stood `by` places before them, and
/// what was older than the window is forgotten.
pub open spec fn shifted(tickets: Seq<Ticket>, by: nat) -> Seq<Ticket> {
    Seq::new(
        tickets.len(),
        |j: int|
            if j < by {
                0u16
            } else {
                tickets[j - by]
            },
    )
}

/// The mathematical content of one key's entry.
pub struct Window {
    /// the moment at which the first bucket began
    pub earlier: u64,
    /// the first element is the bucket beginning at `earlier`
    pub tickets: Seq<Ticket>,
}

/// How many whole intervals lie between the start of the window and `now`.
pub open spec fn elapsed_buckets(w: Window, now: u64, interval: u64) -> nat {
    if interval == 0 || now < w.earlier {
        0
    } else {
        ((now - w.earlier) / (interval as int)) as nat
    }
}

/// The window as it stands once it has been aged to `now`.
pub open spec fn upkept(w: Window, now: u64, interval: u64) -> Window {
    let by = elapsed_buckets(w, now, interval);
    if by == 0 {
        w
    } else if by < w.tickets.len() {
        Window { earlier: (w.earlier + by * interval) as u64, tickets: shifted(w.tickets, by) }
    } else {
        Window { earlier: now, tickets: empty_buckets(w.tickets.len()) }
    }
}

/// Whether a window is worth keeping once aged to `now`: one that did not
/// need ageing always is, one that did only while it still holds tickets.
pub open spec fn kept(w: Window, now: u64, interval: u64) -> bool {
    elapsed_buckets(w, now, interval) == 0 || total(upkept(w, now, interval).tickets) > 0
}

/// Whether a charge of `value` fits into the window.
pub open spec fn fits(w: Window, value: Ticket, capacity: Ticket) -> bool {
    w.tickets.len() > 0 && total(w.tickets) + value <= capacity
}

/// The window after a charge of `value`: the ticket lands in the first
/// bucket when it fits, and nothing changes when it does not.
pub open spec fn charged(w: Window, value: Ticket, capacity: Ticket) -> Window {
    if fits(w, value, capacity) {
        Window {
            earlier: w.earlier,
            tickets: w.tickets.update(0, (w.tickets[0] + value) as u16),
        }
    } else {
        w
    }
}

/// The end of the first bucket of a window beginning at `earlier`, held at
/// the largest moment when it would lie beyond it.
pub open spec fn upkeep_due(earlier: u64, interval: u64) -> u64 {
    if earlier + interval <= u64::MAX {
        (earlier + interval) as u64
    } else {
        u64::MAX
    }
}

proof fn lemma_total_concat(a: Seq<Ticket>, b: Seq<Ticket>)
    ensures
        total(a + b) == total(a) + total(b),
    decreases b.len(),
{
    if b.len() == 0 {
        assert(a + b =~= a);
    } else {
        lemma_total_concat(a, b.drop_last());
        assert((a + b).drop_last() =~= a + b.drop_last());
    }
}

proof fn lemma_total_empty(n: nat)
    ensures
        total(empty_buckets(n)) == 0,
    decreases n,
{
    if n > 0 {
        lemma_total_empty((n - 1) as nat);
        assert(empty_buckets(n).drop_last() =~= empty_buckets((n - 1) as nat));
    }
}

/// Ageing a histogram never adds tickets to it.
proof fn lemma_total_shifted(tickets: Seq<Ticket>, by: nat)
    requires
        by <= tickets.len(),
    ensures
        total(shifted(tickets, by)) == total(tickets.subrange(0, tickets.len() - by)),
        total(shifted(tickets, by)) <= total(tickets),
{
    let n = tickets.len();
    let head = tickets.subrange(0, n - by);
    let tail = tickets.subrange(n - by, n as int);
    assert(shifted(tickets, by) =~= empty_buckets(by) + head);
    lemma_total_concat(empty_buckets(by), head);
    lemma_total_empty(by);
    assert(tickets =~= head + tail);
    lemma_total_concat(head, tail);
}

/// Each bucket holds no more than the whole histogram.
proof fn lemma_total_bounds_each(tickets: Seq<Ticket>, j: int)
    requires
        0 <= j < tickets.len(),
    ensures
        tickets[j] <= total(tickets),
    decreases tickets.len(),
{
    if j < tickets.len() - 1 {
        lemma_total_bounds_each(tickets.drop_last(), j);
    }
}

proof fn lemma_total_update(tickets: Seq<Ticket>, j: int, v: Ticket)
    requires
        0 <= j < tickets.len(),
    ensures
        total(tickets.update(j, v)) == total(tickets) - tickets[j] + v,
    decreases tickets.len(),
{
    if j < tickets.len() - 1 {
        lemma_total_update(tickets.drop_last(), j, v);
        assert(tickets.update(j, v).drop_last() =~= tickets.drop_last().update(j, v));
    } else {
        assert(tickets.update(j, v).drop_last() =~= tickets.drop_last());
    }
}

/// One key's window: a histogram of tickets and the moment its first bucket
/// began.
#[derive(Debug)]
pub struct Entry {
    earlier: u64,
    /* the first element of `tickets` is for the bucket beginning at `earlier` */
    tickets: Vec<Ticket>,
    /* optimization; derived from earlier + Options.interval */
    next_upkeep: u64,
}

impl View for Entry {
    type V = Window;

    closed spec fn view(&self) -> Window {
        Window { earlier: self.earlier, tickets: self.tickets@ }
    }
}

impl Entry {
    /// An entry made with `o` has one bucket per configured place, never
    /// holds more than the capacity, and knows when its first bucket ends.
    pub closed spec fn wf(&self, o: &Options) -> bool {
        &&& self.tickets@.len() == o.length
        &&& total(self.tickets@) <= o.capacity
        &&& self.next_upkeep == upkeep_due(self.earlier, o.interval)
    }

    /// The moment from which this entry needs ageing.
    pub closed spec fn due(&self) -> u64 {
        self.next_upkeep
    }

    pub proof fn lemma_wf(&self, o: &Options)
        requires
            self.wf(o),
        ensures
            self@.tickets.len() == o.length,
            total(self@.tickets) <= o.capacity,
            self.due() == upkeep_due(self@.earlier, o.interval),
    {
    }

    /// The sum of all buckets, or `None` where it does not fit a `Ticket`.
    pub fn sum(&self) -> (r: Option<Ticket>)
        ensures
            r == (if total(self@.tickets) <= Ticket::MAX {
                Some(total(self@.tickets) as Ticket)
            } else {
                None
            }),
    {
        let mut acc: Ticket = 0;
        let mut j: usize = 0;
        while j < self.tickets.len()
            invariant
                j <= self.tickets@.len(),
                acc == total(self.tickets@.subrange(0, j as int)),
            decreases self.tickets@.len() - j,
        {
            proof {
                let next = self.tickets@.subrange(0, j + 1);
                assert(next.drop_last() =~= self.tickets@.subrange(0, j as int));
                let rest = self.tickets@.subrange(j + 1, self.tickets@.len() as int);
                assert(self.tickets@ =~= next + rest);
                lemma_total_concat(next, rest);
            }
            match acc.checked_add(self.tickets[j]) {
                Some(n) => acc = n,
                None => return None,
            }
            j += 1;
        }
        assert(self.tickets@.subrange(0, j as int) =~= self.tickets@);
        Some(acc)
    }

    /// Charges `value` to the first bucket unless the window would exceed the
    /// capacity.
    pub fn add(&mut self, value: Ticket, o: &Options) -> (r: Result<(), OverLimit>)
        requires
            old(self).wf(o),
        ensures
            final(self).wf(o),
            r is Ok <==> fits(old(self)@, value, o.capacity),
            final(self)@ == charged(old(self)@, value, o.capacity),
    {
        match self.sum() {
            Some(sum) => match sum.checked_add(value) {
                Some(n) => {
                    if n > o.capacity {
                        return Err(OverLimit);
                    }
                },
                None => return Err(OverLimit),
            },
            None => return Err(OverLimit),
        }
        if self.tickets.len() == 0 {
            return Err(OverLimit);
        }
        proof {
            lemma_total_bounds_each(self.tickets@, 0);
            lemma_total_update(self.tickets@, 0, (self.tickets@[0] + value) as u16);
        }
        let first = self.tickets[0];
        self.tickets.set(0, first + value);
        Ok(())
    }

    /// Ages the window to `now`: moves the histogram towards the past by the
    /// number of whole intervals that went by, and says whether the entry is
    /// still worth keeping.
    pub fn upkeep(&mut self, now: u64, o: &Options) -> (keep: bool)
        requires
            old(self).wf(o),
        ensures
            final(self).wf(o),
            final(self)@ == upkept(old(self)@, now, o.interval),
            keep == kept(old(self)@, now, o.interval),
    {
        if now < self.next_upkeep {
            assert(elapsed_buckets(self@, now, o.interval) == 0) by {
                if o.interval > 0 && now >= self.earlier {
                    lemma_div_small((now - self.earlier) as int, o.interval as int);
                }
            }
            return true;
        }
        if o.interval == 0 || now < self.earlier {
            return true;
        }
        let by: u64 = (now - self.earlier) / o.interval;
        if by == 0 {
            return true;
        }
        let n = self.tickets.len();
        let ghost before = self.tickets@;
        let earlier = self.earlier;
        if by < n as u64 {
            let by_us: usize = by as usize;
            let mut j: usize = n;
            while j > by_us
                invariant
                    by_us <= j <= n,
                    n == before.len(),
                    self.tickets@.len() == n,
                    self.earlier == earlier,
                    forall|k: int| 0 <= k < j ==> self.tickets@[k] == before[k],
                    forall|k: int| j <= k < n ==> self.tickets@[k] == before[k - by_us],
                decreases j,
            {
                j -= 1;
                let v = self.tickets[j - by_us];
                self.tickets.set(j, v);
            }
            let mut z: usize = 0;
            while z < by_us
                invariant
                    z <= by_us < n,
                    n == before.len(),
                    self.tickets@.len() == n,
                    self.earlier == earlier,
                    forall|k: int| 0 <= k < z ==> self.tickets@[k] == 0,
                    forall|k: int| by_us <= k < n ==> self.tickets@[k] == before[k - by_us],
                decreases by_us - z,
            {
                self.tickets.set(z, 0);
                z += 1;
            }
            proof {
                assert(self.tickets@ =~= shifted(before, by as nat));
                lemma_total_shifted(before, by as nat);
                lemma_div_bound((now - earlier) as int, o.interval as int);
            }
            self.earlier = earlier + by * o.interval;
            self.next_upkeep = self.earlier.saturating_add(o.interval);
        } else {
            let mut z: usize = 0;
            while z < n
                invariant
                    z <= n,
                    self.tickets@.len() == n,
                    forall|k: int| 0 <= k < z ==> self.tickets@[k] == 0,
                decreases n - z,
            {
                self.tickets.set(z, 0);
                z += 1;
            }
            proof {
                assert(self.tickets@ =~= empty_buckets(n as nat));
                lemma_total_empty(n as nat);
            }
            self.earlier = now;
            self.next_upkeep = self.earlier.saturating_add(o.interval);
        }
        match self.sum() {
            Some(sum) => sum > 0,
            None => false,
        }
    }
}

impl Options {
    /// A fresh entry whose window begins at `earlier`, with every bucket
    /// empty.
    pub fn _new_entry(&self, earlier: u64) -> (e: Entry)
        ensures
            e.wf(self),
            e@ == (Window { earlier, tickets: empty_buckets(self.length as nat) }),
    {
        let mut tickets: Vec<Ticket> = Vec::new();
        let mut j: usize = 0;
        while j < self.length
            invariant
                j <= self.length,
                tickets@.len() == j,
                forall|k: int| 0 <= k < j ==> tickets@[k] == 0,
            decreases self.length - j,
        {
            tickets.push(0);
            j += 1;
        }
        proof {
            assert(tickets@ =~= empty_buckets(self.length as nat));
            lemma_total_empty(self.length as nat);
        }
        Entry { earlier, next_upkeep: earlier.saturating_add(self.interval), tickets }
    }
}

/// A quotient is zero where the dividend is below the divisor.
proof fn lemma_div_small(a: int, d: int)
    requires
        0 <= a < d,
    ensures
        a / d == 0,
{
    vstd::arithmetic::div_mod::lemma_basic_div(a, d);
}

/// A quotient times its divisor does not exceed the dividend.
proof fn lemma_div_bound(a: int, d: int)
    requires
        0 <= a,
        0 < d,
    ensures
        0 <= (a / d) * d <= a,
        a / d <= a,
{
    vstd::arithmetic::div_mod::lemma_fundamental_div_mod(a, d);
    vstd::arithmetic::div_mod::lemma_mod_bound(a, d);
    vstd::arithmetic::div_mod::lemma_div_pos_is_pos(a, d);
    assert((a / d) * d == d * (a / d)) by (nonlinear_arith);
    assert(a / d <= (a / d) * d) by (nonlinear_arith)
        requires
            0 <= a / d,
            0 < d,
    ;
}

/// The moment type of the standard library, carried through as the origin
/// from which a limiter counts its nanoseconds.
#[verifier::external_type_specification]
#[verifier::external_body]
pub struct ExInstant(Instant);

/// `std::time::Instant::now`: the present moment. Nothing is claimed of it.
#[verifier::external_body]
fn instant_now() -> Instant {
    Instant::now()
}

/// `std::time::Instant::elapsed`: the time gone by since `origin`. Nothing is
/// claimed of it.
#[verifier::external_body]
fn elapsed_since(origin: &Instant) -> Duration {
    origin.elapsed()
}

/// `std::time::Duration::as_nanos`: the whole span in nanoseconds. Nothing is
/// claimed of it.
#[verifier::external_body]
fn whole_nanos(d: &Duration) -> u128 {
    d.as_nanos()
}

/// Every window aged to `now`, without those that decayed to nothing.
pub open spec fn aged(entries: Map<u128, Window>, now: u64, interval: u64) -> Map<u128, Window> {
    Map::new(
        |k: u128| entries.contains_key(k) && kept(entries[k], now, interval),
        |k: u128| upkept(entries[k], now, interval),
    )
}

/// The window that a charge to `key` at `now` meets: the key's own, aged,
/// or a fresh one beginning at `now`.
pub open spec fn window_at(entries: Map<u128, Window>, o: Options, key: u128, now: u64) -> Window {
    let present = aged(entries, now, o.interval);
    if present.contains_key(key) {
        present[key]
    } else {
        Window { earlier: now, tickets: empty_buckets(o.length as nat) }
    }
}

/// Whether a charge of `value` to `key` at `now` is accepted.
pub open spec fn accepts(
    entries: Map<u128, Window>,
    o: Options,
    key: u128,
    value: Ticket,
    now: u64,
) -> bool {
    fits(window_at(entries, o, key, now), value, o.capacity)
}

/// The table after a charge of `value` to `key` at `now`, accepted or not.
pub open spec fn after_add(
    entries: Map<u128, Window>,
    o: Options,
    key: u128,
    value: Ticket,
    now: u64,
) -> Map<u128, Window> {
    aged(entries, now, o.interval).insert(
        key,
        charged(window_at(entries, o, key, now), value, o.capacity),
    )
}

/// The table after the window of `key` was read at `now`.
pub open spec fn after_read(entries: Map<u128, Window>, o: Options, key: u128, now: u64) -> Map<
    u128,
    Window,
> {
    if entries.contains_key(key) {
        entries.insert(key, upkept(entries[key], now, o.interval))
    } else {
        entries
    }
}

/// What reading the window of `key` at `now` reports: the tickets still
/// inside it, or nothing for a key that has no entry.
pub open spec fn read_at(entries: Map<u128, Window>, o: Options, key: u128, now: u64) -> Option<
    Ticket,
> {
    if entries.contains_key(key) {
        Some(total(upkept(entries[key], now, o.interval).tickets) as Ticket)
    } else {
        None
    }
}

/// A table of windows, one per key.
#[derive(Debug)]
pub struct Rated {
    map: BTreeMap<u128, Entry>,
    opt: Options,
    /* optimization; no entry needs upkeep before this moment */
    next_retain: Option<u64>,
    /* moments are counted from here */
    origin: Instant,
}

impl View for Rated {
    type V = Map<u128, Window>;

    closed spec fn view(&self) -> Map<u128, Window> {
        self.map@.map_values(|e: Entry| e@)
    }
}

impl Rated {
    /// Every entry is well formed for the limiter's options, and none needs
    /// upkeep before the moment the limiter remembers.
    pub closed spec fn wf(&self) -> bool {
        forall|k: u128| #[trigger]
            self.map@.contains_key(k) ==> {
                &&& self.map@[k].wf(&self.opt)
                &&& self.next_retain is Some
                &&& self.next_retain->0 <= self.map@[k].due()
            }
    }

    /// The options that the limiter was built from.
    pub closed spec fn spec_options(&self) -> Options {
        self.opt
    }

    /// Every window of a well-formed limiter has one bucket per configured
    /// place and stays within the capacity.
    pub proof fn lemma_table_fits(&self)
        requires
            self.wf(),
        ensures
            table_fits(self@, self.spec_options()),
    {
        assert forall|k: u128| #[trigger] self@.contains_key(k) implies self@[k].tickets.len()
            == self.spec_options().length && total(self@[k].tickets)
            <= self.spec_options().capacity by {
            assert(self.map@.contains_key(k));
        }
    }

    /// The number of keys that have an entry.
    pub fn len(&self) -> (n: usize)
        ensures
            n == self@.len(),
            self@.dom().finite(),
    {
        proof {
            assert(self@.dom() =~= self.map@.dom());
        }
        self.map.len()
    }

    /// The options that the limiter was built from.
    pub fn options(&self) -> (o: &Options)
        ensures
            *o == self.spec_options(),
    {
        &self.opt
    }

    /// The keys that have an entry, each once, in increasing order.
    fn keys(&self) -> (out: Vec<u128>)
        ensures
            out@.no_duplicates(),
            forall|k: u128| out@.contains(k) <==> self.map@.contains_key(k),
            forall|i: int, j: int| 0 <= i < j < out@.len() ==> out@[i] < out@[j],
    {
        let mut out: Vec<u128> = Vec::new();
        for k in it: self.map.keys()
            invariant
                out@.len() == it.index(),
                forall|i: int| 0 <= i < out@.len() ==> out@[i] == *it.seq()[i],
                it.seq() == self.map.keys().remaining(),
        {
            out.push(*k);
        }
        proof {
            let ks = self.map.keys().remaining();
            assert(out@ =~= ks.unref());
            assert forall|k: u128| out@.contains(k) <==> self.map@.contains_key(k) by {
                assert(ks.unref().to_set().contains(k) <==> self.map@.dom().contains(k));
            }
            assert forall|i: int, j: int|
                0 <= i < out@.len() && 0 <= j < out@.len() && i != j implies out@[i] != out@[j] by {
                assert(ks[i] != ks[j]);
            }
            lemma_keys_increase(ks);
        }
        out
    }

    /// Ages every entry to `now` and drops those that decayed to nothing.
    fn retain_at(&mut self, now: u64)
        requires
            old(self).wf(),
        ensures
            final(self).wf(),
            final(self)@ == aged(old(self)@, now, old(self).spec_options().interval),
            final(self).spec_options() == old(self).spec_options(),
            final(self).next_retain == old(self).next_retain,
    {
        let keys = self.keys();
        let ghost before = self.map@;
        let mut idx: usize = 0;
        while idx < keys.len()
            invariant
                idx <= keys@.len(),
                keys@.no_duplicates(),
                forall|k: u128| keys@.contains(k) <==> before.contains_key(k),
                before == old(self).map@,
                old(self).wf(),
                self.opt == old(self).opt,
                self.next_retain == old(self).next_retain,
                forall|k: u128| #[trigger]
                    self.map@.contains_key(k) ==> before.contains_key(k),
                forall|k: u128|
                    before.contains_key(k) && !keys@.subrange(0, idx as int).contains(k)
                        ==> #[trigger] self.map@.contains_key(k) && self.map@[k] == before[k],
                forall|k: u128|
                    before.contains_key(k) && keys@.subrange(0, idx as int).contains(k) ==> {
                        &&& #[trigger] self.map@.contains_key(k) <==> kept(
                            before[k]@,
                            now,
                            self.opt.interval,
                        )
                        &&& self.map@.contains_key(k) ==> {
                            &&& self.map@[k]@ == upkept(before[k]@, now, self.opt.interval)
                            &&& self.map@[k].wf(&self.opt)
                            &&& before[k].due() <= self.map@[k].due()
                        }
                    },
            decreases keys@.len() - idx,
        {
            let k = keys[idx];
            proof {
                assert(keys@.contains(k));
                assert(!keys@.subrange(0, idx as int).contains(k)) by {
                    if keys@.subrange(0, idx as int).contains(k) {
                        let j = choose|j: int|
                            0 <= j < idx && keys@.subrange(0, idx as int)[j] == k;
                        assert(keys@[j] == keys@[idx as int]);
                    }
                }
                assert(self.map@.contains_key(k));
                assert(before.contains_key(k));
            }
            let ghost mid = self.map@;
            let removed = self.map.remove(&k);
            assert(self.map@ == mid.remove(k));
            assert(removed == Some(mid[k]));
            match removed {
                Some(mut e) => {
                    let keep = e.upkeep(now, &self.opt);
                    proof {
                        lemma_upkept_later(before[k]@, now, self.opt.interval);
                        before[k].lemma_wf(&self.opt);
                        e.lemma_wf(&self.opt);
                    }
                    if keep {
                        self.map.insert(k, e);
                    }
                },
                None => {},
            }
            proof {
                let done = keys@.subrange(0, idx as int);
                let next = keys@.subrange(0, idx + 1);
                assert forall|x: u128| x != k && mid.contains_key(x) implies self.map@.contains_key(
                    x,
                ) && self.map@[x] == mid[x] by {}
                assert forall|x: u128| next.contains(x) <==> (done.contains(x) || x == k) by {
                    if next.contains(x) {
                        let j = choose|j: int| 0 <= j < next.len() && next[j] == x;
                        if j < idx {
                            assert(done[j] == x);
                        }
                    }
                    if done.contains(x) {
                        let j = choose|j: int| 0 <= j < done.len() && done[j] == x;
                        assert(next[j] == x);
                    }
                    if x == k {
                        assert(next[idx as int] == x);
                    }
                }
            }
            idx += 1;
        }
        proof {
            assert(keys@.subrange(0, idx as int) =~= keys@);
            assert(self@ =~= aged(old(self)@, now, self.opt.interval));
        }
    }

    /// Every key with the tickets that its window holds as it stands, the
    /// keys in increasing order.
    pub fn entries(&self) -> (out: Vec<(u128, Ticket)>)
        requires
            self.wf(),
        ensures
            out@.len() == self@.len(),
            forall|i: int, j: int| 0 <= i < j < out@.len() ==> out@[i].0 < out@[j].0,
            forall|i: int|
                0 <= i < out@.len() ==> self@.contains_key((#[trigger] out@[i]).0) && out@[i].1
                    == total(self@[out@[i].0].tickets),
    {
        let keys = self.keys();
        let mut out: Vec<(u128, Ticket)> = Vec::new();
        let mut idx: usize = 0;
        while idx < keys.len()
            invariant
                idx <= keys@.len(),
                self.wf(),
                keys@.no_duplicates(),
                forall|k: u128| keys@.contains(k) <==> self.map@.contains_key(k),
                forall|i: int, j: int| 0 <= i < j < keys@.len() ==> keys@[i] < keys@[j],
                out@.len() == idx,
                forall|i: int| 0 <= i < idx ==> (#[trigger] out@[i]).0 == keys@[i],
                forall|i: int|
                    0 <= i < idx ==> self@.contains_key((#[trigger] out@[i]).0) && out@[i].1
                        == total(self@[out@[i].0].tickets),
            decreases keys@.len() - idx,
        {
            let k = keys[idx];
            assert(keys@.contains(k));
            match self.map.get(&k) {
                Some(e) => {
                    proof {
                        e.lemma_wf(&self.opt);
                    }
                    let sum = match e.sum() {
                        Some(sum) => sum,
                        None => 0,
                    };
                    out.push((k, sum));
                },
                None => {
                    proof {
                        assert(false);
                    }
                },
            }
            idx += 1;
        }
        proof {
            assert(self@.dom() =~= self.map@.dom());
            keys@.unique_seq_to_set();
            assert(keys@.to_set() =~= self.map@.dom());
        }
        out
    }

    /// The earliest moment at which an entry needs upkeep: the least of the
    /// entries' moments, and nothing for a table without entries.
    fn earliest_due(&self) -> (m: Option<u64>)
        ensures
            forall|k: u128| #[trigger]
                self.map@.contains_key(k) ==> m is Some && m->0 <= self.map@[k].due(),
            m matches Some(least) ==> exists|k: u128| #[trigger]
                self.map@.contains_key(k) && self.map@[k].due() == least,
    {
        let keys = self.keys();
        let mut m: Option<u64> = None;
        let mut idx: usize = 0;
        while idx < keys.len()
            invariant
                idx <= keys@.len(),
                forall|k: u128| keys@.contains(k) <==> self.map@.contains_key(k),
                forall|j: int|
                    0 <= j < idx ==> m is Some && m->0 <= self.map@[#[trigger] keys@[j]].due(),
                m matches Some(least) ==> exists|j: int|
                    0 <= j < idx && self.map@[#[trigger] keys@[j]].due() == least,
            decreases keys@.len() - idx,
        {
            let k = keys[idx];
            proof {
                assert(keys@.contains(k));
            }
            let ghost found = m;
            match self.map.get(&k) {
                Some(e) => {
                    m =
                    match m {
                        Some(least) => if e.next_upkeep < least {
                            Some(e.next_upkeep)
                        } else {
                            Some(least)
                        },
                        None => Some(e.next_upkeep),
                    };
                },
                None => {},
            }
            proof {
                if m is Some {
                    if m->0 == self.map@[keys@[idx as int]].due() {
                    } else {
                        let j = choose|j: int|
                            0 <= j < idx && self.map@[#[trigger] keys@[j]].due() == found->0;
                        assert(self.map@[keys@[j]].due() == m->0);
                    }
                }
            }
            idx += 1;
        }
        proof {
            assert forall|k: u128| #[trigger] self.map@.contains_key(k) implies m is Some && m->0
                <= self.map@[k].due() by {
                assert(keys@.contains(k));
                let j = choose|j: int| 0 <= j < keys@.len() && keys@[j] == k;
                assert(m->0 <= self.map@[keys@[j]].due());
            }
            if m is Some {
                let j = choose|j: int|
                    0 <= j < idx && self.map@[#[trigger] keys@[j]].due() == m->0;
                assert(keys@.contains(keys@[j]));
                assert(self.map@.contains_key(keys@[j]));
            }
        }
        m
    }

    /// Charges `value` to `key` at the moment `now`, counted in nanoseconds
    /// from the limiter's origin.
    ///
    /// `now` should not run backwards between calls: a moment before an
    /// entry's window leaves that window as it is.
    pub fn add_this_instant(&mut self, key: u128, value: Ticket, now: u64) -> (r: Result<
        (),
        OverLimit,
    >)
        requires
            old(self).wf(),
        ensures
            final(self).wf(),
            final(self).spec_options() == old(self).spec_options(),
            r is Ok <==> accepts(old(self)@, old(self).spec_options(), key, value, now),
            final(self)@ == after_add(old(self)@, old(self).spec_options(), key, value, now),
    {
        let due = match self.next_retain {
            Some(moment) => moment <= now,
            None => false,
        };
        if due {
            self.retain_at(now);
        } else {
            proof {
                assert forall|k: u128| #[trigger] self.map@.contains_key(k) implies kept(
                    self.map@[k]@,
                    now,
                    self.opt.interval,
                ) && upkept(self.map@[k]@, now, self.opt.interval) == self.map@[k]@ by {
                    self.map@[k].lemma_wf(&self.opt);
                    lemma_not_due(self.map@[k]@, now, self.opt.interval);
                }
                assert(self@ =~= aged(self@, now, self.opt.interval));
            }
        }
        let mut entry = match self.map.remove(&key) {
            Some(e) => e,
            None => self.opt._new_entry(now),
        };
        let r = entry.add(value, &self.opt);
        self.map.insert(key, entry);
        self.next_retain = self.earliest_due();
        proof {
            assert(self@ =~= after_add(
                old(self)@,
                old(self).spec_options(),
                key,
                value,
                now,
            ));
        }
        r
    }

    /// Charges `value` to `key` at the present moment.
    pub fn add(&mut self, key: u128, value: Ticket) -> (r: Result<(), OverLimit>)
        requires
            old(self).wf(),
        ensures
            final(self).wf(),
            final(self).spec_options() == old(self).spec_options(),
            exists|now: u64|
                {
                    &&& r is Ok <==> #[trigger] accepts(
                        old(self)@,
                        old(self).spec_options(),
                        key,
                        value,
                        now,
                    )
                    &&& final(self)@ == after_add(
                        old(self)@,
                        old(self).spec_options(),
                        key,
                        value,
                        now,
                    )
                },
            value > old(self).spec_options().capacity ==> r is Err,
            old(self).spec_options().length == 0 ==> r is Err,
            !old(self)@.contains_key(key) && old(self).spec_options().length > 0 && value <= old(
                self,
            ).spec_options().capacity ==> r is Ok,
            final(self)@.contains_key(key),
    {
        let now = self.now();
        proof {
            lemma_total_empty(self.spec_options().length as nat);
        }
        self.add_this_instant(key, value, now)
    }

    /// Ages the window of `key` to `now` and reports the tickets still inside
    /// it, or nothing for a key that has no entry.
    pub fn entry_sum_at(&mut self, key: &u128, now: u64) -> (r: Option<Ticket>)
        requires
            old(self).wf(),
        ensures
            final(self).wf(),
            final(self).spec_options() == old(self).spec_options(),
            r == read_at(old(self)@, old(self).spec_options(), *key, now),
            final(self)@ == after_read(old(self)@, old(self).spec_options(), *key, now),
    {
        let ghost before = self.map@;
        match self.map.remove(key) {
            Some(mut e) => {
                let _ = e.upkeep(now, &self.opt);
                let r = e.sum();
                proof {
                    lemma_upkept_later(before[*key]@, now, self.opt.interval);
                    before[*key].lemma_wf(&self.opt);
                    e.lemma_wf(&self.opt);
                }
                self.map.insert(*key, e);
                proof {
                    assert(self@ =~= after_read(old(self)@, self.opt, *key, now));
                }
                r
            },
            None => {
                proof {
                    assert(self.map@ =~= before);
                    assert(self@ =~= old(self)@);
                    assert(!old(self)@.contains_key(*key));
                }
                None
            },
        }
    }

    /// Ages the window of `key` to the present moment and reports the tickets
    /// still inside it.
    pub fn entry_sum(&mut self, key: &u128) -> (r: Option<Ticket>)
        requires
            old(self).wf(),
        ensures
            final(self).wf(),
            final(self).spec_options() == old(self).spec_options(),
            exists|now: u64|
                {
                    &&& r == #[trigger] read_at(old(self)@, old(self).spec_options(), *key, now)
                    &&& final(self)@ == after_read(
                        old(self)@,
                        old(self).spec_options(),
                        *key,
                        now,
                    )
                },
            r is Some <==> old(self)@.contains_key(*key),
    {
        let now = self.now();
        self.entry_sum_at(key, now)
    }

    /// The present moment in nanoseconds since the limiter's origin, held at
    /// the largest moment where it would lie beyond it.
    pub fn now(&self) -> u64 {
        let gone = elapsed_since(&self.origin);
        let nanos = whole_nanos(&gone);
        moment_of(nanos)
    }
}

/// The moment that lies `nanos` nanoseconds after a limiter's origin, held at
/// the largest moment where it would lie beyond it.
pub open spec fn spec_moment_of(nanos: u128) -> u64 {
    if nanos > u64::MAX {
        u64::MAX
    } else {
        nanos as u64
    }
}

/// The moment that lies `nanos` nanoseconds after a limiter's origin.
#[verifier::when_used_as_spec(spec_moment_of)]
pub fn moment_of(nanos: u128) -> (moment: u64)
    ensures
        moment == spec_moment_of(nanos),
{
    if nanos > 0xffff_ffff_ffff_ffff {
        u64::MAX
    } else {
        nanos as u64
    }
}

impl Options {
    /// A limiter with no entries, whose moments count from now.
    pub fn build(self) -> (r: Rated)
        ensures
            r.wf(),
            r@ == Map::<u128, Window>::empty(),
            r.spec_options() == self,
    {
        let r = Rated { map: BTreeMap::new(), opt: self, next_retain: None, origin: instant_now() };
        proof {
            assert(r@ =~= Map::<u128, Window>::empty());
        }
        r
    }
}

/// A window that is not yet due needs no ageing.
proof fn lemma_not_due(w: Window, now: u64, interval: u64)
    requires
        now < upkeep_due(w.earlier, interval),
    ensures
        elapsed_buckets(w, now, interval) == 0,
{
    if interval > 0 && now >= w.earlier {
        lemma_div_small((now - w.earlier) as int, interval as int);
    }
}

/// Ageing never moves the start of a window towards the past.
proof fn lemma_upkept_later(w: Window, now: u64, interval: u64)
    ensures
        w.earlier <= upkept(w, now, interval).earlier,
        upkeep_due(w.earlier, interval) <= upkeep_due(upkept(w, now, interval).earlier, interval),
{
    if interval > 0 && now >= w.earlier {
        lemma_div_bound((now - w.earlier) as int, interval as int);
    }
}

/// Every window of a table made with `o` has one bucket per configured
/// place and stays within the capacity.
pub open spec fn table_fits(entries: Map<u128, Window>, o: Options) -> bool {
    forall|k: u128| #[trigger]
        entries.contains_key(k) ==> entries[k].tickets.len() == o.length && total(
            entries[k].tickets,
        ) <= o.capacity
}

/// The window that a charge meets never begins after the moment of the charge,
/// provided the key's own window did not.
proof fn lemma_window_at_begins(entries: Map<u128, Window>, o: Options, key: u128, now: u64)
    requires
        table_fits(entries, o),
        entries.contains_key(key) ==> entries[key].earlier <= now,
    ensures
        window_at(entries, o, key, now).earlier <= now,
        window_at(entries, o, key, now).tickets.len() == o.length,
        total(window_at(entries, o, key, now).tickets) <= o.capacity,
{
    lemma_total_empty(o.length as nat);
    if aged(entries, now, o.interval).contains_key(key) {
        let w = entries[key];
        assert(entries.contains_key(key));
        let by = elapsed_buckets(w, now, o.interval);
        if by > 0 {
            lemma_div_bound((now - w.earlier) as int, o.interval as int);
            if by < w.tickets.len() {
                lemma_total_shifted(w.tickets, by);
            }
        }
    }
}

/// Once a key has been charged at `t`, whatever came of it, a charge of no
/// more than the capacity to the same key `capacity` intervals later is
/// accepted: by then every ticket of the key has left its window.
///
/// This is stated for limiters whose window is at most `capacity` buckets
/// long, whose buckets and intervals are not empty, and whose key was not
/// charged at a moment after `t` before.
pub proof fn lemma_accepted_after_window(
    entries: Map<u128, Window>,
    o: Options,
    key: u128,
    v: Ticket,
    w: Ticket,
    t: u64,
)
    requires
        table_fits(entries, o),
        w <= o.capacity,
        0 < o.length <= o.capacity,
        0 < o.interval,
        t + o.capacity * o.interval <= u64::MAX,
        entries.contains_key(key) ==> entries[key].earlier <= t,
    ensures
        accepts(
            after_add(entries, o, key, v, t),
            o,
            key,
            w,
            (t + o.capacity * o.interval) as u64,
        ),
{
    let later = (t + o.capacity * o.interval) as u64;
    let first = window_at(entries, o, key, t);
    lemma_window_at_begins(entries, o, key, t);
    let met = charged(first, v, o.capacity);
    let table = after_add(entries, o, key, v, t);
    assert(table.contains_key(key) && table[key] == met);
    assert(met.earlier <= t && met.tickets.len() == o.length);
    let by = elapsed_buckets(met, later, o.interval);
    assert(by >= o.capacity) by {
        let span = (later - met.earlier) as int;
        let d = o.interval as int;
        assert(o.capacity * d <= span) by (nonlinear_arith)
            requires
                span == t + o.capacity * d - met.earlier,
                met.earlier <= t,
        ;
        vstd::arithmetic::div_mod::lemma_div_is_ordered(o.capacity * d, span, d);
        vstd::arithmetic::div_mod::lemma_div_by_multiple(o.capacity as int, d);
    }
    lemma_total_empty(o.length as nat);
    assert(!kept(met, later, o.interval));
    assert(!aged(table, later, o.interval).contains_key(key));
}

/// The keys of a table come out in increasing order.
proof fn lemma_keys_increase(ks: Seq<&u128>)
    requires
        vstd::std_specs::btree::increasing_seq(ks),
    ensures
        forall|i: int, j: int| 0 <= i < j < ks.len() ==> *ks[i] < *ks[j],
{
    broadcast use vstd::laws_cmp::group_laws_cmp;

    vstd::std_specs::btree::axiom_increasing_seq_meaning::<&u128>(ks);
    assert forall|i: int, j: int| 0 <= i < j < ks.len() implies *ks[i] < *ks[j] by {
        assert((&ks[i]).cmp_spec(&ks[j]) is Less);
    }
}

} // verus!
