//! A series of metrics with one entry per time unit, kept in a circular
//! buffer: a vector of (epoch, optional value) that, once full, is
//! overwritten in place, oldest entry first. The entries in use are the
//! `active_items` slots from `first_idx` on, wrapping at the capacity, so
//! the buffer rotates and shrinks without moving its entries. The values are of any type: what is computed on them (how two
//! values for one time unit combine) is given by the caller.
use vstd::prelude::*;

verus! {

/// How a value collected for a time unit that already has one is combined
/// with it: replace it, add to it, subtract from it, or drop the new one.
#[derive(PartialEq, Eq, Structural, Clone, Copy, Debug)]
pub enum ValueCollisionPolicy {
    Overwrite,
    Increment,
    Decrement,
    Ignore,
}

impl Default for ValueCollisionPolicy {
    /// Values collected for the same time unit add up.
    fn default() -> (r: ValueCollisionPolicy)
        ensures
            r == ValueCollisionPolicy::Increment,
    {
        ValueCollisionPolicy::Increment
    }
}

/// The contents of a time series: the buffer, its capacity, how two values
/// of one time unit combine, where its first entry is, how many pushes it
/// has counted, and how many entries are in use.
pub struct SeriesView<V> {
    pub metrics: Seq<(u64, Option<V>)>,
    pub capacity: nat,
    pub policy: ValueCollisionPolicy,
    pub first: nat,
    pub last: nat,
    pub active: nat,
}

impl<V> SeriesView<V> {
    /// The slot of the `i`-th position of the ring (for `i` below twice
    /// the capacity): positions past the capacity wrap to its start.
    pub open spec fn ring(self, i: int) -> int {
        if i < self.capacity {
            i
        } else {
            i - self.capacity
        }
    }

    /// The entries in use, oldest first: `active` slots from the first,
    /// wrapping at the capacity.
    pub open spec fn entries(self) -> Seq<(u64, Option<V>)> {
        Seq::new(self.active, |k: int| self.metrics[self.ring(self.first + k)])
    }

    /// The slot of the latest entry in use.
    pub open spec fn latest(self) -> int {
        self.ring(self.first + self.active - 1)
    }

    /// The buffer after `circular_push` of an entry. With every slot in use,
    /// the oldest entry is overwritten and the first moves on to the next
    /// slot; otherwise the entry takes the slot after the latest one,
    /// appended where the buffer has not grown that far, and one more entry
    /// is in use. The push counter moves on, counting up to the capacity
    /// itself before it wraps to 0.
    pub open spec fn circular_push(self, input: (u64, Option<V>)) -> SeriesView<V> {
        let last = ((self.last + 1) % (self.capacity + 1)) as nat;
        if self.active >= self.capacity {
            SeriesView {
                metrics: self.metrics.update(self.first as int, input),
                first: self.ring(self.first + 1int) as nat,
                last: last,
                ..self
            }
        } else {
            let pos = self.ring(self.first + self.active as int);
            let metrics = if pos < self.metrics.len() {
                self.metrics.update(pos, input)
            } else {
                self.metrics.push(input)
            };
            SeriesView { metrics: metrics, last: last, active: self.active + 1, ..self }
        }
    }

    /// The buffer after `circular_push` of an empty entry for every epoch
    /// from `from` up to, not including, `to`.
    pub open spec fn fill(self, from: u64, to: u64) -> SeriesView<V>
        decreases to - from,
    {
        if from >= to {
            self
        } else {
            self.circular_push((from, None)).fill((from + 1) as u64, to)
        }
    }

    /// How long the series was silent before an epoch: the epochs since
    /// the latest entry, 0 when the epoch is not after it.
    pub open spec fn inactive_time(self, epoch: u64) -> int {
        let latest = self.metrics[self.latest()].0;
        if epoch > latest {
            ((epoch - latest) as u64) as usize as int
        } else {
            0
        }
    }
}

/// The value of the first entry that has one, if any.
pub open spec fn first_filled<V>(es: Seq<(u64, Option<V>)>) -> Option<V>
    decreases es.len(),
{
    if es.len() == 0 {
        None
    } else {
        match es[0].1 {
            Some(m) => Some(m),
            None => first_filled(es.skip(1)),
        }
    }
}

/// The value of the last entry that has one, if any.
pub open spec fn last_filled<V>(es: Seq<(u64, Option<V>)>) -> Option<V>
    decreases es.len(),
{
    if es.len() == 0 {
        None
    } else {
        match es.last().1 {
            Some(m) => Some(m),
            None => last_filled(es.drop_last()),
        }
    }
}

/// `first_filled` is the value of the earliest entry that has one: it is
/// `None` exactly when no entry has a value, and otherwise the value of the
/// entry that has one and comes before every other such entry.
pub proof fn lemma_first_filled<V>(es: Seq<(u64, Option<V>)>)
    ensures
        first_filled(es) is None <==> forall|k: int| 0 <= k < es.len() ==> (#[trigger] es[k]).1 is None,
        forall|k: int|
            0 <= k < es.len() && (#[trigger] es[k]).1 is Some && (forall|j: int| 0 <= j < k ==> es[j].1 is None)
                ==> first_filled(es) == es[k].1,
    decreases es.len(),
{
    if es.len() > 0 {
        let rest = es.skip(1);
        lemma_first_filled(rest);
        assert forall|k: int| 0 <= k < rest.len() implies rest[k] == es[k + 1] by {}
        if es[0].1 is None {
            assert forall|k: int|
                0 <= k < es.len() && (#[trigger] es[k]).1 is Some && (forall|j: int| 0 <= j < k ==> es[j].1 is None)
                implies first_filled(es) == es[k].1 by {
                assert(k > 0);
                assert(rest[k - 1] == es[k]);
                assert forall|j: int| 0 <= j < k - 1 implies rest[j].1 is None by {
                    assert(rest[j] == es[j + 1]);
                }
            }
            if first_filled(es) is None {
                assert forall|k: int| 0 <= k < es.len() implies (#[trigger] es[k]).1 is None by {
                    if k > 0 {
                        assert(rest[k - 1] == es[k]);
                    }
                }
            } else {
                let k = choose|k: int| 0 <= k < rest.len() && (#[trigger] rest[k]).1 is Some;
                assert(es[k + 1] == rest[k]);
            }
        }
    }
}

/// `last_filled` is the value of the latest entry that has one: it is
/// `None` exactly when no entry has a value, and otherwise the value of the
/// entry that has one and comes after every other such entry.
pub proof fn lemma_last_filled<V>(es: Seq<(u64, Option<V>)>)
    ensures
        last_filled(es) is None <==> forall|k: int| 0 <= k < es.len() ==> (#[trigger] es[k]).1 is None,
        forall|k: int|
            0 <= k < es.len() && (#[trigger] es[k]).1 is Some && (forall|j: int| k < j < es.len() ==> es[j].1 is None)
                ==> last_filled(es) == es[k].1,
    decreases es.len(),
{
    if es.len() > 0 {
        let init = es.drop_last();
        lemma_last_filled(init);
        assert forall|k: int| 0 <= k < init.len() implies init[k] == es[k] by {}
        let n = es.len() - 1;
        assert(es.last() == es[n]);
        if es[n].1 is None {
            assert forall|k: int|
                0 <= k < es.len() && (#[trigger] es[k]).1 is Some && (forall|j: int| k < j < es.len() ==> es[j].1 is None)
                implies last_filled(es) == es[k].1 by {
                assert(k < n);
                assert(init[k] == es[k]);
                assert forall|j: int| k < j < init.len() implies init[j].1 is None by {
                    assert(init[j] == es[j]);
                }
            }
            if last_filled(es) is None {
                assert forall|k: int| 0 <= k < es.len() implies (#[trigger] es[k]).1 is None by {
                    if k < n {
                        assert(init[k] == es[k]);
                    }
                }
            } else {
                let k = choose|k: int| 0 <= k < init.len() && (#[trigger] init[k]).1 is Some;
                assert(es[k] == init[k]);
            }
        }
    }
}

/// A time series of metrics in a circular buffer.
pub struct TimeSeries<V> {
    /// One entry per time unit: its epoch and its value, if any.
    pub metrics: Vec<(u64, Option<V>)>,
    /// How many entries the buffer holds.
    pub metrics_capacity: usize,
    /// How two values for one time unit combine.
    pub collision_policy: ValueCollisionPolicy,
    /// The slot of the oldest entry in use.
    pub first_idx: usize,
    /// The pushes counted, up to the capacity before wrapping to 0.
    pub last_idx: usize,
    /// How many entries are in use.
    pub active_items: usize,
}

impl<V> View for TimeSeries<V> {
    type V = SeriesView<V>;

    open spec fn view(&self) -> SeriesView<V> {
        SeriesView {
            metrics: self.metrics@,
            capacity: self.metrics_capacity as nat,
            policy: self.collision_policy,
            first: self.first_idx as nat,
            last: self.last_idx as nat,
            active: self.active_items as nat,
        }
    }
}

impl<V: Copy> TimeSeries<V> {
    /// The buffer fits its capacity; the entries in use fit the buffer, and
    /// there is one wherever the buffer holds any; a buffer not yet grown to
    /// its capacity starts at slot 0, and the first entry is a slot of the
    /// buffer; the push counter is at most the capacity.
    pub open spec fn wf(&self) -> bool {
        &&& self.metrics@.len() <= self.metrics_capacity
        &&& self.metrics_capacity < usize::MAX
        &&& self.active_items <= self.metrics@.len()
        &&& (self.metrics@.len() > 0 ==> self.active_items > 0)
        &&& (self.metrics@.len() < self.metrics_capacity ==> self.first_idx == 0)
        &&& (self.first_idx == 0 || self.first_idx < self.metrics@.len())
        &&& self.last_idx <= self.metrics_capacity
    }

    /// An empty series of 300 entries (five minutes at one per second),
    /// whose colliding values add up.
    pub fn new() -> (r: TimeSeries<V>)
        ensures
            r.wf(),
            r@ == (SeriesView {
                metrics: Seq::<(u64, Option<V>)>::empty(),
                capacity: 300,
                policy: ValueCollisionPolicy::Increment,
                first: 0,
                last: 0,
                active: 0,
            }),
    {
        TimeSeries {
            metrics: Vec::new(),
            metrics_capacity: 300,
            collision_policy: ValueCollisionPolicy::Increment,
            first_idx: 0,
            last_idx: 0,
            active_items: 0,
        }
    }

    /// The series with an empty buffer of `n` entries, all else kept.
    pub fn with_capacity(self, n: usize) -> (r: TimeSeries<V>)
        ensures
            r@ == (SeriesView { metrics: Seq::<(u64, Option<V>)>::empty(), capacity: n as nat, ..self@ }),
            self.first_idx == 0 && self.last_idx == 0 && self.active_items == 0 && n < usize::MAX
                ==> r.wf(),
    {
        let mut new_self = self;
        new_self.metrics = Vec::new();
        new_self.metrics_capacity = n;
        new_self
    }

    /// What a push does to the entries in use, as a circular buffer: while
    /// some slot is free the entry is appended to them; once every slot is
    /// in use the oldest entry leaves and the new one is appended.
    pub proof fn lemma_circular_push_entries(&self, input: (u64, Option<V>))
        requires
            self.wf(),
            self.metrics_capacity > 0,
        ensures
            self.active_items < self.metrics_capacity ==> self@.circular_push(input).entries() == self@.entries().push(
                input,
            ),
            self.active_items >= self.metrics_capacity ==> self@.circular_push(input).entries()
                == self@.entries().drop_first().push(input),
            self@.circular_push(input).entries().len() <= self.metrics_capacity,
            self@.circular_push(input).entries().last() == input,
    {
        let o = self@;
        let n = o.circular_push(input);
        if self.active_items < self.metrics_capacity {
            assert(n.entries() =~= o.entries().push(input));
        } else {
            assert(n.entries() =~= o.entries().drop_first().push(input));
        }
    }

    /// The slot `first + k` of the ring, for `first` a slot and `k` at most
    /// the capacity.
    fn ring_slot(&self, first: usize, k: usize) -> (r: usize)
        requires
            first < self.metrics_capacity,
            k <= self.metrics_capacity,
        ensures
            r == self@.ring(first + k),
    {
        if k < self.metrics_capacity - first {
            first + k
        } else {
            k - (self.metrics_capacity - first)
        }
    }

    /// Puts an entry into the buffer (see `SeriesView::circular_push`).
    pub fn circular_push(&mut self, input: (u64, Option<V>))
        requires
            old(self).wf(),
            old(self).metrics_capacity > 0,
        ensures
            final(self).wf(),
            final(self)@ == old(self)@.circular_push(input),
    {
        let cap = self.metrics_capacity;
        if self.active_items >= cap {
            self.metrics.set(self.first_idx, input);
            self.first_idx = self.ring_slot(self.first_idx, 1);
        } else {
            let pos = self.ring_slot(self.first_idx, self.active_items);
            if pos < self.metrics.len() {
                self.metrics.set(pos, input);
            } else {
                self.metrics.push(input);
            }
            self.active_items = self.active_items + 1;
        }
        proof {
            let x = self.last_idx + 1;
            let m = cap + 1;
            if x < m {
                vstd::arithmetic::div_mod::lemma_small_mod(x as nat, m as nat);
            } else {
                assert(x == m);
                vstd::arithmetic::div_mod::lemma_mod_self_0(m as int);
            }
        }
        self.last_idx = (self.last_idx + 1) % (cap + 1);
    }

    /// Adds a value for an epoch. Into an empty buffer it is pushed. Else,
    /// against the latest entry: when more epochs than the capacity have
    /// passed, the whole buffer is discarded and the value becomes its only
    /// entry, in slot 0; at the latest epoch (or before it) the value is
    /// combined with the latest one by `resolve` (or stored, where the
    /// latest has none); otherwise an empty entry is pushed for every epoch
    /// in between, then the value.
    pub fn push<F: Fn(V, V) -> V>(&mut self, input: (u64, V), resolve: F)
        requires
            old(self).wf(),
            old(self).metrics_capacity > 0,
            old(self).metrics@.len() > 0 && input.0 > old(self)@.metrics[old(self)@.latest()].0 ==> input.0
                - old(self)@.metrics[old(self)@.latest()].0 <= usize::MAX,
            forall|a: V, b: V| resolve.requires((a, b)),
        ensures
            final(self).wf(),
            ({
                let o = old(self)@;
                let v = (input.0, Some(input.1));
                if o.metrics.len() == 0 {
                    final(self)@ == o.circular_push(v)
                } else if o.inactive_time(input.0) > o.capacity {
                    final(self)@ == (SeriesView {
                        metrics: o.metrics.update(0, v),
                        first: 0,
                        last: 1,
                        active: 1,
                        ..o
                    })
                } else if o.inactive_time(input.0) == 0 {
                    let at = o.latest();
                    match o.metrics[at].1 {
                        Some(cur) => exists|c: V|
                            resolve.ensures((cur, input.1), c) && final(self)@ == (SeriesView {
                                metrics: o.metrics.update(at, (o.metrics[at].0, Some(c))),
                                ..o
                            }),
                        None => final(self)@ == (SeriesView {
                            metrics: o.metrics.update(at, (o.metrics[at].0, Some(input.1))),
                            ..o
                        }),
                    }
                } else {
                    final(self)@ == o.fill((o.metrics[o.latest()].0 + 1) as u64, input.0).circular_push(v)
                }
            }),
    {
        let ghost o = self@;
        if self.metrics.len() == 0 {
            self.circular_push((input.0, Some(input.1)));
            return;
        }
        let cap = self.metrics_capacity;
        let last_idx = self.ring_slot(self.first_idx, self.active_items - 1);
        assert(last_idx == o.latest());
        let latest_epoch = self.metrics[last_idx].0;
        let inactive_time: usize = if input.0 > latest_epoch {
            (input.0 - latest_epoch) as usize
        } else {
            0
        };
        if inactive_time > cap {
            self.first_idx = 0;
            self.last_idx = 1;
            self.metrics.set(0, (input.0, Some(input.1)));
            self.active_items = 1;
        } else if inactive_time == 0 {
            match self.metrics[last_idx].1 {
                Some(cur) => {
                    let c = resolve(cur, input.1);
                    self.metrics.set(last_idx, (latest_epoch, Some(c)));
                },
                None => {
                    self.metrics.set(last_idx, (latest_epoch, Some(input.1)));
                },
            }
        } else {
            let start = latest_epoch + 1;
            let mut fill_epoch = start;
            while fill_epoch < input.0
                invariant
                    self.wf(),
                    self.metrics_capacity == cap,
                    cap > 0,
                    start <= fill_epoch <= input.0,
                    self@.fill(fill_epoch, input.0) == o.fill(start, input.0),
                decreases input.0 - fill_epoch,
            {
                self.circular_push((fill_epoch, None));
                fill_epoch = fill_epoch + 1;
            }
            self.circular_push((input.0, Some(input.1)));
        }
    }

    /// The entries in use, oldest first (see `SeriesView::entries`).
    pub fn as_vec(&self) -> (r: Vec<(u64, Option<V>)>)
        requires
            self.wf(),
        ensures
            r@ == self@.entries(),
    {
        let ghost e = self@.entries();
        let mut res: Vec<(u64, Option<V>)> = Vec::new();
        let mut k: usize = 0;
        while k < self.active_items
            invariant
                self.wf(),
                e == self@.entries(),
                k <= self.active_items,
                res@ == e.take(k as int),
            decreases self.active_items - k,
        {
            proof {
                assert(e.take(k + 1) =~= e.take(k as int).push(e[k as int]));
            }
            let pos = self.ring_slot(self.first_idx, k);
            res.push(self.metrics[pos]);
            k = k + 1;
        }
        proof {
            assert(e.take(k as int) =~= e);
        }
        res
    }

    /// The value of the oldest entry in use that has one, if any.
    pub fn get_first_filled(&self) -> (r: Option<V>)
        requires
            self.wf(),
        ensures
            r == first_filled(self@.entries()),
            r is None <==> forall|k: int| 0 <= k < self@.entries().len() ==> (#[trigger] self@.entries()[k]).1 is None,
            forall|k: int|
                0 <= k < self@.entries().len() && (#[trigger] self@.entries()[k]).1 is Some && (forall|j: int|
                    0 <= j < k ==> self@.entries()[j].1 is None) ==> r == self@.entries()[k].1,
    {
        proof {
            lemma_first_filled(self@.entries());
        }
        let v = self.as_vec();
        let mut k: usize = 0;
        assert(v@.skip(0) =~= v@);
        while k < v.len()
            invariant
                v@ == self@.entries(),
                k <= v@.len(),
                first_filled(v@) == first_filled(v@.skip(k as int)),
            decreases v.len() - k,
        {
            proof {
                assert(v@.skip(k as int).skip(1) =~= v@.skip(k + 1));
                assert(v@.skip(k as int)[0] == v@[k as int]);
            }
            if let Some(m) = v[k].1 {
                proof {
                    lemma_first_filled(self@.entries());
                }
                return Some(m);
            }
            k = k + 1;
        }
        assert(v@.skip(k as int).len() == 0);
        None
    }

    /// The value of the latest entry in use that has one, if any.
    pub fn get_last_filled(&self) -> (r: Option<V>)
        requires
            self.wf(),
        ensures
            r == last_filled(self@.entries()),
            r is None <==> forall|k: int| 0 <= k < self@.entries().len() ==> (#[trigger] self@.entries()[k]).1 is None,
            forall|k: int|
                0 <= k < self@.entries().len() && (#[trigger] self@.entries()[k]).1 is Some && (forall|j: int|
                    k < j < self@.entries().len() ==> self@.entries()[j].1 is None) ==> r == self@.entries()[k].1,
    {
        proof {
            lemma_last_filled(self@.entries());
        }
        let v = self.as_vec();
        let mut k: usize = v.len();
        assert(v@.take(k as int) =~= v@);
        while k > 0
            invariant
                v@ == self@.entries(),
                k <= v@.len(),
                last_filled(v@) == last_filled(v@.take(k as int)),
            decreases k,
        {
            proof {
                assert(v@.take(k as int).drop_last() =~= v@.take(k - 1));
                assert(v@.take(k as int).last() == v@[k - 1]);
            }
            if let Some(m) = v[k - 1].1 {
                proof {
                    lemma_last_filled(self@.entries());
                }
                return Some(m);
            }
            k = k - 1;
        }
        None
    }
}

} // verus!
