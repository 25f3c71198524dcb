use vstd::prelude::*;
use crate::events::PRICE_LIMIT;

verus! {

/// Largest capacity of a moving window.
pub const MAX_WINDOW: usize = 65536;

/// Sum of a sequence of values.
pub open spec fn sum(s: Seq<u64>) -> int
    decreases s.len(),
{
    if s.len() == 0 {
        0
    } else {
        sum(s.drop_last()) + s.last()
    }
}

/// The last `k` values, or all of them when fewer are present.
pub open spec fn tail(s: Seq<u64>, k: nat) -> Seq<u64> {
    if k <= s.len() {
        s.subrange(s.len() - k, s.len() as int)
    } else {
        s
    }
}

/// The window after `v` arrives: the oldest value leaves when it is full.
pub open spec fn slide(s: Seq<u64>, capacity: nat, v: u64) -> Seq<u64> {
    if s.len() >= capacity {
        s.drop_first().push(v)
    } else {
        s.push(v)
    }
}

/// Mean of the last `k` values (all values when fewer), rounded down.
pub open spec fn mean(s: Seq<u64>, k: nat) -> int {
    sum(tail(s, k)) / (tail(s, k).len() as int)
}

/// Population variance of the last `k` values about their rounded mean,
/// rounded down.
pub open spec fn variance(s: Seq<u64>, k: nat) -> int {
    squares(tail(s, k), mean(s, k)) / (tail(s, k).len() as int)
}

/// Sum of the squared distances of the values from `m`.
pub open spec fn squares(s: Seq<u64>, m: int) -> int
    decreases s.len(),
{
    if s.len() == 0 {
        0
    } else {
        squares(s.drop_last(), m) + (s.last() - m) * (s.last() - m)
    }
}

pub open spec fn all_prices(s: Seq<u64>) -> bool {
    forall|i: int| 0 <= i < s.len() ==> #[trigger] s[i] <= PRICE_LIMIT
}

proof fn lemma_sum_bound(s: Seq<u64>)
    requires
        all_prices(s),
    ensures
        0 <= sum(s) <= s.len() * PRICE_LIMIT,
    decreases s.len(),
{
    if s.len() > 0 {
        assert(all_prices(s.drop_last())) by {
            assert forall|i: int| 0 <= i < s.drop_last().len() implies #[trigger] s.drop_last()[i] <= PRICE_LIMIT by {
                assert(s.drop_last()[i] == s[i]);
            }
        }
        lemma_sum_bound(s.drop_last());
        assert(s.last() == s[s.len() - 1]);
    }
}

/// A fixed-capacity window over the most recent values, oldest first.
pub struct MovingWindow {
    values: Vec<u64>,
    capacity: usize,
}

impl MovingWindow {
    pub closed spec fn view(&self) -> Seq<u64> {
        self.values@
    }

    pub closed spec fn capacity_view(&self) -> nat {
        self.capacity as nat
    }

    pub closed spec fn wf(&self) -> bool {
        &&& 1 <= self.capacity <= MAX_WINDOW
        &&& self.values@.len() <= self.capacity
        &&& all_prices(self.values@)
    }

    /// What the window's invariant tells its users: the capacity is between 1
    /// and [`MAX_WINDOW`], no more values than the capacity are held, and each
    /// is a price in range.
    pub proof fn lemma_wf(&self)
        requires
            self.wf(),
        ensures
            1 <= self.capacity_view() <= MAX_WINDOW,
            self@.len() <= self.capacity_view(),
            all_prices(self@),
    {
    }

    /// An empty window holding at most `window_size` values.
    pub fn new(window_size: usize) -> (r: Self)
        requires
            1 <= window_size <= MAX_WINDOW,
        ensures
            r.wf(),
            r@ == Seq::<u64>::empty(),
            r.capacity_view() == window_size,
    {
        MovingWindow { values: Vec::new(), capacity: window_size }
    }

    /// Number of values held.
    pub fn len(&self) -> (r: usize)
        ensures
            r == self@.len(),
    {
        self.values.len()
    }

    /// Adds a value, dropping the oldest when the window is full.
    pub fn update(&mut self, new_value: u64)
        requires
            old(self).wf(),
            new_value <= PRICE_LIMIT,
        ensures
            final(self).wf(),
            final(self)@ == slide(old(self)@, old(self).capacity_view(), new_value),
            final(self).capacity_view() == old(self).capacity_view(),
    {
        if self.values.len() >= self.capacity {
            self.values.remove(0);
        }
        self.values.push(new_value);
        assert(all_prices(self.values@)) by {
            assert forall|i: int| 0 <= i < self.values@.len() implies #[trigger] self.values@[i] <= PRICE_LIMIT by {
                if i < self.values@.len() - 1 {
                    if old(self).values@.len() >= old(self).capacity {
                        assert(self.values@[i] == old(self).values@[i + 1]);
                    } else {
                        assert(self.values@[i] == old(self).values@[i]);
                    }
                }
            }
        }
    }

    /// Sum and count of the last `window_size` values (all when fewer).
    pub fn tail_sum(&self, window_size: usize) -> (r: (u128, usize))
        requires
            self.wf(),
        ensures
            r.0 == sum(tail(self@, window_size as nat)),
            r.1 == tail(self@, window_size as nat).len(),
            r.0 <= r.1 * PRICE_LIMIT,
    {
        let n = self.values.len();
        let start: usize = if window_size <= n { n - window_size } else { 0 };
        let ghost t = tail(self@, window_size as nat);
        assert(t =~= self@.subrange(start as int, n as int));
        let mut acc: u128 = 0;
        let mut i: usize = start;
        while i < n
            invariant
                start <= i <= n,
                n == self@.len(),
                self.wf(),
                t == self@.subrange(start as int, n as int),
                acc == sum(self@.subrange(start as int, i as int)),
                acc <= (i - start) * PRICE_LIMIT,
            decreases n - i,
        {
            assert(self@.subrange(start as int, i + 1).drop_last() =~= self@.subrange(start as int, i as int));
            assert(self@[i as int] <= PRICE_LIMIT);
            acc = acc + self.values[i] as u128;
            i = i + 1;
        }
        (acc, n - start)
    }

    /// Mean of the last `window_size` values (all when fewer), rounded down.
    pub fn average(&self, window_size: usize) -> (r: u64)
        requires
            self.wf(),
            self@.len() > 0,
            window_size > 0,
        ensures
            r == mean(self@, window_size as nat),
    {
        let (s, k) = self.tail_sum(window_size);
        proof {
            assert(s / (k as u128) <= PRICE_LIMIT) by (nonlinear_arith)
                requires
                    s <= k * 281474976710656,
                    k > 0,
            ;
        }
        (s / (k as u128)) as u64
    }

    /// Population variance of the last `window_size` values (all when fewer)
    /// about their rounded-down mean, rounded down.
    pub fn variance(&self, window_size: usize) -> (r: u128)
        requires
            self.wf(),
            self@.len() > 0,
            window_size > 0,
        ensures
            r == variance(self@, window_size as nat),
    {
        let avg = self.average(window_size);
        let n = self.values.len();
        let start: usize = if window_size <= n { n - window_size } else { 0 };
        let ghost t = tail(self@, window_size as nat);
        assert(t =~= self@.subrange(start as int, n as int));
        proof {
            let (s, k) = (sum(t), t.len());
            lemma_sum_bound(t);
            assert(s / (k as int) <= PRICE_LIMIT) by (nonlinear_arith)
                requires
                    s <= k * 281474976710656,
                    k > 0,
            ;
        }
        let mut acc: u128 = 0;
        let mut i: usize = start;
        while i < n
            invariant
                start <= i <= n,
                n == self@.len(),
                self.wf(),
                avg <= PRICE_LIMIT,
                avg == mean(self@, window_size as nat),
                t == self@.subrange(start as int, n as int),
                acc == squares(self@.subrange(start as int, i as int), avg as int),
                acc <= (i - start) * (PRICE_LIMIT * PRICE_LIMIT),
                n <= MAX_WINDOW,
            decreases n - i,
        {
            let ghost sub = self@.subrange(start as int, i + 1);
            assert(sub.drop_last() =~= self@.subrange(start as int, i as int));
            let x = self.values[i];
            assert(x <= PRICE_LIMIT);
            let d: u128 = if x >= avg { (x - avg) as u128 } else { (avg - x) as u128 };
            proof {
                assert(d * d == (x - avg) * (x - avg)) by (nonlinear_arith)
                    requires
                        d == x - avg || d == avg - x,
                ;
                assert(d * d <= PRICE_LIMIT * PRICE_LIMIT) by (nonlinear_arith)
                    requires
                        d <= 281474976710656,
                ;
                assert((i - start) * (PRICE_LIMIT * PRICE_LIMIT) + PRICE_LIMIT * PRICE_LIMIT == (i + 1 - start) * (PRICE_LIMIT * PRICE_LIMIT)) by (nonlinear_arith);
                assert((i + 1 - start) * (PRICE_LIMIT * PRICE_LIMIT) <= MAX_WINDOW * (PRICE_LIMIT * PRICE_LIMIT)) by (nonlinear_arith)
                    requires
                        i + 1 - start <= 65536,
                ;
            }
            acc = acc + d * d;
            i = i + 1;
        }
        acc / ((n - start) as u128)
    }
}

} // verus!
