//! A counter that hands out the numbers one to five.

use vstd::prelude::*;

verus! {

/// The last number a [`Counter`] hands out.
pub const COUNTER_LIMIT: usize = 5;

/// Counts from one to [`COUNTER_LIMIT`].
pub struct Counter {
    count: usize,
}

impl Counter {
    /// How many numbers the counter has handed out.
    pub closed spec fn handed_out(&self) -> usize {
        self.count
    }

    /// A counter that has handed out nothing yet.
    pub fn new() -> (counter: Counter)
        ensures
            counter.handed_out() == 0,
    {
        Counter { count: 0 }
    }

    /// Hands out the next number, or `None` once five have been handed out.
    pub fn next(&mut self) -> (item: Option<usize>)
        ensures
            old(self).handed_out() < COUNTER_LIMIT ==> {
                &&& item == Some((old(self).handed_out() + 1) as usize)
                &&& final(self).handed_out() == old(self).handed_out() + 1
            },
            old(self).handed_out() >= COUNTER_LIMIT ==> {
                &&& item == None::<usize>
                &&& final(self).handed_out() == old(self).handed_out()
            },
    {
        let max_val = COUNTER_LIMIT;
        if self.count < max_val {
            self.count += 1;
            Some(self.count)
        } else {
            None
        }
    }
}

/// What [`run`] works out.
pub struct Walkthrough {
    /// The sum of 1, 2 and 3.
    pub total: i32,
    /// The even numbers among 2, 3 and 4.
    pub evens: Vec<i32>,
    /// The sum, over the pairs that two counters give, of those products
    /// that 3 divides.
    pub sum: usize,
}

/// The sum of `items`.
pub open spec fn sum_of(items: Seq<i32>) -> int
    decreases items.len(),
{
    if items.len() == 0 {
        0
    } else {
        sum_of(items.drop_last()) + items.last()
    }
}

/// Each item of `items` raised by one, the odd results left out.
pub open spec fn even_successors(items: Seq<i32>) -> Seq<i32>
    decreases items.len(),
{
    if items.len() == 0 {
        Seq::empty()
    } else {
        let raised = (items.last() + 1) as i32;
        let earlier = even_successors(items.drop_last());
        if raised % 2 == 0 {
            earlier.push(raised)
        } else {
            earlier
        }
    }
}

/// Over the first `pairs` pairs (1, 2), (2, 3), (3, 4) and so on, the sum of
/// those products that 3 divides.
pub open spec fn paired_products(pairs: nat) -> int
    decreases pairs,
{
    if pairs == 0 {
        0
    } else {
        let product = pairs * (pairs + 1);
        paired_products((pairs - 1) as nat) + if product % 3 == 0 {
            product as int
        } else {
            0
        }
    }
}

/// Works the module's example.
///
/// It sums 1, 2 and 3; adds one to each and keeps the even results; then
/// pairs a counter with a second one that is one number ahead, multiplies
/// each pair, and sums the products that 3 divides. The pairing ends when
/// the counter that is ahead runs out, after four pairs.
pub fn run() -> (seen: Walkthrough)
    ensures
        seen.total == 6,
        seen.evens@ == seq![2i32, 4i32],
        seen.sum == 18,
{
    let v1: Vec<i32> = vec![1, 2, 3];
    let mut total: i32 = 0;
    let mut evens: Vec<i32> = Vec::new();
    let mut i: usize = 0;
    while i < v1.len()
        invariant
            i <= v1.len(),
            v1@ == seq![1i32, 2i32, 3i32],
            total == sum_of(v1@.take(i as int)),
            0 <= total <= 3 * i,
            evens@ == even_successors(v1@.take(i as int)),
        decreases v1.len() - i,
    {
        let item = v1[i];
        proof {
            let now = v1@.take(i + 1);
            assert(now.drop_last() == v1@.take(i as int));
            assert(now.last() == item);
        }
        total = total + item;
        let raised = item + 1;
        if raised % 2 == 0 {
            evens.push(raised);
        }
        i += 1;
    }
    proof {
        let all = v1@.take(3);
        assert(all == v1@);
        assert(all.drop_last() == seq![1i32, 2i32]);
        assert(all.drop_last().drop_last() == seq![1i32]);
        assert(all.drop_last().drop_last().drop_last() == Seq::<i32>::empty());
        reveal_with_fuel(sum_of, 4);
        reveal_with_fuel(even_successors, 4);
    }

    let mut c0 = Counter::new();
    let mut c1 = Counter::new();
    let _skipped = c1.next();
    let mut sum: usize = 0;
    let mut pairs: usize = 0;
    loop
        invariant_except_break
            c0.handed_out() == pairs,
            c1.handed_out() == pairs + 1,
        invariant
            pairs <= 4,
            sum == paired_products(pairs as nat),
            sum <= 20 * pairs,
        ensures
            pairs == 4,
        decreases 4 - pairs,
    {
        let left = c0.next();
        let right = c1.next();
        match (left, right) {
            (Some(a), Some(b)) => {
                assert(a * b == (pairs + 1) * (pairs + 2) <= 20) by (nonlinear_arith)
                    requires
                        a == pairs + 1,
                        b == pairs + 2,
                        pairs < 4,
                ;
                let product = a * b;
                if product % 3 == 0 {
                    sum = sum + product;
                }
                pairs = pairs + 1;
            },
            _ => {
                break ;
            },
        }
    }
    proof {
        reveal_with_fuel(paired_products, 5);
    }
    Walkthrough { total, evens, sum }
}

} // verus!
