//! Branching, looping and recursion.

use vstd::prelude::*;

verus! {

/// The largest position whose Fibonacci number still fits in an `i32`.
pub const MAX_FIBONACCI_POSITION: i32 = 47;

/// The Fibonacci number at position `n`, counting from one: the sequence
/// starts 0, 1, 1, 2, 3, 5, 8. Positions below one have no number and map
/// to -1.
pub open spec fn fibonacci(n: int) -> int
    decreases n,
{
    if n <= 0 {
        -1
    } else if n == 1 {
        0
    } else if n == 2 {
        1
    } else {
        fibonacci(n - 1) + fibonacci(n - 2)
    }
}

/// From the second position on the sequence never decreases.
pub proof fn lemma_fibonacci_monotonic(i: int, j: int)
    requires
        1 <= i <= j,
    ensures
        0 <= fibonacci(i) <= fibonacci(j),
    decreases j,
{
    if j <= 2 {
    } else if i == j {
        lemma_fibonacci_monotonic(1, j - 1);
        lemma_fibonacci_monotonic(1, j - 2);
    } else {
        lemma_fibonacci_monotonic(i, j - 1);
        lemma_fibonacci_monotonic(1, j - 2);
    }
}

/// Two neighbouring numbers of the sequence, reached by walking `steps`
/// positions up from the first: a linear recursion that a proof can unfold
/// to a fixed depth.
spec fn fibonacci_window(steps: nat) -> (int, int)
    decreases steps,
{
    if steps == 0 {
        (0, 1)
    } else {
        let below = fibonacci_window((steps - 1) as nat);
        (below.1, below.0 + below.1)
    }
}

proof fn lemma_fibonacci_window(steps: nat)
    ensures
        fibonacci_window(steps) == (fibonacci(steps as int + 1), fibonacci(steps as int + 2)),
    decreases steps,
{
    if steps > 0 {
        lemma_fibonacci_window((steps - 1) as nat);
    }
}

/// The number at the last supported position.
pub proof fn lemma_fibonacci_at_limit()
    ensures
        fibonacci(47) == 1836311903,
{
    lemma_fibonacci_window(46);
    assert(fibonacci_window(46).0 == 1836311903) by {
        reveal_with_fuel(fibonacci_window, 47);
    }
}

/// Returns the Fibonacci number at position `n`, or -1 when `n` is not a
/// position.
pub fn get_fibonacci_number(n: i32) -> (number: i32)
    requires
        n <= MAX_FIBONACCI_POSITION,
    ensures
        number == fibonacci(n as int),
    decreases n,
{
    if n <= 0 {
        -1
    } else if n == 1 {
        0
    } else if n == 2 {
        1
    } else {
        proof {
            lemma_fibonacci_at_limit();
            lemma_fibonacci_monotonic(n as int, 47);
            lemma_fibonacci_monotonic(1, n - 1);
            lemma_fibonacci_monotonic(1, n - 2);
        }
        get_fibonacci_number(n - 1) + get_fibonacci_number(n - 2)
    }
}

/// Which of 3 and 2 divides a number, 3 being asked first.
#[derive(PartialEq, Eq, Structural, Debug)]
pub enum Divisor {
    Three,
    Two,
    Neither,
}

/// What [`run`] works out.
pub struct Walkthrough {
    /// The first of 3 and 2 to divide 6.
    pub divisor: Divisor,
    /// What an `if` expression gives whose condition is false.
    pub something: i128,
    /// What a loop gives that counts to ten and breaks with twice its count.
    pub result: i32,
    /// The array 1, 2, 3, 4 walked from the front.
    pub forward: Vec<i32>,
    /// The same array walked from the back.
    pub backward: Vec<i32>,
    /// The sixth Fibonacci number.
    pub fibonacci: i32,
}

/// Works the module's example: an if-else ladder, an `if` and a `loop` used
/// as expressions, two walks over an array and a recursive function.
pub fn run() -> (seen: Walkthrough)
    ensures
        seen.divisor == Divisor::Three,
        seen.something == 9,
        seen.result == 20,
        seen.forward@ == seq![1i32, 2i32, 3i32, 4i32],
        seen.backward@ == seq![4i32, 3i32, 2i32, 1i32],
        seen.fibonacci == 5,
{
    let number: i32 = 6;
    let divisor = if number % 3 == 0 {
        Divisor::Three
    } else if number % 2 == 0 {
        Divisor::Two
    } else {
        Divisor::Neither
    };

    let some_condition = false;
    let something: i128 = if some_condition {
        8
    } else {
        9
    };

    let mut counter: i32 = 0;
    let mut result: i32 = 0;
    loop
        invariant_except_break
            0 <= counter < 10,
        ensures
            result == 20,
        decreases 10 - counter,
    {
        counter += 1;
        if counter == 10 {
            result = counter * 2;
            break ;
        }
    }

    let a: [i32; 4] = [1, 2, 3, 4];
    let mut forward: Vec<i32> = Vec::new();
    let mut index: usize = 0;
    while index < a.len()
        invariant
            index <= a@.len(),
            forward@ == a@.take(index as int),
        decreases a@.len() - index,
    {
        forward.push(a[index]);
        index += 1;
    }
    let mut backward: Vec<i32> = Vec::new();
    let mut left: usize = a.len();
    while left > 0
        invariant
            left <= a@.len(),
            backward@.len() == a@.len() - left,
            forall|k: int| 0 <= k < backward@.len() ==> backward@[k] == a@[a@.len() - 1 - k],
        decreases left,
    {
        left -= 1;
        backward.push(a[left]);
    }
    assert(forward@ == seq![1i32, 2i32, 3i32, 4i32]);
    assert(backward@ == seq![4i32, 3i32, 2i32, 1i32]);

    proof {
        reveal_with_fuel(fibonacci, 6);
    }
    let fibonacci = get_fibonacci_number(6);
    Walkthrough { divisor, something, result, forward, backward, fibonacci }
}

} // verus!
