//! Three-way comparison results and the primitive orders that stages are built from.

use std::cmp::Ordering;
use vstd::prelude::*;
use vstd::slice::slice_index_get;
use vstd::string::StringSliceAdditionalSpecFns;

verus! {

/// The outcome of comparing a left operand with a right operand.
#[derive(Clone, Copy, PartialEq, Eq, Structural, Debug)]
pub enum Order {
    /// The left operand ranks before the right one.
    Less,
    /// The comparison does not distinguish the operands.
    Equal,
    /// The left operand ranks after the right one.
    Greater,
}

impl Order {
    /// The outcome of the same comparison with the operands exchanged.
    pub open spec fn flip(self) -> Order {
        match self {
            Order::Less => Order::Greater,
            Order::Equal => Order::Equal,
            Order::Greater => Order::Less,
        }
    }

    /// This outcome unless it is a tie, in which case `next` decides.
    pub open spec fn or(self, next: Order) -> Order {
        match self {
            Order::Equal => next,
            _ => self,
        }
    }

    /// Turns ascending into descending and back.
    pub fn reverse(self) -> (flipped: Order)
        ensures
            flipped == self.flip(),
    {
        match self {
            Order::Less => Order::Greater,
            Order::Equal => Order::Equal,
            Order::Greater => Order::Less,
        }
    }

    /// Keeps a decided outcome and lets `next` break a tie.
    pub fn then(self, next: Order) -> (combined: Order)
        ensures
            combined == self.or(next),
    {
        match self {
            Order::Equal => next,
            _ => self,
        }
    }

    /// Whether the outcome is a tie.
    pub fn is_tie(self) -> (tie: bool)
        ensures
            tie == (self == Order::Equal),
    {
        match self {
            Order::Equal => true,
            _ => false,
        }
    }

    /// The same outcome in the standard library's vocabulary.
    pub fn into_std(self) -> (std_order: Ordering)
        ensures
            std_order == match self {
                Order::Less => Ordering::Less,
                Order::Equal => Ordering::Equal,
                Order::Greater => Ordering::Greater,
            },
    {
        match self {
            Order::Less => Ordering::Less,
            Order::Equal => Ordering::Equal,
            Order::Greater => Ordering::Greater,
        }
    }

    /// Reads an outcome given in the standard library's vocabulary.
    pub fn from_std(std_order: Ordering) -> (order: Order)
        ensures
            order == match std_order {
                Ordering::Less => Order::Less,
                Ordering::Equal => Order::Equal,
                Ordering::Greater => Order::Greater,
            },
    {
        match std_order {
            Ordering::Less => Order::Less,
            Ordering::Equal => Order::Equal,
            Ordering::Greater => Order::Greater,
        }
    }
}

/// The order of two integers.
pub open spec fn int_order(lhs: int, rhs: int) -> Order {
    if lhs < rhs {
        Order::Less
    } else if lhs == rhs {
        Order::Equal
    } else {
        Order::Greater
    }
}

/// Compares two scores; the smaller one ranks first.
pub fn compare_scores(lhs: u32, rhs: u32) -> (order: Order)
    ensures
        order == int_order(lhs as int, rhs as int),
{
    if lhs < rhs {
        Order::Less
    } else if lhs == rhs {
        Order::Equal
    } else {
        Order::Greater
    }
}

/// Dictionary order of two byte strings: the first differing byte decides, and a
/// proper prefix ranks before its extensions.
pub open spec fn lex_order(lhs: Seq<u8>, rhs: Seq<u8>) -> Order
    decreases lhs.len(),
{
    if lhs.len() == 0 && rhs.len() == 0 {
        Order::Equal
    } else if lhs.len() == 0 {
        Order::Less
    } else if rhs.len() == 0 {
        Order::Greater
    } else if lhs[0] < rhs[0] {
        Order::Less
    } else if lhs[0] > rhs[0] {
        Order::Greater
    } else {
        lex_order(lhs.skip(1), rhs.skip(1))
    }
}

/// The order of two texts: dictionary order of their UTF-8 encodings.
pub open spec fn text_order(lhs: Seq<char>, rhs: Seq<char>) -> Order {
    lex_order(vstd::utf8::encode_utf8(lhs), vstd::utf8::encode_utf8(rhs))
}

/// Dropping a common prefix does not change the dictionary order.
proof fn lemma_lex_common_prefix(lhs: Seq<u8>, rhs: Seq<u8>, n: int)
    requires
        0 <= n <= lhs.len(),
        n <= rhs.len(),
        forall|k: int| 0 <= k < n ==> lhs[k] == rhs[k],
    ensures
        lex_order(lhs, rhs) == lex_order(lhs.skip(n), rhs.skip(n)),
    decreases n,
{
    if n > 0 {
        assert(lhs.skip(1).skip(n - 1) =~= lhs.skip(n));
        assert(rhs.skip(1).skip(n - 1) =~= rhs.skip(n));
        lemma_lex_common_prefix(lhs.skip(1), rhs.skip(1), n - 1);
    } else {
        assert(lhs.skip(0) =~= lhs);
        assert(rhs.skip(0) =~= rhs);
    }
}

/// Compares two byte strings in dictionary order.
pub fn compare_bytes(lhs: &[u8], rhs: &[u8]) -> (order: Order)
    ensures
        order == lex_order(lhs@, rhs@),
{
    let mut i: usize = 0;
    while i < lhs.len() && i < rhs.len()
        invariant
            i <= lhs.len(),
            i <= rhs.len(),
            forall|k: int| 0 <= k < i ==> lhs@[k] == rhs@[k],
        decreases lhs.len() - i,
    {
        let a: u8 = *slice_index_get(lhs, i);
        let b: u8 = *slice_index_get(rhs, i);
        if a != b {
            proof {
                lemma_lex_common_prefix(lhs@, rhs@, i as int);
            }
            return if a < b {
                Order::Less
            } else {
                Order::Greater
            };
        }
        i = i + 1;
    }
    proof {
        lemma_lex_common_prefix(lhs@, rhs@, i as int);
    }
    if i < rhs.len() {
        Order::Less
    } else if i < lhs.len() {
        Order::Greater
    } else {
        Order::Equal
    }
}

/// Compares two texts the way `str` values are ordered.
pub fn compare_text(lhs: &str, rhs: &str) -> (order: Order)
    ensures
        order == text_order(lhs@, rhs@),
{
    compare_bytes(lhs.as_bytes(), rhs.as_bytes())
}

/// Exchanging the operands flips the dictionary order.
pub proof fn lemma_lex_flip(lhs: Seq<u8>, rhs: Seq<u8>)
    ensures
        lex_order(rhs, lhs) == lex_order(lhs, rhs).flip(),
    decreases lhs.len(),
{
    if lhs.len() > 0 && rhs.len() > 0 && lhs[0] == rhs[0] {
        lemma_lex_flip(lhs.skip(1), rhs.skip(1));
    }
}

/// In dictionary order, "not after" is transitive.
pub proof fn lemma_lex_transitive(a: Seq<u8>, b: Seq<u8>, c: Seq<u8>)
    requires
        lex_order(a, b) != Order::Greater,
        lex_order(b, c) != Order::Greater,
    ensures
        lex_order(a, c) != Order::Greater,
    decreases a.len(),
{
    if a.len() > 0 && b.len() > 0 && c.len() > 0 && a[0] == b[0] && b[0] == c[0] {
        lemma_lex_transitive(a.skip(1), b.skip(1), c.skip(1));
    }
}

} // verus!
