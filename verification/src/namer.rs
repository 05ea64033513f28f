//! Names for anonymous in-memory databases.
//!
//! Two connections that name the same in-memory database share it. A database
//! that the caller did not name therefore gets a name nobody else has: a fixed
//! prefix and a number that a [`InMemoryNamer`] hands out once.

use vstd::prelude::*;
use crate::text::concat;

verus! {

/// The character of a decimal digit.
pub open spec fn digit_char(d: nat) -> char {
    ((0x30 + d) as u8) as char
}

/// The decimal notation of `n`, without leading zeros.
pub open spec fn decimal(n: nat) -> Seq<char>
    decreases n,
{
    if n < 10 {
        seq![digit_char(n)]
    } else {
        decimal(n / 10).push(digit_char(n % 10))
    }
}

/// The name of the anonymous in-memory database with number `n`.
pub open spec fn in_memory_name(n: nat) -> Seq<char> {
    "file:sqlx-in-memory-"@ + decimal(n)
}

/// The number after `n`, starting over at zero once `usize` is exhausted.
pub open spec fn successor(n: nat) -> nat {
    if n >= usize::MAX {
        0
    } else {
        n + 1
    }
}

/// The decimal notation of `n`.
pub fn decimal_text(n: usize) -> (r: String)
    ensures
        r@ == decimal(n as nat),
    decreases n,
{
    if n < 10 {
        let mut r = String::new();
        r.push((0x30u8 + n as u8) as char);
        assert(r@ =~= seq![digit_char(n as nat)]);
        r
    } else {
        let mut r = decimal_text(n / 10);
        r.push((0x30u8 + (n % 10) as u8) as char);
        r
    }
}

/// A source of names for anonymous in-memory databases.
///
/// Each call of [`InMemoryNamer::next`] returns the name for the current
/// number and moves on to the next number. The number itself is not exposed.
/// One namer serves a whole process; the caller shares it among threads.
#[derive(Debug)]
pub struct InMemoryNamer {
    next: usize,
}

impl View for InMemoryNamer {
    type V = nat;

    /// The number of the name that the next call hands out.
    closed spec fn view(&self) -> nat {
        self.next as nat
    }
}

impl InMemoryNamer {
    /// A namer that starts at zero.
    pub fn new() -> (r: InMemoryNamer)
        ensures
            r@ == 0,
    {
        InMemoryNamer { next: 0 }
    }

    /// Hands out the name for the current number and advances by one.
    pub fn next(&mut self) -> (name: String)
        ensures
            name@ == in_memory_name(old(self)@),
            final(self)@ == successor(old(self)@),
    {
        let number = self.next;
        self.next = if number == usize::MAX {
            0
        } else {
            number + 1
        };
        let digits = decimal_text(number);
        concat("file:sqlx-in-memory-", digits.as_str())
    }
}

/// Every decimal notation has at least one digit.
proof fn lemma_decimal_nonempty(n: nat)
    ensures
        decimal(n).len() >= 1,
    decreases n,
{
    if n >= 10 {
        lemma_decimal_nonempty(n / 10);
    }
}

/// Different digits have different characters.
proof fn lemma_digit_injective(a: nat, b: nat)
    requires
        a < 10,
        b < 10,
        digit_char(a) == digit_char(b),
    ensures
        a == b,
{
    assert(digit_char(a) as u32 == 0x30 + a);
    assert(digit_char(b) as u32 == 0x30 + b);
}

/// Different numbers have different decimal notations.
pub proof fn lemma_decimal_injective(a: nat, b: nat)
    requires
        decimal(a) == decimal(b),
    ensures
        a == b,
    decreases a,
{
    lemma_decimal_nonempty(a / 10);
    lemma_decimal_nonempty(b / 10);
    if a < 10 && b < 10 {
        assert(decimal(a)[0] == digit_char(a));
        assert(decimal(b)[0] == digit_char(b));
        lemma_digit_injective(a, b);
    } else if a >= 10 && b >= 10 {
        assert(decimal(a / 10) == decimal(a).drop_last());
        assert(decimal(b / 10) == decimal(b).drop_last());
        assert(digit_char(a % 10) == decimal(a).last());
        assert(digit_char(b % 10) == decimal(b).last());
        lemma_decimal_injective(a / 10, b / 10);
        lemma_digit_injective(a % 10, b % 10);
    } else if a < 10 {
        assert(decimal(a).len() == 1);
        assert(decimal(b).len() == decimal(b / 10).len() + 1);
    } else {
        assert(decimal(b).len() == 1);
        assert(decimal(a).len() == decimal(a / 10).len() + 1);
    }
}

/// Different numbers give different names: no two anonymous databases are
/// ever taken for one another.
pub proof fn lemma_names_distinct(a: nat, b: nat)
    requires
        a != b,
    ensures
        in_memory_name(a) != in_memory_name(b),
{
    let prefix = "file:sqlx-in-memory-"@;
    if in_memory_name(a) == in_memory_name(b) {
        assert((prefix + decimal(a)).skip(prefix.len() as int) =~= decimal(a));
        assert((prefix + decimal(b)).skip(prefix.len() as int) =~= decimal(b));
        lemma_decimal_injective(a, b);
    }
}

} // verus!
