//! Collision-resistant names for staged replacements and backups.
//!
//! A token combines the process's start time, its process ID, and a counter
//! that each new name advances; the caller supplies the first two.

use vstd::prelude::*;

use crate::text::{decimal, digit_char, fmt_u128, push_str};

verus! {

/// The token of one counter value: time in the high 64 bits, process ID in
/// the next 32, counter in the low 32.
pub open spec fn token_of(epoch: u64, pid: u32, counter: u32) -> nat {
    epoch as nat * 0x1_0000_0000_0000_0000 + pid as nat * 0x1_0000_0000 + counter as nat
}

/// Source of unique tokens for one process.
pub struct TokenSource {
    /// Wall-clock nanoseconds when the process first asked for a token.
    epoch: u64,
    /// Process identifier.
    pid: u32,
    /// Tokens handed out so far.
    counter: u32,
}

impl TokenSource {
    /// The counter as a plain value.
    pub closed spec fn used(&self) -> nat {
        self.counter as nat
    }

    /// The time part.
    pub closed spec fn epoch(&self) -> u64 {
        self.epoch
    }

    /// The process part.
    pub closed spec fn pid(&self) -> u32 {
        self.pid
    }

    /// A fresh source for a process started at `epoch` with ID `pid`.
    pub fn new(epoch: u64, pid: u32) -> (r: Self)
        ensures
            r.used() == 0,
            r.epoch() == epoch,
            r.pid() == pid,
    {
        TokenSource { epoch, pid, counter: 0 }
    }

    /// Whether another token can be handed out.
    pub fn can_issue(&self) -> (r: bool)
        ensures
            r == (self.used() < u32::MAX),
    {
        self.counter < u32::MAX
    }

    /// Hands out the next token; each of the first 2^32 tokens of a source
    /// differs from every earlier one.
    pub fn next(&mut self) -> (r: u128)
        requires
            old(self).used() < u32::MAX,
        ensures
            r == token_of(old(self).epoch(), old(self).pid(), old(self).used() as u32),
            final(self).used() == old(self).used() + 1,
            final(self).epoch() == old(self).epoch(),
            final(self).pid() == old(self).pid(),
    {
        let t = (self.epoch as u128) * 0x1_0000_0000_0000_0000u128 + (self.pid as u128) * 0x1_0000_0000u128
            + self.counter as u128;
        self.counter = self.counter + 1;
        t
    }
}

/// A hidden sibling path `parent/.<id>-<kind>-<token>`.
pub open spec fn sibling_path(parent: Seq<char>, id: Seq<char>, kind: Seq<char>, token: nat) -> Seq<char> {
    parent + "/."@ + id + "-"@ + kind + "-"@ + decimal(token)
}

fn sibling(parent: &str, id: &str, kind: &str, token: u128) -> (r: String)
    ensures
        r@ == sibling_path(parent@, id@, kind@, token as nat),
{
    let mut s = String::new();
    push_str(&mut s, parent);
    push_str(&mut s, "/.");
    push_str(&mut s, id);
    push_str(&mut s, "-");
    push_str(&mut s, kind);
    push_str(&mut s, "-");
    let t = fmt_u128(token);
    push_str(&mut s, t.as_str());
    s
}

/// The sibling path that receives a replacement before it is moved into
/// place.
pub fn staging_path(parent: &str, id: &str, token: u128) -> (r: String)
    ensures
        r@ == sibling_path(parent@, id@, "staging"@, token as nat),
{
    sibling(parent, id, "staging", token)
}

/// The sibling path that holds a replaced directory until the replacement
/// is in place; an unnamed destination is called `artifact`.
pub fn backup_path(parent: &str, name: Option<&str>, token: u128) -> (r: String)
    ensures
        r@ == sibling_path(
            parent@,
            match name {
                Some(n) => n@,
                None => "artifact"@,
            },
            "backup"@,
            token as nat,
        ),
{
    match name {
        Some(n) => sibling(parent, n, "backup", token),
        None => sibling(parent, "artifact", "backup", token),
    }
}

/// Distinct numbers have distinct decimal representations.
pub proof fn lemma_decimal_injective(a: nat, b: nat)
    requires
        decimal(a) == decimal(b),
    ensures
        a == b,
    decreases a + b,
{
    if a < 10 && b < 10 {
        assert(decimal(a) == seq![digit_char(a as int)]);
        assert(decimal(b) == seq![digit_char(b as int)]);
        assert(decimal(a)[0] == decimal(b)[0]);
        assert(seq![digit_char(a as int)][0] == digit_char(a as int));
        assert(seq![digit_char(b as int)][0] == digit_char(b as int));
        lemma_digit_char_injective(a as int, b as int);
    } else if a < 10 {
        lemma_decimal_len(b / 10);
        assert(decimal(b).len() >= 2);
    } else if b < 10 {
        lemma_decimal_len(a / 10);
        assert(decimal(a).len() >= 2);
    } else {
        let da = decimal(a);
        let db = decimal(b);
        assert(da.last() == digit_char((a % 10) as int));
        assert(db.last() == digit_char((b % 10) as int));
        assert(da.drop_last() =~= decimal(a / 10));
        assert(db.drop_last() =~= decimal(b / 10));
        lemma_digit_char_injective((a % 10) as int, (b % 10) as int);
        lemma_decimal_injective(a / 10, b / 10);
    }
}

proof fn lemma_digit_char_injective(x: int, y: int)
    requires
        0 <= x < 10,
        0 <= y < 10,
        digit_char(x) == digit_char(y),
    ensures
        x == y,
{
    assert(digit_char(x) as u32 == 48 + x);
    assert(digit_char(y) as u32 == 48 + y);
}

proof fn lemma_decimal_len(n: nat)
    ensures
        decimal(n).len() >= 1,
    decreases n,
{
    if n >= 10 {
        lemma_decimal_len(n / 10);
    }
}

/// Staging paths made from distinct tokens are distinct: no two staged
/// replacements of one process share a directory.
pub proof fn lemma_staging_paths_distinct(parent: Seq<char>, id: Seq<char>, t1: nat, t2: nat)
    requires
        t1 != t2,
    ensures
        sibling_path(parent, id, "staging"@, t1) != sibling_path(parent, id, "staging"@, t2),
{
    let prefix = parent + "/."@ + id + "-"@ + "staging"@ + "-"@;
    if sibling_path(parent, id, "staging"@, t1) == sibling_path(parent, id, "staging"@, t2) {
        assert(sibling_path(parent, id, "staging"@, t1).skip(prefix.len() as int) =~= decimal(t1));
        assert(sibling_path(parent, id, "staging"@, t2).skip(prefix.len() as int) =~= decimal(t2));
        lemma_decimal_injective(t1, t2);
    }
}

/// Successive tokens of one source differ.
pub proof fn lemma_tokens_distinct(epoch: u64, pid: u32, c1: u32, c2: u32)
    requires
        c1 != c2,
    ensures
        token_of(epoch, pid, c1) != token_of(epoch, pid, c2),
{
}

} // verus!
