//! Timeout tokens.
//!
//! The timer hands out the tokens; the host lets the time pass and gives a
//! token back when its time is up. A holder that no longer waits for a token
//! cancels it by forgetting it.

use vstd::prelude::*;

verus! {

/// The token that follows `token`.
pub open spec fn token_after(token: u64) -> u64 {
    if token == u64::MAX {
        0
    } else {
        (token + 1) as u64
    }
}

/// The `n`-th token that a timer hands out whose first token is `start`.
pub open spec fn nth_token(start: u64, n: nat) -> u64 {
    ((start + n) % 0x1_0000_0000_0000_0000) as u64
}

/// A source of timeout tokens. Its model is the token it hands out next.
pub struct Timer {
    next_token: u64,
}

impl View for Timer {
    type V = u64;

    closed spec fn view(&self) -> u64 {
        self.next_token
    }
}

impl Timer {
    /// Creates a timer whose first token is 0.
    pub fn new() -> (timer: Timer)
        ensures
            timer@ == 0,
    {
        Timer { next_token: 0 }
    }

    /// Returns a token for a timeout that is due after `duration`
    /// milliseconds. The host is told of the timeout by a command that
    /// carries the token.
    pub fn schedule(&mut self, duration: u64) -> (token: u64)
        ensures
            token == old(self)@,
            final(self)@ == token_after(old(self)@),
    {
        let token = self.next_token;
        self.next_token = if token == u64::MAX { 0 } else { token + 1 };
        token
    }
}

/// The tokens of a timer come in the order of `nth_token`.
pub proof fn lemma_token_sequence(start: u64, n: nat)
    ensures
        nth_token(start, 0) == start,
        token_after(nth_token(start, n)) == nth_token(start, n + 1),
{
}

/// The tokens of one timer are unique: two of them differ unless 2^64 or
/// more tokens were handed out between them.
pub proof fn lemma_tokens_unique(start: u64, i: nat, j: nat)
    requires
        i < j,
        j - i < 0x1_0000_0000_0000_0000,
    ensures
        nth_token(start, i) != nth_token(start, j),
{
}

} // verus!
