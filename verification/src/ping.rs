use vstd::prelude::*;
use crate::text::{chars_of, decimal, decimal_spec};

verus! {

/// The pings that a node has seen on a link: the number it expects next, and
/// the numbers that were skipped so far, in rising order of arrival.
pub struct PingTracker {
    pub next_ping: u64,
    pub missed_pings: Vec<u64>,
}

/// A decimal digit.
pub open spec fn is_digit(c: char) -> bool {
    '0' <= c && c <= '9'
}

/// The value of a decimal digit; 0 for any other character.
pub open spec fn digit_value(c: char) -> nat {
    if is_digit(c) {
        (c as int - '0' as int) as nat
    } else {
        0
    }
}

/// The number that a sequence of digits writes.
pub open spec fn digits_value(s: Seq<char>) -> nat
    decreases s.len(),
{
    if s.len() == 0 {
        0
    } else {
        digits_value(s.drop_last()) * 10 + digit_value(s.last())
    }
}

/// Every character is a decimal digit.
pub open spec fn all_digits(s: Seq<char>) -> bool {
    forall|i: int| 0 <= i < s.len() ==> is_digit(#[trigger] s[i])
}

/// The number that a text writes in decimal digits, with or without a plus
/// sign in front; `None` for a text without digits, with any other
/// character, or with a number over the largest that 64 bits hold.
pub open spec fn parse_u64_spec(s: Seq<char>) -> Option<u64> {
    let digits = if s.len() > 0 && s[0] == '+' {
        s.subrange(1, s.len() as int)
    } else {
        s
    };
    if digits.len() > 0 && all_digits(digits) && digits_value(digits) <= u64::MAX {
        Some(digits_value(digits) as u64)
    } else {
        None
    }
}

/// The number of a ping: the payload is `ping`, one more character of one
/// byte, and the number.
pub open spec fn parse_ping_spec(s: Seq<char>) -> Option<u64> {
    if s.len() >= 5 && s.subrange(0, 4) == "ping"@ && (s[4] as u32) < 128 {
        parse_u64_spec(s.subrange(5, s.len() as int))
    } else {
        None
    }
}

/// The numbers from `from` up to, not including, `to`.
pub open spec fn numbers(from: u64, to: u64) -> Seq<u64> {
    if from < to {
        Seq::new((to - from) as nat, |i: int| (from + i) as u64)
    } else {
        Seq::empty()
    }
}

/// The answer to the ping of a number.
pub open spec fn pong_text(n: u64) -> Seq<char> {
    "pong "@ + decimal_spec(n as nat)
}

/// A longer run of digits writes no smaller number.
pub proof fn lemma_digits_value_grows(s: Seq<char>, j: int)
    requires
        0 <= j <= s.len(),
    ensures
        digits_value(s.take(j)) <= digits_value(s),
    decreases s.len() - j,
{
    if j < s.len() {
        lemma_digits_value_grows(s, j + 1);
        assert(s.take(j + 1).drop_last() =~= s.take(j));
    } else {
        assert(s.take(j) =~= s);
    }
}

/// Reads a number written in decimal digits, with or without a plus sign in
/// front.
pub fn parse_u64(text: &[char]) -> (r: Option<u64>)
    ensures
        r == parse_u64_spec(text@),
{
    let n = text.len();
    let start: usize = if n > 0 && text[0] == '+' {
        1
    } else {
        0
    };
    let ghost digits = text@.subrange(start as int, n as int);
    assert(digits =~= if text@.len() > 0 && text@[0] == '+' {
        text@.subrange(1, text@.len() as int)
    } else {
        text@
    });
    if start == n {
        return None;
    }
    let mut value: u64 = 0;
    let mut i: usize = start;
    assert(digits.take(0) =~= Seq::<char>::empty());
    while i < n
        invariant
            start <= i <= n,
            n == text@.len(),
            digits == text@.subrange(start as int, n as int),
            digits == (if text@.len() > 0 && text@[0] == '+' {
                text@.subrange(1, text@.len() as int)
            } else {
                text@
            }),
            all_digits(digits.take(i - start)),
            value == digits_value(digits.take(i - start)),
        decreases n - i,
    {
        let c = text[i];
        let ghost seen = digits.take(i - start);
        let ghost next = digits.take(i - start + 1);
        proof {
            assert(next.drop_last() =~= seen);
            assert(next.last() == c);
            assert(digits[i - start] == c);
        }
        if !('0' <= c && c <= '9') {
            return None;
        }
        let d: u64 = (c as u64) - ('0' as u64);
        if value > (u64::MAX - d) / 10 {
            proof {
                assert(digits_value(next) > u64::MAX);
                lemma_digits_value_grows(digits, i - start + 1);
            }
            return None;
        }
        value = value * 10 + d;
        proof {
            assert forall|k: int| 0 <= k < next.len() implies is_digit(#[trigger] next[k]) by {
                if k < seen.len() {
                    assert(seen[k] == next[k]);
                }
            }
        }
        i += 1;
    }
    assert(digits.take(n - start) =~= digits);
    Some(value)
}

/// Reads the number of a ping from a payload.
pub fn parse_ping(payload: &str) -> (r: Option<u64>)
    ensures
        r == parse_ping_spec(payload@),
{
    let s = chars_of(payload);
    let n = s.len();
    proof {
        reveal_strlit("ping");
    }
    if n < 5 || s[0] != 'p' || s[1] != 'i' || s[2] != 'n' || s[3] != 'g' || (s[4] as u32) >= 128 {
        assert(n >= 5 ==> s@.subrange(0, 4)[0] == s@[0] && s@.subrange(0, 4)[1] == s@[1]
            && s@.subrange(0, 4)[2] == s@[2] && s@.subrange(0, 4)[3] == s@[3]);
        return None;
    }
    assert(s@.subrange(0, 4) =~= "ping"@);
    let mut rest: Vec<char> = Vec::new();
    let mut i: usize = 5;
    while i < n
        invariant
            5 <= i <= n,
            n == s@.len(),
            rest@ == s@.subrange(5, i as int),
        decreases n - i,
    {
        rest.push(s[i]);
        assert(rest@ =~= s@.subrange(5, i + 1));
        i += 1;
    }
    parse_u64(rest.as_slice())
}

impl PingTracker {
    /// A tracker that expects ping 0 and has missed none.
    pub fn new() -> (t: Self)
        ensures
            t.next_ping == 0,
            t.missed_pings@ == Seq::<u64>::empty(),
    {
        PingTracker { next_ping: 0, missed_pings: Vec::new() }
    }

    /// Takes in the ping of number `n`: the numbers from the expected one up
    /// to `n` are noted as missed, and the number after `n` is expected next.
    pub fn record(&mut self, n: u64)
        requires
            n < u64::MAX,
        ensures
            final(self).next_ping == n + 1,
            final(self).missed_pings@ == old(self).missed_pings@ + numbers(old(self).next_ping, n),
    {
        let ghost start = self.missed_pings@;
        let ghost from = self.next_ping;
        assert(start + numbers(from, from) =~= start);
        while self.next_ping < n
            invariant
                from <= self.next_ping,
                from < n ==> self.next_ping <= n,
                from >= n ==> self.next_ping == from,
                self.missed_pings@ == start + numbers(from, self.next_ping),
            decreases n - self.next_ping,
        {
            let ghost before = self.missed_pings@;
            let ghost at = self.next_ping;
            self.missed_pings.push(self.next_ping);
            self.next_ping += 1;
            assert(self.missed_pings@ =~= start + numbers(from, self.next_ping));
        }
        assert(numbers(from, self.next_ping) =~= numbers(from, n));
        self.next_ping = n + 1;
    }

    /// Takes in the payload of a link: a ping is recorded and answered with
    /// the pong of its number; for anything else, and for the one number that
    /// has no successor, nothing changes and there is no answer.
    pub fn handle_payload(&mut self, payload: &str) -> (answer: Option<String>)
        ensures
            match parse_ping_spec(payload@) {
                Some(n) if n < u64::MAX => {
                    &&& answer matches Some(text) && text@ == pong_text(n)
                    &&& final(self).next_ping == n + 1
                    &&& final(self).missed_pings@ == old(self).missed_pings@ + numbers(
                        old(self).next_ping,
                        n,
                    )
                },
                _ => answer.is_none() && *final(self) == *old(self),
            },
    {
        match parse_ping(payload) {
            Some(n) => {
                if n < u64::MAX {
                    self.record(n);
                    let mut text = String::from_str("pong ");
                    text.append(decimal(n).as_str());
                    Some(text)
                } else {
                    None
                }
            },
            None => None,
        }
    }
}

} // verus!
