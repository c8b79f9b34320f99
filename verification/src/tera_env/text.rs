//! Text-shaping filters: the reading-time estimate.
use vstd::prelude::*;
use crate::html::{strip_tags, strip_tags_spec};
use crate::text::{decimal, decimal_string};

verus! {

/// Reading speed: about 200 words a minute at 5 characters a word.
pub const CHARS_PER_MINUTE: usize = 1000;

/// Minutes to read `n` characters: rounded up, and at least one.
pub open spec fn minutes_for(n: nat) -> nat {
    let m = (n + 999) / 1000;
    if m < 1 {
        1
    } else {
        m as nat
    }
}

/// `reading_time`: `"N min read"`, from the character count of the
/// tag-stripped text.
pub fn reading_time(text: &str) -> (r: String)
    ensures
        r@ == decimal(minutes_for(strip_tags_spec(text@).len())) + " min read"@,
{
    let stripped = strip_tags(text);
    let n = stripped.unicode_len();
    let q = n / CHARS_PER_MINUTE;
    let rem = n % CHARS_PER_MINUTE;
    let mut minutes = if rem != 0 { q + 1 } else { q };
    assert(minutes as int == (n as int + 999) / 1000) by (nonlinear_arith)
        requires
            q as int == n as int / 1000,
            rem as int == n as int % 1000,
            minutes as int == (if rem != 0 { q as int + 1 } else { q as int }),
    ;
    if minutes < 1 {
        minutes = 1;
    }
    let mut r = decimal_string(minutes);
    r.append(" min read");
    r
}

/// The estimate is at least one minute and rounds up: `n` characters take
/// the least number of whole minutes (of 1000 characters) that covers them,
/// and never less than one.
pub proof fn lemma_reading_time_rounds_up(n: nat)
    ensures
        minutes_for(n) >= 1,
        n <= minutes_for(n) * 1000,
        n > 0 ==> (minutes_for(n) - 1) * 1000 < n,
{
    let m = (n + 999) / 1000;
    assert(m * 1000 <= n + 999 && n + 999 < m * 1000 + 1000) by (nonlinear_arith)
        requires
            m == (n + 999) / 1000,
    ;
}

} // verus!
