//! How fast a demo types.

use crate::config::{default_delay, CommandStep, CommentStep, Config};
use vstd::prelude::*;

verus! {

/// The delay between characters, in milliseconds, for a speed in characters per second: the
/// whole number nearest to `1000 / speed`, halves rounded up, and at least one. Speed zero stands
/// for the default delay.
pub open spec fn speed_delay(speed: nat) -> nat {
    if speed == 0 {
        50
    } else {
        let nearest = (2000 + speed) / (2 * speed);
        if nearest < 1 {
            1
        } else {
            nearest
        }
    }
}

/// The delay between the characters of a text. A speed, the text's own or else the global one,
/// takes precedence over a delay.
pub open spec fn text_delay(
    speed: Option<u64>,
    delay: Option<u64>,
    global_speed: Option<u64>,
    global_delay: u64,
) -> nat {
    match (speed, global_speed) {
        (Some(s), _) => speed_delay(s as nat),
        (None, Some(s)) => speed_delay(s as nat),
        (None, None) => match delay {
            Some(ms) => ms as nat,
            None => global_delay as nat,
        },
    }
}

/// The value a step sets, or else the global one.
pub open spec fn or_global(own: Option<u64>, global: u64) -> u64 {
    match own {
        Some(value) => value,
        None => global,
    }
}

/// The value a step sets, or else the global one.
pub fn own_or_global(own: Option<u64>, global: u64) -> (value: u64)
    ensures
        value == or_global(own, global),
{
    match own {
        Some(value) => value,
        None => global,
    }
}

/// The delay between characters for a speed in characters per second.
pub fn speed_to_delay(speed: u64) -> (ms: u64)
    ensures
        ms == speed_delay(speed as nat),
        speed == 0 ==> ms == 50,
        0 < 3 * speed <= 2000 ==> 2000 - speed < 2 * speed * ms <= 2000 + speed,
        3 * speed > 2000 ==> ms == 1,
{
    if speed == 0 {
        return default_delay();
    }
    proof {
        law_speed_is_met(speed as nat);
    }
    if speed > 2000 {
        proof {
            let s = speed as int;
            assert((2000 + s) / (2 * s) == 0) by (nonlinear_arith)
                requires
                    s > 2000,
            ;
        }
        return 1;
    }
    let nearest = (2000 + speed) / (2 * speed);
    if nearest < 1 {
        1
    } else {
        nearest
    }
}

/// The delay between the characters of a text with its own speed and delay, if it has any.
pub fn resolve_text_delay(speed: Option<u64>, delay: Option<u64>, config: &Config) -> (ms: u64)
    ensures
        ms == text_delay(speed, delay, config.speed, config.delay),
{
    let chosen = match speed {
        Some(s) => Some(s),
        None => config.speed,
    };
    match chosen {
        Some(s) => speed_to_delay(s),
        None => own_or_global(delay, config.delay),
    }
}

/// The delay between the characters of a command.
pub fn resolve_delay(cmd: &CommandStep, config: &Config) -> (ms: u64)
    ensures
        ms == text_delay(cmd.speed, cmd.delay, config.speed, config.delay),
{
    resolve_text_delay(cmd.speed, cmd.delay, config)
}

/// The delay between the characters of a comment.
pub fn resolve_comment_delay(comment: &CommentStep, config: &Config) -> (ms: u64)
    ensures
        ms == text_delay(comment.speed, comment.delay, config.speed, config.delay),
{
    resolve_text_delay(comment.speed, comment.delay, config)
}

/// The delay is the whole number of milliseconds that comes nearest to the speed asked for; at
/// speeds that a delay of two milliseconds is too long for, it is one.
pub proof fn law_speed_is_met(speed: nat)
    requires
        speed > 0,
    ensures
        3 * speed <= 2000 ==> 2000 - speed < 2 * speed * speed_delay(speed) <= 2000 + speed,
        3 * speed > 2000 ==> speed_delay(speed) == 1,
{
    let s = speed as int;
    let d = 2 * s;
    let n = 2000 + s;
    vstd::arithmetic::div_mod::lemma_fundamental_div_mod(n, d);
    vstd::arithmetic::div_mod::lemma_mod_bound(n, d);
    if 3 * s <= 2000 {
        assert(n / d >= 1) by (nonlinear_arith)
            requires
                n == 2000 + s,
                d == 2 * s,
                0 < s,
                3 * s <= 2000,
        ;
        assert(2 * speed * speed_delay(speed) == d * (n / d));
    } else {
        assert(n / d <= 1) by (nonlinear_arith)
            requires
                n == 2000 + s,
                d == 2 * s,
                3 * s > 2000,
        ;
    }
}

/// A speed takes precedence over a delay, a text's own speed over the global one, and a text's own
/// delay over the global one.
pub proof fn law_timing_precedence(
    speed: Option<u64>,
    delay: Option<u64>,
    global_speed: Option<u64>,
    global_delay: u64,
)
    ensures
        speed matches Some(s) ==> text_delay(speed, delay, global_speed, global_delay)
            == speed_delay(s as nat),
        speed is None ==> (global_speed matches Some(s) ==> text_delay(
            speed,
            delay,
            global_speed,
            global_delay,
        ) == speed_delay(s as nat)),
        speed is None && global_speed is None ==> text_delay(
            speed,
            delay,
            global_speed,
            global_delay,
        ) == or_global(delay, global_delay),
{
}

/// A higher speed never makes for a longer delay.
pub proof fn law_faster_is_not_slower(slow: nat, fast: nat)
    requires
        0 < slow <= fast,
    ensures
        speed_delay(fast) <= speed_delay(slow),
{
    let a = slow as int;
    let b = fast as int;
    let p = (2000 + a) / (2 * a);
    let q = (2000 + b) / (2 * b);
    assert(q <= p) by (nonlinear_arith)
        requires
            0 < a <= b,
            p == (2000 + a) / (2 * a),
            q == (2000 + b) / (2 * b),
    {
        assert(2 * b * q <= 2000 + b);
        assert(2000 + a < 2 * a * (p + 1));
        if q >= p + 1 {
            assert(2 * b * (p + 1) <= 2 * b * q);
            assert(2 * b * (p + 1) - b <= 2000);
            assert(2 * a * (p + 1) - a > 2000);
            assert(p >= 0);
            assert(2 * a * (p + 1) - a <= 2 * b * (p + 1) - b);
        }
    }
}

/// A text takes its own speed, else the global speed, else its own delay, else the global delay.
pub proof fn law_which_delay_counts(a: u64, b: u64, c: u64, d: u64)
    ensures
        text_delay(Some(a), Some(b), Some(c), d) == speed_delay(a as nat),
        text_delay(Some(a), None, None, d) == speed_delay(a as nat),
        text_delay(None, Some(b), Some(c), d) == speed_delay(c as nat),
        text_delay(None, None, Some(c), d) == speed_delay(c as nat),
        text_delay(None, Some(b), None, d) == b,
        text_delay(None, None, None, d) == d,
        or_global(Some(a), d) == a,
        or_global(None, d) == d,
        speed_delay(0) == 50,
{
}

}
