//! Playback positions in ticks (hundred-nanosecond units): conversion to
//! whole seconds for the player's start argument, and the two ways a
//! position is read back from the player — a `HH:MM:SS.mmm` timestamp line
//! on standard output, and a decimal seconds value from the control channel.
use vstd::prelude::*;

use crate::text;

verus! {

/// Ticks per second: one tick is a hundred nanoseconds.
pub const TICKS_PER_SECOND: u64 = 10_000_000;

/// Whole seconds of a position in ticks, as handed to the player's start
/// argument. Fractions of a second are dropped.
pub fn ticks_to_seconds(ticks: u64) -> (s: u64)
    ensures
        s == ticks / 10_000_000,
{
    ticks / TICKS_PER_SECOND
}

/// The ticks of a whole-second position.
pub fn seconds_to_ticks(seconds: u64) -> (t: u64)
    requires
        seconds * 10_000_000 <= u64::MAX,
    ensures
        t == seconds * 10_000_000,
{
    seconds * TICKS_PER_SECOND
}

/// Whole-second positions survive the trip into ticks and back without
/// drift: converting seconds to ticks and taking whole seconds again gives
/// the seconds back.
pub proof fn lemma_seconds_round_trip(seconds: u64)
    requires
        seconds * 10_000_000 <= u64::MAX,
    ensures
        (seconds * 10_000_000) / 10_000_000 == seconds,
{
    assert((seconds * 10_000_000) / 10_000_000 == seconds) by (nonlinear_arith);
}

/// True when `s` has the exact shape `HH:MM:SS.mmm`.
pub open spec fn is_timestamp(s: Seq<u8>) -> bool {
    &&& s.len() == 12
    &&& text::is_digit(s[0])
    &&& text::is_digit(s[1])
    &&& s[2] == 58
    &&& text::is_digit(s[3])
    &&& text::is_digit(s[4])
    &&& s[5] == 58
    &&& text::is_digit(s[6])
    &&& text::is_digit(s[7])
    &&& s[8] == 46
    &&& text::is_digit(s[9])
    &&& text::is_digit(s[10])
    &&& text::is_digit(s[11])
}

/// The position in ticks a `HH:MM:SS.mmm` timestamp denotes.
pub open spec fn timestamp_ticks(s: Seq<u8>) -> int
    recommends
        is_timestamp(s),
{
    (((s[0] - 48) * 10 + (s[1] - 48)) * 3600 + ((s[3] - 48) * 10 + (s[4] - 48)) * 60 + ((s[6] - 48)
        * 10 + (s[7] - 48))) * 10_000_000 + ((s[9] - 48) * 100 + (s[10] - 48) * 10 + (s[11] - 48))
        * 10_000
}

/// Parse one status line as a `HH:MM:SS.mmm` timestamp, in ticks.
pub fn parse_timestamp(line: &[u8]) -> (r: Option<u64>)
    ensures
        match r {
            Some(t) => is_timestamp(line@) && t == timestamp_ticks(line@),
            None => !is_timestamp(line@),
        },
{
    if line.len() != 12 {
        return None;
    }
    let b0 = line[0];
    let b1 = line[1];
    let b3 = line[3];
    let b4 = line[4];
    let b6 = line[6];
    let b7 = line[7];
    let b9 = line[9];
    let b10 = line[10];
    let b11 = line[11];
    if !(48 <= b0 && b0 <= 57 && 48 <= b1 && b1 <= 57 && line[2] == 58 && 48 <= b3 && b3 <= 57 && 48
        <= b4 && b4 <= 57 && line[5] == 58 && 48 <= b6 && b6 <= 57 && 48 <= b7 && b7 <= 57 && line[8]
        == 46 && 48 <= b9 && b9 <= 57 && 48 <= b10 && b10 <= 57 && 48 <= b11 && b11 <= 57) {
        return None;
    }
    let hours = (b0 - 48) as u64 * 10 + (b1 - 48) as u64;
    let minutes = (b3 - 48) as u64 * 10 + (b4 - 48) as u64;
    let seconds = (b6 - 48) as u64 * 10 + (b7 - 48) as u64;
    let millis = (b9 - 48) as u64 * 100 + (b10 - 48) as u64 * 10 + (b11 - 48) as u64;
    Some((hours * 3600 + minutes * 60 + seconds) * 10_000_000 + millis * 10_000)
}

/// The ticks of the last line that parses as a timestamp, if any: a
/// final-value-wins policy over the drained output.
pub open spec fn last_timestamp(lines: Seq<Seq<u8>>) -> Option<int>
    decreases lines.len(),
{
    if lines.len() == 0 {
        None
    } else if is_timestamp(lines.last()) {
        Some(timestamp_ticks(lines.last()))
    } else {
        last_timestamp(lines.drop_last())
    }
}

/// The final position of a session whose player printed `lines`: the last
/// timestamp wins; with no timestamp at all, the fallback position stands.
pub fn final_position(lines: &Vec<Vec<u8>>, fallback: u64) -> (t: u64)
    ensures
        t == match last_timestamp(lines.deep_view()) {
            Some(x) => x,
            None => fallback as int,
        },
{
    let n = lines.len();
    let mut i: usize = n;
    proof {
        assert(lines.deep_view().take(n as int) =~= lines.deep_view());
    }
    while i > 0
        invariant
            i <= n,
            n == lines@.len(),
            lines.deep_view().len() == n,
            forall|k: int| 0 <= k < n ==> lines.deep_view()[k] == #[trigger] lines@[k]@,
            last_timestamp(lines.deep_view()) == last_timestamp(lines.deep_view().take(i as int)),
        decreases i,
    {
        let line = &lines[i - 1];
        proof {
            assert(lines.deep_view().take(i as int).last() == line@);
            assert(lines.deep_view().take(i as int).drop_last() =~= lines.deep_view().take(
                i - 1 as int,
            ));
        }
        match parse_timestamp(line.as_slice()) {
            Some(t) => {
                return t;
            },
            None => {
            },
        }
        i -= 1;
    }
    proof {
        assert(lines.deep_view().take(0) =~= Seq::<Seq<u8>>::empty());
    }
    fallback
}

/// True when `s` has the shape of a decimal seconds value: one or more
/// digits, optionally a dot followed by one or more digits.
pub open spec fn is_seconds_value(s: Seq<u8>) -> bool {
    let e = text::digit_run_end(s, 0);
    &&& e > 0
    &&& (e == s.len() || (s[e] == 46 && s.len() > e + 1 && text::digit_run_end(s, e + 1)
        == s.len()))
}

/// The fractional digits of a seconds value scaled to ticks: the first
/// seven digits after the dot, padded with zeros to seven places.
pub open spec fn frac_acc(f: Seq<u8>, t: int) -> int
    decreases t,
{
    if t <= 0 {
        0
    } else {
        frac_acc(f, t - 1) * 10 + (if t - 1 < f.len() {
            f[t - 1] - 48
        } else {
            0
        })
    }
}

/// The position in ticks a decimal seconds value denotes, truncated to the
/// tick: whole seconds scaled by ten million plus the scaled fraction.
pub open spec fn seconds_value_ticks(s: Seq<u8>) -> int
    recommends
        is_seconds_value(s),
{
    let e = text::digit_run_end(s, 0);
    let frac = if e == s.len() {
        0
    } else {
        frac_acc(s.subrange(e + 1, s.len() as int), 7)
    };
    text::dec_val(s.take(e)) * 10_000_000 + frac
}

proof fn lemma_frac_acc_bound(f: Seq<u8>, t: int)
    requires
        forall|k: int| 0 <= k < f.len() ==> text::is_digit(#[trigger] f[k]),
        0 <= t <= 7,
    ensures
        0 <= frac_acc(f, t) < 10_000_000,
        t < 7 ==> frac_acc(f, t) < 1_000_000,
        t < 6 ==> frac_acc(f, t) < 100_000,
        t < 5 ==> frac_acc(f, t) < 10_000,
        t < 4 ==> frac_acc(f, t) < 1_000,
        t < 3 ==> frac_acc(f, t) < 100,
        t < 2 ==> frac_acc(f, t) < 10,
        t < 1 ==> frac_acc(f, t) == 0,
    decreases t,
{
    if t > 0 {
        lemma_frac_acc_bound(f, t - 1);
    }
}

/// Parse the player's `time-pos` answer, a decimal seconds value, into
/// ticks. `Some` exactly when the text has the right shape and the position
/// fits the tick counter.
pub fn parse_time_pos(data: &[u8]) -> (r: Option<u64>)
    ensures
        match r {
            Some(t) => is_seconds_value(data@) && t == seconds_value_ticks(data@),
            None => !is_seconds_value(data@) || seconds_value_ticks(data@) > u64::MAX,
        },
{
    let n = data.len();
    let e = text::digit_run_end_exec(data, 0);
    proof {
        text::lemma_digit_run_props(data@, 0);
    }
    if e == 0 {
        return None;
    }
    if e != n {
        if !(data[e] == 46 && n > e + 1) {
            return None;
        }
        let fe = text::digit_run_end_exec(data, e + 1);
        if fe != n {
            return None;
        }
    }
    // the whole seconds, with overflow detected
    let mut acc: u64 = 0;
    let mut i: usize = 0;
    let ghost ip = data@.take(e as int);
    proof {
        assert(forall|k: int| 0 <= k < ip.len() ==> text::is_digit(#[trigger] ip[k]));
        assert(ip.take(0) =~= Seq::<u8>::empty());
    }
    while i < e
        invariant
            i <= e <= n,
            n == data@.len(),
            ip == data@.take(e as int),
            text::digit_run_end(data@, 0) == e,
            forall|k: int| 0 <= k < e ==> text::is_digit(#[trigger] data@[k]),
            acc == text::dec_val(ip.take(i as int)),
        decreases e - i,
    {
        let d = (data[i] - 48) as u64;
        proof {
            assert(ip.take(i + 1).drop_last() =~= ip.take(i as int));
            assert(ip.take(i + 1).last() == data@[i as int]);
        }
        let m = match acc.checked_mul(10) {
            Some(m) => m,
            None => {
                proof {
                    lemma_overflow(data@, e as int, i as int, acc * 10 + d);
                    assert(acc * 10 + d > u64::MAX) by (nonlinear_arith)
                        requires
                            acc * 10 > u64::MAX,
                            d >= 0,
                    ;
                }
                return None;
            },
        };
        acc = match m.checked_add(d) {
            Some(x) => x,
            None => {
                proof {
                    lemma_overflow(data@, e as int, i as int, acc * 10 + d);
                }
                return None;
            },
        };
        i += 1;
    }
    proof {
        assert(ip.take(e as int) =~= ip);
    }
    // scale to ticks, with overflow detected
    let secs_ticks = match acc.checked_mul(10_000_000) {
        Some(x) => x,
        None => {
            proof {
                lemma_scale_overflow(data@, e as int);
            }
            return None;
        },
    };
    // the fraction, seven digits, zero padded
    let mut fv: u64 = 0;
    let ghost f = if e == n {
        Seq::<u8>::empty()
    } else {
        data@.subrange(e + 1, n as int)
    };
    proof {
        if e != n {
            text::lemma_digit_run_props(data@, e + 1);
        }
        assert(forall|k: int| 0 <= k < f.len() ==> text::is_digit(#[trigger] f[k]));
    }
    if e != n {
        let mut t: usize = 0;
        while t < 7
            invariant
                t <= 7,
                e < n,
                n == data@.len(),
                f == data@.subrange(e + 1, n as int),
                forall|k: int| 0 <= k < f.len() ==> text::is_digit(#[trigger] f[k]),
                fv == frac_acc(f, t as int),
            decreases 7 - t,
        {
            proof {
                lemma_frac_acc_bound(f, t as int);
            }
            let d: u64;
            if t < n - (e + 1) {
                proof {
                    assert(f[t as int] == data@[e + 1 + t]);
                }
                d = (data[e + 1 + t] - 48) as u64;
            } else {
                d = 0;
            }
            fv = fv * 10 + d;
            t += 1;
        }
    }
    proof {
        if e == n {
            lemma_frac_acc_zero(f, 7);
        }
        lemma_frac_acc_bound(f, 7);
    }
    match secs_ticks.checked_add(fv) {
        Some(total) => Some(total),
        None => None,
    }
}

proof fn lemma_frac_acc_zero(f: Seq<u8>, t: int)
    requires
        f.len() == 0,
        t >= 0,
    ensures
        frac_acc(f, t) == 0,
    decreases t,
{
    if t > 0 {
        lemma_frac_acc_zero(f, t - 1);
    }
}

/// When a digit prefix of the whole-seconds run already exceeds the tick
/// counter, the whole value does.
proof fn lemma_overflow(s: Seq<u8>, e: int, i: int, v: int)
    requires
        0 <= i < e <= s.len(),
        text::digit_run_end(s, 0) == e,
        forall|k: int| 0 <= k < e ==> text::is_digit(#[trigger] s[k]),
        v == text::dec_val(s.take(e).take(i + 1)),
        v > u64::MAX,
    ensures
        !is_seconds_value(s) || seconds_value_ticks(s) > u64::MAX,
{
    let ip = s.take(e);
    assert(forall|k: int| 0 <= k < ip.len() ==> text::is_digit(#[trigger] ip[k]));
    text::lemma_dec_val_prefix(ip, i + 1);
    assert(text::dec_val(ip) >= v);
    if is_seconds_value(s) {
        let frac = if e == s.len() {
            0
        } else {
            frac_acc(s.subrange(e + 1, s.len() as int), 7)
        };
        if e < s.len() {
            text::lemma_digit_run_props(s, e + 1);
            lemma_frac_acc_bound(s.subrange(e + 1, s.len() as int), 7);
        }
        assert(frac >= 0);
        assert(text::dec_val(ip) * 10_000_000 >= text::dec_val(ip)) by (nonlinear_arith)
            requires
                text::dec_val(ip) > 0,
        ;
    }
}

/// When the whole seconds alone exceed the tick counter, so does the value.
proof fn lemma_scale_overflow(s: Seq<u8>, e: int)
    requires
        0 < e <= s.len(),
        text::digit_run_end(s, 0) == e,
        forall|k: int| 0 <= k < e ==> text::is_digit(#[trigger] s[k]),
        text::dec_val(s.take(e)) * 10_000_000 > u64::MAX,
    ensures
        !is_seconds_value(s) || seconds_value_ticks(s) > u64::MAX,
{
    if is_seconds_value(s) {
        if e < s.len() {
            text::lemma_digit_run_props(s, e + 1);
            lemma_frac_acc_bound(s.subrange(e + 1, s.len() as int), 7);
        }
    }
}

} // verus!
