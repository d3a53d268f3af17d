//! Short human-readable renderings of ages.

use crate::text::{chars_of, decimal, push_all, push_decimal, string_from};
use crate::timestamp::Timestamp;
use vstd::prelude::*;

verus! {

/// The text shown for a time that lies in the future.
pub open spec fn just_now() -> Seq<char> {
    "just now"@
}

/// An age of `seconds`, in the largest unit that it fills, rounded to the
/// nearest whole number of that unit: seconds below a minute, then minutes,
/// hours, days (below 30 days), months of 30 days (below 365 days) and
/// years of 365 days.
pub open spec fn age_text(seconds: nat) -> Seq<char> {
    if seconds < 60 {
        decimal(seconds) + seq!['s']
    } else if seconds < 3600 {
        decimal((seconds + 30) / 60) + seq!['m']
    } else if seconds < 86400 {
        decimal((seconds + 1800) / 3600) + seq!['h']
    } else if seconds < 2592000 {
        decimal((seconds + 43200) / 86400) + seq!['d']
    } else if seconds < 31536000 {
        decimal((seconds + 1296000) / 2592000) + seq!['m', 'o']
    } else {
        decimal((seconds + 15768000) / 31536000) + seq!['y']
    }
}

/// The text for the age of `time` at `now`.
pub open spec fn time_ago_text(time: Timestamp, now: Timestamp) -> Seq<char> {
    match now.seconds_since(time) {
        Some(seconds) => age_text(seconds),
        None => just_now(),
    }
}

/// The verbose text for the age of `time` at `now`.
pub open spec fn time_ago_verbose_text(time: Timestamp, now: Timestamp) -> Seq<char> {
    match now.seconds_since(time) {
        Some(seconds) => age_text(seconds) + seq![' ', 'a', 'g', 'o'],
        None => just_now(),
    }
}

/// Renders an age of `seconds` compactly: `"42s"`, `"5m"`, `"3h"`, `"12d"`,
/// `"4mo"`, `"2y"`.
pub fn format_elapsed(seconds: u64) -> (out: String)
    ensures
        out@ == age_text(seconds as nat),
{
    let mut buf: Vec<char> = Vec::new();
    if seconds < 60 {
        push_decimal(&mut buf, seconds);
        buf.push('s');
    } else if seconds < 3600 {
        push_decimal(&mut buf, (seconds + 30) / 60);
        buf.push('m');
    } else if seconds < 86400 {
        push_decimal(&mut buf, (seconds + 1800) / 3600);
        buf.push('h');
    } else if seconds < 2592000 {
        push_decimal(&mut buf, (seconds + 43200) / 86400);
        buf.push('d');
    } else if seconds < 31536000 {
        push_decimal(&mut buf, (seconds + 1296000) / 2592000);
        buf.push('m');
        buf.push('o');
    } else {
        let years: u128 = (seconds as u128 + 15768000) / 31536000;
        push_decimal(&mut buf, years as u64);
        buf.push('y');
    }
    let out = string_from(&buf);
    assert(out@ =~= age_text(seconds as nat));
    out
}

/// Renders how long before `now` the moment `time` was, compactly; a `time`
/// after `now` is `"just now"`.
pub fn format_time_ago(time: Timestamp, now: Timestamp) -> (out: String)
    ensures
        out@ == time_ago_text(time, now),
{
    match now.elapsed_since(&time) {
        Some(seconds) => format_elapsed(seconds),
        None => "just now".to_string(),
    }
}

/// As [`format_time_ago`], with `" ago"` after the age; a `time` after `now`
/// is `"just now"`.
pub fn format_time_ago_verbose(time: Timestamp, now: Timestamp) -> (out: String)
    ensures
        out@ == time_ago_verbose_text(time, now),
{
    match now.elapsed_since(&time) {
        Some(seconds) => {
            let compact = format_elapsed(seconds);
            let mut buf = chars_of(compact.as_str());
            let suffix: Vec<char> = vec![' ', 'a', 'g', 'o'];
            push_all(&mut buf, &suffix);
            let out = string_from(&buf);
            assert(out@ =~= age_text(seconds as nat) + seq![' ', 'a', 'g', 'o']);
            out
        },
        None => "just now".to_string(),
    }
}

/// The bytes in a kilobyte.
pub const KB: u64 = 1024;

/// The bytes in a megabyte.
pub const MB: u64 = 1048576;

/// The bytes in a gigabyte.
pub const GB: u64 = 1073741824;

/// `n / d`, rounded to the nearest whole number; a half goes to the even
/// neighbour.
pub open spec fn rounded(n: nat, d: nat) -> nat {
    if d == 0 {
        0
    } else {
        let q = n / d;
        let r = n % d;
        if 2 * r > d || (2 * r == d && q % 2 == 1) {
            q + 1
        } else {
            q
        }
    }
}

/// The step between the numbers with 53 significant bits around `bytes`:
/// 1 below 2^53, then doubling with each bit more.
pub open spec fn float_step(bytes: nat) -> nat {
    if bytes < 0x20_0000_0000_0000 {
        1
    } else if bytes < 0x40_0000_0000_0000 {
        2
    } else if bytes < 0x80_0000_0000_0000 {
        4
    } else if bytes < 0x100_0000_0000_0000 {
        8
    } else if bytes < 0x200_0000_0000_0000 {
        16
    } else if bytes < 0x400_0000_0000_0000 {
        32
    } else if bytes < 0x800_0000_0000_0000 {
        64
    } else if bytes < 0x1000_0000_0000_0000 {
        128
    } else if bytes < 0x2000_0000_0000_0000 {
        256
    } else if bytes < 0x4000_0000_0000_0000 {
        512
    } else if bytes < 0x8000_0000_0000_0000 {
        1024
    } else {
        2048
    }
}

/// `bytes` as the nearest number with 53 significant bits.
pub open spec fn as_measured(bytes: nat) -> nat {
    rounded(bytes, float_step(bytes)) * float_step(bytes)
}

/// The tenths of `unit` in `bytes`, rounded to the nearest.
pub open spec fn tenths_of(bytes: nat, unit: nat) -> nat {
    rounded(as_measured(bytes) * 10, unit)
}

/// A number of tenths with one decimal place, and the name of the unit.
pub open spec fn with_unit(tenths: nat, unit: Seq<char>) -> Seq<char> {
    decimal(tenths / 10) + seq!['.'] + decimal(tenths % 10) + seq![' '] + unit
}

/// A size in the largest of GB, MB and KB that it fills, with one decimal
/// place; below a kilobyte the bytes themselves. A kilobyte is 1024 bytes,
/// a megabyte 1024 kilobytes, a gigabyte 1024 megabytes.
pub open spec fn size_text(bytes: u64) -> Seq<char> {
    if bytes >= GB {
        with_unit(tenths_of(bytes as nat, GB as nat), seq!['G', 'B'])
    } else if bytes >= MB {
        with_unit(tenths_of(bytes as nat, MB as nat), seq!['M', 'B'])
    } else if bytes >= KB {
        with_unit(tenths_of(bytes as nat, KB as nat), seq!['K', 'B'])
    } else {
        decimal(bytes as nat) + seq![' ', 'B']
    }
}

/// `n / d`, rounded to the nearest whole number, a half to the even one.
fn round_to_nearest(n: u128, d: u128) -> (r: u128)
    requires
        0 < d < 0x1_0000_0000_0000_0000_0000,
        n < 0x1_0000_0000_0000_0000_0000,
    ensures
        r == rounded(n as nat, d as nat),
        r <= n / d + 1,
{
    let q = n / d;
    let r = n % d;
    if 2 * r > d || (2 * r == d && q % 2 == 1) {
        q + 1
    } else {
        q
    }
}

/// The step between the numbers with 53 significant bits around `bytes`.
fn step_of(bytes: u64) -> (step: u128)
    ensures
        step == float_step(bytes as nat),
        1 <= step <= 2048,
{
    if bytes < 0x20_0000_0000_0000 {
        1
    } else if bytes < 0x40_0000_0000_0000 {
        2
    } else if bytes < 0x80_0000_0000_0000 {
        4
    } else if bytes < 0x100_0000_0000_0000 {
        8
    } else if bytes < 0x200_0000_0000_0000 {
        16
    } else if bytes < 0x400_0000_0000_0000 {
        32
    } else if bytes < 0x800_0000_0000_0000 {
        64
    } else if bytes < 0x1000_0000_0000_0000 {
        128
    } else if bytes < 0x2000_0000_0000_0000 {
        256
    } else if bytes < 0x4000_0000_0000_0000 {
        512
    } else if bytes < 0x8000_0000_0000_0000 {
        1024
    } else {
        2048
    }
}

/// Appends `bytes` in tenths of `unit`, with one decimal place, and the
/// name of the unit.
fn push_in_unit(out: &mut Vec<char>, bytes: u64, unit: u64, name: &Vec<char>)
    requires
        unit >= 1024,
    ensures
        final(out)@ == old(out)@ + with_unit(tenths_of(bytes as nat, unit as nat), name@),
{
    let step = step_of(bytes);
    let whole = round_to_nearest(bytes as u128, step);
    assert(whole * step <= bytes + step) by (nonlinear_arith)
        requires
            whole <= (bytes as int) / (step as int) + 1,
            step > 0,
    {
        assert(((bytes as int) / (step as int)) * step <= bytes);
    }
    let measured: u128 = whole * step;
    let tenths = round_to_nearest(measured * 10, unit as u128);
    assert(tenths <= (measured * 10) as int / 1024 + 1) by (nonlinear_arith)
        requires
            tenths <= (measured * 10) as int / (unit as int) + 1,
            unit >= 1024,
            measured >= 0,
    ;
    push_decimal(out, (tenths / 10) as u64);
    out.push('.');
    push_decimal(out, (tenths % 10) as u64);
    out.push(' ');
    push_all(out, name);
    proof {
        let t = tenths_of(bytes as nat, unit as nat);
        assert(t == tenths);
        assert(out@ =~= old(out)@ + (decimal(t / 10) + seq!['.'] + decimal(t % 10) + seq![' ']
            + name@));
    }
}

/// Renders a size for display: `"512 B"`, `"1.5 KB"`, `"2.0 MB"`,
/// `"3.2 GB"`.
pub fn format_size(bytes: u64) -> (out: String)
    ensures
        out@ == size_text(bytes),
{
    let mut buf: Vec<char> = Vec::new();
    if bytes >= GB {
        let name: Vec<char> = vec!['G', 'B'];
        push_in_unit(&mut buf, bytes, GB, &name);
    } else if bytes >= MB {
        let name: Vec<char> = vec!['M', 'B'];
        push_in_unit(&mut buf, bytes, MB, &name);
    } else if bytes >= KB {
        let name: Vec<char> = vec!['K', 'B'];
        push_in_unit(&mut buf, bytes, KB, &name);
    } else {
        push_decimal(&mut buf, bytes);
        buf.push(' ');
        buf.push('B');
    }
    let out = string_from(&buf);
    assert(out@ =~= size_text(bytes));
    out
}

} // verus!
