//! Sizes, speeds and times as the window shows them.
use crate::text;
use vstd::prelude::*;

verus! {

pub const KB: u64 = 1024;

pub const MB: u64 = 1048576;

pub const GB: u64 = 1073741824;

/// The quotient rounded to the nearest integer, halves to the even one.
pub open spec fn rounded(n: int, d: int) -> int {
    let q = n / d;
    let r = n % d;
    if 2 * r > d || (2 * r == d && q % 2 == 1) {
        q + 1
    } else {
        q
    }
}

/// The distance of numbers around `n` that a binary fraction of `limit` (a power of two) values
/// tells apart.
pub open spec fn spacing(n: int, limit: int) -> int
    decreases n,
{
    if n < limit || limit < 1 || n < 2 {
        1
    } else {
        2 * spacing(n / 2, limit)
    }
}

/// The number rounded to as many binary digits as `limit` has below it, halves to even.
pub open spec fn significant(n: int, limit: int) -> int {
    rounded(n, spacing(n, limit)) * spacing(n, limit)
}

/// 2 to the power of 53: numbers below it have the precision of a binary floating-point number
/// of 64 bits.
pub const DOUBLE_LIMIT: u64 = 9007199254740992;

/// 2 to the power of 24: numbers below it have the precision of a binary floating-point number
/// of 32 bits.
pub const SINGLE_LIMIT: u64 = 16777216;

pub fn rounded_quotient(n: u128, d: u128) -> (r: u128)
    requires
        1 <= d <= 0x7fff_ffff_ffff_ffff_ffff_ffff_ffff_ffff,
        n <= 0xffff_ffff_ffff_ffff_ffff_ffff_ffff_fff0,
    ensures
        r == rounded(n as int, d as int),
{
    let q: u128 = n / d;
    let rest: u128 = n % d;
    proof {
        vstd::arithmetic::div_mod::lemma_fundamental_div_mod(n as int, d as int);
        vstd::arithmetic::div_mod::lemma_div_is_ordered_by_denominator(n as int, 1, d as int);
    }
    if 2 * rest > d || (2 * rest == d && q % 2 == 1) {
        q + 1
    } else {
        q
    }
}

fn spacing_of(n: u64, limit: u64) -> (r: u64)
    requires
        2 <= limit,
    ensures
        r == spacing(n as int, limit as int),
        1 <= r <= n || r == 1,
    decreases n,
{
    if n < limit {
        1
    } else {
        let half: u64 = spacing_of(n / 2, limit);
        2 * half
    }
}

/// A number with the precision of a binary fraction.
pub fn to_significant(n: u64, limit: u64) -> (r: u128)
    requires
        2 <= limit,
    ensures
        r == significant(n as int, limit as int),
        r <= 2 * n,
{
    let step: u64 = spacing_of(n, limit);
    let q: u128 = rounded_quotient(n as u128, step as u128);
    proof {
        let d = step as int;
        vstd::arithmetic::div_mod::lemma_fundamental_div_mod(n as int, d);
        assert(q <= n as int / d + 1);
        assert(q * d <= (n as int / d + 1) * d) by (nonlinear_arith)
            requires
                q <= n as int / d + 1,
                d >= 1,
                q >= 0,
        ;
        assert((n as int / d + 1) * d == d * (n as int / d) + d) by (nonlinear_arith);
        if step == 1 {
            assert(n as int / 1 == n && n as int % 1 == 0);
            assert(q == n);
            assert(q * d <= 2 * n) by (nonlinear_arith)
                requires
                    q == n,
                    d == 1,
                    n >= 0,
            ;
        } else {
            assert(d * (n as int / d) <= n);
        }
    }
    q * step as u128
}

/// A fixed-point number with one digit after the point.
pub open spec fn tenths(n: nat) -> Seq<char> {
    text::decimal(n / 10) + "."@ + seq![text::digit_char((n % 10) as int)]
}

/// A fixed-point number with two digits after the point.
pub open spec fn hundredths(n: nat) -> Seq<char> {
    text::decimal(n / 100) + "."@ + seq![
        text::digit_char((n / 10 % 10) as int),
        text::digit_char((n % 10) as int),
    ]
}

/// A number of bytes in the largest fitting unit.
pub open spec fn bytes_text(bytes: u64) -> Seq<char> {
    if bytes >= GB {
        hundredths(
            rounded(significant(bytes as int, DOUBLE_LIMIT as int) * 100, GB as int) as nat,
        ) + " GB"@
    } else if bytes >= MB {
        hundredths(rounded(bytes * 100, MB as int) as nat) + " MB"@
    } else if bytes >= KB {
        tenths(rounded(bytes * 10, KB as int) as nat) + " KB"@
    } else {
        text::decimal(bytes as nat) + " B"@
    }
}

fn digit(n: u128) -> (c: char)
    requires
        n < 10,
    ensures
        c == text::digit_char(n as int),
{
    (48 + n as u8) as char
}

fn two_places(n: u128, unit: &str) -> (r: String)
    requires
        n / 100 <= u64::MAX,
    ensures
        r@ == hundredths(n as nat) + unit@,
{
    let mut r = text::decimal_string((n / 100) as u64);
    r.append(".");
    r.push(digit(n / 10 % 10));
    r.push(digit(n % 10));
    assert(r@ =~= hundredths(n as nat));
    r.append(unit);
    r
}

fn one_place(n: u128, unit: &str) -> (r: String)
    requires
        n / 10 <= u64::MAX,
    ensures
        r@ == tenths(n as nat) + unit@,
{
    let mut r = text::decimal_string((n / 10) as u64);
    r.append(".");
    r.push(digit(n % 10));
    assert(r@ =~= tenths(n as nat));
    r.append(unit);
    r
}

/// A number of bytes as shown: whole bytes, tenths of kilobytes, hundredths of larger units.
pub fn format_bytes(bytes: u64) -> (r: String)
    ensures
        r@ == bytes_text(bytes),
{
    if bytes >= GB {
        let exact: u128 = to_significant(bytes, DOUBLE_LIMIT);
        let n: u128 = rounded_quotient(exact * 100, GB as u128);
        two_places(n, " GB")
    } else if bytes >= MB {
        let n: u128 = rounded_quotient(bytes as u128 * 100, MB as u128);
        two_places(n, " MB")
    } else if bytes >= KB {
        let n: u128 = rounded_quotient(bytes as u128 * 10, KB as u128);
        one_place(n, " KB")
    } else {
        let n = text::decimal_string(bytes);
        text::join2(n.as_str(), " B")
    }
}

/// The power of two that brings a fraction to at least 2 to the power of 23.
pub open spec fn scale(n: int, d: int) -> int
    decreases d * 16777216 - n,
{
    if n >= d * 8388608 || n < 1 {
        1
    } else {
        2 * scale(2 * n, d)
    }
}

/// The share of a total that is downloaded, in tenths of a percent. Both amounts, their quotient
/// and its hundredfold are rounded to the precision of 32-bit floating-point numbers.
pub open spec fn percent_tenths(downloaded: u64, total: u64) -> int {
    let n = significant(downloaded as int, SINGLE_LIMIT as int);
    let d = significant(total as int, SINGLE_LIMIT as int);
    if n >= d {
        1000
    } else if n == 0 {
        0
    } else {
        let s = scale(n, d);
        rounded(significant(rounded(n * s, d) * 100, SINGLE_LIMIT as int) * 10, s)
    }
}

/// The share of a total that is downloaded, in percent.
pub open spec fn percent_text(downloaded: u64, total: u64) -> Seq<char> {
    tenths(percent_tenths(downloaded, total) as nat)
}

/// A fraction scaled by the power of two that gives it 24 binary digits, and that power.
fn scaled(n: u128, d: u128) -> (r: (u128, u128))
    requires
        1 <= n < d,
        d <= 0x2_0000_0000_0000_0000,
    ensures
        r.1 == scale(n as int, d as int),
        r.0 == n * r.1,
        r.0 < 16777216 * d,
        1 <= r.1 <= r.0,
{
    let mut m: u128 = n;
    let mut s: u128 = 1;
    while m < d * 8388608
        invariant
            1 <= n < d <= 0x2_0000_0000_0000_0000,
            m == n * s,
            m < 16777216 * d,
            1 <= s <= m,
            scale(n as int, d as int) == s * scale(m as int, d as int),
        decreases d * 16777216 - m,
    {
        proof {
            let rest = scale(2 * m as int, d as int);
            assert(s * (2 * rest) == (2 * s) * rest) by (nonlinear_arith);
            assert(n * (2 * s) == 2 * (n * s)) by (nonlinear_arith);
        }
        m = 2 * m;
        s = 2 * s;
    }
    proof {
        assert(s * 1 == s);
    }
    (m, s)
}

/// The share of a total that is downloaded, in percent with one decimal place.
pub fn format_percent(downloaded: u64, total: u64) -> (r: String)
    ensures
        r@ == percent_text(downloaded, total),
{
    let n: u128 = to_significant(downloaded, SINGLE_LIMIT);
    let d: u128 = to_significant(total, SINGLE_LIMIT);
    proof {
        let shown = percent_text(downloaded, total);
        reveal_strlit("");
        assert(shown + ""@ =~= shown);
    }
    if n >= d {
        return one_place(1000, "");
    }
    if n == 0 {
        return one_place(0, "");
    }
    let (m, s) = scaled(n, d);
    let quotient: u128 = rounded_quotient(m, d);
    proof {
        vstd::arithmetic::div_mod::lemma_fundamental_div_mod(m as int, d as int);
        assert(m as int / d as int <= 16777215) by (nonlinear_arith)
            requires
                m < 16777216 * d,
                m == d * (m as int / d as int) + m as int % d as int,
                m as int % d as int >= 0,
                d >= 1,
        ;
    }
    let percent: u128 = to_significant((quotient * 100) as u64, SINGLE_LIMIT);
    let shown: u128 = rounded_quotient(percent * 10, s);
    proof {
        vstd::arithmetic::div_mod::lemma_div_is_ordered_by_denominator(
            percent as int * 10,
            1,
            s as int,
        );
    }
    one_place(shown, "")
}

/// A speed as shown.
pub open spec fn speed_text(bps: u64) -> Seq<char> {
    if bps == 0 {
        "0 KB/s"@
    } else {
        bytes_text(bps) + "/s"@
    }
}

/// A speed as shown: the bytes of one second.
pub fn format_speed(bps: u64) -> (r: String)
    ensures
        r@ == speed_text(bps),
{
    if bps == 0 {
        "0 KB/s".to_string()
    } else {
        let bytes = format_bytes(bps);
        text::join2(bytes.as_str(), "/s")
    }
}

/// A remaining time as shown.
pub open spec fn eta_text(eta_seconds: Option<u64>) -> Seq<char> {
    match eta_seconds {
        None => "--:--"@,
        Some(s) => if s >= 3600 {
            text::decimal((s / 3600) as nat) + "h "@ + text::decimal((s % 3600 / 60) as nat)
                + "m"@
        } else if s >= 60 {
            text::decimal((s / 60) as nat) + "m "@ + text::decimal((s % 60) as nat) + "s"@
        } else {
            text::decimal(s as nat) + "s"@
        },
    }
}

/// A remaining time as shown, in its two largest units.
pub fn format_eta(eta_seconds: Option<u64>) -> (r: String)
    ensures
        r@ == eta_text(eta_seconds),
{
    match eta_seconds {
        None => "--:--".to_string(),
        Some(s) => if s >= 3600 {
            let hours = text::decimal_string(s / 3600);
            let mins = text::decimal_string(s % 3600 / 60);
            text::join4(hours.as_str(), "h ", mins.as_str(), "m")
        } else if s >= 60 {
            let mins = text::decimal_string(s / 60);
            let secs = text::decimal_string(s % 60);
            text::join4(mins.as_str(), "m ", secs.as_str(), "s")
        } else {
            let secs = text::decimal_string(s);
            text::join2(secs.as_str(), "s")
        },
    }
}

/// Law: a rounded quotient is the nearest integer.
pub proof fn law_rounding_is_to_the_nearest(n: int, d: int)
    requires
        0 <= n,
        1 <= d,
    ensures
        2 * (rounded(n, d) * d - n) <= d,
        2 * (n - rounded(n, d) * d) <= d,
        0 <= rounded(n, d),
        d == 1 ==> rounded(n, d) == n,
{
    let q = n / d;
    let r = n % d;
    vstd::arithmetic::div_mod::lemma_fundamental_div_mod(n, d);
    vstd::arithmetic::div_mod::lemma_mod_bound(n, d);
    vstd::arithmetic::div_mod::lemma_div_pos_is_pos(n, d);
    assert(q * d == d * q) by (nonlinear_arith);
    assert((q + 1) * d == d * q + d) by (nonlinear_arith);
}

proof fn lemma_spacing(n: int, limit: int)
    requires
        0 <= n,
        2 <= limit,
    ensures
        1 <= spacing(n, limit),
        spacing(n, limit) == 1 || spacing(n, limit) * limit <= 2 * n,
        n < limit ==> spacing(n, limit) == 1,
    decreases n,
{
    if n >= limit {
        let half = n / 2;
        lemma_spacing(half, limit);
        let s = spacing(half, limit);
        assert((2 * s) * limit == 2 * (s * limit)) by (nonlinear_arith);
        assert(s == 1 ==> s * limit == limit) by (nonlinear_arith);
    }
}

/// Law: numbers below the limit of a precision keep their value in it.
pub proof fn law_small_numbers_are_exact(n: int, limit: int)
    requires
        0 <= n < limit,
        2 <= limit,
    ensures
        significant(n, limit) == n,
{
    lemma_spacing(n, limit);
    law_rounding_is_to_the_nearest(n, 1);
}

/// Law: a fixed-point number is written as its whole part, a point, and its last digit.
pub proof fn law_tenths_are_written_out(n: nat)
    ensures
        ({
            let t = tenths(n);
            let k = t.len() - 2;
            &&& k > 0
            &&& text::digits_value(t.take(k)) == n / 10
            &&& text::all_digits(t.take(k))
            &&& t[k] == '.'
            &&& t[k + 1] as u32 == 48 + n % 10
        }),
{
    reveal_strlit(".");
    text::lemma_decimal_value(n / 10);
    let t = tenths(n);
    assert(t.take(t.len() - 2) =~= text::decimal(n / 10));
}

/// Law: a fixed-point number with two places is written as its whole part, a point, and two digits.
pub proof fn law_hundredths_are_written_out(n: nat)
    ensures
        ({
            let t = hundredths(n);
            let k = t.len() - 3;
            &&& k > 0
            &&& text::digits_value(t.take(k)) == n / 100
            &&& text::all_digits(t.take(k))
            &&& t[k] == '.'
            &&& t[k + 1] as u32 == 48 + n / 10 % 10
            &&& t[k + 2] as u32 == 48 + n % 10
        }),
{
    reveal_strlit(".");
    text::lemma_decimal_value(n / 100);
    let t = hundredths(n);
    assert(t.take(t.len() - 3) =~= text::decimal(n / 100));
}

/// Whether a text shows an amount in hundredths of a unit, to the nearest one.
pub open spec fn shows_hundredths(s: Seq<char>, amount: int, unit: int, name: Seq<char>) -> bool {
    exists|h: nat|
        s == #[trigger] hundredths(h) + name && 2 * (h * unit - amount * 100) <= unit && 2 * (amount
            * 100 - h * unit) <= unit
}

/// Whether a text shows an amount in tenths of a unit, to the nearest one.
pub open spec fn shows_tenths(s: Seq<char>, amount: int, unit: int, name: Seq<char>) -> bool {
    exists|t: nat|
        s == #[trigger] tenths(t) + name && 2 * (t * unit - amount * 10) <= unit && 2 * (amount * 10
            - t * unit) <= unit
}

/// Law: an amount of bytes is shown in the largest unit that fits, rounded to the nearest shown
/// place: whole bytes, tenths of kibibytes, hundredths of mebibytes and gibibytes.
pub proof fn law_sizes_are_shown_in_the_largest_unit(bytes: u64)
    ensures
        bytes < 1024 ==> bytes_text(bytes) == text::decimal(bytes as nat) + " B"@,
        1024 <= bytes < 1048576 ==> shows_tenths(bytes_text(bytes), bytes as int, 1024, " KB"@),
        1048576 <= bytes < 1073741824 ==> shows_hundredths(
            bytes_text(bytes),
            bytes as int,
            1048576,
            " MB"@,
        ),
        1073741824 <= bytes < 9007199254740992 ==> shows_hundredths(
            bytes_text(bytes),
            bytes as int,
            1073741824,
            " GB"@,
        ),
        bytes >= 1073741824 ==> exists|h: nat| bytes_text(bytes) == #[trigger] hundredths(h) + " GB"@,
        bytes > 0 ==> speed_text(bytes) == bytes_text(bytes) + "/s"@,
{
    let n = bytes as int;
    if 1024 <= bytes < 1048576 {
        law_rounding_is_to_the_nearest(n * 10, 1024);
        let t = rounded(n * 10, 1024) as nat;
        assert(bytes_text(bytes) == tenths(t) + " KB"@);
    } else if 1048576 <= bytes < 1073741824 {
        law_rounding_is_to_the_nearest(n * 100, 1048576);
        let h = rounded(n * 100, 1048576) as nat;
        assert(bytes_text(bytes) == hundredths(h) + " MB"@);
    } else if bytes >= 1073741824 {
        let kept = significant(n, DOUBLE_LIMIT as int);
        let h = rounded(kept * 100, GB as int) as nat;
        assert(bytes_text(bytes) == hundredths(h) + " GB"@);
        if bytes < 9007199254740992 {
            law_small_numbers_are_exact(n, DOUBLE_LIMIT as int);
            law_rounding_is_to_the_nearest(n * 100, 1073741824);
        }
    }
}

/// Law: a remaining time is shown in its two largest units, short of the whole by less than the
/// smaller one.
pub proof fn law_remaining_times_are_shown_in_two_units(s: u64)
    ensures
        s < 60 ==> eta_text(Some(s)) == text::decimal(s as nat) + "s"@,
        60 <= s < 3600 ==> exists|m: nat, r: nat|
            eta_text(Some(s)) == #[trigger] text::decimal(m) + "m "@ + #[trigger] text::decimal(r)
                + "s"@ && r < 60 && 60 * m + r == s,
        s >= 3600 ==> exists|h: nat, m: nat|
            eta_text(Some(s)) == #[trigger] text::decimal(h) + "h "@ + #[trigger] text::decimal(m)
                + "m"@ && m < 60 && 3600 * h + 60 * m <= s < 3600 * h + 60 * m + 60,
        eta_text(None) == "--:--"@,
{
    if s >= 3600 {
        let h = (s / 3600) as nat;
        let m = (s % 3600 / 60) as nat;
        assert(eta_text(Some(s)) == text::decimal(h) + "h "@ + text::decimal(m) + "m"@);
    } else if s >= 60 {
        let m = (s / 60) as nat;
        let r = (s % 60) as nat;
        assert(eta_text(Some(s)) == text::decimal(m) + "m "@ + text::decimal(r) + "s"@);
    }
}

proof fn lemma_scale(n: int, d: int)
    requires
        1 <= n < d * 16777216,
        1 <= d,
    ensures
        1 <= scale(n, d),
        n * scale(n, d) >= d * 8388608,
        n * scale(n, d) < d * 16777216,
    decreases d * 16777216 - n,
{
    if n < d * 8388608 {
        lemma_scale(2 * n, d);
        let s = scale(2 * n, d);
        assert(n * (2 * s) == (2 * n) * s) by (nonlinear_arith);
    } else {
        assert(n * 1 == n);
    }
}

/// Law: nothing downloaded is shown as no percent, everything as a hundred, and a share of a file
/// below sixteen mebibytes to the nearest tenth of a percent or the next to it.
pub proof fn law_shown_shares_fit_the_download(downloaded: u64, total: u64)
    requires
        downloaded <= total,
    ensures
        total > 0 && downloaded == total ==> percent_tenths(downloaded, total) == 1000,
        0 < total < 16777216 && downloaded == 0 ==> percent_tenths(downloaded, total) == 0,
        0 < total < 16777216 ==> percent_tenths(downloaded, total) * total - 1000 * downloaded
            <= total && 1000 * downloaded - percent_tenths(downloaded, total) * total <= total,
{
    if 0 < total < 16777216 {
        let n = downloaded as int;
        let d = total as int;
        law_small_numbers_are_exact(n, SINGLE_LIMIT as int);
        law_small_numbers_are_exact(d, SINGLE_LIMIT as int);
        if 0 < n < d {
            let s = scale(n, d);
            assert(n < d * 16777216);
            lemma_scale(n, d);
            let q = rounded(n * s, d);
            assert(n * s >= 0);
            law_rounding_is_to_the_nearest(n * s, d);
            assert(s >= 8388608) by (nonlinear_arith)
                requires
                    n * s >= d * 8388608,
                    0 < n < d,
                    s >= 1,
            ;
            assert(q <= 16777217) by (nonlinear_arith)
                requires
                    2 * (q * d - n * s) <= d,
                    n * s < d * 16777216,
                    d >= 1,
            ;
            let x = q * 100;
            lemma_spacing(x, 16777216);
            let w = spacing(x, 16777216);
            assert(w <= 202);
            law_rounding_is_to_the_nearest(x, w);
            let y = significant(x, 16777216);
            assert(y == rounded(x, w) * w);
            assert(y >= 0) by (nonlinear_arith)
                requires
                    y == rounded(x, w) * w,
                    rounded(x, w) >= 0,
                    w >= 1,
            ;
            law_rounding_is_to_the_nearest(y * 10, s);
            let p = rounded(y * 10, s);
            assert(percent_tenths(downloaded, total) == p);
            // The three roundings are off by less than half a tenth, and two far smaller amounts.
            assert(p * d - 1000 * n <= d && 1000 * n - p * d <= d) by (nonlinear_arith)
                requires
                    2 * (q * d - n * s) <= d,
                    2 * (n * s - q * d) <= d,
                    2 * (y - q * 100) <= 202,
                    2 * (q * 100 - y) <= 202,
                    2 * (p * s - y * 10) <= s,
                    2 * (y * 10 - p * s) <= s,
                    s >= 8388608,
                    d >= 1,
            ;
        }
    }
}

} // verus!
