//! What holds of the device handling, the connection screen and the shell
//! commands across all inputs.

use vstd::prelude::*;
use crate::app::{devices_seen, first_ready_device, is_ready, preferred_device, still_listed, AppV};
use crate::files::listing::{sanitized, unsafe_char};
use crate::device::resolution_of;
use crate::text::{
    dec, digit_char, digits_value, index_of, is_digit, is_ws, lemma_index_of, parse_bounded,
    parse_nat, trim, trim_end, trim_start, unsigned_digits,
};
use crate::watcher::SummaryV;
use crate::wifi::{logged, normalized};

verus! {

// ───────────────────────────── shell text ─────────────────────────────

/// Text made safe for a shell command holds no unsafe character.
pub proof fn law_sanitized_safe(s: Seq<char>)
    ensures
        forall|i: int| 0 <= i < sanitized(s).len() ==> !unsafe_char(#[trigger] sanitized(s)[i]),
    decreases s.len(),
{
    if s.len() > 0 {
        let r = sanitized(s.drop_last());
        law_sanitized_safe(s.drop_last());
        assert forall|i: int| 0 <= i < sanitized(s).len() implies !unsafe_char(
            #[trigger] sanitized(s)[i],
        ) by {
            if i < r.len() {
                assert(sanitized(s)[i] == r[i]);
            }
        }
    }
}

proof fn lemma_sanitized_of_safe(s: Seq<char>)
    requires
        forall|i: int| 0 <= i < s.len() ==> !unsafe_char(#[trigger] s[i]),
    ensures
        sanitized(s) == s,
    decreases s.len(),
{
    if s.len() > 0 {
        lemma_sanitized_of_safe(s.drop_last());
        assert(s.drop_last().push(s.last()) =~= s);
    }
}

/// Making text safe twice changes nothing more than doing it once.
pub proof fn law_sanitize_idempotent(s: Seq<char>)
    ensures
        sanitized(sanitized(s)) == sanitized(s),
{
    law_sanitized_safe(s);
    lemma_sanitized_of_safe(sanitized(s));
}

// ───────────────────────────── addresses ─────────────────────────────

proof fn lemma_trim_start_shape(s: Seq<char>)
    ensures
        exists|k: int| 0 <= k <= s.len() && trim_start(s) == #[trigger] s.skip(k),
        trim_start(s).len() == 0 || !is_ws(trim_start(s)[0]),
    decreases s.len(),
{
    if s.len() > 0 && is_ws(s[0]) {
        lemma_trim_start_shape(s.drop_first());
        let k = choose|k: int| 0 <= k <= s.drop_first().len() && trim_start(s.drop_first()) == #[trigger] s.drop_first().skip(k);
        assert(s.drop_first().skip(k) =~= s.skip(k + 1));
    } else {
        assert(s.skip(0) =~= s);
    }
}

proof fn lemma_trim_end_shape(s: Seq<char>)
    ensures
        exists|k: int| 0 <= k <= s.len() && trim_end(s) == #[trigger] s.take(k),
        trim_end(s).len() == 0 || !is_ws(trim_end(s).last()),
    decreases s.len(),
{
    if s.len() > 0 && is_ws(s.last()) {
        lemma_trim_end_shape(s.drop_last());
        let k = choose|k: int| 0 <= k <= s.drop_last().len() && trim_end(s.drop_last()) == #[trigger] s.drop_last().take(k);
        assert(s.drop_last().take(k) =~= s.take(k));
    } else {
        assert(s.take(s.len() as int) =~= s);
    }
}

/// Trimmed text starts and ends with no whitespace.
proof fn lemma_trim_shape(s: Seq<char>)
    ensures
        trim(s).len() == 0 || (!is_ws(trim(s)[0]) && !is_ws(trim(s).last())),
{
    let a = trim_start(s);
    lemma_trim_start_shape(s);
    lemma_trim_end_shape(a);
    let k = choose|k: int| 0 <= k <= a.len() && trim_end(a) == #[trigger] a.take(k);
    if trim(s).len() > 0 {
        assert(trim(s)[0] == a[0]);
    }
}

/// Text that starts and ends with no whitespace is its own trim.
proof fn lemma_trim_fixed(t: Seq<char>)
    requires
        t.len() == 0 || (!is_ws(t[0]) && !is_ws(t.last())),
    ensures
        trim(t) == t,
{
    assert(trim_start(t) == t);
    assert(trim_end(t) == t);
}

/// Adding the Wi-Fi port to an address that already went through it
/// changes nothing; the result always holds a `:`.
pub proof fn law_normalize_idempotent(a: Seq<char>)
    ensures
        normalized(normalized(a)) == normalized(a),
        index_of(normalized(a), ':') is Some,
{
    let x = trim(a);
    lemma_trim_shape(a);
    lemma_index_of(x, ':');
    reveal_strlit(":5555");
    let y = x + ":5555"@;
    assert(y.last() == '5');
    if x.len() > 0 {
        assert(y[0] == x[0]);
    } else {
        assert(y[0] == ':');
    }
    lemma_trim_fixed(x);
    lemma_trim_fixed(y);
    lemma_index_of(y, ':');
    assert(y[x.len() as int] == ':');
    lemma_index_of(normalized(a), ':');
}

/// The log never holds more than its 40 lines, and the newest line is the
/// one just added.
pub proof fn law_log_capped(log: Seq<(bool, Seq<char>)>, error: bool, text: Seq<char>)
    requires
        log.len() <= 40,
    ensures
        logged(log, error, text).len() <= 40,
        logged(log, error, text).last() == (error, text),
{
}

// ───────────────────────────── devices ─────────────────────────────

proof fn lemma_first_ready(ds: Seq<SummaryV>, wifi: bool)
    ensures
        first_ready_device(ds, wifi) is Some <==> exists|i: int|
            0 <= i < ds.len() && is_ready(#[trigger] ds[i]) && (!wifi || ds[i].wifi),
        first_ready_device(ds, wifi) matches Some(s) ==> exists|j: int|
            0 <= j < ds.len() && (#[trigger] ds[j]).serial == s && is_ready(ds[j]) && (!wifi
                || ds[j].wifi),
    decreases ds.len(),
{
    if ds.len() > 0 {
        let t = ds.drop_first();
        lemma_first_ready(t, wifi);
        if !(is_ready(ds[0]) && (!wifi || ds[0].wifi)) {
            if exists|i: int| 0 <= i < ds.len() && is_ready(#[trigger] ds[i]) && (!wifi || ds[i].wifi) {
                let i = choose|i: int| 0 <= i < ds.len() && is_ready(#[trigger] ds[i]) && (!wifi || ds[i].wifi);
                assert(t[i - 1] == ds[i]);
            }
            if let Some(s) = first_ready_device(t, wifi) {
                let j = choose|j: int| 0 <= j < t.len() && (#[trigger] t[j]).serial == s && is_ready(t[j]) && (!wifi || t[j].wifi);
                assert(ds[j + 1] == t[j]);
            }
        }
    }
}

/// The device picked next is a listed, ready one; a ready Wi-Fi device
/// wins over a cable, and some device is picked whenever one is ready.
pub proof fn law_wifi_preferred(ds: Seq<SummaryV>)
    ensures
        preferred_device(ds) matches Some(s) ==> exists|j: int|
            0 <= j < ds.len() && (#[trigger] ds[j]).serial == s && is_ready(ds[j]),
        (exists|i: int| 0 <= i < ds.len() && is_ready(#[trigger] ds[i]) && ds[i].wifi)
            ==> (preferred_device(ds) is Some && exists|j: int|
            0 <= j < ds.len() && (#[trigger] ds[j]).serial == preferred_device(ds)->0 && is_ready(ds[j])
                && ds[j].wifi),
        (exists|i: int| 0 <= i < ds.len() && is_ready(#[trigger] ds[i])) ==> preferred_device(ds) is Some,
{
    lemma_first_ready(ds, true);
    lemma_first_ready(ds, false);
}

/// While the device in use stays listed and ready, a new device list
/// changes nothing but the list: unplugging the cable of another device,
/// or of a device also reached over Wi-Fi, keeps the session.
pub proof fn law_listed_device_kept(v: AppV, list: Seq<SummaryV>)
    requires
        still_listed(list, v.selected),
    ensures
        devices_seen(v, list) == (AppV { devices: list, ..v }),
{
}

// ───────────────────────────── numbers ─────────────────────────────

proof fn lemma_digit_char(d: nat)
    requires
        d < 10,
    ensures
        is_digit(digit_char(d)),
        digit_char(d) as nat == d + 48,
{
    assert(((d + 48) as u32) as nat == d + 48);
}

proof fn lemma_dec_digits(n: nat)
    ensures
        dec(n).len() >= 1,
        forall|i: int| 0 <= i < dec(n).len() ==> is_digit(#[trigger] dec(n)[i]),
        digits_value(dec(n)) == n,
    decreases n,
{
    lemma_digit_char(n % 10);
    if n < 10 {
        assert(dec(n)[0] == digit_char(n));
        assert(dec(n).drop_last() =~= Seq::<char>::empty());
        assert(dec(n).last() == digit_char(n));
        assert forall|i: int| 0 <= i < dec(n).len() implies is_digit(#[trigger] dec(n)[i]) by {
            assert(i == 0);
            lemma_digit_char(n);
        }
        lemma_digit_char(n);
        assert(digits_value(dec(n).drop_last()) == 0);
        assert(digits_value(dec(n)) == n);
    } else {
        lemma_dec_digits(n / 10);
        let d = dec(n / 10);
        let e = d.push(digit_char(n % 10));
        assert(dec(n) == e);
        assert(e.drop_last() =~= d);
        assert forall|i: int| 0 <= i < e.len() implies is_digit(#[trigger] e[i]) by {
            if i < d.len() {
                assert(e[i] == d[i]);
            } else {
                assert(e[i] == digit_char(n % 10));
            }
        }
        assert((n / 10) * 10 + n % 10 == n);
        assert(e.last() == digit_char(n % 10));
        assert(digits_value(e) == digits_value(d) * 10 + n % 10);
    }
}

/// A number written in decimal reads back as itself.
pub proof fn law_decimal_roundtrip(n: nat)
    ensures
        parse_nat(dec(n)) == Some(n),
{
    lemma_dec_digits(n);
    assert(unsigned_digits(dec(n)) == dec(n));
}

/// A screen size written as `WIDTHxHEIGHT` reads back as that width and
/// height.
pub proof fn law_resolution_roundtrip(w: usize, h: usize)
    ensures
        resolution_of(dec(w as nat) + "x"@ + dec(h as nat)) == Some((w, h)),
{
    reveal_strlit("x");
    let a = dec(w as nat);
    let b = dec(h as nat);
    let t = a + "x"@ + b;
    lemma_dec_digits(w as nat);
    lemma_dec_digits(h as nat);
    law_decimal_roundtrip(w as nat);
    law_decimal_roundtrip(h as nat);
    assert(t[0] == a[0]);
    assert(t.last() == b.last());
    assert(!is_ws(a[0]));
    assert(!is_ws(b.last()));
    lemma_trim_fixed(t);
    lemma_trim_fixed(a);
    lemma_trim_fixed(b);
    lemma_index_of(t, 'x');
    assert(t[a.len() as int] == 'x');
    assert forall|j: int| 0 <= j < a.len() implies t[j] != 'x' by {
        assert(t[j] == a[j]);
        assert(is_digit(a[j]));
    }
    assert(index_of(t, 'x') == Some(a.len() as int));
    assert(t.take(a.len() as int) =~= a);
    assert(t.skip(a.len() as int + 1) =~= b);
    assert(parse_bounded(a, usize::MAX as nat) == Some(w as nat));
    assert(parse_bounded(b, usize::MAX as nat) == Some(h as nat));
}

} // verus!
