//! Which devices `adb` sees: the rows of its device list, the change events
//! sent when that list changes, and the framing of the `host:track-devices`
//! stream.

use vstd::prelude::*;
use crate::text::{
    chars_eq, chars_of, find_char, index_of, lemma_index_of, lines, owned, split_lines,
    split_whitespace, string_of, str_eq, words,
};

verus! {

/// One device in `adb`'s list.
#[allow(non_snake_case)]
#[derive(Debug, PartialEq, Eq)]
pub struct DeviceSummary {
    pub serial: String,
    pub state: String,
    pub Wifi: bool,
}

pub struct SummaryV {
    pub serial: Seq<char>,
    pub state: Seq<char>,
    pub wifi: bool,
}

impl View for DeviceSummary {
    type V = SummaryV;

    open spec fn view(&self) -> SummaryV {
        SummaryV { serial: self.serial@, state: self.state@, wifi: self.Wifi }
    }
}

pub open spec fn summaries_view(s: Seq<DeviceSummary>) -> Seq<SummaryV> {
    s.map_values(|d: DeviceSummary| d@)
}

impl Clone for DeviceSummary {
    fn clone(&self) -> (r: Self)
        ensures
            r@ == self@,
    {
        DeviceSummary { serial: self.serial.clone(), state: self.state.clone(), Wifi: self.Wifi }
    }
}

pub open spec fn summary_label(d: SummaryV) -> Seq<char> {
    if d.wifi {
        "📶  "@ + d.serial
    } else {
        "🔌  "@ + d.serial
    }
}

impl DeviceSummary {
    /// Whether the device can be used (state `device`).
    pub fn ready(&self) -> (r: bool)
        ensures
            r == (self@.state == "device"@),
    {
        str_eq(self.state.as_str(), "device")
    }

    /// The device's line in the device list: an icon for Wi-Fi or USB, then
    /// the serial.
    pub fn label(&self) -> (r: String)
        ensures
            r@ == summary_label(self@),
    {
        let mut r = if self.Wifi {
            owned("📶  ")
        } else {
            owned("🔌  ")
        };
        r.append(self.serial.as_str());
        r
    }
}

/// A change of the device list.
#[derive(Debug)]
pub enum DeviceEvent {
    Devices(Vec<DeviceSummary>),
}

/// The device a row of the list describes: its first two columns are the
/// serial and the state; a serial with `:` is an address, that is a Wi-Fi
/// connection.
pub open spec fn summary_of(row: Seq<char>) -> Option<SummaryV> {
    let w = words(row);
    if w.len() >= 2 && w[0].len() > 0 {
        Some(SummaryV { serial: w[0], state: w[1], wifi: index_of(w[0], ':') is Some })
    } else {
        None
    }
}

/// The devices of the rows `rows`, in order.
pub open spec fn summaries(rows: Seq<Seq<char>>) -> Seq<SummaryV>
    decreases rows.len(),
{
    if rows.len() == 0 {
        Seq::empty()
    } else {
        let rest = summaries(rows.drop_last());
        match summary_of(rows.last()) {
            Some(d) => rest.push(d),
            None => rest,
        }
    }
}

/// The devices that a device-list text (without header) names.
pub fn parse_devices(text: &str) -> (r: Vec<DeviceSummary>)
    ensures
        summaries_view(r@) == summaries(lines(text@)),
{
    let v = chars_of(text);
    let rows = split_lines(v.as_slice());
    let ghost rv = rows@.map_values(|x: Vec<char>| x@);
    let mut r: Vec<DeviceSummary> = Vec::new();
    let mut i: usize = 0;
    while i < rows.len()
        invariant
            i <= rows@.len(),
            rv == rows@.map_values(|x: Vec<char>| x@),
            summaries_view(r@) == summaries(rv.take(i as int)),
        decreases rows@.len() - i,
    {
        assert(rv.take(i + 1).drop_last() =~= rv.take(i as int));
        assert(rv.take(i + 1).last() == rows@[i as int]@);
        let w = split_whitespace(rows[i].as_slice());
        let ghost wv = w@.map_values(|x: Vec<char>| x@);
        if w.len() >= 2 && w[0].len() > 0 {
            assert(wv[0] == w@[0]@);
            assert(wv[1] == w@[1]@);
            proof {
                lemma_index_of(w@[0]@, ':');
            }
            let d = DeviceSummary {
                Wifi: find_char(w[0].as_slice(), ':').is_some(),
                serial: string_of(w[0].as_slice()),
                state: string_of(w[1].as_slice()),
            };
            let ghost before = summaries_view(r@);
            r.push(d);
            assert(summaries_view(r@) =~= before.push(d@));
        } else {
            proof {
                if w@.len() >= 2 {
                    assert(wv[0] == w@[0]@);
                }
            }
        }
        i = i + 1;
    }
    assert(rv.take(rows@.len() as int) =~= rv);
    r
}

fn same_devices(a: &Vec<DeviceSummary>, b: &Vec<DeviceSummary>) -> (r: bool)
    ensures
        r == (summaries_view(a@) == summaries_view(b@)),
{
    if a.len() != b.len() {
        assert(summaries_view(a@).len() != summaries_view(b@).len());
        return false;
    }
    let mut i: usize = 0;
    while i < a.len()
        invariant
            i <= a@.len(),
            a@.len() == b@.len(),
            forall|j: int| 0 <= j < i ==> a@[j]@ == b@[j]@,
        decreases a@.len() - i,
    {
        if !(str_eq(a[i].serial.as_str(), b[i].serial.as_str()) && str_eq(
            a[i].state.as_str(),
            b[i].state.as_str(),
        ) && a[i].Wifi == b[i].Wifi) {
            assert(summaries_view(a@)[i as int] != summaries_view(b@)[i as int]);
            return false;
        }
        assert(a@[i as int]@ == b@[i as int]@);
        i = i + 1;
    }
    assert(summaries_view(a@) =~= summaries_view(b@));
    true
}

fn clone_summaries(v: &Vec<DeviceSummary>) -> (r: Vec<DeviceSummary>)
    ensures
        summaries_view(r@) == summaries_view(v@),
{
    let mut r: Vec<DeviceSummary> = Vec::new();
    let mut i: usize = 0;
    while i < v.len()
        invariant
            i <= v@.len(),
            summaries_view(r@) == summaries_view(v@.take(i as int)),
        decreases v@.len() - i,
    {
        let d = v[i].clone();
        let ghost before = summaries_view(r@);
        r.push(d);
        assert(summaries_view(r@) =~= before.push(d@));
        assert(summaries_view(v@.take(i + 1)) =~= summaries_view(v@.take(i as int)).push(v@[i as int]@));
        i = i + 1;
    }
    assert(v@.take(v@.len() as int) =~= v@);
    r
}

/// The change that a device-list text (without header) makes to the list
/// `last` sent before: the new list when it differs, none when it is the
/// same.
pub open spec fn list_change(text: Seq<char>, last: Seq<SummaryV>) -> Option<Seq<SummaryV>> {
    let cur = summaries(lines(text));
    if cur == last {
        None
    } else {
        Some(cur)
    }
}

/// A device list is sent once: after a text is handled, the same text again
/// changes nothing, whatever list was sent before.
pub proof fn law_list_sent_once(text: Seq<char>)
    ensures
        list_change(text, summaries(lines(text))) is None,
{
}

/// Handles one device-list text (without header): when the list differs
/// from the `last` one sent, it becomes `last` and its change event is
/// returned; an unchanged list sends nothing.
pub fn emit(text: &str, last: &mut Vec<DeviceSummary>) -> (r: Option<DeviceEvent>)
    ensures
        match r {
            None => list_change(text@, summaries_view(old(last)@)) is None,
            Some(DeviceEvent::Devices(v)) => list_change(text@, summaries_view(old(last)@)) == Some(
                summaries_view(v@),
            ),
        },
        summaries_view(final(last)@) == summaries(lines(text@)),
{
    let current = parse_devices(text);
    if same_devices(&current, last) {
        return None;
    }
    let sent = clone_summaries(&current);
    *last = current;
    Some(DeviceEvent::Devices(sent))
}

/// The rows of `rows` after the first, joined by line feeds: `adb devices`
/// output without its header.
pub open spec fn body_text(rows: Seq<Seq<char>>) -> Seq<char> {
    crate::files::listing::join_with(crate::device::after_header(rows), "\n"@)
}

/// `adb devices` output without its header line.
pub fn strip_header(text: &str) -> (r: String)
    ensures
        r@ == body_text(lines(text@)),
{
    let v = chars_of(text);
    let rows = split_lines(v.as_slice());
    let ghost rv = rows@.map_values(|x: Vec<char>| x@);
    let from: usize = if rows.len() == 0 {
        0
    } else {
        1
    };
    let joined = crate::files::listing::join_pieces(rows.as_slice(), from, chars_of("\n").as_slice());
    assert(rows@.skip(from as int).map_values(|x: Vec<char>| x@) =~= crate::device::after_header(rv));
    string_of(joined.as_slice())
}

// ───────────────────────────── wire framing ─────────────────────────────

/// The ASCII byte of hexadecimal digit `d < 16`, in lower case.
pub open spec fn hex_byte(d: nat) -> u8 {
    if d < 10 {
        (48 + d) as u8
    } else {
        (87 + d) as u8
    }
}

/// Lower-case hexadecimal digits of `n`.
pub open spec fn hex_digits(n: nat) -> Seq<u8>
    decreases n,
{
    if n < 16 {
        seq![hex_byte(n)]
    } else {
        hex_digits(n / 16).push(hex_byte(n % 16))
    }
}

/// `{:04x}`: the digits of `n`, zero-padded to at least four.
pub open spec fn hex4(n: nat) -> Seq<u8> {
    let d = hex_digits(n);
    if d.len() < 4 {
        Seq::new((4 - d.len()) as nat, |i: int| 48u8) + d
    } else {
        d
    }
}

/// A request to the `adb` server: its length as four hex digits, then the
/// request.
pub open spec fn request_bytes(msg: Seq<u8>) -> Seq<u8> {
    hex4(msg.len()) + msg
}

fn push_hex(out: &mut Vec<u8>, n: usize)
    ensures
        final(out)@ == old(out)@ + hex_digits(n as nat),
    decreases n,
{
    if n >= 16 {
        push_hex(out, n / 16);
    }
    let d = (n % 16) as u8;
    let b: u8 = if d < 10 {
        48 + d
    } else {
        87 + d
    };
    out.push(b);
    proof {
        assert(old(out)@ + hex_digits(n as nat) =~= if n >= 16 {
            (old(out)@ + hex_digits((n / 16) as nat)).push(hex_byte((n % 16) as nat))
        } else {
            old(out)@.push(hex_byte(n as nat))
        });
    }
}

/// The bytes of the request `msg` for the `adb` server.
pub fn encode_request(msg: &str) -> (r: Vec<u8>)
    ensures
        r@ == request_bytes(vstd::utf8::encode_utf8(msg@)),
{
    let bytes = msg.as_bytes();
    let n = bytes.len();
    let mut digits: Vec<u8> = Vec::new();
    push_hex(&mut digits, n);
    assert(digits@ =~= hex_digits(n as nat));
    let mut out: Vec<u8> = Vec::new();
    let mut pad: usize = 0;
    let pads: usize = if digits.len() < 4 {
        4 - digits.len()
    } else {
        0
    };
    while pad < pads
        invariant
            pad <= pads,
            out@ == Seq::new(pad as nat, |i: int| 48u8),
        decreases pads - pad,
    {
        out.push(48);
        pad = pad + 1;
        assert(out@ =~= Seq::new(pad as nat, |i: int| 48u8));
    }
    let mut k: usize = 0;
    let ghost o = out@;
    while k < digits.len()
        invariant
            k <= digits@.len(),
            out@ == o + digits@.take(k as int),
        decreases digits@.len() - k,
    {
        out.push(digits[k]);
        k = k + 1;
        assert(out@ =~= o + digits@.take(k as int));
    }
    assert(digits@.take(digits@.len() as int) =~= digits@);
    let mut k: usize = 0;
    let ghost o2 = out@;
    while k < n
        invariant
            k <= n,
            n == bytes@.len(),
            out@ == o2 + bytes@.take(k as int),
        decreases n - k,
    {
        out.push(bytes[k]);
        k = k + 1;
        assert(out@ =~= o2 + bytes@.take(k as int));
    }
    assert(bytes@.take(n as int) =~= bytes@);
    assert(out@ =~= request_bytes(vstd::utf8::encode_utf8(msg@)));
    out
}

/// The request that subscribes to device-list changes.
pub fn track_request() -> (r: Vec<u8>)
    ensures
        r@ == request_bytes("host:track-devices"@.map_values(|c: char| c as u8)),
{
    proof {
        reveal_strlit("host:track-devices");
        vstd::string::is_ascii_spec_bytes("host:track-devices");
    }
    let msg = "host:track-devices";
    let r = encode_request(msg);
    assert(msg.is_ascii());
    assert(vstd::utf8::encode_utf8(msg@) =~= "host:track-devices"@.map_values(|c: char| c as u8));
    r
}

/// Whether the server's reply is `OKAY`.
pub fn is_okay(status: &[u8; 4]) -> (r: bool)
    ensures
        r == (status@ == seq![79u8, 75u8, 65u8, 89u8]),
{
    let r = status[0] == 79 && status[1] == 75 && status[2] == 65 && status[3] == 89;
    proof {
        if r {
            assert(status@ =~= seq![79u8, 75u8, 65u8, 89u8]);
        }
    }
    r
}

/// The value of an ASCII hexadecimal digit byte, if it is one.
pub open spec fn hex_value(b: u8) -> Option<nat> {
    if 48 <= b <= 57 {
        Some((b - 48) as nat)
    } else if 97 <= b <= 102 {
        Some((b - 87) as nat)
    } else if 65 <= b <= 70 {
        Some((b - 55) as nat)
    } else {
        None
    }
}

pub open spec fn hex_digits_value(d: Seq<u8>) -> nat
    decreases d.len(),
{
    if d.len() == 0 {
        0
    } else {
        hex_digits_value(d.drop_last()) * 16 + match hex_value(d.last()) {
            Some(v) => v,
            None => 0,
        }
    }
}

/// The length that a 4-byte header gives, read as hexadecimal (an optional
/// `+`, then digits in either case); a header that does not read as one
/// gives 0.
pub open spec fn header_len(h: Seq<u8>) -> nat {
    let d = unsigned_bytes(h);
    if d.len() > 0 && all_hex(d) {
        hex_digits_value(d)
    } else {
        0
    }
}

/// `h` without one leading `+`.
pub open spec fn unsigned_bytes(h: Seq<u8>) -> Seq<u8> {
    if h.len() > 0 && h[0] == 43 {
        h.drop_first()
    } else {
        h
    }
}

pub open spec fn all_hex(d: Seq<u8>) -> bool {
    forall|i: int| 0 <= i < d.len() ==> (#[trigger] hex_value(d[i])) is Some
}

fn hex_val(b: u8) -> (r: Option<u8>)
    ensures
        match r {
            Some(v) => hex_value(b) == Some(v as nat),
            None => hex_value(b) is None,
        },
{
    if 48 <= b && b <= 57 {
        Some(b - 48)
    } else if 97 <= b && b <= 102 {
        Some(b - 87)
    } else if 65 <= b && b <= 70 {
        Some(b - 55)
    } else {
        None
    }
}

/// The payload length announced by a 4-byte header of the device stream.
pub fn payload_len(len_buf: [u8; 4]) -> (r: usize)
    ensures
        r as nat == header_len(len_buf@),
{
    let h = len_buf;
    let d: Vec<u8> = if h[0] == 43 {
        vec![h[1], h[2], h[3]]
    } else {
        vec![h[0], h[1], h[2], h[3]]
    };
    let ghost ds = unsigned_bytes(len_buf@);
    assert(d@ =~= ds);
    let mut i: usize = 0;
    while i < d.len()
        invariant
            i <= d@.len(),
            d@ == ds,
            ds == unsigned_bytes(len_buf@),
            forall|j: int| 0 <= j < i ==> (#[trigger] hex_value(d@[j])) is Some,
        decreases d@.len() - i,
    {
        if hex_val(d[i]).is_none() {
            assert(!(hex_value(d@[i as int]) is Some));
            assert(!all_hex(ds));
            return 0;
        }
        i = i + 1;
    }
    let mut v: usize = 0;
    let mut i: usize = 0;
    while i < d.len()
        invariant
            i <= d@.len(),
            d@ == ds,
            ds == unsigned_bytes(len_buf@),
            d@.len() <= 4,
            forall|j: int| 0 <= j < d@.len() ==> (#[trigger] hex_value(d@[j])) is Some,
            v as nat == hex_digits_value(d@.take(i as int)),
            v < pow16(i as int),
        decreases d@.len() - i,
    {
        assert(d@.take(i + 1).drop_last() =~= d@.take(i as int));
        assert(hex_value(d@[i as int]) is Some);
        let x = match hex_val(d[i]) {
            Some(x) => x,
            None => 0,
        };
        proof {
            lemma_pow16_step(i as int);
        }
        v = v * 16 + x as usize;
        i = i + 1;
    }
    assert(d@.take(d@.len() as int) =~= d@);
    v
}

pub open spec fn pow16(k: int) -> nat
    decreases k,
{
    if k <= 0 {
        1
    } else {
        16 * pow16(k - 1)
    }
}

proof fn lemma_pow16_step(k: int)
    requires
        0 <= k < 4,
    ensures
        pow16(k + 1) == 16 * pow16(k),
        pow16(k + 1) <= 65536,
{
    reveal_with_fuel(pow16, 5);
}

// ───────────────────────────── framing laws ─────────────────────────────

proof fn lemma_hex_byte(d: nat)
    requires
        d < 16,
    ensures
        hex_value(hex_byte(d)) == Some(d),
        hex_byte(d) != 43,
{
}

proof fn lemma_hex_digits(n: nat)
    ensures
        all_hex(hex_digits(n)),
        hex_digits_value(hex_digits(n)) == n,
        hex_digits(n).len() >= 1,
        n < 16 ==> hex_digits(n).len() == 1,
        n < 256 ==> hex_digits(n).len() <= 2,
        n < 4096 ==> hex_digits(n).len() <= 3,
        n < 65536 ==> hex_digits(n).len() <= 4,
        hex_digits(n)[0] != 43,
    decreases n,
{
    lemma_hex_byte(n % 16);
    if n < 16 {
        assert(hex_digits(n)[0] == hex_byte(n));
        assert(hex_digits(n).drop_last() =~= Seq::<u8>::empty());
        assert forall|i: int| 0 <= i < hex_digits(n).len() implies (#[trigger] hex_value(
            hex_digits(n)[i],
        )) is Some by {
            assert(i == 0);
        }
        assert(hex_digits(n).last() == hex_byte(n));
        assert(n % 16 == n);
        assert(hex_value(hex_byte(n)) == Some(n));
        assert(hex_digits_value(hex_digits(n).drop_last()) == 0);
    } else {
        lemma_hex_digits(n / 16);
        let d = hex_digits(n / 16);
        let e = d.push(hex_byte(n % 16));
        assert(e.drop_last() =~= d);
        assert(e.last() == hex_byte(n % 16));
        assert(hex_digits_value(e) == hex_digits_value(d) * 16 + n % 16);
        assert((n / 16) * 16 + n % 16 == n);
        assert(hex_digits(n) == e);
        assert(hex_digits_value(hex_digits(n)) == n);
        assert forall|i: int| 0 <= i < e.len() implies (#[trigger] hex_value(e[i])) is Some by {
            if i < d.len() {
                assert(e[i] == d[i]);
            }
        }
        assert(e[0] == d[0]);
    }
}

proof fn lemma_zeros_value(k: nat, d: Seq<u8>)
    ensures
        hex_digits_value(Seq::new(k, |i: int| 48u8) + d) == hex_digits_value(d),
    decreases d.len(), k,
{
    let z = Seq::new(k, |i: int| 48u8);
    if d.len() == 0 {
        assert(z + d =~= z);
        if k > 0 {
            lemma_zeros_value((k - 1) as nat, d);
            assert(z.drop_last() =~= Seq::new((k - 1) as nat, |i: int| 48u8) + d);
        }
    } else {
        lemma_zeros_value(k, d.drop_last());
        assert((z + d).drop_last() =~= z + d.drop_last());
        assert((z + d).last() == d.last());
    }
}

/// The length header that goes before a request reads back, by the
/// stream's header reader, as the length of the request, for every length
/// that four hexadecimal digits can carry.
pub proof fn law_header_roundtrip(n: nat)
    requires
        n < 65536,
    ensures
        header_len(hex4(n)) == n,
{
    lemma_hex_digits(n);
    let d = hex_digits(n);
    let h = hex4(n);
    if d.len() < 4 {
        let k = (4 - d.len()) as nat;
        let z = Seq::new(k, |i: int| 48u8);
        lemma_zeros_value(k, d);
        assert(h == z + d);
        assert(h[0] == 48);
        assert forall|i: int| 0 <= i < h.len() implies (#[trigger] hex_value(h[i])) is Some by {
            if i >= k {
                assert(h[i] == d[i - k]);
            }
        }
    }
    assert(unsigned_bytes(h) == h);
}

} // verus!
