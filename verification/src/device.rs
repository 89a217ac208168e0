//! The connected phone: which device to use, what it reports about itself,
//! and its screen size.

use vstd::prelude::*;
use crate::text::{
    chars_eq, chars_of, find_char, index_of, lemma_index_of, lines, owned, parse_bounded,
    parse_usize, replace_all, replace_str, slice_chars, split_lines, split_whitespace, string_of,
    trim, trim_bounds, trim_str, words,
};

verus! {

/// What is known of the phone in use.
pub struct DeviceInfo {
    pub serial: Option<String>,
    pub model: String,
    pub android: String,
    pub resolution: String,
    pub density: String,
    pub width: usize,
    pub height: usize,
}

pub struct DeviceV {
    pub serial: Option<Seq<char>>,
    pub model: Seq<char>,
    pub android: Seq<char>,
    pub resolution: Seq<char>,
    pub density: Seq<char>,
    pub width: usize,
    pub height: usize,
}

impl View for DeviceInfo {
    type V = DeviceV;

    open spec fn view(&self) -> DeviceV {
        DeviceV {
            serial: crate::files::tray::opt_text(self.serial),
            model: self.model@,
            android: self.android@,
            resolution: self.resolution@,
            density: self.density@,
            width: self.width,
            height: self.height,
        }
    }
}

/// No device: dashes, and a 720×1280 screen until one is known.
pub open spec fn disconnected_view() -> DeviceV {
    DeviceV {
        serial: None,
        model: "-"@,
        android: "-"@,
        resolution: "-"@,
        density: "-"@,
        width: 720,
        height: 1280,
    }
}

/// `WIDTHxHEIGHT`, each side trimmed: the first `x` divides them and both
/// must read as `usize` numbers.
pub open spec fn resolution_of(s: Seq<char>) -> Option<(usize, usize)> {
    let t = trim(s);
    match index_of(t, 'x') {
        None => None,
        Some(i) => match (
            parse_bounded(trim(t.take(i)), usize::MAX as nat),
            parse_bounded(trim(t.skip(i + 1)), usize::MAX as nat),
        ) {
            (Some(w), Some(h)) => Some((w as usize, h as usize)),
            _ => None,
        },
    }
}

/// Reads `1080x2400` (surrounding whitespace allowed) as width and height.
pub fn parse_resolution(s: &str) -> (r: Option<(usize, usize)>)
    ensures
        r == resolution_of(s@),
{
    let v = chars_of(s);
    let (a, b) = trim_bounds(v.as_slice());
    let t = slice_chars(v.as_slice(), a, b);
    proof {
        lemma_index_of(t@, 'x');
    }
    let i = match find_char(t.as_slice(), 'x') {
        Some(i) => i,
        None => return None,
    };
    let left = slice_chars(t.as_slice(), 0, i);
    let right = slice_chars(t.as_slice(), i + 1, t.len());
    assert(left@ =~= t@.take(i as int));
    assert(right@ =~= t@.skip(i + 1));
    let (la, lb) = trim_bounds(left.as_slice());
    let (ra, rb) = trim_bounds(right.as_slice());
    let lw = slice_chars(left.as_slice(), la, lb);
    let rh = slice_chars(right.as_slice(), ra, rb);
    let w = parse_usize(lw.as_slice());
    let h = parse_usize(rh.as_slice());
    match (w, h) {
        (Some(w), Some(h)) => Some((w, h)),
        _ => None,
    }
}

/// The rows of `adb devices` after its header line.
pub open spec fn after_header(rows: Seq<Seq<char>>) -> Seq<Seq<char>> {
    if rows.len() == 0 {
        rows
    } else {
        rows.skip(1)
    }
}

/// The serial of a row whose second column is `device`, if it is one.
pub open spec fn ready_serial(row: Seq<char>) -> Option<Seq<char>> {
    let w = words(row);
    if w.len() >= 2 && w[1] == "device"@ {
        Some(w[0])
    } else {
        None
    }
}

/// The serial of the first row that lists a usable device.
pub open spec fn first_ready(rows: Seq<Seq<char>>) -> Option<Seq<char>>
    decreases rows.len(),
{
    if rows.len() == 0 {
        None
    } else {
        match ready_serial(rows[0]) {
            Some(s) => Some(s),
            None => first_ready(rows.drop_first()),
        }
    }
}

/// The serial to use, from the output of `adb devices`: no output means
/// `adb` did not run; no row in state `device` means no usable phone.
pub open spec fn detected(list: Option<Seq<char>>) -> Result<Seq<char>, Seq<char>> {
    match list {
        None => Err("No se pudo iniciar ADB"@),
        Some(text) => match first_ready(after_header(lines(text))) {
            Some(s) => Ok(s),
            None => Err("Conecta tu dispositivo Android"@),
        },
    }
}

fn ready_serial_of(row: &[char]) -> (r: Option<Vec<char>>)
    ensures
        match r {
            Some(s) => ready_serial(row@) == Some(s@),
            None => ready_serial(row@) is None,
        },
{
    let w = split_whitespace(row);
    let ghost wv = w@.map_values(|x: Vec<char>| x@);
    if w.len() < 2 {
        return None;
    }
    assert(wv[1] == w@[1]@);
    assert(wv[0] == w@[0]@);
    let dev = chars_of("device");
    if chars_eq(w[1].as_slice(), dev.as_slice()) {
        Some(slice_chars(w[0].as_slice(), 0, w[0].len()))
    } else {
        None
    }
}

impl DeviceInfo {
    /// The state with no device.
    pub fn disconnected() -> (r: DeviceInfo)
        ensures
            r@ == disconnected_view(),
    {
        DeviceInfo {
            serial: None,
            model: owned("-"),
            android: owned("-"),
            resolution: owned("-"),
            density: owned("-"),
            width: 720,
            height: 1280,
        }
    }

    pub fn is_connected(&self) -> (r: bool)
        ensures
            r == (self@.serial is Some),
    {
        self.serial.is_some()
    }

    /// The serial of the first usable device in the output of
    /// `adb devices` (`None` when `adb` could not run).
    pub fn detect(list: Option<&str>) -> (r: Result<String, String>)
        ensures
            match r {
                Ok(s) => detected(crate::files::manager::opt_str(list)) == Ok::<Seq<char>, Seq<char>>(s@),
                Err(m) => detected(crate::files::manager::opt_str(list)) == Err::<Seq<char>, Seq<char>>(m@),
            },
    {
        let text = match list {
            None => return Err(owned("No se pudo iniciar ADB")),
            Some(t) => t,
        };
        let v = chars_of(text);
        let rows = split_lines(v.as_slice());
        let ghost rv = rows@.map_values(|x: Vec<char>| x@);
        let ghost body = after_header(rv);
        let mut i: usize = 1;
        if rows.len() == 0 {
            return Err(owned("Conecta tu dispositivo Android"));
        }
        assert(body.skip(0) =~= body);
        while i < rows.len()
            invariant
                1 <= i <= rows@.len(),
                rv == rows@.map_values(|x: Vec<char>| x@),
                rv == lines(text@),
                crate::files::manager::opt_str(list) == Some(text@),
                body == rv.skip(1),
                first_ready(body) == first_ready(body.skip(i - 1)),
            decreases rows@.len() - i,
        {
            assert(body.skip(i - 1)[0] == rows@[i as int]@);
            assert(body.skip(i - 1).drop_first() =~= body.skip(i as int));
            match ready_serial_of(rows[i].as_slice()) {
                Some(s) => {
                    assert(body.skip(i - 1).len() > 0);
                    assert(first_ready(body.skip(i - 1)) == Some(s@));
                    return Ok(string_of(s.as_slice()));
                },
                None => {},
            }
            i = i + 1;
        }
        assert(body.skip(i - 1).len() == 0);
        Err(owned("Conecta tu dispositivo Android"))
    }
}

/// The device record built from what the phone answered: the model and
/// Android version when read; the screen size and density without their
/// `Physical size:` / `Physical density:` labels, the size also read as
/// width and height when it parses.
pub open spec fn probed(
    serial: Seq<char>,
    model: Option<Seq<char>>,
    android: Option<Seq<char>>,
    size: Option<Seq<char>>,
    density: Option<Seq<char>>,
) -> DeviceV {
    let d = disconnected_view();
    let res = match size {
        Some(v) => trim(replace_all(v, "Physical size:"@, Seq::empty())),
        None => d.resolution,
    };
    let dims = match size {
        Some(v) => resolution_of(res),
        None => None,
    };
    DeviceV {
        serial: Some(serial),
        model: match model {
            Some(m) => m,
            None => d.model,
        },
        android: match android {
            Some(a) => a,
            None => d.android,
        },
        resolution: res,
        density: match density {
            Some(v) => trim(replace_all(v, "Physical density:"@, Seq::empty())),
            None => d.density,
        },
        width: match dims {
            Some((w, h)) => w,
            None => d.width,
        },
        height: match dims {
            Some((w, h)) => h,
            None => d.height,
        },
    }
}

fn strip_label(v: &str, label: &str) -> (r: String)
    requires
        label@.len() > 0,
    ensures
        r@ == trim(replace_all(v@, label@, Seq::empty())),
{
    let vv = chars_of(v);
    let lv = chars_of(label);
    let empty: Vec<char> = Vec::new();
    let replaced = replace_str(vv.as_slice(), lv.as_slice(), empty.as_slice());
    assert(empty@ =~= Seq::<char>::empty());
    let (a, b) = trim_bounds(replaced.as_slice());
    string_of(slice_chars(replaced.as_slice(), a, b).as_slice())
}

impl DeviceInfo {
    /// The record of the device `serial` from its answers to
    /// `getprop ro.product.model`, `getprop ro.build.version.release`,
    /// `wm size` and `wm density` (`None` where a command failed).
    pub fn from_probe(
        serial: String,
        model: Option<String>,
        android: Option<String>,
        size: Option<String>,
        density: Option<String>,
    ) -> (r: DeviceInfo)
        ensures
            r@ == probed(
                serial@,
                crate::files::tray::opt_text(model),
                crate::files::tray::opt_text(android),
                crate::files::tray::opt_text(size),
                crate::files::tray::opt_text(density),
            ),
    {
        let mut info = DeviceInfo::disconnected();
        info.serial = Some(serial);
        match model {
            Some(v) => info.model = v,
            None => {},
        }
        match android {
            Some(v) => info.android = v,
            None => {},
        }
        match size {
            Some(v) => {
                proof {
                    reveal_strlit("Physical size:");
                }
                info.resolution = strip_label(v.as_str(), "Physical size:");
                match parse_resolution(info.resolution.as_str()) {
                    Some((w, h)) => {
                        info.width = w;
                        info.height = h;
                    },
                    None => {},
                }
            },
            None => {},
        }
        match density {
            Some(v) => {
                proof {
                    reveal_strlit("Physical density:");
                }
                info.density = strip_label(v.as_str(), "Physical density:");
            },
            None => {},
        }
        info
    }
}

impl Default for DeviceInfo {
    fn default() -> (r: DeviceInfo)
        ensures
            r@ == disconnected_view(),
    {
        DeviceInfo::disconnected()
    }
}

} // verus!
