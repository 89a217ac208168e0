//! Wireless connection: the log and busy state of the connection screen, the
//! work it hands out, and how `adb`'s answers about connecting, pairing and
//! the phone's address are read.

use vstd::prelude::*;
use crate::adb::args_view;
use crate::files::listing::before;
use crate::text::{
    chars_eq, chars_of, contains, contains_str, find_char, has_prefix, index_of, lemma_index_of,
    lines, lowercase, owned, parse_bounded, parse_u8, slice_chars, split_char, split_lines,
    split_on, split_whitespace, starts_with, string_of, to_lowercase, trim, trim_bounds, trim_str,
    words,
};

verus! {

/// The port `adb` listens on over Wi-Fi.
pub const WIFI_PORT: u16 = 5555;

/// A report from a connection job.
#[derive(Debug)]
pub enum WifiEvent {
    Log(String),
    Success(String),
    Failure(String),
    Busy(bool),
}

pub enum WifiEventV {
    Log(Seq<char>),
    Success(Seq<char>),
    Failure(Seq<char>),
    Busy(bool),
}

impl View for WifiEvent {
    type V = WifiEventV;

    open spec fn view(&self) -> WifiEventV {
        match self {
            WifiEvent::Log(t) => WifiEventV::Log(t@),
            WifiEvent::Success(t) => WifiEventV::Success(t@),
            WifiEvent::Failure(t) => WifiEventV::Failure(t@),
            WifiEvent::Busy(b) => WifiEventV::Busy(*b),
        }
    }
}

pub open spec fn wifi_events_view(s: Seq<WifiEvent>) -> Seq<WifiEventV> {
    s.map_values(|e: WifiEvent| e@)
}

/// Work for a connection job.
pub enum WifiJob {
    EnableFromUsb(String),
    Connect(String),
    Pair { address: String, code: String },
    Disconnect(String),
}

pub enum WifiJobV {
    EnableFromUsb(Seq<char>),
    Connect(Seq<char>),
    Pair { address: Seq<char>, code: Seq<char> },
    Disconnect(Seq<char>),
}

impl View for WifiJob {
    type V = WifiJobV;

    open spec fn view(&self) -> WifiJobV {
        match self {
            WifiJob::EnableFromUsb(s) => WifiJobV::EnableFromUsb(s@),
            WifiJob::Connect(a) => WifiJobV::Connect(a@),
            WifiJob::Pair { address, code } => WifiJobV::Pair { address: address@, code: code@ },
            WifiJob::Disconnect(s) => WifiJobV::Disconnect(s@),
        }
    }
}

pub open spec fn wifi_jobs_view(s: Seq<WifiJob>) -> Seq<WifiJobV> {
    s.map_values(|j: WifiJob| j@)
}

/// The connection screen: text fields, a log of at most 40 lines (each
/// marked when it reports an error), whether a job runs, and the jobs
/// handed out and not yet taken.
pub struct WifiManager {
    pub ip_input: String,
    pub pair_address: String,
    pub pair_code: String,
    pub log: Vec<(bool, String)>,
    pub busy: bool,
    pub auto_reconnect: bool,
    pub jobs: Vec<WifiJob>,
}

#[verifier::ext_equal]
pub struct WifiV {
    pub ip_input: Seq<char>,
    pub pair_address: Seq<char>,
    pub pair_code: Seq<char>,
    pub log: Seq<(bool, Seq<char>)>,
    pub busy: bool,
    pub auto_reconnect: bool,
    pub jobs: Seq<WifiJobV>,
}

pub open spec fn log_view(s: Seq<(bool, String)>) -> Seq<(bool, Seq<char>)> {
    s.map_values(|l: (bool, String)| (l.0, l.1@))
}

impl View for WifiManager {
    type V = WifiV;

    open spec fn view(&self) -> WifiV {
        WifiV {
            ip_input: self.ip_input@,
            pair_address: self.pair_address@,
            pair_code: self.pair_code@,
            log: log_view(self.log@),
            busy: self.busy,
            auto_reconnect: self.auto_reconnect,
            jobs: wifi_jobs_view(self.jobs@),
        }
    }
}

/// Most lines the log keeps.
pub const LOG_LINES: usize = 40;

/// The log after adding a line: once it holds more than 40 lines, the
/// oldest goes.
pub open spec fn logged(log: Seq<(bool, Seq<char>)>, error: bool, text: Seq<char>) -> Seq<(bool, Seq<char>)> {
    let l = log.push((error, text));
    if l.len() > 40 {
        l.drop_first()
    } else {
        l
    }
}

/// `address` with the Wi-Fi port added when it has none.
pub open spec fn normalized(address: Seq<char>) -> Seq<char> {
    let a = trim(address);
    if index_of(a, ':') is Some {
        a
    } else {
        a + ":5555"@
    }
}

/// The state after handing out a job: busy until the job reports otherwise.
pub open spec fn spawned(v: WifiV, job: WifiJobV) -> WifiV {
    WifiV { busy: true, jobs: v.jobs.push(job), ..v }
}

/// One report applied to the screen.
pub open spec fn wifi_applied(v: WifiV, ev: WifiEventV) -> WifiV {
    match ev {
        WifiEventV::Log(t) => WifiV { log: logged(v.log, false, t), ..v },
        WifiEventV::Success(t) => WifiV { log: logged(v.log, false, "✔ "@ + t), ..v },
        WifiEventV::Failure(t) => WifiV { log: logged(v.log, true, "✕ "@ + t), ..v },
        WifiEventV::Busy(b) => WifiV { busy: b, ..v },
    }
}

pub open spec fn wifi_applied_all(v: WifiV, evs: Seq<WifiEventV>) -> WifiV
    decreases evs.len(),
{
    if evs.len() == 0 {
        v
    } else {
        wifi_applied(wifi_applied_all(v, evs.drop_last()), evs.last())
    }
}

/// `address` with the Wi-Fi port added when it has no `:`.
pub fn normalize(address: &str) -> (r: String)
    ensures
        r@ == normalized(address@),
{
    let a = trim_str(address);
    let av = chars_of(a.as_str());
    proof {
        lemma_index_of(av@, ':');
    }
    if find_char(av.as_slice(), ':').is_some() {
        a
    } else {
        let mut r = a;
        r.append(":5555");
        r
    }
}

/// The connection screen at start, with the saved address if any.
pub open spec fn initial_wifi(saved: Option<Seq<char>>) -> WifiV {
    match saved {
        None => WifiV {
            ip_input: Seq::empty(),
            pair_address: Seq::empty(),
            pair_code: Seq::empty(),
            log: Seq::empty(),
            busy: false,
            auto_reconnect: true,
            jobs: Seq::empty(),
        },
        Some(a) => WifiV {
            ip_input: a,
            pair_address: Seq::empty(),
            pair_code: Seq::empty(),
            log: seq![(false, "Reintentando "@ + a + ".."@)],
            busy: true,
            auto_reconnect: true,
            jobs: seq![WifiJobV::Connect(normalized(a))],
        },
    }
}

impl WifiManager {
    /// The connection screen; with a saved address it logs and starts a
    /// silent reconnection to it.
    pub fn new(saved: Option<String>) -> (r: WifiManager)
        ensures
            r@ == initial_wifi(crate::files::tray::opt_text(saved)),
    {
        let mut m = WifiManager {
            ip_input: match &saved {
                Some(a) => a.clone(),
                None => String::new(),
            },
            pair_address: String::new(),
            pair_code: String::new(),
            log: Vec::new(),
            busy: false,
            auto_reconnect: true,
            jobs: Vec::new(),
        };
        assert(log_view(m.log@) =~= Seq::empty());
        assert(wifi_jobs_view(m.jobs@) =~= Seq::empty());
        match saved {
            Some(a) => {
                let mut t = owned("Reintentando ");
                t.append(a.as_str());
                t.append("..");
                m.push_log(false, t);
                m.connect(a.as_str());
                assert(m@.log =~= seq![(false, "Reintentando "@ + a@ + ".."@)]);
                assert(m@.jobs =~= seq![WifiJobV::Connect(normalized(a@))]);
            },
            None => {},
        }
        m
    }

    fn push_log(&mut self, error: bool, text: String)
        ensures
            final(self)@ == (WifiV { log: logged(old(self)@.log, error, text@), ..old(self)@ }),
    {
        let ghost before = log_view(self.log@);
        self.log.push((error, text));
        assert(log_view(self.log@) =~= before.push((error, text@)));
        if self.log.len() > LOG_LINES {
            let ghost l = log_view(self.log@);
            self.log.remove(0);
            assert(log_view(self.log@) =~= l.drop_first());
        }
    }

    fn spawn(&mut self, job: WifiJob)
        ensures
            final(self)@ == spawned(old(self)@, job@),
    {
        self.busy = true;
        let ghost before = wifi_jobs_view(self.jobs@);
        self.jobs.push(job);
        assert(wifi_jobs_view(self.jobs@) =~= before.push(job@));
    }

    /// Whether a connection to the typed address may start: an address is
    /// typed and no job is running.
    pub fn can_connect(&self) -> (r: bool)
        ensures
            r == (trim(self@.ip_input).len() > 0 && !self@.busy),
    {
        let t = trim_str(self.ip_input.as_str());
        !t.as_str().is_empty() && !self.busy
    }

    /// Whether a pairing may start: an address and a code are typed and no
    /// job is running.
    pub fn can_pair(&self) -> (r: bool)
        ensures
            r == (trim(self@.pair_address).len() > 0 && trim(self@.pair_code).len() > 0 && !self@.busy),
    {
        let a = trim_str(self.pair_address.as_str());
        let c = trim_str(self.pair_code.as_str());
        !a.as_str().is_empty() && !c.as_str().is_empty() && !self.busy
    }

    /// The jobs handed out since the last call, in order.
    pub fn take_jobs(&mut self) -> (r: Vec<WifiJob>)
        ensures
            wifi_jobs_view(r@) == old(self)@.jobs,
            final(self)@ == (WifiV { jobs: Seq::empty(), ..old(self)@ }),
    {
        let mut r: Vec<WifiJob> = Vec::new();
        std::mem::swap(&mut r, &mut self.jobs);
        assert(wifi_jobs_view(self.jobs@) =~= Seq::empty());
        r
    }

    /// Turns on Wi-Fi for the USB device `serial` and connects to it.
    pub fn enable_from_usb(&mut self, serial: String)
        ensures
            final(self)@ == spawned(old(self)@, WifiJobV::EnableFromUsb(serial@)),
    {
        self.spawn(WifiJob::EnableFromUsb(serial));
    }

    /// Connects to `address` (the Wi-Fi port is added when it has none).
    pub fn connect(&mut self, address: &str)
        ensures
            final(self)@ == spawned(old(self)@, WifiJobV::Connect(normalized(address@))),
    {
        let a = normalize(address);
        self.spawn(WifiJob::Connect(a));
    }

    /// Pairs with `address` using `code` (wireless debugging, Android 11
    /// and later); both are trimmed.
    pub fn pair(&mut self, address: &str, code: &str)
        ensures
            final(self)@ == spawned(
                old(self)@,
                WifiJobV::Pair { address: trim(address@), code: trim(code@) },
            ),
    {
        let a = trim_str(address);
        let c = trim_str(code);
        self.spawn(WifiJob::Pair { address: a, code: c });
    }

    /// Disconnects the Wi-Fi device `serial`.
    pub fn disconnect(&mut self, serial: String)
        ensures
            final(self)@ == spawned(old(self)@, WifiJobV::Disconnect(serial@)),
    {
        self.spawn(WifiJob::Disconnect(serial));
    }

    /// Applies the jobs' reports in order: lines join the log, successes
    /// marked with ✔ and failures with ✕.
    pub fn poll(&mut self, events: Vec<WifiEvent>)
        ensures
            final(self)@ == wifi_applied_all(old(self)@, wifi_events_view(events@)),
    {
        let ghost evs = wifi_events_view(events@);
        let ghost old_events = events@;
        let ghost v0 = self@;
        let n = events.len();
        let mut events = events;
        let mut i: usize = 0;
        while events.len() > 0
            invariant
                i <= n,
                n == old_events.len(),
                evs == wifi_events_view(old_events),
                events@ == old_events.skip(i as int),
                self@ == wifi_applied_all(v0, evs.take(i as int)),
            decreases events@.len(),
        {
            assert(evs.take(i + 1).drop_last() =~= evs.take(i as int));
            assert(evs.take(i + 1).last() == events@[0]@);
            let ev = events.remove(0);
            match ev {
                WifiEvent::Log(t) => self.push_log(false, t),
                WifiEvent::Success(t) => {
                    let mut m = owned("✔ ");
                    m.append(t.as_str());
                    self.push_log(false, m);
                },
                WifiEvent::Failure(t) => {
                    let mut m = owned("✕ ");
                    m.append(t.as_str());
                    self.push_log(true, m);
                },
                WifiEvent::Busy(b) => self.busy = b,
            }
            i = i + 1;
            assert(events@ =~= old_events.skip(i as int));
        }
        assert(evs.take(n as int) =~= evs);
    }
}


// ───────────────────────────── reading `adb`'s answers ─────────────────────────────

/// The first line of `text`, trimmed; all of it trimmed when it has no line.
pub open spec fn first_line_of(text: Seq<char>) -> Seq<char> {
    let ls = lines(text);
    trim(
        if ls.len() > 0 {
            ls[0]
        } else {
            text
        },
    )
}

/// The first line of `text`, trimmed.
pub fn first_line(text: &str) -> (r: String)
    ensures
        r@ == first_line_of(text@),
{
    let v = chars_of(text);
    let ls = split_lines(v.as_slice());
    let ghost lv = ls@.map_values(|x: Vec<char>| x@);
    let line: &[char] = if ls.len() > 0 {
        assert(lv[0] == ls@[0]@);
        ls[0].as_slice()
    } else {
        v.as_slice()
    };
    let (a, b) = trim_bounds(line);
    string_of(slice_chars(line, a, b).as_slice())
}

/// The arguments of `adb connect <address>`.
pub fn connect_args(address: &str) -> (r: Vec<String>)
    ensures
        args_view(r@) == seq!["connect"@, address@],
{
    let r = vec![owned("connect"), owned(address)];
    assert(args_view(r@) =~= seq!["connect"@, address@]);
    r
}

pub open spec fn auth_failure_text() -> Seq<char> {
    "El dispositivo no autorizó la conexión. Conéctalo por USB una vez y acepta el aviso."@
}

/// How `adb connect` went, from its output `text` and that output in lower
/// case `lower`: `adb` reports failures with success status, so the text
/// decides.
pub open spec fn connect_verdict(address: Seq<char>, text: Seq<char>, lower: Seq<char>) -> Result<Seq<char>, Seq<char>> {
    if contains(lower, "connected to"@) {
        Ok("Conectado a "@ + address)
    } else if contains(lower, "already connected"@) {
        Ok("Ya estaba conectado a "@ + address)
    } else if contains(lower, "failed to authenticate"@) {
        Err(auth_failure_text())
    } else {
        Err(first_line_of(text))
    }
}

pub open spec fn result_view(r: Result<String, String>) -> Result<Seq<char>, Seq<char>> {
    match r {
        Ok(s) => Ok(s@),
        Err(s) => Err(s@),
    }
}

/// How `adb connect` went, given its output and that output in lower case.
pub fn connect_outcome_lower(address: &str, text: &str, lower: &str) -> (r: Result<String, String>)
    ensures
        result_view(r) == connect_verdict(address@, text@, lower@),
{
    let lv = chars_of(lower);
    if contains_str(lv.as_slice(), chars_of("connected to").as_slice()) {
        let mut m = owned("Conectado a ");
        m.append(address);
        Ok(m)
    } else if contains_str(lv.as_slice(), chars_of("already connected").as_slice()) {
        let mut m = owned("Ya estaba conectado a ");
        m.append(address);
        Ok(m)
    } else if contains_str(lv.as_slice(), chars_of("failed to authenticate").as_slice()) {
        Err(
            owned(
                "El dispositivo no autorizó la conexión. Conéctalo por USB una vez y acepta el aviso.",
            ),
        )
    } else {
        Err(first_line(text))
    }
}

/// How `adb connect <address>` went, from its output (`None` when `adb`
/// could not run).
pub fn try_connect(address: &str, output: Option<&str>) -> (r: Result<String, String>)
    ensures
        result_view(r) == match output {
            None => Err("No se pudo ejecutar adb connect"@),
            Some(t) => connect_verdict(address@, t@, lowercase(t@)),
        },
{
    match output {
        None => Err(owned("No se pudo ejecutar adb connect")),
        Some(t) => {
            let lower = to_lowercase(t);
            connect_outcome_lower(address, t, lower.as_str())
        },
    }
}

/// The report of a finished connection attempt.
pub fn connect_report(outcome: Result<String, String>) -> (r: WifiEvent)
    ensures
        r@ == match result_view(outcome) {
            Ok(m) => WifiEventV::Success(m),
            Err(m) => WifiEventV::Failure(m),
        },
{
    match outcome {
        Ok(m) => WifiEvent::Success(m),
        Err(m) => WifiEvent::Failure(m),
    }
}

/// The arguments of `adb pair <address> <code>`.
pub fn pair_args(address: &str, code: &str) -> (r: Vec<String>)
    ensures
        args_view(r@) == seq!["pair"@, address@, code@],
{
    let r = vec![owned("pair"), owned(address), owned(code)];
    assert(args_view(r@) =~= seq!["pair"@, address@, code@]);
    r
}

pub open spec fn paired_hint() -> Seq<char> {
    "Emparejado. Ahora conecta con la IP y el puerto de conexión (no el de emparejamiento)."@
}

pub open spec fn pair_failed_text() -> Seq<char> {
    "Falló el emparejamiento. Revisa el código y que la pantalla siga abierta."@
}

/// The reports of a pairing, from `adb pair`'s output and that output in
/// lower case: it worked when the output says `successfully`.
pub open spec fn pair_reports(output: Option<(Seq<char>, Seq<char>)>) -> Seq<WifiEventV> {
    match output {
        Some((text, lower)) => if contains(lower, "successfully"@) {
            seq![WifiEventV::Log(paired_hint()), WifiEventV::Success("Emparejamiento correcto"@)]
        } else {
            seq![WifiEventV::Failure(first_line_of(text))]
        },
        None => seq![WifiEventV::Failure(pair_failed_text())],
    }
}

/// The reports of a pairing, given `adb pair`'s output and that output in
/// lower case (`None` when the command failed).
pub fn pair_outcome_lower(output: Option<(&str, &str)>) -> (r: Vec<WifiEvent>)
    ensures
        wifi_events_view(r@) == pair_reports(
            match output {
                Some((t, l)) => Some((t@, l@)),
                None => None,
            },
        ),
{
    let r = match output {
        Some((text, lower)) => {
            let lv = chars_of(lower);
            if contains_str(lv.as_slice(), chars_of("successfully").as_slice()) {
                vec![
                    WifiEvent::Log(
                        owned(
                            "Emparejado. Ahora conecta con la IP y el puerto de conexión (no el de emparejamiento).",
                        ),
                    ),
                    WifiEvent::Success(owned("Emparejamiento correcto")),
                ]
            } else {
                vec![WifiEvent::Failure(first_line(text))]
            }
        },
        None => vec![
            WifiEvent::Failure(
                owned("Falló el emparejamiento. Revisa el código y que la pantalla siga abierta."),
            ),
        ],
    };
    assert(wifi_events_view(r@) =~= pair_reports(
        match output {
            Some((t, l)) => Some((t@, l@)),
            None => None,
        },
    ));
    r
}

/// The reports of a pairing, from `adb pair`'s output.
pub fn pair_outcome(output: Option<&str>) -> (r: Vec<WifiEvent>)
    ensures
        wifi_events_view(r@) == pair_reports(
            match output {
                Some(t) => Some((t@, lowercase(t@))),
                None => None,
            },
        ),
{
    match output {
        Some(t) => {
            let lower = to_lowercase(t);
            pair_outcome_lower(Some((t, lower.as_str())))
        },
        None => pair_outcome_lower(None),
    }
}

/// The arguments of `adb disconnect <serial>`.
pub fn disconnect_args(serial: &str) -> (r: Vec<String>)
    ensures
        args_view(r@) == seq!["disconnect"@, serial@],
{
    let r = vec![owned("disconnect"), owned(serial)];
    assert(args_view(r@) =~= seq!["disconnect"@, serial@]);
    r
}

/// The report of a disconnection.
pub fn disconnect_report(serial: &str) -> (r: WifiEvent)
    ensures
        r@ == WifiEventV::Success("Desconectado de "@ + serial@),
{
    let mut m = owned("Desconectado de ");
    m.append(serial);
    WifiEvent::Success(m)
}

// ───────────────────────────── Wi-Fi from USB ─────────────────────────────

/// The arguments that put the USB device `serial` in TCP mode on the Wi-Fi
/// port.
pub fn tcpip_args(serial: &str) -> (r: Vec<String>)
    ensures
        args_view(r@) == seq!["-s"@, serial@, "tcpip"@, crate::text::dec(5555)],
{
    let port = crate::text::dec_string(WIFI_PORT as u64);
    let r = vec![owned("-s"), owned(serial), owned("tcpip"), port];
    assert(args_view(r@) =~= seq!["-s"@, serial@, "tcpip"@, crate::text::dec(5555)]);
    r
}

/// The first report of the Wi-Fi-from-USB job.
pub fn usb_opening() -> (r: WifiEvent)
    ensures
        r@ == WifiEventV::Log("Abriendo puerto TCP"@),
{
    WifiEvent::Log(owned("Abriendo puerto TCP"))
}

/// After `adb tcpip`: go on to read the address (waiting for the phone to
/// restart `adbd` first), or fail.
pub fn usb_after_port(opened: bool) -> (r: Result<WifiEvent, WifiEvent>)
    ensures
        match r {
            Ok(e) => opened && e@ == WifiEventV::Log("Leyendo la ip del dispositivo..."@),
            Err(e) => !opened && e@ == WifiEventV::Failure(
                "No se pudo abrir el puerto. Sigue conectado por cable"@,
            ),
        },
{
    if opened {
        Ok(WifiEvent::Log(owned("Leyendo la ip del dispositivo...")))
    } else {
        Err(WifiEvent::Failure(owned("No se pudo abrir el puerto. Sigue conectado por cable")))
    }
}

/// After reading the phone's address: the address to connect to with its
/// report, or a failure.
pub fn usb_after_ip(ip: Option<&str>) -> (r: Result<(String, WifiEvent), WifiEvent>)
    ensures
        match r {
            Ok((a, e)) => ip matches Some(i) && a@ == i@ + ":"@ + crate::text::dec(5555) && e@
                == WifiEventV::Log("Conectando a "@ + a@),
            Err(e) => ip is None && e@ == WifiEventV::Failure(
                "No se pudo ver la ip. Asegurese q este conectaod a internet"@,
            ),
        },
{
    match ip {
        None => Err(
            WifiEvent::Failure(owned("No se pudo ver la ip. Asegurese q este conectaod a internet")),
        ),
        Some(i) => {
            let mut a = owned(i);
            a.append(":");
            crate::text::push_dec(&mut a, WIFI_PORT as u64);
            let mut m = owned("Conectando a ");
            m.append(a.as_str());
            Ok((a, WifiEvent::Log(m)))
        },
    }
}

/// The first report of a connection job.
pub fn connecting_report(address: &str) -> (r: WifiEvent)
    ensures
        r@ == WifiEventV::Log("Conectando a "@ + address@ + "..."@),
{
    let mut m = owned("Conectando a ");
    m.append(address);
    m.append("...");
    WifiEvent::Log(m)
}

/// The first report of a pairing job.
pub fn pairing_report(address: &str) -> (r: WifiEvent)
    ensures
        r@ == WifiEventV::Log("Emparejando con "@ + address@ + "..."@),
{
    let mut m = owned("Emparejando con ");
    m.append(address);
    m.append("...");
    WifiEvent::Log(m)
}

// ───────────────────────────── the phone's address ─────────────────────────────

/// An IPv4 address in dotted form that is not a loopback one: four parts,
/// each a number up to 255, not starting with `127.`.
pub open spec fn is_valid_ip(ip: Seq<char>) -> bool {
    let parts = split_on(ip, '.');
    &&& parts.len() == 4
    &&& all_octets(parts)
    &&& !starts_with(ip, "127."@)
}

pub open spec fn all_octets(parts: Seq<Seq<char>>) -> bool {
    forall|i: int| 0 <= i < parts.len() ==> (#[trigger] parse_bounded(parts[i], 255)) is Some
}

/// Whether `ip` is a usable dotted IPv4 address.
pub fn valid_ip(ip: &str) -> (r: bool)
    ensures
        r == is_valid_ip(ip@),
{
    let v = chars_of(ip);
    let parts = split_char(v.as_slice(), '.');
    let ghost pv = parts@.map_values(|x: Vec<char>| x@);
    if parts.len() != 4 {
        return false;
    }
    let mut i: usize = 0;
    while i < 4
        invariant
            i <= 4,
            parts@.len() == 4,
            pv == parts@.map_values(|x: Vec<char>| x@),
            pv == split_on(ip@, '.'),
            forall|j: int| 0 <= j < i ==> (#[trigger] parse_bounded(pv[j], 255)) is Some,
        decreases 4 - i,
    {
        assert(pv[i as int] == parts@[i as int]@);
        if parse_u8(parts[i].as_slice()).is_none() {
            assert(!all_octets(pv));
            return false;
        }
        i = i + 1;
    }
    assert(all_octets(pv));
    !has_prefix(v.as_slice(), chars_of("127.").as_slice())
}

/// The word after the first `key` among `w` (`skip_while(!= key).nth(1)`).
pub open spec fn word_after(w: Seq<Seq<char>>, key: Seq<char>) -> Option<Seq<char>>
    decreases w.len(),
{
    if w.len() == 0 {
        None
    } else if w[0] == key {
        if w.len() >= 2 {
            Some(w[1])
        } else {
            None
        }
    } else {
        word_after(w.drop_first(), key)
    }
}

/// The text before the first `/` (`split('/').next()`).
pub open spec fn before_slash(t: Seq<char>) -> Seq<char> {
    match index_of(t, '/') {
        Some(i) => t.take(i),
        None => t,
    }
}

/// The address in `ip -f inet addr show wlan0`: the word after `inet`
/// without its prefix length, when it is valid.
pub open spec fn ip_in_addr(out: Seq<char>) -> Option<Seq<char>> {
    match word_after(words(out), "inet"@) {
        Some(t) => {
            let ip = before_slash(t);
            if is_valid_ip(ip) {
                Some(ip)
            } else {
                None
            }
        },
        None => None,
    }
}

/// The first valid address that follows `src` in a row of `ip route`.
pub open spec fn ip_in_routes(rows: Seq<Seq<char>>) -> Option<Seq<char>>
    decreases rows.len(),
{
    if rows.len() == 0 {
        None
    } else {
        match word_after(words(rows[0]), "src"@) {
            Some(ip) => if is_valid_ip(ip) {
                Some(ip)
            } else {
                ip_in_routes(rows.drop_first())
            },
            None => ip_in_routes(rows.drop_first()),
        }
    }
}

fn word_after_of(w: &Vec<Vec<char>>, key: &str) -> (r: Option<Vec<char>>)
    ensures
        match r {
            Some(t) => word_after(w@.map_values(|x: Vec<char>| x@), key@) == Some(t@),
            None => word_after(w@.map_values(|x: Vec<char>| x@), key@) is None,
        },
{
    let ghost wv = w@.map_values(|x: Vec<char>| x@);
    let kv = chars_of(key);
    let mut i: usize = 0;
    assert(wv.skip(0) =~= wv);
    while i < w.len()
        invariant
            i <= w@.len(),
            wv == w@.map_values(|x: Vec<char>| x@),
            kv@ == key@,
            word_after(wv, key@) == word_after(wv.skip(i as int), key@),
        decreases w@.len() - i,
    {
        assert(wv.skip(i as int)[0] == w@[i as int]@);
        assert(wv.skip(i as int).drop_first() =~= wv.skip(i + 1));
        if chars_eq(w[i].as_slice(), kv.as_slice()) {
            assert(wv.skip(i as int)[0] == key@);
            if i + 1 < w.len() {
                assert(wv.skip(i as int)[1] == w@[i + 1]@);
                let t = slice_chars(w[i + 1].as_slice(), 0, w[i + 1].len());
                assert(t@ =~= w@[i + 1]@);
                return Some(t);
            }
            assert(wv.skip(i as int).len() == 1);
            return None;
        }
        i = i + 1;
    }
    None
}

/// The phone's address from the output of `ip -f inet addr show wlan0`.
pub fn device_ip_from_addr(out: &str) -> (r: Option<String>)
    ensures
        opt_text_of(r) == ip_in_addr(out@),
{
    let v = chars_of(out);
    let w = split_whitespace(v.as_slice());
    match word_after_of(&w, "inet") {
        Some(t) => {
            proof {
                lemma_index_of(t@, '/');
            }
            let ip = match find_char(t.as_slice(), '/') {
                Some(k) => slice_chars(t.as_slice(), 0, k),
                None => slice_chars(t.as_slice(), 0, t.len()),
            };
            assert(ip@ =~= before_slash(t@));
            let s = string_of(ip.as_slice());
            if valid_ip(s.as_str()) {
                Some(s)
            } else {
                None
            }
        },
        None => None,
    }
}

/// The phone's address from the output of `ip route`.
pub fn device_ip_from_route(out: &str) -> (r: Option<String>)
    ensures
        opt_text_of(r) == ip_in_routes(lines(out@)),
{
    let v = chars_of(out);
    let rows = split_lines(v.as_slice());
    let ghost rv = rows@.map_values(|x: Vec<char>| x@);
    let mut i: usize = 0;
    assert(rv.skip(0) =~= rv);
    while i < rows.len()
        invariant
            i <= rows@.len(),
            rv == rows@.map_values(|x: Vec<char>| x@),
            rv == lines(out@),
            ip_in_routes(rv) == ip_in_routes(rv.skip(i as int)),
        decreases rows@.len() - i,
    {
        assert(rv.skip(i as int)[0] == rows@[i as int]@);
        assert(rv.skip(i as int).drop_first() =~= rv.skip(i + 1));
        let w = split_whitespace(rows[i].as_slice());
        match word_after_of(&w, "src") {
            Some(t) => {
                let s = string_of(t.as_slice());
                if valid_ip(s.as_str()) {
                    return Some(s);
                }
            },
            None => {},
        }
        i = i + 1;
    }
    None
}

pub open spec fn opt_text_of(o: Option<String>) -> Option<Seq<char>> {
    match o {
        Some(s) => Some(s@),
        None => None,
    }
}

/// The phone's address from the two outputs, the first one preferred.
pub open spec fn device_ip_of(addr: Option<Seq<char>>, route: Option<Seq<char>>) -> Option<Seq<char>> {
    let first = match addr {
        Some(o) => ip_in_addr(o),
        None => None,
    };
    match first {
        Some(ip) => Some(ip),
        None => match route {
            Some(o) => ip_in_routes(lines(o)),
            None => None,
        },
    }
}

/// The phone's Wi-Fi address: from `ip -f inet addr show wlan0` first,
/// else from the default route (for ROMs that rename the interface); each
/// output is `None` when its command failed or was not run.
pub fn device_ip(addr_out: Option<&str>, route_out: Option<&str>) -> (r: Option<String>)
    ensures
        opt_text_of(r) == device_ip_of(
            crate::files::manager::opt_str(addr_out),
            crate::files::manager::opt_str(route_out),
        ),
{
    let first = match addr_out {
        Some(o) => device_ip_from_addr(o),
        None => None,
    };
    match first {
        Some(ip) => Some(ip),
        None => match route_out {
            Some(o) => device_ip_from_route(o),
            None => None,
        },
    }
}

/// The saved address, from the saved file's text: trimmed, none when blank.
pub fn saved_address(text: &str) -> (r: Option<String>)
    ensures
        opt_text_of(r) == if trim(text@).len() > 0 {
            Some(trim(text@))
        } else {
            None
        },
{
    let t = trim_str(text);
    if t.as_str().is_empty() {
        None
    } else {
        Some(t)
    }
}

} // verus!
