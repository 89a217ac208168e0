//! The application's state between frames: the device in use, the device
//! list, the status line, the tab, the stream's state, and the decisions
//! taken when the device list or a device probe changes. What needs the
//! window or a background thread is asked for as an action.

use vstd::prelude::*;
use crate::device::{disconnected_view, DeviceInfo, DeviceV};
use crate::files::kinds::Side;
use crate::files::manager::{opt_str, reloaded, FileManager, FileManagerV};
use crate::files::tray::opt_text;
use crate::text::{chars_of, find_char, index_of, lemma_index_of, owned, str_eq};
use crate::watcher::{summaries_view, DeviceSummary, SummaryV};
use crate::wifi::{WifiManager, WifiV};

verus! {

/// The sidebar's tabs.
#[derive(Clone, Copy, PartialEq, Eq, Structural, Debug)]
pub enum Tab {
    Pantalla,
    Archivos,
    Conexion,
}

/// The screen stream as the sidebar shows it.
#[derive(Clone, Copy, PartialEq, Eq, Structural, Debug)]
pub enum StreamState {
    Inactiva,
    EnVivo,
    Cerrada,
}

/// Work for the window or a background thread.
pub enum AppAction {
    /// Look for a device (`adb devices`).
    Detect,
    /// Read the properties of the device with this serial.
    Probe(String),
    /// Decode the stream at this screen size.
    SetResolution(usize, usize),
    /// Stop showing the last picture.
    ClearTexture,
    /// Drop the frames still queued.
    DrainStream,
}

pub enum ActionV {
    Detect,
    Probe(Seq<char>),
    SetResolution(usize, usize),
    ClearTexture,
    DrainStream,
}

impl View for AppAction {
    type V = ActionV;

    open spec fn view(&self) -> ActionV {
        match self {
            AppAction::Detect => ActionV::Detect,
            AppAction::Probe(s) => ActionV::Probe(s@),
            AppAction::SetResolution(w, h) => ActionV::SetResolution(*w, *h),
            AppAction::ClearTexture => ActionV::ClearTexture,
            AppAction::DrainStream => ActionV::DrainStream,
        }
    }
}

pub open spec fn actions_view(s: Seq<AppAction>) -> Seq<ActionV> {
    s.map_values(|a: AppAction| a@)
}

/// The application's state.
pub struct TransfelApp {
    pub device: DeviceInfo,
    pub status: String,
    pub tab: Tab,
    pub devices: Vec<DeviceSummary>,
    pub selected: Option<String>,
    pub wifi: WifiManager,
    pub stream_state: StreamState,
    pub files: FileManager,
    pub actions: Vec<AppAction>,
}

#[verifier::ext_equal]
pub struct AppV {
    pub device: DeviceV,
    pub status: Seq<char>,
    pub tab: Tab,
    pub devices: Seq<SummaryV>,
    pub selected: Option<Seq<char>>,
    pub wifi: WifiV,
    pub stream_state: StreamState,
    pub files: FileManagerV,
    pub actions: Seq<ActionV>,
}

impl View for TransfelApp {
    type V = AppV;

    open spec fn view(&self) -> AppV {
        AppV {
            device: self.device@,
            status: self.status@,
            tab: self.tab,
            devices: summaries_view(self.devices@),
            selected: opt_text(self.selected),
            wifi: self.wifi@,
            stream_state: self.stream_state,
            files: self.files@,
            actions: actions_view(self.actions@),
        }
    }
}

/// Whether a serial is a network address (a Wi-Fi connection).
pub open spec fn is_address(serial: Seq<char>) -> bool {
    index_of(serial, ':') is Some
}

pub open spec fn is_ready(d: SummaryV) -> bool {
    d.state == "device"@
}

/// The serial of the first device of `ds` that is ready (and on Wi-Fi
/// when `wifi` is asked for).
pub open spec fn first_ready_device(ds: Seq<SummaryV>, wifi: bool) -> Option<Seq<char>>
    decreases ds.len(),
{
    if ds.len() == 0 {
        None
    } else if is_ready(ds[0]) && (!wifi || ds[0].wifi) {
        Some(ds[0].serial)
    } else {
        first_ready_device(ds.drop_first(), wifi)
    }
}

/// The device to use next: a ready Wi-Fi device first, since it survives
/// unplugging the cable, else any ready device.
pub open spec fn preferred_device(ds: Seq<SummaryV>) -> Option<Seq<char>> {
    match first_ready_device(ds, true) {
        Some(s) => Some(s),
        None => first_ready_device(ds, false),
    }
}

/// The serial of the first ready device on a cable.
pub open spec fn first_usb_device(ds: Seq<SummaryV>) -> Option<Seq<char>>
    decreases ds.len(),
{
    if ds.len() == 0 {
        None
    } else if is_ready(ds[0]) && !ds[0].wifi {
        Some(ds[0].serial)
    } else {
        first_usb_device(ds.drop_first())
    }
}

/// Whether the device `selected` is still listed and ready.
pub open spec fn still_listed(ds: Seq<SummaryV>, selected: Option<Seq<char>>) -> bool {
    match selected {
        Some(s) => exists|i: int| 0 <= i < ds.len() && (#[trigger] ds[i]).serial == s && is_ready(ds[i]),
        None => false,
    }
}

/// The state after choosing the device `serial`: its properties are asked for.
pub open spec fn device_selected(v: AppV, serial: Seq<char>) -> AppV {
    AppV {
        selected: Some(serial),
        status: "Leyendo dispositivo..."@,
        actions: v.actions.push(ActionV::Probe(serial)),
        ..v
    }
}

/// The state after a new device list: when the device in use is gone, the
/// preferred ready device is chosen, or with none left the state becomes
/// disconnected (picture cleared, phone listings dropped).
pub open spec fn devices_seen(v: AppV, list: Seq<SummaryV>) -> AppV {
    let v1 = AppV { devices: list, ..v };
    if still_listed(list, v.selected) {
        v1
    } else {
        match preferred_device(list) {
            Some(s) => device_selected(v1, s),
            None => {
                let f = FileManagerV { cache: Map::empty(), ..v1.files };
                AppV {
                    selected: None,
                    device: disconnected_view(),
                    actions: v1.actions.push(ActionV::ClearTexture),
                    status: "Dispositivo desconectado"@,
                    files: if f.side == Side::Android {
                        FileManagerV { entries: Seq::empty(), ..f }
                    } else {
                        f
                    },
                    ..v1
                }
            },
        }
    }
}

/// The state after a device probe: on success the device is in use, the
/// stream gets its screen size, the status says how it is connected, and
/// the listings are dropped (the phone's folder is read again); on failure
/// the state is disconnected with the failure as status.
pub open spec fn probe_seen(v: AppV, info: Result<DeviceV, Seq<char>>) -> AppV {
    match info {
        Ok(d) => {
            let f = FileManagerV { cache: Map::empty(), ..v.files };
            AppV {
                actions: v.actions.push(ActionV::SetResolution(d.width, d.height)),
                status: if d.serial is Some && is_address(d.serial->0) {
                    "Conectado por WiFi"@
                } else {
                    "Conectado por USB"@
                },
                device: d,
                files: if f.side == Side::Android {
                    reloaded(f, d.serial)
                } else {
                    f
                },
                ..v
            }
        },
        Err(m) => AppV { device: disconnected_view(), status: m, ..v },
    }
}

pub open spec fn lists_seen(v: AppV, lists: Seq<Seq<SummaryV>>) -> AppV
    decreases lists.len(),
{
    if lists.len() == 0 {
        v
    } else {
        devices_seen(lists_seen(v, lists.drop_last()), lists.last())
    }
}

pub open spec fn probes_seen(v: AppV, infos: Seq<Result<DeviceV, Seq<char>>>) -> AppV
    decreases infos.len(),
{
    if infos.len() == 0 {
        v
    } else {
        probe_seen(probes_seen(v, infos.drop_last()), infos.last())
    }
}

pub open spec fn probe_view(r: Result<DeviceInfo, String>) -> Result<DeviceV, Seq<char>> {
    match r {
        Ok(d) => Ok(d@),
        Err(m) => Err(m@),
    }
}

/// What the stream's liveness does to its state: live shows the stream; a
/// stream that stops being live is closed, its picture and queued frames
/// dropped, and no frame is shown this time.
pub open spec fn video_seen(v: AppV, live: bool) -> (AppV, bool) {
    if live {
        (AppV { stream_state: StreamState::EnVivo, ..v }, true)
    } else if v.stream_state == StreamState::EnVivo {
        (
            AppV {
                stream_state: StreamState::Cerrada,
                actions: v.actions.push(ActionV::ClearTexture).push(ActionV::DrainStream),
                status: "Transmision finalizada"@,
                ..v
            },
            false,
        )
    } else {
        (v, true)
    }
}

impl TransfelApp {
    /// The application at start: no device yet, the file manager at `home`,
    /// the connection screen with the saved Wi-Fi address.
    pub fn new(home: String, saved_wifi: Option<String>) -> (r: TransfelApp)
        ensures
            r@.device == disconnected_view(),
            r@.status == "Buscando dispositivo..."@,
            r@.tab == Tab::Pantalla,
            r@.devices.len() == 0,
            r@.selected is None,
            r@.stream_state == StreamState::Inactiva,
            r@.actions.len() == 0,
            r.files@ == crate::files::manager::initial_files(home@),
            r.wifi@ == crate::wifi::initial_wifi(opt_text(saved_wifi)),
    {
        let app = TransfelApp {
            device: DeviceInfo::disconnected(),
            status: owned("Buscando dispositivo..."),
            tab: Tab::Pantalla,
            devices: Vec::new(),
            selected: None,
            wifi: WifiManager::new(saved_wifi),
            stream_state: StreamState::Inactiva,
            files: FileManager::new(home),
            actions: Vec::new(),
        };
        assert(summaries_view(app.devices@) =~= Seq::empty());
        assert(actions_view(app.actions@) =~= Seq::empty());
        app
    }

    fn act(&mut self, a: AppAction)
        ensures
            final(self)@ == (AppV { actions: old(self)@.actions.push(a@), ..old(self)@ }),
    {
        let ghost before = actions_view(self.actions@);
        self.actions.push(a);
        assert(actions_view(self.actions@) =~= before.push(a@));
    }

    /// The actions asked for since the last call, in order.
    pub fn take_actions(&mut self) -> (r: Vec<AppAction>)
        ensures
            actions_view(r@) == old(self)@.actions,
            final(self)@ == (AppV { actions: Seq::empty(), ..old(self)@ }),
    {
        let mut r: Vec<AppAction> = Vec::new();
        std::mem::swap(&mut r, &mut self.actions);
        assert(actions_view(self.actions@) =~= Seq::empty());
        r
    }

    /// Looks for a device.
    pub fn detect_device(&mut self)
        ensures
            final(self)@ == (AppV {
                status: "Buscando dispositivo..."@,
                actions: old(self)@.actions.push(ActionV::Detect),
                ..old(self)@
            }),
    {
        self.status = owned("Buscando dispositivo...");
        self.act(AppAction::Detect);
    }

    /// Uses the device `serial`; its properties are asked for.
    pub fn select_device(&mut self, serial: String)
        ensures
            final(self)@ == device_selected(old(self)@, serial@),
    {
        self.selected = Some(serial.clone());
        self.status = owned("Leyendo dispositivo...");
        self.act(AppAction::Probe(serial));
    }

    /// Whether the device in use is connected over Wi-Fi.
    pub fn is_wifi(&self) -> (r: bool)
        ensures
            r == (self@.device.serial is Some && is_address(self@.device.serial->0)),
    {
        match &self.device.serial {
            Some(s) => {
                let v = chars_of(s.as_str());
                proof {
                    lemma_index_of(v@, ':');
                }
                find_char(v.as_slice(), ':').is_some()
            },
            None => false,
        }
    }

    /// The serial of the device in use.
    pub fn serial(&self) -> (r: Option<&str>)
        ensures
            opt_str(r) == self@.device.serial,
    {
        match &self.device.serial {
            Some(s) => Some(s.as_str()),
            None => None,
        }
    }

    /// The first ready device on a cable, the one that Wi-Fi can be turned
    /// on for.
    pub fn usb_serial(&self) -> (r: Option<String>)
        ensures
            opt_text(r) == first_usb_device(self@.devices),
    {
        let ghost dv = summaries_view(self.devices@);
        assert(dv.skip(0) =~= dv);
        let mut i: usize = 0;
        while i < self.devices.len()
            invariant
                i <= self.devices@.len(),
                dv == summaries_view(self.devices@),
                first_usb_device(dv) == first_usb_device(dv.skip(i as int)),
            decreases self.devices@.len() - i,
        {
            proof {
                assert(dv.skip(i as int)[0] == dv[i as int]);
                assert(dv.skip(i as int).drop_first() =~= dv.skip(i + 1));
            }
            if self.devices[i].ready() && !self.devices[i].Wifi {
                return Some(self.devices[i].serial.clone());
            }
            i = i + 1;
        }
        None
    }

    fn still_there(&self) -> (r: bool)
        ensures
            r == still_listed(self@.devices, self@.selected),
    {
        let sel = match &self.selected {
            Some(s) => s,
            None => return false,
        };
        let ghost dv = summaries_view(self.devices@);
        let mut i: usize = 0;
        while i < self.devices.len()
            invariant
                i <= self.devices@.len(),
                dv == summaries_view(self.devices@),
                opt_text(self.selected) == Some(sel@),
                forall|j: int| 0 <= j < i ==> !((#[trigger] dv[j]).serial == sel@ && is_ready(dv[j])),
            decreases self.devices@.len() - i,
        {
            if str_eq(self.devices[i].serial.as_str(), sel.as_str()) && self.devices[i].ready() {
                assert(dv[i as int].serial == sel@ && is_ready(dv[i as int]));
                return true;
            }
            i = i + 1;
        }
        false
    }

    fn first_ready(&self, wifi: bool) -> (r: Option<String>)
        ensures
            opt_text(r) == first_ready_device(self@.devices, wifi),
    {
        let ghost dv = summaries_view(self.devices@);
        let mut i: usize = 0;
        assert(dv.skip(0) =~= dv);
        while i < self.devices.len()
            invariant
                i <= self.devices@.len(),
                dv == summaries_view(self.devices@),
                first_ready_device(dv, wifi) == first_ready_device(dv.skip(i as int), wifi),
            decreases self.devices@.len() - i,
        {
            assert(dv.skip(i as int)[0] == self.devices@[i as int]@);
            assert(dv.skip(i as int).drop_first() =~= dv.skip(i + 1));
            if self.devices[i].ready() && (!wifi || self.devices[i].Wifi) {
                return Some(self.devices[i].serial.clone());
            }
            i = i + 1;
        }
        None
    }

    fn on_devices(&mut self, list: Vec<DeviceSummary>)
        ensures
            final(self)@ == devices_seen(old(self)@, summaries_view(list@)),
    {
        self.devices = list;
        if self.still_there() {
            return ;
        }
        let next = match self.first_ready(true) {
            Some(s) => Some(s),
            None => self.first_ready(false),
        };
        match next {
            Some(serial) => self.select_device(serial),
            None => {
                self.selected = None;
                self.device = DeviceInfo::disconnected();
                self.act(AppAction::ClearTexture);
                self.status = owned("Dispositivo desconectado");
                self.files.invalidate();
                if self.files.side == Side::Android {
                    self.files.entries = Vec::new();
                    assert(crate::files::entry::entries_view(self.files.entries@) =~= Seq::empty());
                }
            },
        }
        assert(self@ =~= devices_seen(old(self)@, summaries_view(list@)));
    }

    fn on_probe(&mut self, result: Result<DeviceInfo, String>)
        ensures
            final(self)@ == probe_seen(old(self)@, probe_view(result)),
    {
        match result {
            Ok(info) => {
                self.act(AppAction::SetResolution(info.width, info.height));
                let wifi = match &info.serial {
                    Some(s) => {
                        let v = chars_of(s.as_str());
                        proof {
                            lemma_index_of(v@, ':');
                        }
                        find_char(v.as_slice(), ':').is_some()
                    },
                    None => false,
                };
                self.status = if wifi {
                    owned("Conectado por WiFi")
                } else {
                    owned("Conectado por USB")
                };
                let serial = match &info.serial {
                    Some(s) => Some(s.clone()),
                    None => None,
                };
                self.device = info;
                self.files.invalidate();
                if self.files.side == Side::Android {
                    match &serial {
                        Some(s) => self.files.reload(Some(s.as_str())),
                        None => self.files.reload(None),
                    }
                }
            },
            Err(msg) => {
                self.device = DeviceInfo::disconnected();
                self.status = msg;
            },
        }
    }

    /// Handles the device lists and the probe results received since the
    /// last frame, lists first, each in order.
    pub fn poll_device(&mut self, lists: Vec<Vec<DeviceSummary>>, probes: Vec<Result<DeviceInfo, String>>)
        ensures
            final(self)@ == probes_seen(
                lists_seen(old(self)@, lists@.map_values(|l: Vec<DeviceSummary>| summaries_view(l@))),
                probes@.map_values(|p: Result<DeviceInfo, String>| probe_view(p)),
            ),
    {
        let ghost lv = lists@.map_values(|l: Vec<DeviceSummary>| summaries_view(l@));
        let ghost old_lists = lists@;
        let ghost v0 = self@;
        let n = lists.len();
        let mut lists = lists;
        let mut i: usize = 0;
        while lists.len() > 0
            invariant
                i <= n,
                n == old_lists.len(),
                lv == old_lists.map_values(|l: Vec<DeviceSummary>| summaries_view(l@)),
                lists@ == old_lists.skip(i as int),
                self@ == lists_seen(v0, lv.take(i as int)),
            decreases lists@.len(),
        {
            assert(lv.take(i + 1).drop_last() =~= lv.take(i as int));
            assert(lv.take(i + 1).last() == summaries_view(lists@[0]@));
            let list = lists.remove(0);
            self.on_devices(list);
            i = i + 1;
            assert(lists@ =~= old_lists.skip(i as int));
        }
        assert(lv.take(n as int) =~= lv);
        let ghost pv = probes@.map_values(|p: Result<DeviceInfo, String>| probe_view(p));
        let ghost old_probes = probes@;
        let ghost v1 = self@;
        let m = probes.len();
        let mut probes = probes;
        let mut k: usize = 0;
        while probes.len() > 0
            invariant
                k <= m,
                m == old_probes.len(),
                pv == old_probes.map_values(|p: Result<DeviceInfo, String>| probe_view(p)),
                probes@ == old_probes.skip(k as int),
                self@ == probes_seen(v1, pv.take(k as int)),
            decreases probes@.len(),
        {
            assert(pv.take(k + 1).drop_last() =~= pv.take(k as int));
            assert(pv.take(k + 1).last() == probe_view(probes@[0]));
            let p = probes.remove(0);
            self.on_probe(p);
            k = k + 1;
            assert(probes@ =~= old_probes.skip(k as int));
        }
        assert(pv.take(m as int) =~= pv);
    }

    /// Updates the stream's state from its liveness; says whether a new
    /// frame may be shown.
    pub fn update_video(&mut self, live: bool) -> (r: bool)
        ensures
            (final(self)@, r) == video_seen(old(self)@, live),
    {
        if live {
            self.stream_state = StreamState::EnVivo;
            true
        } else if self.stream_state == StreamState::EnVivo {
            self.stream_state = StreamState::Cerrada;
            self.act(AppAction::ClearTexture);
            self.act(AppAction::DrainStream);
            self.status = owned("Transmision finalizada");
            false
        } else {
            true
        }
    }

    /// Milliseconds until the next frame: fast while the stream is live or
    /// files are moving or loading, slow otherwise (still enough to notice
    /// disconnections).
    pub fn repaint_delay_ms(&self) -> (r: u64)
        ensures
            r == if self@.stream_state == StreamState::EnVivo || crate::files::manager::active_count(
                self@.files.transfers,
            ) > 0 || self@.files.loading {
                16u64
            } else {
                250u64
            },
    {
        if self.stream_state == StreamState::EnVivo || self.files.active_transfers() > 0
            || self.files.loading {
            16
        } else {
            250
        }
    }
}

} // verus!
