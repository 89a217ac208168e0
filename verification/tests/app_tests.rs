use transfel::app::{AppAction, StreamState, Tab, TransfelApp};
use transfel::device::DeviceInfo;
use transfel::files::entry::FileEntry;
use transfel::files::kinds::{Category, Side};
use transfel::files::tray::Event;
use transfel::ui::{listing_summary, short_path, tray_summary};
use transfel::watcher::DeviceSummary;

fn dev(serial: &str, state: &str) -> DeviceSummary {
    DeviceSummary { serial: serial.to_string(), state: state.to_string(), Wifi: serial.contains(':') }
}

fn probe(serial: &str) -> DeviceInfo {
    DeviceInfo::from_probe(serial.to_string(), Some("Pixel".to_string()), Some("14".to_string()), Some("Physical size: 1080x2400".to_string()), None)
}

fn kinds(actions: &[AppAction]) -> Vec<String> {
    actions
        .iter()
        .map(|a| match a {
            AppAction::Detect => "detect".to_string(),
            AppAction::Probe(s) => format!("probe {s}"),
            AppAction::SetResolution(w, h) => format!("size {w}x{h}"),
            AppAction::ClearTexture => "clear".to_string(),
            AppAction::DrainStream => "drain".to_string(),
        })
        .collect()
}

fn app() -> TransfelApp {
    let mut a = TransfelApp::new("/home/u".to_string(), None);
    let d = a.files.take_jobs().remove(0);
    a.files.poll(0, None, vec![Event::Result { token: d.token, key: d.key, entries: vec![] }]);
    a
}

#[test]
fn starts_searching_for_a_device() {
    let mut a = TransfelApp::new("/home/u".to_string(), Some("10.0.0.2".to_string()));
    assert_eq!(a.status, "Buscando dispositivo...");
    assert_eq!(a.tab, Tab::Pantalla);
    assert_eq!(a.stream_state, StreamState::Inactiva);
    assert!(a.selected.is_none());
    assert!(!a.device.is_connected());
    assert!(a.serial().is_none());
    assert!(!a.is_wifi());
    assert!(a.take_actions().is_empty());
    assert_eq!(a.wifi.ip_input, "10.0.0.2");
    assert_eq!(a.files.pc_path, "/home/u");
    a.detect_device();
    assert_eq!(kinds(&a.take_actions()), vec!["detect"]);
}

#[test]
fn a_new_device_is_selected_and_probed() {
    let mut a = app();
    a.poll_device(vec![vec![dev("usb1", "device")]], vec![]);
    assert_eq!(a.selected, Some("usb1".to_string()));
    assert_eq!(a.status, "Leyendo dispositivo...");
    assert_eq!(kinds(&a.take_actions()), vec!["probe usb1"]);
    a.poll_device(vec![], vec![Ok(probe("usb1"))]);
    assert_eq!(a.status, "Conectado por USB");
    assert_eq!(a.serial(), Some("usb1"));
    assert!(!a.is_wifi());
    assert_eq!(kinds(&a.take_actions()), vec!["size 1080x2400"]);
}

#[test]
fn wifi_is_preferred_and_survives_unplugging() {
    let mut a = app();
    a.poll_device(vec![vec![dev("usb1", "device"), dev("192.168.1.5:5555", "device")]], vec![]);
    assert_eq!(a.selected, Some("192.168.1.5:5555".to_string()));
    a.poll_device(vec![], vec![Ok(probe("192.168.1.5:5555"))]);
    assert_eq!(a.status, "Conectado por WiFi");
    assert!(a.is_wifi());
    a.take_actions();
    // the cable goes away: nothing changes
    a.poll_device(vec![vec![dev("192.168.1.5:5555", "device")]], vec![]);
    assert_eq!(a.selected, Some("192.168.1.5:5555".to_string()));
    assert_eq!(a.status, "Conectado por WiFi");
    assert!(a.take_actions().is_empty());
}

#[test]
fn unauthorized_devices_are_not_used() {
    let mut a = app();
    a.poll_device(vec![vec![dev("usb1", "unauthorized")]], vec![]);
    assert!(a.selected.is_none());
    assert_eq!(a.status, "Dispositivo desconectado");
    assert_eq!(kinds(&a.take_actions()), vec!["clear"]);
}

#[test]
fn losing_every_device_disconnects() {
    let mut a = app();
    a.poll_device(vec![vec![dev("usb1", "device")]], vec![Ok(probe("usb1"))]);
    a.files.switch_side(Side::Android, Some("usb1"));
    let d = a.files.take_jobs().remove(0);
    a.files.poll(0, Some("usb1"), vec![Event::Result { token: d.token, key: d.key, entries: vec![FileEntry { name: "x.jpg".to_string(), path: "/sdcard/x.jpg".to_string(), is_dir: false, size: 1, category: Category::Fotos }] }]);
    a.take_actions();
    a.poll_device(vec![vec![]], vec![]);
    assert!(a.selected.is_none());
    assert!(!a.device.is_connected());
    assert_eq!(a.status, "Dispositivo desconectado");
    assert!(a.files.entries.is_empty());
    assert_eq!(kinds(&a.take_actions()), vec!["clear"]);
    // the phone listing is no longer cached
    a.files.reload(Some("usb2"));
    assert!(a.files.loading);
}

#[test]
fn failed_probe_reports() {
    let mut a = app();
    a.poll_device(vec![], vec![Err("Conecta tu dispositivo Android".to_string())]);
    assert_eq!(a.status, "Conecta tu dispositivo Android");
    assert!(!a.device.is_connected());
}

#[test]
fn probe_reloads_the_phone_listing() {
    let mut a = app();
    a.files.switch_side(Side::Android, None);
    assert_eq!(a.files.error, Some("Sin dispositivo".to_string()));
    a.poll_device(vec![], vec![Ok(probe("usb1"))]);
    assert_eq!(a.files.error, None);
    assert_eq!(a.files.take_jobs().len(), 1);
}

#[test]
fn stream_states() {
    let fresh = TransfelApp::new("/home/u".to_string(), None);
    assert_eq!(fresh.repaint_delay_ms(), 16);
    let mut a = app();
    assert_eq!(a.repaint_delay_ms(), 250);
    assert!(a.update_video(false));
    assert_eq!(a.stream_state, StreamState::Inactiva);
    assert!(a.update_video(true));
    assert_eq!(a.stream_state, StreamState::EnVivo);
    assert_eq!(a.repaint_delay_ms(), 16);
    assert!(!a.update_video(false));
    assert_eq!(a.stream_state, StreamState::Cerrada);
    assert_eq!(a.status, "Transmision finalizada");
    assert_eq!(kinds(&a.take_actions()), vec!["clear", "drain"]);
    assert!(a.update_video(false));
    assert!(a.take_actions().is_empty());
    // a cached folder shows at once; an uncached one is loading
    a.files.reload(None);
    assert_eq!(a.repaint_delay_ms(), 250);
    a.files.invalidate();
    a.files.reload(None);
    assert_eq!(a.repaint_delay_ms(), 16);
}

#[test]
fn select_device_asks_for_properties() {
    let mut a = app();
    a.select_device("abc".to_string());
    assert_eq!(a.selected, Some("abc".to_string()));
    assert_eq!(kinds(&a.take_actions()), vec!["probe abc"]);
}

#[test]
fn short_paths_for_the_tray() {
    assert_eq!(
        short_path("/storage/emulated/0/DCIM/Camera/IMG_20240101_123456_burst.jpg"),
        "/.../IMG_20240101_123456_burst.jpg"
    );
    assert_eq!(
        short_path("C:\\Users\\juan\\Pictures\\Vacaciones de verano 2024\\Camera"),
        "C:\\...\\Camera"
    );
    assert_eq!(short_path("/sdcard/DCIM/Camera/IMG_1.jpg"), "/sdcard/DCIM/Camera/IMG_1.jpg");
    let flat = "x".repeat(60);
    assert_eq!(short_path(&format!("/a/{flat}")), format!("/a/{flat}"));
}

#[test]
fn usb_device_for_wifi_setup() {
    let mut a = app();
    assert_eq!(a.usb_serial(), None);
    a.devices = vec![dev("10.0.0.2:5555", "device"), dev("usb0", "unauthorized"), dev("usb1", "device")];
    assert_eq!(a.usb_serial(), Some("usb1".to_string()));
}

#[test]
fn connection_buttons() {
    let mut a = app();
    assert!(!a.wifi.can_connect());
    a.wifi.ip_input = " 10.0.0.2 ".to_string();
    assert!(a.wifi.can_connect());
    a.wifi.busy = true;
    assert!(!a.wifi.can_connect());
    a.wifi.busy = false;
    a.wifi.pair_address = "10.0.0.2:37000".to_string();
    assert!(!a.wifi.can_pair());
    a.wifi.pair_code = "123456".to_string();
    assert!(a.wifi.can_pair());
}

#[test]
fn tray_blocks_the_other_side() {
    let mut a = app();
    assert!(!a.files.tray_blocked());
    a.files.stage(&FileEntry { name: "a.txt".to_string(), path: "/h/a.txt".to_string(), is_dir: false, size: 1, category: Category::Documentos });
    assert!(!a.files.tray_blocked());
    a.files.switch_side(Side::Android, None);
    assert!(a.files.tray_blocked());
}

#[test]
fn summary_lines() {
    assert_eq!(listing_summary(3, 10, true, "/home/u"), "3 de 10 · /home/u");
    assert_eq!(listing_summary(10, 10, false, "/home/u"), "10 elementos · /home/u");
    assert_eq!(tray_summary(2, 0), "2 archivo(s)");
    assert_eq!(tray_summary(2, 1536), "2 archivo(s) · 1.5 KB");
}
