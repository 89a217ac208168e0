use transfel::device::parse_resolution;
use transfel::files::kinds::{category_of, human_size, Category};
use transfel::files::listing::sanitize;
use transfel::text::{chars_of, dec_string, parse_u64, parse_usize};
use transfel::wifi::normalize;

#[test]
fn sanitizing_twice_is_sanitizing_once() {
    for s in ["a;b|c", "\"quoted\" $HOME", "plain", "", "\n\n;;", "ñandú & co"] {
        let once = sanitize(s);
        assert_eq!(sanitize(&once), once);
        assert!(!once.chars().any(|c| "\"'`$\\;&|\n".contains(c)));
    }
}

#[test]
fn normalizing_twice_is_normalizing_once() {
    for a in ["10.0.0.2", " 10.0.0.2:5555 ", "", "  ", "host:1:2", "\t192.168.0.9\n"] {
        let once = normalize(a);
        assert_eq!(normalize(&once), once);
        assert!(once.contains(':'));
    }
}

#[test]
fn decimal_round_trip() {
    for n in [0u64, 7, 10, 99, 1080, 65535, u64::MAX] {
        let text = dec_string(n);
        assert_eq!(text, n.to_string());
        assert_eq!(parse_u64(&chars_of(&text)), Some(n));
    }
    assert_eq!(parse_usize(&chars_of("18446744073709551616")), None);
}

#[test]
fn resolution_round_trip() {
    for (w, h) in [(0usize, 0usize), (720, 1280), (1080, 2400), (usize::MAX, 1)] {
        assert_eq!(parse_resolution(&format!("{w}x{h}")), Some((w, h)));
    }
}

#[test]
fn extensions_match_their_categories() {
    for c in Category::ALL {
        for e in c.extensions() {
            assert_eq!(category_of(&format!("file.{}", e.to_uppercase())), c);
        }
    }
}

#[test]
fn small_sizes_are_exact_bytes() {
    for b in [0u64, 1, 512, 1000, 1023] {
        assert_eq!(human_size(b), format!("{b} B"));
    }
}

use transfel::files::entry::FileEntry;
use transfel::files::kinds::Side;
use transfel::files::manager::{FileManager, PickedFile};
use transfel::watcher::emit;

fn entry(name: &str, is_dir: bool) -> FileEntry {
    FileEntry {
        name: name.to_string(),
        path: format!("/h/{name}"),
        is_dir,
        size: 3,
        category: if is_dir { Category::Otros } else { category_of(name) },
    }
}

fn shown_names(fm: &FileManager) -> Vec<String> {
    fm.visible().iter().map(|e| e.name.clone()).collect()
}

#[test]
fn type_filter_is_independent_of_search() {
    let mut fm = FileManager::new("/h".to_string());
    fm.entries = vec![entry("Viaje", true), entry("viaje.jpg", false), entry("viaje.mp4", false), entry("otro.jpg", false)];
    for search in ["", "VIAJE", "jpg", "zzz"] {
        for cat in Category::ALL {
            fm.search = search.to_string();
            fm.category = cat;
            let both = shown_names(&fm);
            fm.category = Category::Todos;
            let by_name = shown_names(&fm);
            fm.search = String::new();
            fm.category = cat;
            let by_type = shown_names(&fm);
            let expected: Vec<String> = by_name.iter().filter(|n| by_type.contains(n)).cloned().collect();
            assert_eq!(both, expected, "search {search:?}, category {cat:?}");
        }
    }
}

#[test]
fn picking_then_taking_out_restores_the_tray() {
    let mut fm = FileManager::new("/h".to_string());
    fm.stage(&entry("a.txt", false));
    let before: Vec<String> = fm.staged.iter().map(|s| s.path.clone()).collect();
    fm.stage(&entry("b.txt", false));
    fm.unstage("/h/b.txt");
    let after: Vec<String> = fm.staged.iter().map(|s| s.path.clone()).collect();
    assert_eq!(before, after);
}

#[test]
fn the_tray_never_mixes_directions() {
    let mut fm = FileManager::new("/h".to_string());
    fm.switch_side(Side::Android, Some("s"));
    fm.stage(&entry("p.jpg", false));
    fm.stage_from_dialog(vec![PickedFile { name: "x.txt".to_string(), path: "/pc/x.txt".to_string(), size: 1 }]);
    fm.switch_side(Side::Pc, None);
    fm.stage(&entry("y.txt", false));
    fm.stage_all_visible();
    assert!(fm.staged.iter().all(|s| s.origin == Side::Android));
    assert_eq!(fm.staged.len(), 1);
}

#[test]
fn a_device_list_is_sent_once() {
    let mut last = Vec::new();
    assert!(emit("a\tdevice\nb\toffline", &mut last).is_some());
    assert!(emit("a\tdevice\nb\toffline", &mut last).is_none());
    assert!(emit("a  device\r\nb offline\n", &mut last).is_none());
}
