use transfel::files::cache::ListingCache;
use transfel::files::entry::FileEntry;
use transfel::files::kinds::{category_of, human_size, AndroidDest, Category, Scope, Side};
use transfel::files::listing::{
    list_android, list_android_command, media_query, media_query_command, parse_ls_line,
    parse_ls_output, paths_to_entries, retain_named, sanitize, search_android_find,
    search_android_media, search_android_plan, AndroidSearch, MediaKind, MAX_RESULTS,
};
use transfel::files::order::{goes_after, sort_entries};
use transfel::files::pc::{list_pc, PcSearch, RawEntry, SearchItem};
use transfel::files::worker::{copy_args, copy_done, listing_event};
use transfel::files::tray::{Event, Job, TransferState};

fn file(name: &str, path: &str, size: u64) -> FileEntry {
    FileEntry {
        name: name.to_string(),
        path: path.to_string(),
        is_dir: false,
        size,
        category: category_of(name),
    }
}

fn dir(name: &str, path: &str) -> FileEntry {
    FileEntry { name: name.to_string(), path: path.to_string(), is_dir: true, size: 0, category: Category::Otros }
}

fn names(v: &[FileEntry]) -> Vec<String> {
    v.iter().map(|e| e.name.clone()).collect()
}

// ───────────── categories and sizes ─────────────

#[test]
fn categories_by_extension() {
    assert_eq!(category_of("IMG_0001.JPG"), Category::Fotos);
    assert_eq!(category_of("a.b.heif"), Category::Fotos);
    assert_eq!(category_of("notes.md"), Category::Documentos);
    assert_eq!(category_of("clip.3gp"), Category::Video);
    assert_eq!(category_of("song.Opus"), Category::Audio);
    assert_eq!(category_of("archive.zip"), Category::Otros);
    assert_eq!(category_of("README"), Category::Otros);
    assert_eq!(category_of("trailing."), Category::Otros);
    assert_eq!(category_of(".jpg"), Category::Fotos);
}

#[test]
fn category_lists() {
    assert_eq!(Category::Fotos.extensions(), vec!["jpg", "jpeg", "png", "gif", "webp", "bmp", "heic", "heif"]);
    assert!(Category::Todos.extensions().is_empty());
    assert!(Category::Otros.extensions().is_empty());
    for c in Category::ALL {
        for e in c.extensions() {
            assert_eq!(category_of(&format!("x.{e}")), c);
        }
    }
    assert_eq!(Category::Documentos.label(), "Documentos");
    assert_eq!(Category::Video.icon(), "🎬");
}

#[test]
fn android_destinations() {
    assert_eq!(AndroidDest::Descargas.path(), "/sdcard/Download");
    assert_eq!(AndroidDest::Camara.path(), "/sdcard/DCIM/Camera");
    assert_eq!(AndroidDest::Actual.path(), "");
    assert_eq!(AndroidDest::Musica.label(), "🎵  Música");
    assert_eq!(AndroidDest::ALL.len(), 6);
}

#[test]
fn human_size_units() {
    assert_eq!(human_size(0), "0 B");
    assert_eq!(human_size(512), "512 B");
    assert_eq!(human_size(1023), "1023 B");
    assert_eq!(human_size(1024), "1.0 KB");
    assert_eq!(human_size(1280), "1.2 KB");
    assert_eq!(human_size(1536), "1.5 KB");
    assert_eq!(human_size(1_048_576), "1.0 MB");
    assert_eq!(human_size(5_368_709_120), "5.0 GB");
    assert_eq!(human_size(1_099_511_627_776), "1.0 TB");
    assert_eq!(human_size(u64::MAX), "16777216.0 TB");
}

fn float_size(bytes: u64) -> String {
    let units = ["B", "KB", "MB", "GB", "TB"];
    let mut value = bytes as f64;
    let mut unit = 0;
    while value >= 1024.0 && unit < units.len() - 1 {
        value /= 1024.0;
        unit += 1;
    }
    if unit == 0 {
        format!("{bytes} B")
    } else {
        format!("{value:.1} {}", units[unit])
    }
}

#[test]
fn human_size_agrees_with_float_formatting() {
    let mut samples: Vec<u64> = vec![1023, 1024, 1025, 1075, 1076, 1126, 1127, 10189, 10240, 1_048_575];
    let mut x: u64 = 1;
    for i in 0..64u32 {
        samples.push(x);
        samples.push(x.wrapping_mul(3) / 2);
        samples.push(x.wrapping_add(x / 20));
        x = x.wrapping_mul(2);
        if i % 7 == 0 {
            samples.push(u64::MAX / (i as u64 + 1));
        }
    }
    let mut s: u64 = 0x2545_f491_4f6c_dd1d;
    for _ in 0..2000 {
        s ^= s << 13;
        s ^= s >> 7;
        s ^= s << 17;
        samples.push(s >> (s % 60));
    }
    for b in samples {
        assert_eq!(human_size(b), float_size(b), "bytes = {b}");
    }
}

#[test]
fn entry_icons_and_size_labels() {
    let f = file("a.mp3", "/a.mp3", 2048);
    assert_eq!(f.icon(), "🎵");
    assert_eq!(f.size_label(), "2.0 KB");
    assert_eq!(file("b.txt", "/b.txt", 0).size_label(), "—");
    let d = dir("Music", "/Music");
    assert_eq!(d.icon(), "📁");
    assert_eq!(d.size_label(), "—");
}

// ───────────── order ─────────────

#[test]
fn sort_puts_folders_first_then_names_without_case() {
    let mut v = vec![
        file("b.txt", "/b.txt", 1),
        dir("Zeta", "/Zeta"),
        file("A.txt", "/A.txt", 1),
        dir("alpha", "/alpha"),
        file("a.txt", "/a.txt", 2),
    ];
    sort_entries(&mut v);
    assert_eq!(names(&v), vec!["alpha", "Zeta", "A.txt", "a.txt", "b.txt"]);
    // equal keys keep their order
    assert_eq!(v[2].path, "/A.txt");
    assert!(goes_after(&file("b", "/b", 0), &file("A", "/A", 0)));
    assert!(!goes_after(&dir("b", "/b"), &file("A", "/A", 0)));
    assert!(goes_after(&file("a", "/a", 0), &dir("z", "/z")));
}

// ───────────── cache ─────────────

#[test]
fn cache_stores_and_clears() {
    let mut c = ListingCache::new();
    assert!(c.get("pc:/home").is_none());
    c.insert("pc:/home".to_string(), vec![file("a.txt", "/home/a.txt", 1)]);
    c.insert("an:/sdcard".to_string(), vec![]);
    assert_eq!(names(&c.get("pc:/home").unwrap()), vec!["a.txt"]);
    c.insert("pc:/home".to_string(), vec![file("b.txt", "/home/b.txt", 1)]);
    assert_eq!(names(&c.get("pc:/home").unwrap()), vec!["b.txt"]);
    assert!(c.get("an:/sdcard").unwrap().is_empty());
    c.clear();
    assert!(c.get("pc:/home").is_none());
}

// ───────────── phone listings ─────────────

#[test]
fn ls_rows() {
    let d = parse_ls_line("drwxrwx--x 4 root sdcard_rw 3488 2024-01-01 12:00 DCIM", "/sdcard").unwrap();
    assert_eq!(d.name, "DCIM");
    assert_eq!(d.path, "/sdcard/DCIM");
    assert!(d.is_dir);
    assert_eq!(d.category, Category::Otros);
    let f = parse_ls_line("-rw-rw---- 1 u0_a1 media_rw 123456 2024-01-01 12:00 My Photo.JPG", "/sdcard/DCIM/").unwrap();
    assert_eq!(f.name, "My Photo.JPG");
    assert_eq!(f.path, "/sdcard/DCIM/My Photo.JPG");
    assert_eq!(f.size, 123456);
    assert_eq!(f.category, Category::Fotos);
    assert!(!f.is_dir);
    let l = parse_ls_line("lrwxrwxrwx 1 root root 21 2024-01-01 12:00 sdcard -> /storage/self/primary", "/").unwrap();
    assert_eq!(l.name, "sdcard");
    assert_eq!(l.path, "/sdcard");
    assert!(l.is_dir);
    let lf = parse_ls_line("lrwxrwxrwx 1 root root 21 2024-01-01 12:00 a.txt -> /x/a.txt", "/d").unwrap();
    assert!(!lf.is_dir);
    let bad_size = parse_ls_line("-rw-r--r-- 1 root root ?? 2024-01-01 12:00 x.pdf", "/d").unwrap();
    assert_eq!(bad_size.size, 0);
    assert!(parse_ls_line("total 24", "/d").is_none());
    assert!(parse_ls_line("drwxr-xr-x 2 root root 4096 2024-01-01 12:00 .", "/d").is_none());
    assert!(parse_ls_line("drwxr-xr-x 2 root root 4096 2024-01-01 12:00 .hidden", "/d").is_none());
    assert!(parse_ls_line("crw-rw-rw- 1 root root 1 2024-01-01 12:00 null", "/dev").is_none());
    assert!(parse_ls_line("-rw-r--r-- 1 root root 4096 2024-01-01", "/d").is_none());
}

#[test]
fn ls_output_and_listing() {
    let out = "total 8\ndrwxr-xr-x 2 root root 4096 2024-01-01 12:00 b\n-rw-r--r-- 1 root root 10 2024-01-01 12:00 a.txt\ndrwxr-xr-x 2 root root 4096 2024-01-01 12:00 A\n";
    assert_eq!(names(&parse_ls_output(out, "/x")), vec!["b", "a.txt", "A"]);
    let listed = list_android(Some(out), "/x").unwrap();
    assert_eq!(names(&listed), vec!["A", "b", "a.txt"]);
    assert_eq!(list_android(None, "/x").err(), Some("No se pudo listar el dispositivo".to_string()));
}

#[test]
fn shell_text_is_sanitized() {
    assert_eq!(sanitize("a\"b'c`d$e\\f;g&h|i\nj"), "abcdefghij");
    assert_eq!(sanitize("Camera Roll (1)"), "Camera Roll (1)");
    assert_eq!(list_android_command("/sdcard/"), "ls -la \"/sdcard/\"");
    assert_eq!(list_android_command("/sdcard/My$Dir"), "ls -la \"/sdcard/MyDir/\"");
    assert_eq!(list_android_command("/"), "ls -la \"/\"");
}

#[test]
fn media_index() {
    assert_eq!(MediaKind::Images.uri(), "content://media/external/images/media");
    assert_eq!(
        media_query_command(MediaKind::Audio),
        "content query --uri content://media/external/audio/media --projection _data --sort \"date_modified DESC\" 2>/dev/null"
    );
    let out = "Row: 0 _data=/storage/emulated/0/DCIM/Camera/IMG_1.jpg\nRow: 1 _data= /storage/emulated/0/Music/song.mp3 \nNo result found.\nRow: 2 _data=";
    let v = media_query(Some(out)).unwrap();
    assert_eq!(names(&v), vec!["IMG_1.jpg", "song.mp3"]);
    assert_eq!(v[0].path, "/storage/emulated/0/DCIM/Camera/IMG_1.jpg");
    assert_eq!(v[1].category, Category::Audio);
    assert_eq!(v[0].size, 0);
    assert_eq!(media_query(None).err(), Some("No se pudo leer el indice multimedia".to_string()));
    let many: String = (0..700).map(|i| format!("Row: {i} _data=/p/{i}.jpg\n")).collect();
    let v = media_query(Some(&many)).unwrap();
    assert_eq!(v.len(), MAX_RESULTS);
    assert_eq!(v[599].name, "599.jpg");
}

#[test]
fn paths_become_entries() {
    let rows: Vec<Vec<char>> = vec!["/a/b/c.pdf".chars().collect(), "   ".chars().collect(), " /x.png ".chars().collect()];
    let v = paths_to_entries(&rows);
    assert_eq!(names(&v), vec!["c.pdf", "x.png"]);
    assert_eq!(v[1].path, "/x.png");
    assert_eq!(v[0].category, Category::Documentos);
}

#[test]
fn device_search_plans() {
    assert!(matches!(search_android_plan("x", Category::Fotos), AndroidSearch::Media(MediaKind::Images)));
    assert!(matches!(search_android_plan("x", Category::Video), AndroidSearch::Media(MediaKind::Video)));
    assert!(matches!(search_android_plan("x", Category::Audio), AndroidSearch::Media(MediaKind::Audio)));
    match search_android_plan("rep;ort", Category::Todos) {
        AndroidSearch::Find(cmd) => assert_eq!(
            cmd,
            "find /sdcard -type f -iname \"*report*\" 2>/dev/null | head -n 600"
        ),
        _ => panic!("a find"),
    }
    match search_android_plan("cv", Category::Documentos) {
        AndroidSearch::Find(cmd) => assert_eq!(
            cmd,
            "find /sdcard -type f \\( -iname \"*.pdf\" -o -iname \"*.doc\" -o -iname \"*.docx\" -o -iname \"*.xls\" -o -iname \"*.xlsx\" -o -iname \"*.ppt\" -o -iname \"*.pptx\" -o -iname \"*.txt\" -o -iname \"*.md\" -o -iname \"*.csv\" -o -iname \"*.odt\" -o -iname \"*.rtf\" -o -iname \"*.epub\" \\) -iname \"*cv*\" 2>/dev/null | head -n 600"
        ),
        _ => panic!("a find"),
    }
}

#[test]
fn device_search_results() {
    let v = search_android_find(Some("/sdcard/a.txt\n\n/sdcard/b/c.md")).unwrap();
    assert_eq!(names(&v), vec!["a.txt", "c.md"]);
    assert_eq!(search_android_find(None).err(), Some("La busqueda falló".to_string()));
    let found = vec![file("Beach.JPG", "/p/Beach.JPG", 0), file("city.jpg", "/p/city.jpg", 0)];
    let kept = search_android_media(Ok(found), "BEA").unwrap();
    assert_eq!(names(&kept), vec!["Beach.JPG"]);
    let all = search_android_media(Ok(vec![file("x.jpg", "/x.jpg", 0)]), "").unwrap();
    assert_eq!(all.len(), 1);
    assert_eq!(search_android_media(Err("boom".to_string()), "a").err(), Some("boom".to_string()));
    let kept = retain_named(vec![file("ÁRBOL.png", "/a", 0), file("b.png", "/b", 0)], &['á']);
    assert_eq!(names(&kept), vec!["ÁRBOL.png"]);
}

// ───────────── computer listings ─────────────

fn raw(name: &str, is_dir: bool, size: u64) -> RawEntry {
    RawEntry { name: name.to_string(), path: format!("/h/{name}"), is_dir, size }
}

#[test]
fn computer_listing() {
    let v = list_pc(Ok(vec![raw("b.mp4", false, 5), raw(".git", true, 0), raw("Docs", true, 0), raw("a.png", false, 3)])).unwrap();
    assert_eq!(names(&v), vec!["Docs", "a.png", "b.mp4"]);
    assert_eq!(v[0].category, Category::Otros);
    assert_eq!(v[1].category, Category::Fotos);
    assert_eq!(v[2].size, 5);
    assert_eq!(list_pc(Err("denied".to_string())).err(), Some("No se pudo leer: denied".to_string()));
}

fn item(name: &str, meta: Option<(bool, u64)>) -> SearchItem {
    SearchItem { name: name.to_string(), path: format!("/r/{name}"), meta }
}

#[test]
fn computer_search_walks_folders() {
    let mut s = PcSearch::new("/r".to_string(), "Rep", Category::Todos);
    assert_eq!(s.next_dir(), Some("/r".to_string()));
    s.visit(vec![
        item("Report.PDF", Some((false, 10))),
        item("sub", Some((true, 0))),
        item("node_modules", Some((true, 0))),
        item(".report", Some((false, 1))),
        item("other.txt", Some((false, 1))),
        item("report2.txt", None),
    ]);
    assert_eq!(s.next_dir(), Some("/r/sub".to_string()));
    s.visit(vec![item("old_report.txt", Some((false, 2)))]);
    assert_eq!(s.next_dir(), None);
    let out = s.finish();
    assert_eq!(names(&out), vec!["old_report.txt", "Report.PDF"]);
    assert_eq!(out[1].category, Category::Documentos);
}

#[test]
fn computer_search_by_category_and_limit() {
    let mut s = PcSearch::new("/r".to_string(), "", Category::Audio);
    s.next_dir();
    s.visit(vec![item("a.mp3", Some((false, 1))), item("b.txt", Some((false, 1)))]);
    assert_eq!(names(&s.finish()), vec!["a.mp3"]);

    let mut s = PcSearch::new("/r".to_string(), "", Category::Todos);
    s.next_dir();
    let many: Vec<SearchItem> = (0..650).map(|i| item(&format!("f{i:03}.txt"), Some((false, 1)))).collect();
    let mut many = many;
    many.insert(10, item("later", Some((true, 0))));
    s.visit(many);
    assert_eq!(s.out.len(), MAX_RESULTS);
    assert_eq!(s.next_dir(), None);
    assert!(s.done);
    assert_eq!(s.finish().len(), MAX_RESULTS);
}

// ───────────── workers ─────────────

#[test]
fn worker_reports() {
    match listing_event(7, Some("pc:/h".to_string()), Ok(vec![file("a", "/a", 0)])) {
        Event::Result { token, key, entries } => {
            assert_eq!(token, 7);
            assert_eq!(key, Some("pc:/h".to_string()));
            assert_eq!(entries.len(), 1);
        }
        _ => panic!("a result"),
    }
    match listing_event(8, None, Err("x".to_string())) {
        Event::Failed { token, message } => {
            assert_eq!(token, 8);
            assert_eq!(message, "x");
        }
        _ => panic!("a failure"),
    }
    assert!(matches!(copy_done(3, true, true), Event::TransferDone(3, Ok(()))));
    assert!(matches!(copy_done(3, true, false), Event::TransferDone(3, Err(m)) if m == "adb push falló"));
    assert!(matches!(copy_done(4, false, false), Event::TransferDone(4, Err(m)) if m == "adb pull falló"));
}

#[test]
fn copy_arguments() {
    let push = Job::Push { index: 0, serial: "s".to_string(), src: "/h/a.txt".to_string(), dst: "/sdcard/Download".to_string() };
    assert_eq!(copy_args(&push), Some(vec!["-s".to_string(), "s".to_string(), "push".to_string(), "/h/a.txt".to_string(), "/sdcard/Download".to_string()]));
    let pull = Job::Pull { index: 1, serial: "s".to_string(), src: "/sdcard/a.jpg".to_string(), dst: "/h/Downloads/TransFEL".to_string() };
    assert_eq!(copy_args(&pull).unwrap()[2], "pull");
    assert_eq!(copy_args(&Job::ListPc("/h".to_string())), None);
}

#[test]
fn transfer_state_values() {
    let t = TransferState::Error("x".to_string());
    assert!(matches!(t, TransferState::Error(ref m) if m == "x"));
    let _ = (Side::Pc, Scope::Carpeta);
}
