use transfel::files::entry::FileEntry;
use transfel::files::kinds::{category_of, AndroidDest, Category, Scope, Side};
use transfel::files::listing::MediaKind;
use transfel::files::manager::{
    android_shortcuts, default_pc_dest, pc_shortcuts, FileManager, PickedFile, Target, DEBOUNCE_MS,
};
use transfel::files::tray::{Dispatch, Event, Job, TransferState};

fn file(name: &str, path: &str) -> FileEntry {
    FileEntry { name: name.to_string(), path: path.to_string(), is_dir: false, size: 10, category: category_of(name) }
}

fn dir(name: &str, path: &str) -> FileEntry {
    FileEntry { name: name.to_string(), path: path.to_string(), is_dir: true, size: 0, category: Category::Otros }
}

fn names(v: &[&FileEntry]) -> Vec<String> {
    v.iter().map(|e| e.name.clone()).collect()
}

fn fresh() -> FileManager {
    let mut fm = FileManager::new("/home/u".to_string());
    fm.take_jobs();
    fm
}

fn only_job(fm: &mut FileManager) -> Dispatch {
    let mut jobs = fm.take_jobs();
    assert_eq!(jobs.len(), 1);
    jobs.remove(0)
}

#[test]
fn starts_on_the_computer_at_home() {
    let mut fm = FileManager::new("/home/u".to_string());
    assert_eq!(fm.side, Side::Pc);
    assert_eq!(fm.category, Category::Todos);
    assert_eq!(fm.scope, Scope::Carpeta);
    assert_eq!(fm.pc_path, "/home/u");
    assert_eq!(fm.android_path, "/sdcard");
    assert_eq!(fm.pc_dest, "/home/u/Downloads/TransFEL");
    assert_eq!(fm.android_dest, AndroidDest::Descargas);
    assert!(fm.loading);
    assert_eq!(fm.key(), "pc:/home/u");
    let d = only_job(&mut fm);
    assert_eq!(d.token, 1);
    assert_eq!(d.key, Some("pc:/home/u".to_string()));
    assert!(matches!(d.job, Job::ListPc(ref p) if p == "/home/u"));
    assert_eq!(default_pc_dest("/x"), "/x/Downloads/TransFEL");
}

#[test]
fn listing_answer_is_shown_and_cached() {
    let mut fm = FileManager::new("/home/u".to_string());
    let d = only_job(&mut fm);
    fm.poll(0, None, vec![Event::Result { token: d.token, key: d.key.clone(), entries: vec![file("a.txt", "/home/u/a.txt")] }]);
    assert!(!fm.loading);
    assert_eq!(fm.entries.len(), 1);
    // coming back shows the cached listing at once
    fm.enter(&dir("Docs", "/home/u/Docs"), None);
    assert!(fm.loading);
    assert!(fm.entries.is_empty());
    fm.go_up(None);
    assert_eq!(fm.pc_path, "/home/u");
    assert!(!fm.loading);
    assert_eq!(fm.entries[0].name, "a.txt");
}

#[test]
fn stale_answers_are_dropped() {
    let mut fm = fresh();
    fm.reload(None);
    fm.reload(None);
    let jobs = fm.take_jobs();
    assert_eq!(jobs.len(), 2);
    fm.poll(0, None, vec![
        Event::Result { token: jobs[0].token, key: None, entries: vec![file("old.txt", "/old.txt")] },
        Event::Failed { token: jobs[0].token, message: "old".to_string() },
    ]);
    assert!(fm.entries.is_empty());
    assert!(fm.loading);
    assert_eq!(fm.error, None);
    fm.poll(0, None, vec![Event::Failed { token: jobs[1].token, message: "No se pudo leer: x".to_string() }]);
    assert!(!fm.loading);
    assert_eq!(fm.error, Some("No se pudo leer: x".to_string()));
}

#[test]
fn phone_side_needs_a_device() {
    let mut fm = fresh();
    fm.switch_side(Side::Android, None);
    assert_eq!(fm.side, Side::Android);
    assert_eq!(fm.error, Some("Sin dispositivo".to_string()));
    assert!(!fm.loading);
    assert!(fm.take_jobs().is_empty());
    fm.reload(Some("abc"));
    let d = only_job(&mut fm);
    assert!(matches!(d.job, Job::ListAndroid { ref serial, ref path } if serial == "abc" && path == "/sdcard"));
    assert_eq!(d.key, Some("an:/sdcard".to_string()));
    // switching to the side already shown does nothing
    fm.switch_side(Side::Android, Some("abc"));
    assert!(fm.take_jobs().is_empty());
}

#[test]
fn phone_navigation() {
    let mut fm = fresh();
    fm.switch_side(Side::Android, Some("s"));
    fm.enter(&dir("DCIM", "/sdcard/DCIM"), Some("s"));
    assert_eq!(fm.android_path, "/sdcard/DCIM");
    fm.go_up(Some("s"));
    assert_eq!(fm.android_path, "/sdcard");
    fm.go_up(Some("s"));
    assert_eq!(fm.android_path, "/");
    fm.go_up(Some("s"));
    assert_eq!(fm.android_path, "/");
    fm.enter(&dir("x", "relative"), Some("s"));
    fm.go_up(Some("s"));
    assert_eq!(fm.android_path, "/");
    fm.enter(&dir("x", "/a/b/"), Some("s"));
    fm.go_up(Some("s"));
    assert_eq!(fm.android_path, "/a/b");
    fm.go_home(Some("s"));
    assert_eq!(fm.android_path, "/sdcard");
    assert_eq!(fm.current_path_label(), "/sdcard");
}

#[test]
fn computer_navigation() {
    let mut fm = fresh();
    fm.go_up(None);
    assert_eq!(fm.pc_path, "/home");
    fm.go_up(None);
    fm.go_up(None);
    assert_eq!(fm.pc_path, "/");
    fm.go_home(None);
    assert_eq!(fm.pc_path, "/home/u");
    assert_eq!(fm.current_path_label(), "/home/u");
}

#[test]
fn shortcuts() {
    let a = android_shortcuts();
    assert_eq!(a.len(), 6);
    assert_eq!(a[0].label, "Camara");
    assert!(matches!(a[1].target, Target::Media(MediaKind::Images)));
    let p = pc_shortcuts();
    assert_eq!(p.len(), 4);
    assert!(matches!(p[3].target, Target::Dir("Pictures")));

    let mut fm = fresh();
    fm.search = "abc".to_string();
    fm.open_shortcut(&p[0], None);
    assert_eq!(fm.pc_path, "/home/u/Downloads");
    assert_eq!(fm.search, "");
    fm.switch_side(Side::Android, Some("s"));
    fm.take_jobs();
    fm.open_shortcut(&a[0], Some("s"));
    assert_eq!(fm.android_path, "/sdcard/DCIM/Camera");
    fm.take_jobs();
    fm.open_shortcut(&a[1], None);
    assert!(fm.take_jobs().is_empty());
    fm.open_shortcut(&a[1], Some("s"));
    assert_eq!(fm.current_path_label(), "Galeria (indice del sistema)");
    assert!(fm.loading);
    let d = only_job(&mut fm);
    assert!(matches!(d.job, Job::MediaAndroid { ref serial, kind: MediaKind::Images } if serial == "s"));
    assert_eq!(d.key, None);
}

#[test]
fn filters() {
    let mut fm = fresh();
    fm.entries = vec![
        dir("Fotos", "/h/Fotos"),
        file("Beach.JPG", "/h/Beach.JPG"),
        file("notes.txt", "/h/notes.txt"),
        file("beach.mp3", "/h/beach.mp3"),
    ];
    assert_eq!(names(&fm.visible()), vec!["Fotos", "Beach.JPG", "notes.txt", "beach.mp3"]);
    assert!(!fm.filters_active());
    fm.search = "BEA".to_string();
    assert_eq!(names(&fm.visible()), vec!["Beach.JPG", "beach.mp3"]);
    fm.category = Category::Fotos;
    assert_eq!(names(&fm.visible()), vec!["Beach.JPG"]);
    assert_eq!(fm.filter_summary(), (1, 4));
    assert!(fm.filters_active());
    fm.search = "   ".to_string();
    fm.category = Category::Todos;
    assert!(!fm.filters_active());
    // in device scope the search text does not filter the listing
    fm.search = "zzz".to_string();
    fm.set_scope(Scope::Dispositivo, None, 0);
    assert_eq!(fm.visible().len(), 4);
    fm.category = Category::Audio;
    fm.clear_filters(None);
    assert_eq!(fm.category, Category::Todos);
    assert_eq!(fm.search, "");
    assert_eq!(fm.scope, Scope::Carpeta);
    assert_eq!(fm.visible().len(), 0);
}

#[test]
fn device_search_waits_for_typing_to_stop() {
    let mut fm = fresh();
    fm.on_search_changed(5);
    assert_eq!(fm.pending_search, None);
    fm.set_scope(Scope::Dispositivo, None, 100);
    assert_eq!(fm.pending_search, Some(100));
    fm.search = " inv ".to_string();
    fm.on_search_changed(200);
    fm.poll(200 + DEBOUNCE_MS - 1, None, vec![]);
    assert!(fm.take_jobs().is_empty());
    fm.poll(200 + DEBOUNCE_MS, None, vec![]);
    assert_eq!(fm.pending_search, None);
    let d = only_job(&mut fm);
    assert!(matches!(d.job, Job::SearchPc { ref root, ref query, category: Category::Todos } if root == "/home/u" && query == "inv"));
    assert_eq!(fm.current_path_label(), "Busqueda global: \"inv\"");
    assert_eq!(fm.last_query, "inv");
}

#[test]
fn short_searches_need_a_category() {
    let mut fm = fresh();
    fm.set_scope(Scope::Dispositivo, None, 0);
    fm.search = "a".to_string();
    fm.poll(1000, None, vec![]);
    assert!(fm.take_jobs().is_empty());
    fm.search = "é".to_string();
    fm.on_search_changed(1000);
    fm.poll(2000, None, vec![]);
    assert_eq!(fm.take_jobs().len(), 1);
    fm.search = "".to_string();
    fm.category = Category::Video;
    fm.on_search_changed(3000);
    fm.switch_side(Side::Android, None);
    fm.set_scope(Scope::Dispositivo, None, 3000);
    fm.take_jobs();
    fm.poll(4000, Some("s"), vec![]);
    let d = only_job(&mut fm);
    assert!(matches!(d.job, Job::SearchAndroid { ref serial, ref query, category: Category::Video } if serial == "s" && query == ""));
}

#[test]
fn tray_is_one_directional() {
    let mut fm = fresh();
    assert_eq!(fm.transfer_label(), "Selecciona archivos");
    assert_eq!(fm.tray_origin(), None);
    assert_eq!(fm.tray_destination(), None);
    fm.stage(&file("a.txt", "/h/a.txt"));
    fm.stage(&file("a.txt", "/h/a.txt"));
    fm.stage(&dir("D", "/h/D"));
    assert_eq!(fm.staged.len(), 1);
    assert!(fm.is_staged("/h/a.txt"));
    assert_eq!(fm.tray_origin(), Some(Side::Pc));
    assert_eq!(fm.tray_destination(), Some(Side::Android));
    assert_eq!(fm.transfer_label(), "➡   Enviar 1 al celular");
    fm.switch_side(Side::Android, Some("s"));
    fm.stage(&file("p.jpg", "/sdcard/p.jpg"));
    assert_eq!(fm.staged.len(), 1);
    assert_eq!(
        fm.notice,
        Some("La bandeja ya tiene archivos del otro dispositivo. Transfierelos o vaciala primero.".to_string())
    );
    fm.clear_tray();
    assert!(fm.staged.is_empty());
    assert_eq!(fm.notice, None);
    fm.stage(&file("p.jpg", "/sdcard/p.jpg"));
    fm.stage(&file("q.jpg", "/sdcard/q.jpg"));
    assert_eq!(fm.transfer_label(), "⬅   Traer 2 al PC");
    assert_eq!(fm.tray_destination(), Some(Side::Pc));
    fm.unstage("/sdcard/p.jpg");
    assert_eq!(fm.staged.len(), 1);
    assert!(!fm.is_staged("/sdcard/p.jpg"));
    // the computer's dialog is refused while the tray holds phone files
    assert!(!fm.dialog_allowed());
    assert_eq!(
        fm.notice,
        Some("La bandeja tiene archivos del celular. Vacíala para cargar desde el PC.".to_string())
    );
    fm.notice = None;
    fm.stage_from_dialog(vec![PickedFile { name: "x.pdf".to_string(), path: "/h/x.pdf".to_string(), size: 1 }]);
    assert_eq!(fm.staged.len(), 1);
    assert_eq!(
        fm.notice,
        Some("La bandeja tiene archivos del celular. Vacíala para cargar desde el PC.".to_string())
    );
}

#[test]
fn stage_all_visible_files() {
    let mut fm = fresh();
    fm.entries = vec![dir("D", "/h/D"), file("a.txt", "/h/a.txt"), file("b.mp3", "/h/b.mp3")];
    fm.search = "a".to_string();
    fm.stage_all_visible();
    assert_eq!(fm.staged.len(), 1);
    fm.search = String::new();
    fm.stage_all_visible();
    let paths: Vec<&str> = fm.staged.iter().map(|s| s.path.as_str()).collect();
    assert_eq!(paths, vec!["/h/a.txt", "/h/b.mp3"]);
}

#[test]
fn dialog_files_join_the_tray() {
    let mut fm = fresh();
    assert!(fm.dialog_allowed());
    fm.stage(&file("a.txt", "/h/a.txt"));
    fm.stage_from_dialog(vec![
        PickedFile { name: "a.txt".to_string(), path: "/h/a.txt".to_string(), size: 1 },
        PickedFile { name: "song.flac".to_string(), path: "/h/song.flac".to_string(), size: 99 },
        PickedFile { name: "song.flac".to_string(), path: "/h/song.flac".to_string(), size: 99 },
    ]);
    assert_eq!(fm.staged.len(), 2);
    assert_eq!(fm.staged[1].category, Category::Audio);
    assert_eq!(fm.staged[1].origin, Side::Pc);
    assert_eq!(fm.staged[1].size, 99);
}

#[test]
fn sending_the_tray() {
    let mut fm = fresh();
    fm.stage(&file("a.txt", "/h/a.txt"));
    fm.stage(&file("b.txt", "/h/b.txt"));
    fm.android_dest = AndroidDest::Actual;
    fm.android_path = "/sdcard/Docs/".to_string();
    fm.transfer_staged("s");
    assert!(fm.staged.is_empty());
    assert_eq!(fm.transfers.len(), 2);
    assert_eq!(fm.transfers[1].name, "b.txt");
    assert_eq!(fm.transfers[1].direction, Side::Android);
    assert!(fm.transfers[0].state == TransferState::Pendiente);
    assert_eq!(fm.active_transfers(), 2);
    let jobs = fm.take_jobs();
    assert_eq!(jobs.len(), 2);
    assert!(matches!(jobs[1].job, Job::Push { index: 1, ref serial, ref src, ref dst } if serial == "s" && src == "/h/b.txt" && dst == "/sdcard/Docs"));
    assert_eq!(jobs[1].token, 0);

    fm.poll(0, None, vec![Event::TransferStarted(0), Event::TransferDone(0, Ok(()))]);
    assert!(fm.transfers[0].state == TransferState::Listo);
    assert_eq!(fm.active_transfers(), 1);
    assert!(fm.take_jobs().is_empty());
    fm.poll(0, None, vec![Event::TransferDone(1, Err("adb push falló".to_string())), Event::TransferStarted(9)]);
    assert!(fm.transfers[1].state == TransferState::Error("adb push falló".to_string()));
    assert_eq!(fm.active_transfers(), 0);
    // once nothing is active the folder is read again
    assert_eq!(fm.take_jobs().len(), 1);
}

#[test]
fn pulling_from_the_phone() {
    let mut fm = fresh();
    fm.switch_side(Side::Android, Some("s"));
    fm.take_jobs();
    fm.stage(&file("p.jpg", "/sdcard/DCIM/p.jpg"));
    fm.pc_dest = "/dest".to_string();
    fm.transfer_staged("s");
    let jobs = fm.take_jobs();
    assert!(matches!(jobs[0].job, Job::Pull { index: 0, ref src, ref dst, .. } if src == "/sdcard/DCIM/p.jpg" && dst == "/dest"));
    assert_eq!(fm.transfers[0].direction, Side::Pc);
}

#[test]
fn invalidate_forgets_cached_listings() {
    let mut fm = FileManager::new("/home/u".to_string());
    let d = only_job(&mut fm);
    fm.poll(0, None, vec![Event::Result { token: d.token, key: d.key, entries: vec![file("a", "/a")] }]);
    fm.invalidate();
    fm.reload(None);
    assert!(fm.entries.is_empty());
    assert!(fm.loading);
}
