//! The library against small std-only oracles, on many generated inputs.

use transfel::device::{parse_resolution, DeviceInfo};
use transfel::files::entry::FileEntry;
use transfel::files::kinds::{category_of, Category};
use transfel::files::listing::{media_query, parse_ls_line, sanitize};
use transfel::files::order::sort_entries;
use transfel::ui::short_path;
use transfel::wifi::{device_ip_from_addr, device_ip_from_route, first_line, normalize, valid_ip};

struct Gen(u64);

impl Gen {
    fn next(&mut self) -> u64 {
        self.0 ^= self.0 << 13;
        self.0 ^= self.0 >> 7;
        self.0 ^= self.0 << 17;
        self.0
    }
    fn pick<'a>(&mut self, xs: &[&'a str]) -> &'a str {
        xs[(self.next() % xs.len() as u64) as usize]
    }
    fn text(&mut self, alphabet: &[&str], max: u64) -> String {
        let n = self.next() % (max + 1);
        (0..n).map(|_| self.pick(alphabet)).collect()
    }
}

fn oracle_category(name: &str) -> Category {
    let ext = name.rsplit_once('.').map(|(_, e)| e.to_ascii_lowercase());
    match ext.as_deref() {
        Some("jpg" | "jpeg" | "png" | "gif" | "webp" | "bmp" | "heic" | "heif") => Category::Fotos,
        Some(
            "pdf" | "doc" | "docx" | "xls" | "xlsx" | "ppt" | "pptx" | "txt" | "md" | "csv" | "odt"
            | "rtf" | "epub",
        ) => Category::Documentos,
        Some("mp4" | "mkv" | "avi" | "mov" | "webm" | "3gp") => Category::Video,
        Some("mp3" | "wav" | "flac" | "ogg" | "m4a" | "aac" | "opus") => Category::Audio,
        _ => Category::Otros,
    }
}

fn oracle_ls(line: &str, base: &str) -> Option<(String, String, bool, u64, Category)> {
    let parts: Vec<&str> = line.split_whitespace().collect();
    if parts.len() < 8 {
        return None;
    }
    let perms = parts[0];
    if !(perms.starts_with('-') || perms.starts_with('d') || perms.starts_with('l')) {
        return None;
    }
    let is_link = perms.starts_with('l');
    let mut is_dir = perms.starts_with('d');
    let size = parts[4].parse::<u64>().unwrap_or(0);
    let raw = parts[7..].join(" ");
    let name = raw.split(" -> ").next().unwrap_or(&raw);
    let name = name.rsplit('/').next().unwrap_or(name).to_string();
    if name.is_empty() || name == "." || name == ".." || name.starts_with('.') {
        return None;
    }
    if is_link && !name.contains('.') {
        is_dir = true;
    }
    let path = if base == "/" { format!("/{name}") } else { format!("{}/{}", base.trim_end_matches('/'), name) };
    let category = if is_dir { Category::Otros } else { oracle_category(&name) };
    Some((name, path, is_dir, size, category))
}

#[test]
fn categories_match_the_oracle() {
    let mut g = Gen(0x9e37_79b9_7f4a_7c15);
    let parts = ["a", ".", "JPG", "jpg", "Mp4", "x", "tar", "gz", "opus", "md", "", "Ñ", "3gp"];
    for _ in 0..3000 {
        let name = g.text(&parts, 6);
        assert_eq!(category_of(&name), oracle_category(&name), "{name:?}");
    }
}

#[test]
fn ls_rows_match_the_oracle() {
    let mut g = Gen(0x1234_5678_9abc_def1);
    let perms = ["drwxr-xr-x", "-rw-r--r--", "lrwxrwxrwx", "crw-------", "x", "d", "-"];
    let sizes = ["0", "4096", "12", "abc", "18446744073709551615", "18446744073709551616", "+7"];
    let names = ["DCIM", "a.jpg", ".hidden", "My File.txt", "link -> /x/y", "..", ".", "dir/", "a -> b.c", "Música"];
    let bases = ["/", "/sdcard", "/sdcard/", "/a//", ""];
    for _ in 0..3000 {
        let cols = g.next() % 10;
        let mut fields: Vec<String> = vec![g.pick(&perms).to_string()];
        for k in 1..cols {
            fields.push(match k {
                4 => g.pick(&sizes).to_string(),
                7 => g.pick(&names).to_string(),
                _ => g.pick(&["1", "root", "sdcard_rw", "2024-01-01", "12:00", "x y"]).to_string(),
            });
        }
        let sep = g.pick(&[" ", "  ", "\t"]);
        let line = fields.join(sep);
        let base = g.pick(&bases);
        let mine = parse_ls_line(&line, base).map(|e| (e.name, e.path, e.is_dir, e.size, e.category));
        assert_eq!(mine, oracle_ls(&line, base), "{line:?} in {base:?}");
    }
}

#[test]
fn sanitize_matches_the_oracle() {
    let mut g = Gen(42);
    let chars = ["a", "\"", "'", "`", "$", "\\", ";", "&", "|", "\n", " ", "ñ", "(", "*"];
    for _ in 0..2000 {
        let s = g.text(&chars, 12);
        let expected: String =
            s.chars().filter(|c| !matches!(c, '"' | '\'' | '`' | '$' | '\\' | ';' | '&' | '|' | '\n')).collect();
        assert_eq!(sanitize(&s), expected);
    }
}

#[test]
fn addresses_match_the_oracle() {
    let mut g = Gen(7);
    let parts = ["1", "127", "255", "256", "0", ".", ".", "x", "", "001", "+1", " "];
    for _ in 0..3000 {
        let ip = g.text(&parts, 8);
        let ps: Vec<&str> = ip.split('.').collect();
        let expected = ps.len() == 4 && ps.iter().all(|p| p.parse::<u8>().is_ok()) && !ip.starts_with("127.");
        assert_eq!(valid_ip(&ip), expected, "{ip:?}");
        let a = ip.trim();
        let norm = if a.contains(':') { a.to_string() } else { format!("{a}:5555") };
        assert_eq!(normalize(&ip), norm);
    }
}

#[test]
fn interface_and_route_readers_match_the_oracle() {
    let mut g = Gen(99);
    let words = ["inet", "src", "192.168.1.5/24", "10.0.0.7", "127.0.0.1", "dev", "wlan0", " ", "\n", "x/y", "1.2.3.4"];
    for _ in 0..3000 {
        let out = g.text(&words, 10);
        let expected_addr = out
            .split_whitespace()
            .skip_while(|t| *t != "inet")
            .nth(1)
            .and_then(|cidr| cidr.split('/').next())
            .filter(|ip| valid_ip(ip))
            .map(|s| s.to_string());
        assert_eq!(device_ip_from_addr(&out), expected_addr, "{out:?}");
        let expected_route = out.lines().find_map(|line| {
            line.split_whitespace()
                .skip_while(|t| *t != "src")
                .nth(1)
                .filter(|ip| valid_ip(ip))
                .map(|s| s.to_string())
        });
        assert_eq!(device_ip_from_route(&out), expected_route, "{out:?}");
    }
}

#[test]
fn first_lines_and_resolutions_match_the_oracle() {
    let mut g = Gen(5);
    let parts = ["1080", "x", " ", "\n", "\r\n", "2400", "+", "-", "a", "\t", "18446744073709551616"];
    for _ in 0..3000 {
        let s = g.text(&parts, 6);
        assert_eq!(first_line(&s), s.lines().next().unwrap_or(&s).trim());
        let expected = s.trim().split_once('x').and_then(|(w, h)| {
            Some((w.trim().parse::<usize>().ok()?, h.trim().parse::<usize>().ok()?))
        });
        assert_eq!(parse_resolution(&s), expected, "{s:?}");
    }
}

#[test]
fn device_lists_match_the_oracle() {
    let mut g = Gen(11);
    let parts = ["List of devices attached", "\n", "abc", "\t", "device", "offline", " ", "1.2.3.4:5555", "unauthorized"];
    for _ in 0..2000 {
        let list = g.text(&parts, 10);
        let expected = list
            .lines()
            .skip(1)
            .filter_map(|line| {
                let mut p = line.split_whitespace();
                let serial = p.next()?;
                let state = p.next()?;
                if state == "device" { Some(serial.to_string()) } else { None }
            })
            .next()
            .ok_or_else(|| "Conecta tu dispositivo Android".to_string());
        assert_eq!(DeviceInfo::detect(Some(&list)), expected, "{list:?}");
    }
}

#[test]
fn media_rows_match_the_oracle() {
    let mut g = Gen(13);
    let parts = ["Row: 0 ", "_data=", "/sdcard/a.jpg", " ", "\n", "/x/", "b.MP3", "_data"];
    for _ in 0..2000 {
        let out = g.text(&parts, 10);
        let expected: Vec<(String, String)> = out
            .lines()
            .filter_map(|line| line.split("_data=").nth(1).map(|p| p.trim()))
            .map(|p| p.trim())
            .filter(|p| !p.is_empty())
            .map(|p| (p.rsplit('/').next().unwrap_or(p).to_string(), p.to_string()))
            .collect();
        let mine: Vec<(String, String)> =
            media_query(Some(&out)).unwrap().into_iter().map(|e| (e.name, e.path)).collect();
        assert_eq!(mine, expected, "{out:?}");
    }
}

#[test]
fn short_paths_match_the_oracle() {
    let mut g = Gen(17);
    let parts = ["/", "\\", "sdcard", "DCIM", "Camera", "IMG_20240101_123456.jpg", "ñ", "C:"];
    for _ in 0..2000 {
        let path = g.text(&parts, 12);
        let expected = if path.len() <= 52 {
            path.clone()
        } else {
            let sep = if path.contains('\\') { '\\' } else { '/' };
            let ps: Vec<&str> = path.split(sep).collect();
            if ps.len() < 4 { path.clone() } else { format!("{}{sep}...{sep}{}", ps[0], ps[ps.len() - 1]) }
        };
        assert_eq!(short_path(&path), expected, "{path:?}");
    }
}

#[test]
fn listing_order_matches_the_oracle() {
    let mut g = Gen(23);
    let names = ["a", "B", "b", "Ä", "ä", "z", "_x", "10", "9", "é", "E"];
    for _ in 0..500 {
        let n = g.next() % 12;
        let mut v: Vec<FileEntry> = (0..n)
            .map(|i| FileEntry {
                name: g.text(&names, 3),
                path: format!("/p/{i}"),
                is_dir: g.next() % 3 == 0,
                size: 0,
                category: Category::Otros,
            })
            .collect();
        let mut expected: Vec<(bool, String, String)> = v.iter().map(|e| (e.is_dir, e.name.clone(), e.path.clone())).collect();
        expected.sort_by(|a, b| b.0.cmp(&a.0).then_with(|| a.1.to_lowercase().cmp(&b.1.to_lowercase())));
        sort_entries(&mut v);
        let mine: Vec<(bool, String, String)> = v.iter().map(|e| (e.is_dir, e.name.clone(), e.path.clone())).collect();
        assert_eq!(mine, expected);
    }
}
