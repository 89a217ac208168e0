//! Sides, scopes, file categories, phone destinations and size labels.

use vstd::prelude::*;
use crate::text::{
    ascii_lower, chars_eq, chars_of, dec, digit_char, last_index_of, push_dec, rfind_char,
    slice_chars, to_ascii_lower,
};
use vstd::arithmetic::power::pow;
use vstd::arithmetic::power2::pow2;

verus! {

/// Which machine a file lives on.
#[derive(Clone, Copy, PartialEq, Eq, Structural, Debug)]
pub enum Side {
    Pc,
    Android,
}

/// Where a search looks: the open folder or the whole device.
#[derive(Clone, Copy, PartialEq, Eq, Structural, Debug)]
pub enum Scope {
    Carpeta,
    Dispositivo,
}

/// Kind of file, told by its extension.
#[derive(Clone, Copy, PartialEq, Eq, Structural, Debug)]
pub enum Category {
    Todos,
    Fotos,
    Documentos,
    Video,
    Audio,
    Otros,
}

/// The side opposite to `s`.
pub open spec fn other_side(s: Side) -> Side {
    match s {
        Side::Pc => Side::Android,
        Side::Android => Side::Pc,
    }
}

pub open spec fn category_label(c: Category) -> Seq<char> {
    match c {
        Category::Todos => "Todos"@,
        Category::Fotos => "Fotos"@,
        Category::Documentos => "Documentos"@,
        Category::Video => "Video"@,
        Category::Audio => "Audio"@,
        Category::Otros => "Otros"@,
    }
}

pub open spec fn category_icon(c: Category) -> Seq<char> {
    match c {
        Category::Todos => "▤"@,
        Category::Fotos => "🖼"@,
        Category::Documentos => "📄"@,
        Category::Video => "🎬"@,
        Category::Audio => "🎵"@,
        Category::Otros => "◻"@,
    }
}

/// The extensions (lower case, without the dot) that make up a category.
pub open spec fn category_extensions(c: Category) -> Seq<Seq<char>> {
    match c {
        Category::Fotos => seq!["jpg"@, "jpeg"@, "png"@, "gif"@, "webp"@, "bmp"@, "heic"@, "heif"@],
        Category::Documentos => seq![
            "pdf"@, "doc"@, "docx"@, "xls"@, "xlsx"@, "ppt"@, "pptx"@, "txt"@, "md"@, "csv"@,
            "odt"@, "rtf"@, "epub"@,
        ],
        Category::Video => seq!["mp4"@, "mkv"@, "avi"@, "mov"@, "webm"@, "3gp"@],
        Category::Audio => seq!["mp3"@, "wav"@, "flac"@, "ogg"@, "m4a"@, "aac"@, "opus"@],
        _ => seq![],
    }
}

/// The category of a lower-case extension.
pub open spec fn ext_category(ext: Seq<char>) -> Category {
    if category_extensions(Category::Fotos).contains(ext) {
        Category::Fotos
    } else if category_extensions(Category::Documentos).contains(ext) {
        Category::Documentos
    } else if category_extensions(Category::Video).contains(ext) {
        Category::Video
    } else if category_extensions(Category::Audio).contains(ext) {
        Category::Audio
    } else {
        Category::Otros
    }
}

/// The category of a file name: that of the text after its last dot, taken
/// in ASCII lower case; `Otros` for a name without a dot.
pub open spec fn name_category(name: Seq<char>) -> Category {
    match last_index_of(name, '.') {
        Some(i) => ext_category(ascii_lower(name.skip(i + 1))),
        None => Category::Otros,
    }
}

impl Category {
    pub const ALL: [Category; 6] = [
        Category::Todos,
        Category::Fotos,
        Category::Documentos,
        Category::Video,
        Category::Audio,
        Category::Otros,
    ];

    pub fn label(self) -> (r: &'static str)
        ensures
            r@ == category_label(self),
    {
        match self {
            Category::Todos => "Todos",
            Category::Fotos => "Fotos",
            Category::Documentos => "Documentos",
            Category::Video => "Video",
            Category::Audio => "Audio",
            Category::Otros => "Otros",
        }
    }

    pub fn icon(self) -> (r: &'static str)
        ensures
            r@ == category_icon(self),
    {
        match self {
            Category::Todos => "▤",
            Category::Fotos => "🖼",
            Category::Documentos => "📄",
            Category::Video => "🎬",
            Category::Audio => "🎵",
            Category::Otros => "◻",
        }
    }

    /// Extensions that make up the category, for the device-wide `find`.
    pub fn extensions(self) -> (r: Vec<&'static str>)
        ensures
            r@.map_values(|e: &str| e@) == category_extensions(self),
    {
        let r: Vec<&'static str> = match self {
            Category::Fotos => vec!["jpg", "jpeg", "png", "gif", "webp", "bmp", "heic", "heif"],
            Category::Documentos => vec![
                "pdf", "doc", "docx", "xls", "xlsx", "ppt", "pptx", "txt", "md", "csv", "odt",
                "rtf", "epub",
            ],
            Category::Video => vec!["mp4", "mkv", "avi", "mov", "webm", "3gp"],
            Category::Audio => vec!["mp3", "wav", "flac", "ogg", "m4a", "aac", "opus"],
            _ => vec![],
        };
        assert(r@.map_values(|e: &str| e@) =~= category_extensions(self));
        r
    }
}


/// The category of a lower-case extension, checked against each list.
fn category_of_ext(ext: &[char]) -> (r: Category)
    ensures
        r == ext_category(ext@),
{
    let cats = [Category::Fotos, Category::Documentos, Category::Video, Category::Audio];
    let mut k: usize = 0;
    while k < 4
        invariant
            k <= 4,
            cats@ == seq![Category::Fotos, Category::Documentos, Category::Video, Category::Audio],
            forall|m: int| 0 <= m < k ==> !category_extensions(cats@[m]).contains(ext@),
        decreases 4 - k,
    {
        let cat = cats[k];
        let exts = cat.extensions();
        let ghost ev = exts@.map_values(|e: &str| e@);
        let mut i: usize = 0;
        while i < exts.len()
            invariant
                i <= exts@.len(),
                ev == exts@.map_values(|e: &str| e@),
                ev == category_extensions(cat),
                forall|j: int| 0 <= j < i ==> ev[j] != ext@,
                k < 4,
                cat == cats@[k as int],
                cats@ == seq![Category::Fotos, Category::Documentos, Category::Video, Category::Audio],
                forall|m: int| 0 <= m < k ==> !category_extensions(cats@[m]).contains(ext@),
            decreases exts@.len() - i,
        {
            let e = chars_of(exts[i]);
            if chars_eq(ext, e.as_slice()) {
                assert(ev[i as int] == ext@);
                assert(ev == category_extensions(cat));
                assert(ev.contains(ext@));
                proof {
                    if k >= 1 {
                        assert(!category_extensions(cats@[0]).contains(ext@));
                    }
                    if k >= 2 {
                        assert(!category_extensions(cats@[1]).contains(ext@));
                    }
                    if k >= 3 {
                        assert(!category_extensions(cats@[2]).contains(ext@));
                    }
                }
                return cat;
            }
            i = i + 1;
        }
        assert(!ev.contains(ext@));
        k = k + 1;
    }
    Category::Otros
}

/// The category of a file name, by the ASCII-lower-cased text after its last
/// dot.
pub fn category_of(name: &str) -> (r: Category)
    ensures
        r == name_category(name@),
{
    let v = chars_of(name);
    let n = v.len();
    proof {
        crate::text::lemma_last_index_of(v@, '.');
    }
    match rfind_char(v.as_slice(), '.') {
        Some(i) => {
            let ext = slice_chars(v.as_slice(), i + 1, n);
            assert(ext@ =~= v@.skip(i + 1));
            let lower = to_ascii_lower(ext.as_slice());
            category_of_ext(lower.as_slice())
        },
        None => Category::Otros,
    }
}

/// A preset folder on the phone that the tray can send files to.
#[derive(Clone, Copy, PartialEq, Eq, Structural, Debug)]
pub enum AndroidDest {
    Descargas,
    Camara,
    Documentos,
    Musica,
    Videos,
    Actual,
}

pub open spec fn android_dest_label(d: AndroidDest) -> Seq<char> {
    match d {
        AndroidDest::Descargas => "⬇  Descargas"@,
        AndroidDest::Camara => "📷  Cámara (DCIM)"@,
        AndroidDest::Documentos => "📄  Documentos"@,
        AndroidDest::Musica => "🎵  Música"@,
        AndroidDest::Videos => "🎬  Películas"@,
        AndroidDest::Actual => "📂  Carpeta abierta"@,
    }
}

/// The folder of a destination; empty for the open folder, which is only
/// known at transfer time.
pub open spec fn android_dest_path(d: AndroidDest) -> Seq<char> {
    match d {
        AndroidDest::Descargas => "/sdcard/Download"@,
        AndroidDest::Camara => "/sdcard/DCIM/Camera"@,
        AndroidDest::Documentos => "/sdcard/Documents"@,
        AndroidDest::Musica => "/sdcard/Music"@,
        AndroidDest::Videos => "/sdcard/Movies"@,
        AndroidDest::Actual => ""@,
    }
}

impl AndroidDest {
    pub const ALL: [AndroidDest; 6] = [
        AndroidDest::Descargas,
        AndroidDest::Camara,
        AndroidDest::Documentos,
        AndroidDest::Musica,
        AndroidDest::Videos,
        AndroidDest::Actual,
    ];

    pub fn label(self) -> (r: &'static str)
        ensures
            r@ == android_dest_label(self),
    {
        match self {
            AndroidDest::Descargas => "⬇  Descargas",
            AndroidDest::Camara => "📷  Cámara (DCIM)",
            AndroidDest::Documentos => "📄  Documentos",
            AndroidDest::Musica => "🎵  Música",
            AndroidDest::Videos => "🎬  Películas",
            AndroidDest::Actual => "📂  Carpeta abierta",
        }
    }

    pub fn path(self) -> (r: &'static str)
        ensures
            r@ == android_dest_path(self),
    {
        match self {
            AndroidDest::Descargas => "/sdcard/Download",
            AndroidDest::Camara => "/sdcard/DCIM/Camera",
            AndroidDest::Documentos => "/sdcard/Documents",
            AndroidDest::Musica => "/sdcard/Music",
            AndroidDest::Videos => "/sdcard/Movies",
            AndroidDest::Actual => "",
        }
    }
}

// ───────────────────────────── sizes ─────────────────────────────

/// The first `s` from `s` up to 11 with `b < 2^(53 + s)`: how many low bits
/// of `b` a 64-bit float cannot hold.
pub open spec fn f64_shift(b: nat, s: nat) -> nat
    decreases 11 - s,
{
    if s >= 11 || b < pow2(53 + s) {
        s
    } else {
        f64_shift(b, s + 1)
    }
}

/// `q` rounded to the nearest multiple of `d`, ties to the even multiple,
/// counted in units of `d`.
pub open spec fn div_round_even(n: nat, d: nat) -> nat {
    let q = n / d;
    let r = n % d;
    if r * 2 > d || (r * 2 == d && q % 2 == 1) {
        q + 1
    } else {
        q
    }
}

/// The value of `b as f64` for `b < 2^64`: `b` rounded to 53 significant
/// bits, ties to even.
pub open spec fn f64_value(b: nat) -> nat {
    let s = f64_shift(b, 0);
    if s == 0 {
        b
    } else {
        div_round_even(b, pow2(s)) * pow2(s)
    }
}

/// How many times a value `v` is divided by 1024 before it is shown, at most
/// four (up to terabytes).
pub open spec fn size_unit(v: nat) -> nat {
    if v >= pow(1024, 4) {
        4
    } else if v >= pow(1024, 3) {
        3
    } else if v >= pow(1024, 2) {
        2
    } else if v >= 1024 {
        1
    } else {
        0
    }
}

pub open spec fn unit_name(u: nat) -> Seq<char> {
    if u == 1 {
        "KB"@
    } else if u == 2 {
        "MB"@
    } else if u == 3 {
        "GB"@
    } else {
        "TB"@
    }
}

/// The size label of `bytes`: below 1024 the exact count of bytes, else the
/// size in the largest unit up to terabytes with one decimal, rounded half
/// to even from the size as a 64-bit float holds it.
pub open spec fn human_size_text(bytes: nat) -> Seq<char> {
    let v = f64_value(bytes);
    let u = size_unit(v);
    if u == 0 {
        dec(bytes) + " B"@
    } else {
        let t = div_round_even(v * 10, pow(1024, u) as nat);
        dec(t / 10) + "."@ + seq![digit_char(t % 10)] + " "@ + unit_name(u)
    }
}

proof fn lemma_pow1024()
    ensures
        pow(1024, 0) == 1,
        pow(1024, 1) == 1024,
        pow(1024, 2) == 1048576,
        pow(1024, 3) == 1073741824,
        pow(1024, 4) == 1099511627776,
{
    reveal_with_fuel(pow, 5);
}

proof fn lemma_pow2_53(s: nat)
    requires
        s <= 11,
    ensures
        pow2(53 + s) == 9007199254740992 * pow2(s),
        pow2(s) >= 1,
        s >= 1 ==> pow2(s) == 2 * pow2((s - 1) as nat),
{
    vstd::arithmetic::power2::lemma_pow2_adds(53, s);
    vstd::arithmetic::power2::lemma2_to64();
    vstd::arithmetic::power2::lemma2_to64_rest();
    vstd::arithmetic::power2::lemma_pow2_pos(s);
    if s >= 1 {
        vstd::arithmetic::power2::lemma_pow2_adds(1, (s - 1) as nat);
    }
}

/// `b as f64`, as an integer.
fn f64_of(b: u64) -> (r: u128)
    ensures
        r as nat == f64_value(b as nat),
        r <= 18446744073709551616u128,
{
    let bb = b as u128;
    let mut s: u32 = 0;
    let mut p: u128 = 1;
    proof {
        vstd::arithmetic::power2::lemma2_to64();
    }
    while s < 11 && bb >= 9007199254740992 * p
        invariant
            s <= 11,
            bb == b as u128,
            p as nat == pow2(s as nat),
            f64_shift(b as nat, 0) == f64_shift(b as nat, s as nat),
            p <= 2048,
        decreases 11 - s,
    {
        proof {
            lemma_pow2_53(s as nat);
            lemma_pow2_53((s + 1) as nat);
            assert(b as nat >= pow2(53 + s as nat));
            assert(f64_shift(b as nat, s as nat) == f64_shift(b as nat, (s + 1) as nat));
            if s + 1 < 11 {
                vstd::arithmetic::power2::lemma_pow2_strictly_increases((s + 1) as nat, 11);
            }
            vstd::arithmetic::power2::lemma2_to64();
        }
        p = p * 2;
        s = s + 1;
    }
    proof {
        lemma_pow2_53(s as nat);
    }
    assert(f64_shift(b as nat, s as nat) == s);
    if s == 0 {
        return bb;
    }
    let q = bb / p;
    let r = bb % p;
    proof {
        vstd::arithmetic::power2::lemma_pow2_adds(s as nat, (64 - s) as nat);
        vstd::arithmetic::power2::lemma2_to64_rest();
        let m = pow2((64 - s) as nat);
        assert(p * m == 18446744073709551616);
        assert(q < m) by (nonlinear_arith)
            requires
                bb < p * m,
                q == bb / p,
                p >= 1,
        ;
        assert(q * p + p <= 18446744073709551616) by (nonlinear_arith)
            requires
                q + 1 <= m,
                p * m == 18446744073709551616,
                p >= 1,
        ;
    }
    let q2 = if r * 2 > p || (r * 2 == p && q % 2 == 1) {
        q + 1
    } else {
        q
    };
    assert(q2 * p <= 18446744073709551616) by (nonlinear_arith)
        requires
            q2 <= q + 1,
            q * p + p <= 18446744073709551616,
            p >= 1,
    ;
    q2 * p
}

fn unit_name_str(u: u32) -> (r: &'static str)
    requires
        1 <= u <= 4,
    ensures
        r@ == unit_name(u as nat),
{
    if u == 1 {
        "KB"
    } else if u == 2 {
        "MB"
    } else if u == 3 {
        "GB"
    } else {
        "TB"
    }
}

/// A short, human size: `512 B`, `1.5 KB`, `3.2 GB`.
pub fn human_size(bytes: u64) -> (r: String)
    ensures
        r@ == human_size_text(bytes as nat),
{
    let v = f64_of(bytes);
    proof {
        lemma_pow1024();
    }
    let (u, d): (u32, u128) = if v >= 1099511627776 {
        (4, 1099511627776)
    } else if v >= 1073741824 {
        (3, 1073741824)
    } else if v >= 1048576 {
        (2, 1048576)
    } else if v >= 1024 {
        (1, 1024)
    } else {
        (0, 1)
    };
    assert(u as nat == size_unit(v as nat));
    let mut out = String::new();
    if u == 0 {
        push_dec(&mut out, bytes);
        out.append(" B");
        return out;
    }
    assert(d as nat == pow(1024, u as nat));
    let n = v * 10;
    let q = n / d;
    let rem = n % d;
    let t = if rem * 2 > d || (rem * 2 == d && q % 2 == 1) {
        q + 1
    } else {
        q
    };
    assert(t as nat == div_round_even(v as nat * 10, d as nat));
    assert(t / 10 <= u64::MAX) by (nonlinear_arith)
        requires
            t <= n / d + 1,
            n <= 184467440737095516160,
            d >= 1024,
    ;
    push_dec(&mut out, (t / 10) as u64);
    out.append(".");
    out.push(char_from_digit_u((t % 10) as u32));
    out.append(" ");
    out.append(unit_name_str(u));
    out
}

fn char_from_digit_u(d: u32) -> (c: char)
    requires
        d <= 9,
    ensures
        c == digit_char(d as nat),
{
    let s = "0123456789";
    proof {
        reveal_strlit("0123456789");
    }
    s.get_char(d as usize)
}


// ───────────────────────────── laws ─────────────────────────────

/// Each extension list names exactly the extensions that the category is
/// told by: an extension of a list gets that list's category, and an
/// extension told to be of a category is on its list.
pub proof fn law_extensions_match_categories(c: Category, e: Seq<char>)
    ensures
        category_extensions(c).contains(e) ==> ext_category(e) == c,
        (c != Category::Todos && c != Category::Otros && ext_category(e) == c)
            ==> category_extensions(c).contains(e),
{
    reveal_strlit("jpg");
    reveal_strlit("jpeg");
    reveal_strlit("png");
    reveal_strlit("gif");
    reveal_strlit("webp");
    reveal_strlit("bmp");
    reveal_strlit("heic");
    reveal_strlit("heif");
    reveal_strlit("pdf");
    reveal_strlit("doc");
    reveal_strlit("docx");
    reveal_strlit("xls");
    reveal_strlit("xlsx");
    reveal_strlit("ppt");
    reveal_strlit("pptx");
    reveal_strlit("txt");
    reveal_strlit("md");
    reveal_strlit("csv");
    reveal_strlit("odt");
    reveal_strlit("rtf");
    reveal_strlit("epub");
    reveal_strlit("mp4");
    reveal_strlit("mkv");
    reveal_strlit("avi");
    reveal_strlit("mov");
    reveal_strlit("webm");
    reveal_strlit("3gp");
    reveal_strlit("mp3");
    reveal_strlit("wav");
    reveal_strlit("flac");
    reveal_strlit("ogg");
    reveal_strlit("m4a");
    reveal_strlit("aac");
    reveal_strlit("opus");
    assert("jpg"@ =~= seq!['j', 'p', 'g']);
    assert("jpeg"@ =~= seq!['j', 'p', 'e', 'g']);
    assert("png"@ =~= seq!['p', 'n', 'g']);
    assert("gif"@ =~= seq!['g', 'i', 'f']);
    assert("webp"@ =~= seq!['w', 'e', 'b', 'p']);
    assert("bmp"@ =~= seq!['b', 'm', 'p']);
    assert("heic"@ =~= seq!['h', 'e', 'i', 'c']);
    assert("heif"@ =~= seq!['h', 'e', 'i', 'f']);
    assert("pdf"@ =~= seq!['p', 'd', 'f']);
    assert("doc"@ =~= seq!['d', 'o', 'c']);
    assert("docx"@ =~= seq!['d', 'o', 'c', 'x']);
    assert("xls"@ =~= seq!['x', 'l', 's']);
    assert("xlsx"@ =~= seq!['x', 'l', 's', 'x']);
    assert("ppt"@ =~= seq!['p', 'p', 't']);
    assert("pptx"@ =~= seq!['p', 'p', 't', 'x']);
    assert("txt"@ =~= seq!['t', 'x', 't']);
    assert("md"@ =~= seq!['m', 'd']);
    assert("csv"@ =~= seq!['c', 's', 'v']);
    assert("odt"@ =~= seq!['o', 'd', 't']);
    assert("rtf"@ =~= seq!['r', 't', 'f']);
    assert("epub"@ =~= seq!['e', 'p', 'u', 'b']);
    assert("mp4"@ =~= seq!['m', 'p', '4']);
    assert("mkv"@ =~= seq!['m', 'k', 'v']);
    assert("avi"@ =~= seq!['a', 'v', 'i']);
    assert("mov"@ =~= seq!['m', 'o', 'v']);
    assert("webm"@ =~= seq!['w', 'e', 'b', 'm']);
    assert("3gp"@ =~= seq!['3', 'g', 'p']);
    assert("mp3"@ =~= seq!['m', 'p', '3']);
    assert("wav"@ =~= seq!['w', 'a', 'v']);
    assert("flac"@ =~= seq!['f', 'l', 'a', 'c']);
    assert("ogg"@ =~= seq!['o', 'g', 'g']);
    assert("m4a"@ =~= seq!['m', '4', 'a']);
    assert("aac"@ =~= seq!['a', 'a', 'c']);
    assert("opus"@ =~= seq!['o', 'p', 'u', 's']);
    if category_extensions(c).contains(e) {
        let i = choose|i: int| 0 <= i < category_extensions(c).len() && category_extensions(c)[i] == e;
        assert(category_extensions(c)[i] == e);
    }
}

/// Fewer than 1024 bytes show as the exact count: `512 B`.
pub proof fn law_small_sizes_exact(bytes: nat)
    requires
        bytes < 1024,
    ensures
        human_size_text(bytes) == dec(bytes) + " B"@,
{
    vstd::arithmetic::power2::lemma2_to64_rest();
    assert(f64_shift(bytes, 0) == 0);
    assert(f64_value(bytes) == bytes);
    lemma_pow1024();
    assert(size_unit(bytes) == 0);
}

} // verus!
