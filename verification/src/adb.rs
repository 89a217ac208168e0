//! The `adb` command lines this library asks for, and how a finished
//! command's output is read.

use vstd::prelude::*;
use crate::paths::{joined_path, parent_path, path_join, path_parent};
use crate::text::{owned, trim, trim_str};

verus! {

/// The text views of a list of arguments.
pub open spec fn args_view(a: Seq<String>) -> Seq<Seq<char>> {
    a.map_values(|s: String| s@)
}

/// What a finished `adb` command yields: its output without surrounding
/// whitespace when it succeeded, nothing when it failed.
pub fn run_output(success: bool, stdout: &str) -> (r: Option<String>)
    ensures
        match r {
            Some(t) => success && t@ == trim(stdout@),
            None => !success,
        },
{
    if success {
        Some(trim_str(stdout))
    } else {
        None
    }
}

/// The arguments of `adb -s <serial> shell <cmd>`.
pub fn shell(serial: &str, cmd: &str) -> (r: Vec<String>)
    ensures
        args_view(r@) == seq!["-s"@, serial@, "shell"@, cmd@],
{
    let r = vec![owned("-s"), owned(serial), owned("shell"), owned(cmd)];
    assert(args_view(r@) =~= seq!["-s"@, serial@, "shell"@, cmd@]);
    r
}

/// The arguments that read the Android system property `prop`.
pub fn getprop(serial: &str, prop: &str) -> (r: Vec<String>)
    ensures
        args_view(r@) == seq!["-s"@, serial@, "shell"@, "getprop "@ + prop@],
{
    let mut cmd = owned("getprop ");
    cmd.append(prop);
    shell(serial, cmd.as_str())
}

/// The arguments that map the phone's port 5000 to the computer's.
pub fn reverse_args(serial: &str) -> (r: Vec<String>)
    ensures
        args_view(r@) == seq!["-s"@, serial@, "reverse"@, "tcp:5000"@, "tcp:5000"@],
{
    let r = vec![owned("-s"), owned(serial), owned("reverse"), owned("tcp:5000"), owned("tcp:5000")];
    assert(args_view(r@) =~= seq!["-s"@, serial@, "reverse"@, "tcp:5000"@, "tcp:5000"@]);
    r
}

// ───────────────────────────── bundled tools ─────────────────────────────

/// The file name of a bundled tool: with `.exe` on Windows.
pub open spec fn tool_name_of(base: Seq<char>, windows: bool) -> Seq<char> {
    if windows {
        base + ".exe"@
    } else {
        base
    }
}

/// The file name of the tool `base` (`adb`, `ffmpeg`) on this platform.
pub fn tool_name(base: &str, windows: bool) -> (r: String)
    ensures
        r@ == tool_name_of(base@, windows),
{
    let mut r = owned(base);
    if windows {
        r.append(".exe");
    }
    r
}

/// `<dir>/tools/<binary>`.
pub open spec fn tools_in(dir: Seq<char>, binary: Seq<char>) -> Seq<char> {
    joined_path(joined_path(dir, "tools"@), binary)
}

/// The folder of the running program, `.` when it has none.
pub open spec fn exe_dir(exe: Seq<char>) -> Seq<char> {
    match parent_path(exe) {
        Some(d) => d,
        None => "."@,
    }
}

/// Two folders above the program's folder, where a build from source
/// keeps the tools.
pub open spec fn dev_root(exe: Seq<char>) -> Option<Seq<char>> {
    match parent_path(exe_dir(exe)) {
        Some(p) => parent_path(p),
        None => None,
    }
}

/// The two places a tool is looked for, in order: `tools/` beside the
/// program (the installed layout), then `tools/` two folders up (a build
/// from source).
pub fn tool_candidates(exe: &str, binary: &str) -> (r: (String, Option<String>))
    ensures
        r.0@ == tools_in(exe_dir(exe@), binary@),
        match r.1 {
            Some(d) => dev_root(exe@) matches Some(p) && d@ == tools_in(p, binary@),
            None => dev_root(exe@) is None,
        },
{
    let dir = match path_parent(exe) {
        Some(d) => d,
        None => owned("."),
    };
    let t = path_join(dir.as_str(), "tools");
    let installed = path_join(t.as_str(), binary);
    let dev = match path_parent(dir.as_str()) {
        Some(p) => match path_parent(p.as_str()) {
            Some(q) => {
                let t2 = path_join(q.as_str(), "tools");
                Some(path_join(t2.as_str(), binary))
            },
            None => None,
        },
        None => None,
    };
    (installed, dev)
}

/// The tool to run: the installed copy when it exists, else the copy of a
/// build from source when it exists, else the bare name, found on `PATH`.
pub fn pick_tool(binary: &str, installed: &str, installed_exists: bool, dev: Option<&str>, dev_exists: bool) -> (r: String)
    ensures
        r@ == (if installed_exists {
            installed@
        } else if dev is Some && dev_exists {
            dev->0@
        } else {
            binary@
        }),
{
    if installed_exists {
        owned(installed)
    } else {
        match dev {
            Some(d) => if dev_exists {
                owned(d)
            } else {
                owned(binary)
            },
            None => owned(binary),
        }
    }
}

} // verus!
