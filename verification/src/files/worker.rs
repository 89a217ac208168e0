//! What a background worker sends back for a job, once the job's outside
//! work has run.

use vstd::prelude::*;
use crate::adb::args_view;
use crate::files::entry::{entries_view, FileEntry};
use crate::files::tray::{Event, EventV, Job, JobV};
use crate::text::owned;

verus! {

/// The report of a listing, search or media job numbered `token`.
pub fn listing_event(token: u64, key: Option<String>, result: Result<Vec<FileEntry>, String>) -> (r: Event)
    ensures
        r@ == match result {
            Ok(v) => EventV::Result {
                token: token,
                key: crate::files::tray::opt_text(key),
                entries: entries_view(v@),
            },
            Err(m) => EventV::Failed { token: token, message: m@ },
        },
{
    match result {
        Ok(entries) => Event::Result { token, key, entries },
        Err(message) => Event::Failed { token, message },
    }
}

/// The `adb` arguments of a copy job: `push` sends a computer file to the
/// phone, `pull` brings a phone file to the computer; other jobs copy
/// nothing.
pub fn copy_args(job: &Job) -> (r: Option<Vec<String>>)
    ensures
        match job@ {
            JobV::Push { index, serial, src, dst } => r matches Some(a) && args_view(a@) == seq![
                "-s"@,
                serial,
                "push"@,
                src,
                dst,
            ],
            JobV::Pull { index, serial, src, dst } => r matches Some(a) && args_view(a@) == seq![
                "-s"@,
                serial,
                "pull"@,
                src,
                dst,
            ],
            _ => r is None,
        },
{
    match job {
        Job::Push { index, serial, src, dst } => {
            let a = vec![owned("-s"), serial.clone(), owned("push"), src.clone(), dst.clone()];
            assert(args_view(a@) =~= seq!["-s"@, serial@, "push"@, src@, dst@]);
            Some(a)
        },
        Job::Pull { index, serial, src, dst } => {
            let a = vec![owned("-s"), serial.clone(), owned("pull"), src.clone(), dst.clone()];
            assert(args_view(a@) =~= seq!["-s"@, serial@, "pull"@, src@, dst@]);
            Some(a)
        },
        _ => None,
    }
}

/// The report of a finished copy: done when `adb` succeeded, else an error
/// that names the command.
pub fn copy_done(index: usize, push: bool, succeeded: bool) -> (r: Event)
    ensures
        r@ == EventV::TransferDone(
            index,
            if succeeded {
                Ok(())
            } else if push {
                Err("adb push falló"@)
            } else {
                Err("adb pull falló"@)
            },
        ),
{
    if succeeded {
        Event::TransferDone(index, Ok(()))
    } else if push {
        Event::TransferDone(index, Err(owned("adb push falló")))
    } else {
        Event::TransferDone(index, Err(owned("adb pull falló")))
    }
}

} // verus!
