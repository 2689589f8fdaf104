//! The console messages of a device sync: their level and their text. The
//! caller prints them with a coloured `[INFO]`, `[OK]`, `[WARN]` or
//! `[ERROR]` tag in front.
use crate::text::{decimal, push_decimal, push_seq, string_from};
use vstd::prelude::*;

verus! {

/// The tag a console message is printed with.
#[derive(Clone, Copy, Debug, PartialEq, Eq, Structural)]
pub enum Level {
    Info,
    Success,
    Warn,
    Error,
}

/// A console message.
#[derive(Debug)]
pub struct Message {
    pub level: Level,
    pub text: String,
}

/// `[device] → dir`: a sync starts.
pub fn sync_start(device: &str, dir: &str) -> (r: Message)
    ensures
        r.level == Level::Info,
        r.text@ == "Syncing ["@ + device@ + "] → "@ + dir@,
{
    let mut t = string_from("Syncing [");
    push_seq(&mut t, device);
    push_seq(&mut t, "] → ");
    push_seq(&mut t, dir);
    Message { level: Level::Info, text: t }
}

/// A sync ended.
pub fn sync_complete(device: &str) -> (r: Message)
    ensures
        r.level == Level::Success,
        r.text@ == "Sync complete ["@ + device@ + "]"@,
{
    let mut t = string_from("Sync complete [");
    push_seq(&mut t, device);
    push_seq(&mut t, "]");
    Message { level: Level::Success, text: t }
}

/// `count` files are about to be removed from the device.
pub fn removing(count: usize, device: &str) -> (r: Message)
    ensures
        r.level == Level::Info,
        r.text@ == "Removing "@ + decimal(count as nat) + " orphaned tracks from ["@ + device@ + "]"@,
{
    let mut t = string_from("Removing ");
    push_decimal(&mut t, count as u64);
    push_seq(&mut t, " orphaned tracks from [");
    push_seq(&mut t, device);
    push_seq(&mut t, "]");
    Message { level: Level::Info, text: t }
}

/// `count` tracks are about to be copied onto the device.
pub fn pushing(count: usize, device: &str) -> (r: Message)
    ensures
        r.level == Level::Info,
        r.text@ == "Pushing "@ + decimal(count as nat) + " tracks to ["@ + device@ + "]"@,
{
    let mut t = string_from("Pushing ");
    push_decimal(&mut t, count as u64);
    push_seq(&mut t, " tracks to [");
    push_seq(&mut t, device);
    push_seq(&mut t, "]");
    Message { level: Level::Info, text: t }
}

/// The tally of a copy run: a warning when some copies failed, nothing when
/// all succeeded.
pub fn push_results(pushed: u64, failed: u64) -> (r: Option<Message>)
    ensures
        failed == 0 ==> r is None,
        failed > 0 ==> r is Some && r->0.level == Level::Warn && r->0.text@ == decimal(pushed as nat)
            + " pushed, "@ + decimal(failed as nat) + " failed"@,
{
    if failed > 0 {
        let mut t = String::new();
        push_decimal(&mut t, pushed);
        push_seq(&mut t, " pushed, ");
        push_decimal(&mut t, failed);
        push_seq(&mut t, " failed");
        Some(Message { level: Level::Warn, text: t })
    } else {
        None
    }
}

/// A file was removed from the device.
pub fn deleted(path: &str) -> (r: Message)
    ensures
        r.level == Level::Info,
        r.text@ == "Deleted: "@ + path@,
{
    let mut t = string_from("Deleted: ");
    push_seq(&mut t, path);
    Message { level: Level::Info, text: t }
}

/// A file could not be removed from the device; `e` is the error's text.
pub fn delete_failed(path: &str, e: &str) -> (r: Message)
    ensures
        r.level == Level::Warn,
        r.text@ == "Failed to delete "@ + path@ + ": "@ + e@,
{
    let mut t = string_from("Failed to delete ");
    push_seq(&mut t, path);
    push_seq(&mut t, ": ");
    push_seq(&mut t, e);
    Message { level: Level::Warn, text: t }
}

/// The music directory on the device could not be reached; `e` is the
/// error's text.
pub fn remote_access_failed(dir: &str, device: &str, e: &str) -> (r: Message)
    ensures
        r.level == Level::Error,
        r.text@ == "Cannot access "@ + dir@ + " on "@ + device@ + ": "@ + e@,
{
    let mut t = string_from("Cannot access ");
    push_seq(&mut t, dir);
    push_seq(&mut t, " on ");
    push_seq(&mut t, device);
    push_seq(&mut t, ": ");
    push_seq(&mut t, e);
    Message { level: Level::Error, text: t }
}

/// The template of the progress bar of a copy run on `device`.
pub fn progress_template(device: &str) -> (r: String)
    ensures
        r@ == "{spinner:.cyan} ["@ + device@ + "] [{bar:30.green/white}] {pos}/{len} {msg}"@,
{
    let mut t = string_from("{spinner:.cyan} [");
    push_seq(&mut t, device);
    push_seq(&mut t, "] [{bar:30.green/white}] {pos}/{len} {msg}");
    t
}

} // verus!
