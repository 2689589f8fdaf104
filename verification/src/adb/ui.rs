//! The structured log records of a device sync: a level, a fixed message,
//! and named fields. The caller hands them to its logger.
use crate::text::{decimal, push_decimal, string_from};
use vstd::prelude::*;

verus! {

/// The level of a log record.
#[derive(Clone, Copy, Debug, PartialEq, Eq, Structural)]
pub enum LogLevel {
    Info,
    Warn,
    Error,
}

/// A log record: level, message, and (name, value) fields in order.
#[derive(Debug)]
pub struct LogRecord {
    pub level: LogLevel,
    pub message: String,
    pub fields: Vec<(String, String)>,
}

/// The fields of a record as plain values.
pub open spec fn field_views(v: Seq<(String, String)>) -> Seq<(Seq<char>, Seq<char>)> {
    v.map_values(|p: (String, String)| (p.0@, p.1@))
}

fn field(name: &str, value: &str) -> (r: (String, String))
    ensures
        r.0@ == name@,
        r.1@ == value@,
{
    (string_from(name), string_from(value))
}

fn count_field(name: &str, value: u64) -> (r: (String, String))
    ensures
        r.0@ == name@,
        r.1@ == decimal(value as nat),
{
    let mut v = String::new();
    push_decimal(&mut v, value);
    assert(v@ =~= decimal(value as nat));
    (string_from(name), v)
}

fn record(level: LogLevel, message: &str, fields: Vec<(String, String)>) -> (r: LogRecord)
    ensures
        r.level == level,
        r.message@ == message@,
        r.fields@ == fields@,
{
    LogRecord { level, message: string_from(message), fields }
}

/// A sync of `device` into `dir` starts.
pub fn sync_start(device: &str, dir: &str) -> (r: LogRecord)
    ensures
        r.level == LogLevel::Info,
        r.message@ == "Syncing ADB device"@,
        field_views(r.fields@) == seq![("device"@, device@), ("dir"@, dir@)],
{
    let r = record(LogLevel::Info, "Syncing ADB device", vec![field("device", device), field("dir", dir)]);
    assert(field_views(r.fields@) =~= seq![("device"@, device@), ("dir"@, dir@)]);
    r
}

/// A sync of `device` ended.
pub fn sync_complete(device: &str) -> (r: LogRecord)
    ensures
        r.level == LogLevel::Info,
        r.message@ == "Sync complete"@,
        field_views(r.fields@) == seq![("device"@, device@)],
{
    let r = record(LogLevel::Info, "Sync complete", vec![field("device", device)]);
    assert(field_views(r.fields@) =~= seq![("device"@, device@)]);
    r
}

/// `device` already holds the library.
pub fn sync_not_needed(device: &str) -> (r: LogRecord)
    ensures
        r.level == LogLevel::Info,
        r.message@ == "Sync not needed, no changes"@,
        field_views(r.fields@) == seq![("device"@, device@)],
{
    let r = record(LogLevel::Info, "Sync not needed, no changes", vec![field("device", device)]);
    assert(field_views(r.fields@) =~= seq![("device"@, device@)]);
    r
}

/// `count` files are about to be removed from `device`.
pub fn removing(count: usize, device: &str) -> (r: LogRecord)
    ensures
        r.level == LogLevel::Info,
        r.message@ == "Removing orphaned tracks"@,
        field_views(r.fields@) == seq![("device"@, device@), ("count"@, decimal(count as nat))],
{
    let r = record(
        LogLevel::Info,
        "Removing orphaned tracks",
        vec![field("device", device), count_field("count", count as u64)],
    );
    assert(field_views(r.fields@) =~= seq![("device"@, device@), ("count"@, decimal(count as nat))]);
    r
}

/// `count` tracks are about to be copied onto `device`.
pub fn pushing(count: usize, device: &str) -> (r: LogRecord)
    ensures
        r.level == LogLevel::Info,
        r.message@ == "Pushing tracks"@,
        field_views(r.fields@) == seq![("device"@, device@), ("count"@, decimal(count as nat))],
{
    let r = record(
        LogLevel::Info,
        "Pushing tracks",
        vec![field("device", device), count_field("count", count as u64)],
    );
    assert(field_views(r.fields@) =~= seq![("device"@, device@), ("count"@, decimal(count as nat))]);
    r
}

/// The tally of a copy run: a warning with both counts when some copies
/// failed, an information with the number copied otherwise.
pub fn push_results(pushed: u64, failed: u64) -> (r: LogRecord)
    ensures
        failed > 0 ==> r.level == LogLevel::Warn && r.message@ == "Track push completed with failures"@
            && field_views(r.fields@) == seq![("pushed"@, decimal(pushed as nat)), ("failed"@, decimal(failed as nat))],
        failed == 0 ==> r.level == LogLevel::Info && r.message@ == "Track push completed successfully"@
            && field_views(r.fields@) == seq![("pushed"@, decimal(pushed as nat))],
{
    if failed > 0 {
        let r = record(
            LogLevel::Warn,
            "Track push completed with failures",
            vec![count_field("pushed", pushed), count_field("failed", failed)],
        );
        assert(field_views(r.fields@) =~= seq![("pushed"@, decimal(pushed as nat)), ("failed"@, decimal(failed as nat))]);
        r
    } else {
        let r = record(LogLevel::Info, "Track push completed successfully", vec![count_field("pushed", pushed)]);
        assert(field_views(r.fields@) =~= seq![("pushed"@, decimal(pushed as nat))]);
        r
    }
}

/// A file was removed from the device.
pub fn deleted(path: &str) -> (r: LogRecord)
    ensures
        r.level == LogLevel::Info,
        r.message@ == "Deleted file"@,
        field_views(r.fields@) == seq![("path"@, path@)],
{
    let r = record(LogLevel::Info, "Deleted file", vec![field("path", path)]);
    assert(field_views(r.fields@) =~= seq![("path"@, path@)]);
    r
}

/// A file could not be removed; `e` is the error's text.
pub fn delete_failed(path: &str, e: &str) -> (r: LogRecord)
    ensures
        r.level == LogLevel::Warn,
        r.message@ == "Failed to delete file"@,
        field_views(r.fields@) == seq![("path"@, path@), ("error"@, e@)],
{
    let r = record(LogLevel::Warn, "Failed to delete file", vec![field("path", path), field("error", e)]);
    assert(field_views(r.fields@) =~= seq![("path"@, path@), ("error"@, e@)]);
    r
}

/// The music directory on the device could not be reached; `e` is the
/// error's text.
pub fn remote_access_failed(dir: &str, device: &str, e: &str) -> (r: LogRecord)
    ensures
        r.level == LogLevel::Error,
        r.message@ == "Cannot access remote directory"@,
        field_views(r.fields@) == seq![("dir"@, dir@), ("device"@, device@), ("error"@, e@)],
{
    let r = record(
        LogLevel::Error,
        "Cannot access remote directory",
        vec![field("dir", dir), field("device", device), field("error", e)],
    );
    assert(field_views(r.fields@) =~= seq![("dir"@, dir@), ("device"@, device@), ("error"@, e@)]);
    r
}

} // verus!
