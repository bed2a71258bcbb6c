//! The virus-scan stage: whether to scan at all, how the antivirus
//! daemon's reply is read, and which events the outcome sends on.
//!
//! Files at or above the size cap are skipped and treated as clean.  A
//! clean file moves on to the probe stage with a `processing` status; an
//! infected file, an unreadable daemon reply, or an unreachable daemon
//! fails the resource.

use vstd::prelude::*;

verus! {

use crate::messages::{ResourceStatusUpdateMessage, ScanMessage, UploadMessage};

/// The characters of `bytes` decoded as UTF-8, if the bytes are valid
/// UTF-8: what `str::from_utf8` yields.
pub uninterp spec fn utf8_chars(bytes: Seq<u8>) -> Option<Seq<char>>;

/// `needle` occurs somewhere in `hay`.
pub open spec fn contains_seq(hay: Seq<char>, needle: Seq<char>) -> bool {
    exists|i: int|
        0 <= i && i + needle.len() <= hay.len() && #[trigger] hay.subrange(i, i + needle.len())
            == needle
}

#[verifier::external_type_specification]
#[verifier::external_body]
pub struct ExUtf8Error(core::str::Utf8Error);

/// Relies on `clamav_client::clean`: the reply is decoded as UTF-8, and
/// a decoded reply is clean exactly when it contains `OK` and does not
/// contain `FOUND`.
#[verifier::external_body]
fn clamav_clean(response: &[u8]) -> (r: Result<bool, core::str::Utf8Error>)
    ensures
        r is Ok <==> utf8_chars(response@) is Some,
        (r matches Ok(b) ==> b == (contains_seq(utf8_chars(response@).unwrap(), "OK"@)
            && !contains_seq(utf8_chars(response@).unwrap(), "FOUND"@))),
{
    clamav_client::clean(response)
}

/// What a completed scan found.
#[derive(Clone, Copy, Debug, PartialEq, Eq, Structural)]
pub enum ScanOutcome {
    Clean,
    Infected,
    Unreadable,
}

/// Read the antivirus daemon's raw reply: clean when it says `OK` and
/// not `FOUND`, infected otherwise, unreadable when it is not UTF-8.
pub fn evaluate_scan_response(response: &Vec<u8>) -> (r: ScanOutcome)
    ensures
        r == ScanOutcome::Unreadable <==> utf8_chars(response@) is None,
        (utf8_chars(response@) matches Some(text) ==> ((r == ScanOutcome::Clean) == (contains_seq(
            text,
            "OK"@,
        ) && !contains_seq(text, "FOUND"@)))),
{
    match clamav_clean(response.as_slice()) {
        Ok(true) => ScanOutcome::Clean,
        Ok(false) => ScanOutcome::Infected,
        Err(_) => ScanOutcome::Unreadable,
    }
}

/// Whether a file is too large to scan: at or above the configured cap,
/// it is skipped and treated as clean.
pub fn scan_skipped(file_size: usize, max_size_megabytes: usize) -> (r: bool)
    requires
        max_size_megabytes <= 0xffff_ffffusize,
    ensures
        r == (file_size >= max_size_megabytes * 1048576),
{
    let max_bytes: u64 = max_size_megabytes as u64 * 1048576;
    file_size as u64 >= max_bytes
}

/// The events the scan stage emits for one upload: a clean (or skipped)
/// file goes on to the probe queue and turns `processing`; anything else
/// fails the resource.
pub fn scan_stage_events(msg: &UploadMessage, clean: bool) -> (r: (
    Option<ScanMessage>,
    ResourceStatusUpdateMessage,
))
    ensures
        clean ==> (r.0 matches Some(s) && s.presigned_url@ == msg.presigned_url@ && s.object_name@
            == msg.object_name@),
        clean ==> (r.1 matches ResourceStatusUpdateMessage::ResourceProcessingStarted {
            object_name,
        } && object_name@ == msg.object_name@),
        !clean ==> r.0 is None,
        !clean ==> (r.1 matches ResourceStatusUpdateMessage::ResourceProcessingFailed {
            object_name,
        } && object_name@ == msg.object_name@),
{
    if clean {
        (
            Some(
                ScanMessage {
                    presigned_url: msg.presigned_url.clone(),
                    object_name: msg.object_name.clone(),
                },
            ),
            ResourceStatusUpdateMessage::ResourceProcessingStarted {
                object_name: msg.object_name.clone(),
            },
        )
    } else {
        (
            None,
            ResourceStatusUpdateMessage::ResourceProcessingFailed {
                object_name: msg.object_name.clone(),
            },
        )
    }
}

} // verus!
