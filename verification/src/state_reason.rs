//! Localized printer-state reasons.
//!
//! A printer reports its state reasons as a comma-separated list of IPP
//! keywords, most of them carrying a severity suffix (RFC 8011). The screens
//! show the worst reason that has wording, and nothing for keywords such as
//! `none`, `other` or a vendor's own.

use vstd::prelude::*;
use i18n_embed::fluent::FluentLanguageLoader;
use crate::localize::localized;
use crate::text::{
    chars_of, ends_with, ends_with_exec, lower, lower_vec, slice_of, split_on, split_on_exec,
    string_of, trim, trim_vec,
};

verus! {

/// Severity encoded by an RFC 8011 reason suffix.
#[derive(Clone, Copy, Debug, PartialEq, Eq, PartialOrd, Ord, Structural)]
pub enum Severity {
    /// Informational condition.
    Report,
    /// Warning condition.
    Warning,
    /// Error condition.
    Error,
}

/// A localized printer-state reason.
#[derive(Clone, Debug, PartialEq, Eq)]
pub struct Reason {
    /// Localized text.
    pub text: String,
    /// Reason severity.
    pub severity: Severity,
}

/// The order of severities, least first.
pub open spec fn rank(s: Severity) -> int {
    match s {
        Severity::Report => 0,
        Severity::Warning => 1,
        Severity::Error => 2,
    }
}

pub fn rank_exec(s: Severity) -> (r: u8)
    ensures
        r == rank(s),
{
    match s {
        Severity::Report => 0,
        Severity::Warning => 1,
        Severity::Error => 2,
    }
}

/// A reason split into its keyword and the severity its suffix names:
/// `-error`, `-warning` and `-report` are tried in that order, and a reason
/// with none of them is a report.
pub open spec fn split_severity_spec(reason: Seq<char>) -> (Seq<char>, Severity) {
    if ends_with(reason, "-error"@) {
        (reason.take(reason.len() - 6), Severity::Error)
    } else if ends_with(reason, "-warning"@) {
        (reason.take(reason.len() - 8), Severity::Warning)
    } else if ends_with(reason, "-report"@) {
        (reason.take(reason.len() - 7), Severity::Report)
    } else {
        (reason, Severity::Report)
    }
}

/// Splits a reason into its keyword and severity.
pub fn split_severity(reason: &str) -> (r: (String, Severity))
    ensures
        (r.0@, r.1) == split_severity_spec(reason@),
{
    proof {
        reveal_strlit("-error");
        reveal_strlit("-warning");
        reveal_strlit("-report");
    }
    let v = chars_of(reason);
    let error = chars_of("-error");
    let warning = chars_of("-warning");
    let report = chars_of("-report");
    if ends_with_exec(&v, &error) {
        (string_of(slice_of(&v, 0, v.len() - 6)), Severity::Error)
    } else if ends_with_exec(&v, &warning) {
        (string_of(slice_of(&v, 0, v.len() - 8)), Severity::Warning)
    } else if ends_with_exec(&v, &report) {
        (string_of(slice_of(&v, 0, v.len() - 7)), Severity::Report)
    } else {
        (string_of(v), Severity::Report)
    }
}

/// The message that words a lower-cased reason keyword; `None` for `none`,
/// `other` and keywords without wording. Both the legacy and the current IPP
/// spelling of an empty tray are accepted.
pub open spec fn reason_message_spec(keyword: Seq<char>) -> Option<Seq<char>> {
    if keyword == "media-empty"@ || keyword == "media-needed"@ {
        Some("printer-reason-out-of-paper"@)
    } else if keyword == "media-low"@ {
        Some("printer-reason-paper-low"@)
    } else if keyword == "media-jam"@ {
        Some("printer-reason-paper-jam"@)
    } else if keyword == "cover-open"@ {
        Some("printer-reason-cover-open"@)
    } else if keyword == "door-open"@ {
        Some("printer-reason-door-open"@)
    } else if keyword == "input-tray-missing"@ {
        Some("printer-reason-tray-missing"@)
    } else if keyword == "output-area-almost-full"@ {
        Some("printer-reason-output-nearly-full"@)
    } else if keyword == "output-area-full"@ {
        Some("printer-reason-output-full"@)
    } else if keyword == "spool-area-full"@ {
        Some("printer-reason-spool-full"@)
    } else if keyword == "toner-low"@ {
        Some("printer-reason-toner-low"@)
    } else if keyword == "toner-empty"@ {
        Some("printer-reason-toner-empty"@)
    } else if keyword == "marker-supply-low"@ {
        Some("printer-reason-supply-low"@)
    } else if keyword == "marker-supply-empty"@ {
        Some("printer-reason-supply-empty"@)
    } else if keyword == "marker-waste-almost-full"@ {
        Some("printer-reason-waste-nearly-full"@)
    } else if keyword == "marker-waste-full"@ {
        Some("printer-reason-waste-full"@)
    } else if keyword == "offline"@ {
        Some("printer-offline"@)
    } else if keyword == "paused"@ {
        Some("printer-reason-paused"@)
    } else if keyword == "shutdown"@ {
        Some("printer-reason-turned-off"@)
    } else if keyword == "timed-out"@ {
        Some("printer-reason-no-answer"@)
    } else if keyword == "connecting-to-device"@ {
        Some("printer-reason-connecting"@)
    } else {
        None
    }
}

/// The messages of the wording table are distinct texts.
proof fn wording_messages_distinct()
    ensures
        "printer-reason-out-of-paper"@ != "printer-reason-paper-low"@,
        "printer-reason-out-of-paper"@ != "printer-reason-paper-jam"@,
        "printer-reason-out-of-paper"@ != "printer-reason-cover-open"@,
        "printer-reason-out-of-paper"@ != "printer-reason-door-open"@,
        "printer-reason-out-of-paper"@ != "printer-reason-tray-missing"@,
        "printer-reason-out-of-paper"@ != "printer-reason-output-nearly-full"@,
        "printer-reason-out-of-paper"@ != "printer-reason-output-full"@,
        "printer-reason-out-of-paper"@ != "printer-reason-spool-full"@,
        "printer-reason-out-of-paper"@ != "printer-reason-toner-low"@,
        "printer-reason-out-of-paper"@ != "printer-reason-toner-empty"@,
        "printer-reason-out-of-paper"@ != "printer-reason-supply-low"@,
        "printer-reason-out-of-paper"@ != "printer-reason-supply-empty"@,
        "printer-reason-out-of-paper"@ != "printer-reason-waste-nearly-full"@,
        "printer-reason-out-of-paper"@ != "printer-reason-waste-full"@,
        "printer-reason-out-of-paper"@ != "printer-offline"@,
        "printer-reason-out-of-paper"@ != "printer-reason-paused"@,
        "printer-reason-out-of-paper"@ != "printer-reason-turned-off"@,
        "printer-reason-out-of-paper"@ != "printer-reason-no-answer"@,
        "printer-reason-out-of-paper"@ != "printer-reason-connecting"@,
        "printer-reason-paper-low"@ != "printer-reason-paper-jam"@,
        "printer-reason-paper-low"@ != "printer-reason-cover-open"@,
        "printer-reason-paper-low"@ != "printer-reason-door-open"@,
        "printer-reason-paper-low"@ != "printer-reason-tray-missing"@,
        "printer-reason-paper-low"@ != "printer-reason-output-nearly-full"@,
        "printer-reason-paper-low"@ != "printer-reason-output-full"@,
        "printer-reason-paper-low"@ != "printer-reason-spool-full"@,
        "printer-reason-paper-low"@ != "printer-reason-toner-low"@,
        "printer-reason-paper-low"@ != "printer-reason-toner-empty"@,
        "printer-reason-paper-low"@ != "printer-reason-supply-low"@,
        "printer-reason-paper-low"@ != "printer-reason-supply-empty"@,
        "printer-reason-paper-low"@ != "printer-reason-waste-nearly-full"@,
        "printer-reason-paper-low"@ != "printer-reason-waste-full"@,
        "printer-reason-paper-low"@ != "printer-offline"@,
        "printer-reason-paper-low"@ != "printer-reason-paused"@,
        "printer-reason-paper-low"@ != "printer-reason-turned-off"@,
        "printer-reason-paper-low"@ != "printer-reason-no-answer"@,
        "printer-reason-paper-low"@ != "printer-reason-connecting"@,
        "printer-reason-paper-jam"@ != "printer-reason-cover-open"@,
        "printer-reason-paper-jam"@ != "printer-reason-door-open"@,
        "printer-reason-paper-jam"@ != "printer-reason-tray-missing"@,
        "printer-reason-paper-jam"@ != "printer-reason-output-nearly-full"@,
        "printer-reason-paper-jam"@ != "printer-reason-output-full"@,
        "printer-reason-paper-jam"@ != "printer-reason-spool-full"@,
        "printer-reason-paper-jam"@ != "printer-reason-toner-low"@,
        "printer-reason-paper-jam"@ != "printer-reason-toner-empty"@,
        "printer-reason-paper-jam"@ != "printer-reason-supply-low"@,
        "printer-reason-paper-jam"@ != "printer-reason-supply-empty"@,
        "printer-reason-paper-jam"@ != "printer-reason-waste-nearly-full"@,
        "printer-reason-paper-jam"@ != "printer-reason-waste-full"@,
        "printer-reason-paper-jam"@ != "printer-offline"@,
        "printer-reason-paper-jam"@ != "printer-reason-paused"@,
        "printer-reason-paper-jam"@ != "printer-reason-turned-off"@,
        "printer-reason-paper-jam"@ != "printer-reason-no-answer"@,
        "printer-reason-paper-jam"@ != "printer-reason-connecting"@,
        "printer-reason-cover-open"@ != "printer-reason-door-open"@,
        "printer-reason-cover-open"@ != "printer-reason-tray-missing"@,
        "printer-reason-cover-open"@ != "printer-reason-output-nearly-full"@,
        "printer-reason-cover-open"@ != "printer-reason-output-full"@,
        "printer-reason-cover-open"@ != "printer-reason-spool-full"@,
        "printer-reason-cover-open"@ != "printer-reason-toner-low"@,
        "printer-reason-cover-open"@ != "printer-reason-toner-empty"@,
        "printer-reason-cover-open"@ != "printer-reason-supply-low"@,
        "printer-reason-cover-open"@ != "printer-reason-supply-empty"@,
        "printer-reason-cover-open"@ != "printer-reason-waste-nearly-full"@,
        "printer-reason-cover-open"@ != "printer-reason-waste-full"@,
        "printer-reason-cover-open"@ != "printer-offline"@,
        "printer-reason-cover-open"@ != "printer-reason-paused"@,
        "printer-reason-cover-open"@ != "printer-reason-turned-off"@,
        "printer-reason-cover-open"@ != "printer-reason-no-answer"@,
        "printer-reason-cover-open"@ != "printer-reason-connecting"@,
        "printer-reason-door-open"@ != "printer-reason-tray-missing"@,
        "printer-reason-door-open"@ != "printer-reason-output-nearly-full"@,
        "printer-reason-door-open"@ != "printer-reason-output-full"@,
        "printer-reason-door-open"@ != "printer-reason-spool-full"@,
        "printer-reason-door-open"@ != "printer-reason-toner-low"@,
        "printer-reason-door-open"@ != "printer-reason-toner-empty"@,
        "printer-reason-door-open"@ != "printer-reason-supply-low"@,
        "printer-reason-door-open"@ != "printer-reason-supply-empty"@,
        "printer-reason-door-open"@ != "printer-reason-waste-nearly-full"@,
        "printer-reason-door-open"@ != "printer-reason-waste-full"@,
        "printer-reason-door-open"@ != "printer-offline"@,
        "printer-reason-door-open"@ != "printer-reason-paused"@,
        "printer-reason-door-open"@ != "printer-reason-turned-off"@,
        "printer-reason-door-open"@ != "printer-reason-no-answer"@,
        "printer-reason-door-open"@ != "printer-reason-connecting"@,
        "printer-reason-tray-missing"@ != "printer-reason-output-nearly-full"@,
        "printer-reason-tray-missing"@ != "printer-reason-output-full"@,
        "printer-reason-tray-missing"@ != "printer-reason-spool-full"@,
        "printer-reason-tray-missing"@ != "printer-reason-toner-low"@,
        "printer-reason-tray-missing"@ != "printer-reason-toner-empty"@,
        "printer-reason-tray-missing"@ != "printer-reason-supply-low"@,
        "printer-reason-tray-missing"@ != "printer-reason-supply-empty"@,
        "printer-reason-tray-missing"@ != "printer-reason-waste-nearly-full"@,
        "printer-reason-tray-missing"@ != "printer-reason-waste-full"@,
        "printer-reason-tray-missing"@ != "printer-offline"@,
        "printer-reason-tray-missing"@ != "printer-reason-paused"@,
        "printer-reason-tray-missing"@ != "printer-reason-turned-off"@,
        "printer-reason-tray-missing"@ != "printer-reason-no-answer"@,
        "printer-reason-tray-missing"@ != "printer-reason-connecting"@,
        "printer-reason-output-nearly-full"@ != "printer-reason-output-full"@,
        "printer-reason-output-nearly-full"@ != "printer-reason-spool-full"@,
        "printer-reason-output-nearly-full"@ != "printer-reason-toner-low"@,
        "printer-reason-output-nearly-full"@ != "printer-reason-toner-empty"@,
        "printer-reason-output-nearly-full"@ != "printer-reason-supply-low"@,
        "printer-reason-output-nearly-full"@ != "printer-reason-supply-empty"@,
        "printer-reason-output-nearly-full"@ != "printer-reason-waste-nearly-full"@,
        "printer-reason-output-nearly-full"@ != "printer-reason-waste-full"@,
        "printer-reason-output-nearly-full"@ != "printer-offline"@,
        "printer-reason-output-nearly-full"@ != "printer-reason-paused"@,
        "printer-reason-output-nearly-full"@ != "printer-reason-turned-off"@,
        "printer-reason-output-nearly-full"@ != "printer-reason-no-answer"@,
        "printer-reason-output-nearly-full"@ != "printer-reason-connecting"@,
        "printer-reason-output-full"@ != "printer-reason-spool-full"@,
        "printer-reason-output-full"@ != "printer-reason-toner-low"@,
        "printer-reason-output-full"@ != "printer-reason-toner-empty"@,
        "printer-reason-output-full"@ != "printer-reason-supply-low"@,
        "printer-reason-output-full"@ != "printer-reason-supply-empty"@,
        "printer-reason-output-full"@ != "printer-reason-waste-nearly-full"@,
        "printer-reason-output-full"@ != "printer-reason-waste-full"@,
        "printer-reason-output-full"@ != "printer-offline"@,
        "printer-reason-output-full"@ != "printer-reason-paused"@,
        "printer-reason-output-full"@ != "printer-reason-turned-off"@,
        "printer-reason-output-full"@ != "printer-reason-no-answer"@,
        "printer-reason-output-full"@ != "printer-reason-connecting"@,
        "printer-reason-spool-full"@ != "printer-reason-toner-low"@,
        "printer-reason-spool-full"@ != "printer-reason-toner-empty"@,
        "printer-reason-spool-full"@ != "printer-reason-supply-low"@,
        "printer-reason-spool-full"@ != "printer-reason-supply-empty"@,
        "printer-reason-spool-full"@ != "printer-reason-waste-nearly-full"@,
        "printer-reason-spool-full"@ != "printer-reason-waste-full"@,
        "printer-reason-spool-full"@ != "printer-offline"@,
        "printer-reason-spool-full"@ != "printer-reason-paused"@,
        "printer-reason-spool-full"@ != "printer-reason-turned-off"@,
        "printer-reason-spool-full"@ != "printer-reason-no-answer"@,
        "printer-reason-spool-full"@ != "printer-reason-connecting"@,
        "printer-reason-toner-low"@ != "printer-reason-toner-empty"@,
        "printer-reason-toner-low"@ != "printer-reason-supply-low"@,
        "printer-reason-toner-low"@ != "printer-reason-supply-empty"@,
        "printer-reason-toner-low"@ != "printer-reason-waste-nearly-full"@,
        "printer-reason-toner-low"@ != "printer-reason-waste-full"@,
        "printer-reason-toner-low"@ != "printer-offline"@,
        "printer-reason-toner-low"@ != "printer-reason-paused"@,
        "printer-reason-toner-low"@ != "printer-reason-turned-off"@,
        "printer-reason-toner-low"@ != "printer-reason-no-answer"@,
        "printer-reason-toner-low"@ != "printer-reason-connecting"@,
        "printer-reason-toner-empty"@ != "printer-reason-supply-low"@,
        "printer-reason-toner-empty"@ != "printer-reason-supply-empty"@,
        "printer-reason-toner-empty"@ != "printer-reason-waste-nearly-full"@,
        "printer-reason-toner-empty"@ != "printer-reason-waste-full"@,
        "printer-reason-toner-empty"@ != "printer-offline"@,
        "printer-reason-toner-empty"@ != "printer-reason-paused"@,
        "printer-reason-toner-empty"@ != "printer-reason-turned-off"@,
        "printer-reason-toner-empty"@ != "printer-reason-no-answer"@,
        "printer-reason-toner-empty"@ != "printer-reason-connecting"@,
        "printer-reason-supply-low"@ != "printer-reason-supply-empty"@,
        "printer-reason-supply-low"@ != "printer-reason-waste-nearly-full"@,
        "printer-reason-supply-low"@ != "printer-reason-waste-full"@,
        "printer-reason-supply-low"@ != "printer-offline"@,
        "printer-reason-supply-low"@ != "printer-reason-paused"@,
        "printer-reason-supply-low"@ != "printer-reason-turned-off"@,
        "printer-reason-supply-low"@ != "printer-reason-no-answer"@,
        "printer-reason-supply-low"@ != "printer-reason-connecting"@,
        "printer-reason-supply-empty"@ != "printer-reason-waste-nearly-full"@,
        "printer-reason-supply-empty"@ != "printer-reason-waste-full"@,
        "printer-reason-supply-empty"@ != "printer-offline"@,
        "printer-reason-supply-empty"@ != "printer-reason-paused"@,
        "printer-reason-supply-empty"@ != "printer-reason-turned-off"@,
        "printer-reason-supply-empty"@ != "printer-reason-no-answer"@,
        "printer-reason-supply-empty"@ != "printer-reason-connecting"@,
        "printer-reason-waste-nearly-full"@ != "printer-reason-waste-full"@,
        "printer-reason-waste-nearly-full"@ != "printer-offline"@,
        "printer-reason-waste-nearly-full"@ != "printer-reason-paused"@,
        "printer-reason-waste-nearly-full"@ != "printer-reason-turned-off"@,
        "printer-reason-waste-nearly-full"@ != "printer-reason-no-answer"@,
        "printer-reason-waste-nearly-full"@ != "printer-reason-connecting"@,
        "printer-reason-waste-full"@ != "printer-offline"@,
        "printer-reason-waste-full"@ != "printer-reason-paused"@,
        "printer-reason-waste-full"@ != "printer-reason-turned-off"@,
        "printer-reason-waste-full"@ != "printer-reason-no-answer"@,
        "printer-reason-waste-full"@ != "printer-reason-connecting"@,
        "printer-offline"@ != "printer-reason-paused"@,
        "printer-offline"@ != "printer-reason-turned-off"@,
        "printer-offline"@ != "printer-reason-no-answer"@,
        "printer-offline"@ != "printer-reason-connecting"@,
        "printer-reason-paused"@ != "printer-reason-turned-off"@,
        "printer-reason-paused"@ != "printer-reason-no-answer"@,
        "printer-reason-paused"@ != "printer-reason-connecting"@,
        "printer-reason-turned-off"@ != "printer-reason-no-answer"@,
        "printer-reason-turned-off"@ != "printer-reason-connecting"@,
        "printer-reason-no-answer"@ != "printer-reason-connecting"@,
{
    reveal_strlit("printer-reason-out-of-paper");
    reveal_strlit("printer-reason-paper-low");
    reveal_strlit("printer-reason-paper-jam");
    reveal_strlit("printer-reason-cover-open");
    reveal_strlit("printer-reason-door-open");
    reveal_strlit("printer-reason-tray-missing");
    reveal_strlit("printer-reason-output-nearly-full");
    reveal_strlit("printer-reason-output-full");
    reveal_strlit("printer-reason-spool-full");
    reveal_strlit("printer-reason-toner-low");
    reveal_strlit("printer-reason-toner-empty");
    reveal_strlit("printer-reason-supply-low");
    reveal_strlit("printer-reason-supply-empty");
    reveal_strlit("printer-reason-waste-nearly-full");
    reveal_strlit("printer-reason-waste-full");
    reveal_strlit("printer-offline");
    reveal_strlit("printer-reason-paused");
    reveal_strlit("printer-reason-turned-off");
    reveal_strlit("printer-reason-no-answer");
    reveal_strlit("printer-reason-connecting");
    assert("printer-reason-out-of-paper"@[15] != "printer-reason-paper-low"@[15]);
    assert("printer-reason-out-of-paper"@[15] != "printer-reason-paper-jam"@[15]);
    assert("printer-reason-out-of-paper"@[15] != "printer-reason-cover-open"@[15]);
    assert("printer-reason-out-of-paper"@[15] != "printer-reason-door-open"@[15]);
    assert("printer-reason-out-of-paper"@[15] != "printer-reason-tray-missing"@[15]);
    assert("printer-reason-out-of-paper"@[18] != "printer-reason-output-nearly-full"@[18]);
    assert("printer-reason-out-of-paper"@[18] != "printer-reason-output-full"@[18]);
    assert("printer-reason-out-of-paper"@[15] != "printer-reason-spool-full"@[15]);
    assert("printer-reason-out-of-paper"@[15] != "printer-reason-toner-low"@[15]);
    assert("printer-reason-out-of-paper"@[15] != "printer-reason-toner-empty"@[15]);
    assert("printer-reason-out-of-paper"@[15] != "printer-reason-supply-low"@[15]);
    assert("printer-reason-out-of-paper"@[15] != "printer-reason-supply-empty"@[15]);
    assert("printer-reason-out-of-paper"@[15] != "printer-reason-waste-nearly-full"@[15]);
    assert("printer-reason-out-of-paper"@[15] != "printer-reason-waste-full"@[15]);
    assert("printer-reason-out-of-paper"@[8] != "printer-offline"@[8]);
    assert("printer-reason-out-of-paper"@[15] != "printer-reason-paused"@[15]);
    assert("printer-reason-out-of-paper"@[15] != "printer-reason-turned-off"@[15]);
    assert("printer-reason-out-of-paper"@[15] != "printer-reason-no-answer"@[15]);
    assert("printer-reason-out-of-paper"@[15] != "printer-reason-connecting"@[15]);
    assert("printer-reason-paper-low"@[21] != "printer-reason-paper-jam"@[21]);
    assert("printer-reason-paper-low"@[15] != "printer-reason-cover-open"@[15]);
    assert("printer-reason-paper-low"@[15] != "printer-reason-door-open"@[15]);
    assert("printer-reason-paper-low"@[15] != "printer-reason-tray-missing"@[15]);
    assert("printer-reason-paper-low"@[15] != "printer-reason-output-nearly-full"@[15]);
    assert("printer-reason-paper-low"@[15] != "printer-reason-output-full"@[15]);
    assert("printer-reason-paper-low"@[15] != "printer-reason-spool-full"@[15]);
    assert("printer-reason-paper-low"@[15] != "printer-reason-toner-low"@[15]);
    assert("printer-reason-paper-low"@[15] != "printer-reason-toner-empty"@[15]);
    assert("printer-reason-paper-low"@[15] != "printer-reason-supply-low"@[15]);
    assert("printer-reason-paper-low"@[15] != "printer-reason-supply-empty"@[15]);
    assert("printer-reason-paper-low"@[15] != "printer-reason-waste-nearly-full"@[15]);
    assert("printer-reason-paper-low"@[15] != "printer-reason-waste-full"@[15]);
    assert("printer-reason-paper-low"@[8] != "printer-offline"@[8]);
    assert("printer-reason-paper-low"@[17] != "printer-reason-paused"@[17]);
    assert("printer-reason-paper-low"@[15] != "printer-reason-turned-off"@[15]);
    assert("printer-reason-paper-low"@[15] != "printer-reason-no-answer"@[15]);
    assert("printer-reason-paper-low"@[15] != "printer-reason-connecting"@[15]);
    assert("printer-reason-paper-jam"@[15] != "printer-reason-cover-open"@[15]);
    assert("printer-reason-paper-jam"@[15] != "printer-reason-door-open"@[15]);
    assert("printer-reason-paper-jam"@[15] != "printer-reason-tray-missing"@[15]);
    assert("printer-reason-paper-jam"@[15] != "printer-reason-output-nearly-full"@[15]);
    assert("printer-reason-paper-jam"@[15] != "printer-reason-output-full"@[15]);
    assert("printer-reason-paper-jam"@[15] != "printer-reason-spool-full"@[15]);
    assert("printer-reason-paper-jam"@[15] != "printer-reason-toner-low"@[15]);
    assert("printer-reason-paper-jam"@[15] != "printer-reason-toner-empty"@[15]);
    assert("printer-reason-paper-jam"@[15] != "printer-reason-supply-low"@[15]);
    assert("printer-reason-paper-jam"@[15] != "printer-reason-supply-empty"@[15]);
    assert("printer-reason-paper-jam"@[15] != "printer-reason-waste-nearly-full"@[15]);
    assert("printer-reason-paper-jam"@[15] != "printer-reason-waste-full"@[15]);
    assert("printer-reason-paper-jam"@[8] != "printer-offline"@[8]);
    assert("printer-reason-paper-jam"@[17] != "printer-reason-paused"@[17]);
    assert("printer-reason-paper-jam"@[15] != "printer-reason-turned-off"@[15]);
    assert("printer-reason-paper-jam"@[15] != "printer-reason-no-answer"@[15]);
    assert("printer-reason-paper-jam"@[15] != "printer-reason-connecting"@[15]);
    assert("printer-reason-cover-open"@[15] != "printer-reason-door-open"@[15]);
    assert("printer-reason-cover-open"@[15] != "printer-reason-tray-missing"@[15]);
    assert("printer-reason-cover-open"@[15] != "printer-reason-output-nearly-full"@[15]);
    assert("printer-reason-cover-open"@[15] != "printer-reason-output-full"@[15]);
    assert("printer-reason-cover-open"@[15] != "printer-reason-spool-full"@[15]);
    assert("printer-reason-cover-open"@[15] != "printer-reason-toner-low"@[15]);
    assert("printer-reason-cover-open"@[15] != "printer-reason-toner-empty"@[15]);
    assert("printer-reason-cover-open"@[15] != "printer-reason-supply-low"@[15]);
    assert("printer-reason-cover-open"@[15] != "printer-reason-supply-empty"@[15]);
    assert("printer-reason-cover-open"@[15] != "printer-reason-waste-nearly-full"@[15]);
    assert("printer-reason-cover-open"@[15] != "printer-reason-waste-full"@[15]);
    assert("printer-reason-cover-open"@[8] != "printer-offline"@[8]);
    assert("printer-reason-cover-open"@[15] != "printer-reason-paused"@[15]);
    assert("printer-reason-cover-open"@[15] != "printer-reason-turned-off"@[15]);
    assert("printer-reason-cover-open"@[15] != "printer-reason-no-answer"@[15]);
    assert("printer-reason-cover-open"@[17] != "printer-reason-connecting"@[17]);
    assert("printer-reason-door-open"@[15] != "printer-reason-tray-missing"@[15]);
    assert("printer-reason-door-open"@[15] != "printer-reason-output-nearly-full"@[15]);
    assert("printer-reason-door-open"@[15] != "printer-reason-output-full"@[15]);
    assert("printer-reason-door-open"@[15] != "printer-reason-spool-full"@[15]);
    assert("printer-reason-door-open"@[15] != "printer-reason-toner-low"@[15]);
    assert("printer-reason-door-open"@[15] != "printer-reason-toner-empty"@[15]);
    assert("printer-reason-door-open"@[15] != "printer-reason-supply-low"@[15]);
    assert("printer-reason-door-open"@[15] != "printer-reason-supply-empty"@[15]);
    assert("printer-reason-door-open"@[15] != "printer-reason-waste-nearly-full"@[15]);
    assert("printer-reason-door-open"@[15] != "printer-reason-waste-full"@[15]);
    assert("printer-reason-door-open"@[8] != "printer-offline"@[8]);
    assert("printer-reason-door-open"@[15] != "printer-reason-paused"@[15]);
    assert("printer-reason-door-open"@[15] != "printer-reason-turned-off"@[15]);
    assert("printer-reason-door-open"@[15] != "printer-reason-no-answer"@[15]);
    assert("printer-reason-door-open"@[15] != "printer-reason-connecting"@[15]);
    assert("printer-reason-tray-missing"@[15] != "printer-reason-output-nearly-full"@[15]);
    assert("printer-reason-tray-missing"@[15] != "printer-reason-output-full"@[15]);
    assert("printer-reason-tray-missing"@[15] != "printer-reason-spool-full"@[15]);
    assert("printer-reason-tray-missing"@[16] != "printer-reason-toner-low"@[16]);
    assert("printer-reason-tray-missing"@[16] != "printer-reason-toner-empty"@[16]);
    assert("printer-reason-tray-missing"@[15] != "printer-reason-supply-low"@[15]);
    assert("printer-reason-tray-missing"@[15] != "printer-reason-supply-empty"@[15]);
    assert("printer-reason-tray-missing"@[15] != "printer-reason-waste-nearly-full"@[15]);
    assert("printer-reason-tray-missing"@[15] != "printer-reason-waste-full"@[15]);
    assert("printer-reason-tray-missing"@[8] != "printer-offline"@[8]);
    assert("printer-reason-tray-missing"@[15] != "printer-reason-paused"@[15]);
    assert("printer-reason-tray-missing"@[16] != "printer-reason-turned-off"@[16]);
    assert("printer-reason-tray-missing"@[15] != "printer-reason-no-answer"@[15]);
    assert("printer-reason-tray-missing"@[15] != "printer-reason-connecting"@[15]);
    assert("printer-reason-output-nearly-full"@[22] != "printer-reason-output-full"@[22]);
    assert("printer-reason-output-nearly-full"@[15] != "printer-reason-spool-full"@[15]);
    assert("printer-reason-output-nearly-full"@[15] != "printer-reason-toner-low"@[15]);
    assert("printer-reason-output-nearly-full"@[15] != "printer-reason-toner-empty"@[15]);
    assert("printer-reason-output-nearly-full"@[15] != "printer-reason-supply-low"@[15]);
    assert("printer-reason-output-nearly-full"@[15] != "printer-reason-supply-empty"@[15]);
    assert("printer-reason-output-nearly-full"@[15] != "printer-reason-waste-nearly-full"@[15]);
    assert("printer-reason-output-nearly-full"@[15] != "printer-reason-waste-full"@[15]);
    assert("printer-reason-output-nearly-full"@[8] != "printer-offline"@[8]);
    assert("printer-reason-output-nearly-full"@[15] != "printer-reason-paused"@[15]);
    assert("printer-reason-output-nearly-full"@[15] != "printer-reason-turned-off"@[15]);
    assert("printer-reason-output-nearly-full"@[15] != "printer-reason-no-answer"@[15]);
    assert("printer-reason-output-nearly-full"@[15] != "printer-reason-connecting"@[15]);
    assert("printer-reason-output-full"@[15] != "printer-reason-spool-full"@[15]);
    assert("printer-reason-output-full"@[15] != "printer-reason-toner-low"@[15]);
    assert("printer-reason-output-full"@[15] != "printer-reason-toner-empty"@[15]);
    assert("printer-reason-output-full"@[15] != "printer-reason-supply-low"@[15]);
    assert("printer-reason-output-full"@[15] != "printer-reason-supply-empty"@[15]);
    assert("printer-reason-output-full"@[15] != "printer-reason-waste-nearly-full"@[15]);
    assert("printer-reason-output-full"@[15] != "printer-reason-waste-full"@[15]);
    assert("printer-reason-output-full"@[8] != "printer-offline"@[8]);
    assert("printer-reason-output-full"@[15] != "printer-reason-paused"@[15]);
    assert("printer-reason-output-full"@[15] != "printer-reason-turned-off"@[15]);
    assert("printer-reason-output-full"@[15] != "printer-reason-no-answer"@[15]);
    assert("printer-reason-output-full"@[15] != "printer-reason-connecting"@[15]);
    assert("printer-reason-spool-full"@[15] != "printer-reason-toner-low"@[15]);
    assert("printer-reason-spool-full"@[15] != "printer-reason-toner-empty"@[15]);
    assert("printer-reason-spool-full"@[16] != "printer-reason-supply-low"@[16]);
    assert("printer-reason-spool-full"@[16] != "printer-reason-supply-empty"@[16]);
    assert("printer-reason-spool-full"@[15] != "printer-reason-waste-nearly-full"@[15]);
    assert("printer-reason-spool-full"@[15] != "printer-reason-waste-full"@[15]);
    assert("printer-reason-spool-full"@[8] != "printer-offline"@[8]);
    assert("printer-reason-spool-full"@[15] != "printer-reason-paused"@[15]);
    assert("printer-reason-spool-full"@[15] != "printer-reason-turned-off"@[15]);
    assert("printer-reason-spool-full"@[15] != "printer-reason-no-answer"@[15]);
    assert("printer-reason-spool-full"@[15] != "printer-reason-connecting"@[15]);
    assert("printer-reason-toner-low"@[21] != "printer-reason-toner-empty"@[21]);
    assert("printer-reason-toner-low"@[15] != "printer-reason-supply-low"@[15]);
    assert("printer-reason-toner-low"@[15] != "printer-reason-supply-empty"@[15]);
    assert("printer-reason-toner-low"@[15] != "printer-reason-waste-nearly-full"@[15]);
    assert("printer-reason-toner-low"@[15] != "printer-reason-waste-full"@[15]);
    assert("printer-reason-toner-low"@[8] != "printer-offline"@[8]);
    assert("printer-reason-toner-low"@[15] != "printer-reason-paused"@[15]);
    assert("printer-reason-toner-low"@[16] != "printer-reason-turned-off"@[16]);
    assert("printer-reason-toner-low"@[15] != "printer-reason-no-answer"@[15]);
    assert("printer-reason-toner-low"@[15] != "printer-reason-connecting"@[15]);
    assert("printer-reason-toner-empty"@[15] != "printer-reason-supply-low"@[15]);
    assert("printer-reason-toner-empty"@[15] != "printer-reason-supply-empty"@[15]);
    assert("printer-reason-toner-empty"@[15] != "printer-reason-waste-nearly-full"@[15]);
    assert("printer-reason-toner-empty"@[15] != "printer-reason-waste-full"@[15]);
    assert("printer-reason-toner-empty"@[8] != "printer-offline"@[8]);
    assert("printer-reason-toner-empty"@[15] != "printer-reason-paused"@[15]);
    assert("printer-reason-toner-empty"@[16] != "printer-reason-turned-off"@[16]);
    assert("printer-reason-toner-empty"@[15] != "printer-reason-no-answer"@[15]);
    assert("printer-reason-toner-empty"@[15] != "printer-reason-connecting"@[15]);
    assert("printer-reason-supply-low"@[22] != "printer-reason-supply-empty"@[22]);
    assert("printer-reason-supply-low"@[15] != "printer-reason-waste-nearly-full"@[15]);
    assert("printer-reason-supply-low"@[15] != "printer-reason-waste-full"@[15]);
    assert("printer-reason-supply-low"@[8] != "printer-offline"@[8]);
    assert("printer-reason-supply-low"@[15] != "printer-reason-paused"@[15]);
    assert("printer-reason-supply-low"@[15] != "printer-reason-turned-off"@[15]);
    assert("printer-reason-supply-low"@[15] != "printer-reason-no-answer"@[15]);
    assert("printer-reason-supply-low"@[15] != "printer-reason-connecting"@[15]);
    assert("printer-reason-supply-empty"@[15] != "printer-reason-waste-nearly-full"@[15]);
    assert("printer-reason-supply-empty"@[15] != "printer-reason-waste-full"@[15]);
    assert("printer-reason-supply-empty"@[8] != "printer-offline"@[8]);
    assert("printer-reason-supply-empty"@[15] != "printer-reason-paused"@[15]);
    assert("printer-reason-supply-empty"@[15] != "printer-reason-turned-off"@[15]);
    assert("printer-reason-supply-empty"@[15] != "printer-reason-no-answer"@[15]);
    assert("printer-reason-supply-empty"@[15] != "printer-reason-connecting"@[15]);
    assert("printer-reason-waste-nearly-full"@[21] != "printer-reason-waste-full"@[21]);
    assert("printer-reason-waste-nearly-full"@[8] != "printer-offline"@[8]);
    assert("printer-reason-waste-nearly-full"@[15] != "printer-reason-paused"@[15]);
    assert("printer-reason-waste-nearly-full"@[15] != "printer-reason-turned-off"@[15]);
    assert("printer-reason-waste-nearly-full"@[15] != "printer-reason-no-answer"@[15]);
    assert("printer-reason-waste-nearly-full"@[15] != "printer-reason-connecting"@[15]);
    assert("printer-reason-waste-full"@[8] != "printer-offline"@[8]);
    assert("printer-reason-waste-full"@[15] != "printer-reason-paused"@[15]);
    assert("printer-reason-waste-full"@[15] != "printer-reason-turned-off"@[15]);
    assert("printer-reason-waste-full"@[15] != "printer-reason-no-answer"@[15]);
    assert("printer-reason-waste-full"@[15] != "printer-reason-connecting"@[15]);
    assert("printer-offline"@[8] != "printer-reason-paused"@[8]);
    assert("printer-offline"@[8] != "printer-reason-turned-off"@[8]);
    assert("printer-offline"@[8] != "printer-reason-no-answer"@[8]);
    assert("printer-offline"@[8] != "printer-reason-connecting"@[8]);
    assert("printer-reason-paused"@[15] != "printer-reason-turned-off"@[15]);
    assert("printer-reason-paused"@[15] != "printer-reason-no-answer"@[15]);
    assert("printer-reason-paused"@[15] != "printer-reason-connecting"@[15]);
    assert("printer-reason-turned-off"@[15] != "printer-reason-no-answer"@[15]);
    assert("printer-reason-turned-off"@[15] != "printer-reason-connecting"@[15]);
    assert("printer-reason-no-answer"@[15] != "printer-reason-connecting"@[15]);
}

/// The keywords of the wording table are distinct texts.
proof fn wording_keywords_distinct()
    ensures
        "media-empty"@ != "media-needed"@,
        "media-empty"@ != "media-low"@,
        "media-empty"@ != "media-jam"@,
        "media-empty"@ != "cover-open"@,
        "media-empty"@ != "door-open"@,
        "media-empty"@ != "input-tray-missing"@,
        "media-empty"@ != "output-area-almost-full"@,
        "media-empty"@ != "output-area-full"@,
        "media-empty"@ != "spool-area-full"@,
        "media-empty"@ != "toner-low"@,
        "media-empty"@ != "toner-empty"@,
        "media-empty"@ != "marker-supply-low"@,
        "media-empty"@ != "marker-supply-empty"@,
        "media-empty"@ != "marker-waste-almost-full"@,
        "media-empty"@ != "marker-waste-full"@,
        "media-empty"@ != "offline"@,
        "media-empty"@ != "paused"@,
        "media-empty"@ != "shutdown"@,
        "media-empty"@ != "timed-out"@,
        "media-empty"@ != "connecting-to-device"@,
        "media-needed"@ != "media-low"@,
        "media-needed"@ != "media-jam"@,
        "media-needed"@ != "cover-open"@,
        "media-needed"@ != "door-open"@,
        "media-needed"@ != "input-tray-missing"@,
        "media-needed"@ != "output-area-almost-full"@,
        "media-needed"@ != "output-area-full"@,
        "media-needed"@ != "spool-area-full"@,
        "media-needed"@ != "toner-low"@,
        "media-needed"@ != "toner-empty"@,
        "media-needed"@ != "marker-supply-low"@,
        "media-needed"@ != "marker-supply-empty"@,
        "media-needed"@ != "marker-waste-almost-full"@,
        "media-needed"@ != "marker-waste-full"@,
        "media-needed"@ != "offline"@,
        "media-needed"@ != "paused"@,
        "media-needed"@ != "shutdown"@,
        "media-needed"@ != "timed-out"@,
        "media-needed"@ != "connecting-to-device"@,
        "media-low"@ != "media-jam"@,
        "media-low"@ != "cover-open"@,
        "media-low"@ != "door-open"@,
        "media-low"@ != "input-tray-missing"@,
        "media-low"@ != "output-area-almost-full"@,
        "media-low"@ != "output-area-full"@,
        "media-low"@ != "spool-area-full"@,
        "media-low"@ != "toner-low"@,
        "media-low"@ != "toner-empty"@,
        "media-low"@ != "marker-supply-low"@,
        "media-low"@ != "marker-supply-empty"@,
        "media-low"@ != "marker-waste-almost-full"@,
        "media-low"@ != "marker-waste-full"@,
        "media-low"@ != "offline"@,
        "media-low"@ != "paused"@,
        "media-low"@ != "shutdown"@,
        "media-low"@ != "timed-out"@,
        "media-low"@ != "connecting-to-device"@,
        "media-jam"@ != "cover-open"@,
        "media-jam"@ != "door-open"@,
        "media-jam"@ != "input-tray-missing"@,
        "media-jam"@ != "output-area-almost-full"@,
        "media-jam"@ != "output-area-full"@,
        "media-jam"@ != "spool-area-full"@,
        "media-jam"@ != "toner-low"@,
        "media-jam"@ != "toner-empty"@,
        "media-jam"@ != "marker-supply-low"@,
        "media-jam"@ != "marker-supply-empty"@,
        "media-jam"@ != "marker-waste-almost-full"@,
        "media-jam"@ != "marker-waste-full"@,
        "media-jam"@ != "offline"@,
        "media-jam"@ != "paused"@,
        "media-jam"@ != "shutdown"@,
        "media-jam"@ != "timed-out"@,
        "media-jam"@ != "connecting-to-device"@,
        "cover-open"@ != "door-open"@,
        "cover-open"@ != "input-tray-missing"@,
        "cover-open"@ != "output-area-almost-full"@,
        "cover-open"@ != "output-area-full"@,
        "cover-open"@ != "spool-area-full"@,
        "cover-open"@ != "toner-low"@,
        "cover-open"@ != "toner-empty"@,
        "cover-open"@ != "marker-supply-low"@,
        "cover-open"@ != "marker-supply-empty"@,
        "cover-open"@ != "marker-waste-almost-full"@,
        "cover-open"@ != "marker-waste-full"@,
        "cover-open"@ != "offline"@,
        "cover-open"@ != "paused"@,
        "cover-open"@ != "shutdown"@,
        "cover-open"@ != "timed-out"@,
        "cover-open"@ != "connecting-to-device"@,
        "door-open"@ != "input-tray-missing"@,
        "door-open"@ != "output-area-almost-full"@,
        "door-open"@ != "output-area-full"@,
        "door-open"@ != "spool-area-full"@,
        "door-open"@ != "toner-low"@,
        "door-open"@ != "toner-empty"@,
        "door-open"@ != "marker-supply-low"@,
        "door-open"@ != "marker-supply-empty"@,
        "door-open"@ != "marker-waste-almost-full"@,
        "door-open"@ != "marker-waste-full"@,
        "door-open"@ != "offline"@,
        "door-open"@ != "paused"@,
        "door-open"@ != "shutdown"@,
        "door-open"@ != "timed-out"@,
        "door-open"@ != "connecting-to-device"@,
        "input-tray-missing"@ != "output-area-almost-full"@,
        "input-tray-missing"@ != "output-area-full"@,
        "input-tray-missing"@ != "spool-area-full"@,
        "input-tray-missing"@ != "toner-low"@,
        "input-tray-missing"@ != "toner-empty"@,
        "input-tray-missing"@ != "marker-supply-low"@,
        "input-tray-missing"@ != "marker-supply-empty"@,
        "input-tray-missing"@ != "marker-waste-almost-full"@,
        "input-tray-missing"@ != "marker-waste-full"@,
        "input-tray-missing"@ != "offline"@,
        "input-tray-missing"@ != "paused"@,
        "input-tray-missing"@ != "shutdown"@,
        "input-tray-missing"@ != "timed-out"@,
        "input-tray-missing"@ != "connecting-to-device"@,
        "output-area-almost-full"@ != "output-area-full"@,
        "output-area-almost-full"@ != "spool-area-full"@,
        "output-area-almost-full"@ != "toner-low"@,
        "output-area-almost-full"@ != "toner-empty"@,
        "output-area-almost-full"@ != "marker-supply-low"@,
        "output-area-almost-full"@ != "marker-supply-empty"@,
        "output-area-almost-full"@ != "marker-waste-almost-full"@,
        "output-area-almost-full"@ != "marker-waste-full"@,
        "output-area-almost-full"@ != "offline"@,
        "output-area-almost-full"@ != "paused"@,
        "output-area-almost-full"@ != "shutdown"@,
        "output-area-almost-full"@ != "timed-out"@,
        "output-area-almost-full"@ != "connecting-to-device"@,
        "output-area-full"@ != "spool-area-full"@,
        "output-area-full"@ != "toner-low"@,
        "output-area-full"@ != "toner-empty"@,
        "output-area-full"@ != "marker-supply-low"@,
        "output-area-full"@ != "marker-supply-empty"@,
        "output-area-full"@ != "marker-waste-almost-full"@,
        "output-area-full"@ != "marker-waste-full"@,
        "output-area-full"@ != "offline"@,
        "output-area-full"@ != "paused"@,
        "output-area-full"@ != "shutdown"@,
        "output-area-full"@ != "timed-out"@,
        "output-area-full"@ != "connecting-to-device"@,
        "spool-area-full"@ != "toner-low"@,
        "spool-area-full"@ != "toner-empty"@,
        "spool-area-full"@ != "marker-supply-low"@,
        "spool-area-full"@ != "marker-supply-empty"@,
        "spool-area-full"@ != "marker-waste-almost-full"@,
        "spool-area-full"@ != "marker-waste-full"@,
        "spool-area-full"@ != "offline"@,
        "spool-area-full"@ != "paused"@,
        "spool-area-full"@ != "shutdown"@,
        "spool-area-full"@ != "timed-out"@,
        "spool-area-full"@ != "connecting-to-device"@,
        "toner-low"@ != "toner-empty"@,
        "toner-low"@ != "marker-supply-low"@,
        "toner-low"@ != "marker-supply-empty"@,
        "toner-low"@ != "marker-waste-almost-full"@,
        "toner-low"@ != "marker-waste-full"@,
        "toner-low"@ != "offline"@,
        "toner-low"@ != "paused"@,
        "toner-low"@ != "shutdown"@,
        "toner-low"@ != "timed-out"@,
        "toner-low"@ != "connecting-to-device"@,
        "toner-empty"@ != "marker-supply-low"@,
        "toner-empty"@ != "marker-supply-empty"@,
        "toner-empty"@ != "marker-waste-almost-full"@,
        "toner-empty"@ != "marker-waste-full"@,
        "toner-empty"@ != "offline"@,
        "toner-empty"@ != "paused"@,
        "toner-empty"@ != "shutdown"@,
        "toner-empty"@ != "timed-out"@,
        "toner-empty"@ != "connecting-to-device"@,
        "marker-supply-low"@ != "marker-supply-empty"@,
        "marker-supply-low"@ != "marker-waste-almost-full"@,
        "marker-supply-low"@ != "marker-waste-full"@,
        "marker-supply-low"@ != "offline"@,
        "marker-supply-low"@ != "paused"@,
        "marker-supply-low"@ != "shutdown"@,
        "marker-supply-low"@ != "timed-out"@,
        "marker-supply-low"@ != "connecting-to-device"@,
        "marker-supply-empty"@ != "marker-waste-almost-full"@,
        "marker-supply-empty"@ != "marker-waste-full"@,
        "marker-supply-empty"@ != "offline"@,
        "marker-supply-empty"@ != "paused"@,
        "marker-supply-empty"@ != "shutdown"@,
        "marker-supply-empty"@ != "timed-out"@,
        "marker-supply-empty"@ != "connecting-to-device"@,
        "marker-waste-almost-full"@ != "marker-waste-full"@,
        "marker-waste-almost-full"@ != "offline"@,
        "marker-waste-almost-full"@ != "paused"@,
        "marker-waste-almost-full"@ != "shutdown"@,
        "marker-waste-almost-full"@ != "timed-out"@,
        "marker-waste-almost-full"@ != "connecting-to-device"@,
        "marker-waste-full"@ != "offline"@,
        "marker-waste-full"@ != "paused"@,
        "marker-waste-full"@ != "shutdown"@,
        "marker-waste-full"@ != "timed-out"@,
        "marker-waste-full"@ != "connecting-to-device"@,
        "offline"@ != "paused"@,
        "offline"@ != "shutdown"@,
        "offline"@ != "timed-out"@,
        "offline"@ != "connecting-to-device"@,
        "paused"@ != "shutdown"@,
        "paused"@ != "timed-out"@,
        "paused"@ != "connecting-to-device"@,
        "shutdown"@ != "timed-out"@,
        "shutdown"@ != "connecting-to-device"@,
        "timed-out"@ != "connecting-to-device"@,
{
    reveal_strlit("media-empty");
    reveal_strlit("media-needed");
    reveal_strlit("media-low");
    reveal_strlit("media-jam");
    reveal_strlit("cover-open");
    reveal_strlit("door-open");
    reveal_strlit("input-tray-missing");
    reveal_strlit("output-area-almost-full");
    reveal_strlit("output-area-full");
    reveal_strlit("spool-area-full");
    reveal_strlit("toner-low");
    reveal_strlit("toner-empty");
    reveal_strlit("marker-supply-low");
    reveal_strlit("marker-supply-empty");
    reveal_strlit("marker-waste-almost-full");
    reveal_strlit("marker-waste-full");
    reveal_strlit("offline");
    reveal_strlit("paused");
    reveal_strlit("shutdown");
    reveal_strlit("timed-out");
    reveal_strlit("connecting-to-device");
    assert("media-empty"@[6] != "media-needed"@[6]);
    assert("media-empty"@[6] != "media-low"@[6]);
    assert("media-empty"@[6] != "media-jam"@[6]);
    assert("media-empty"@[0] != "cover-open"@[0]);
    assert("media-empty"@[0] != "door-open"@[0]);
    assert("media-empty"@[0] != "input-tray-missing"@[0]);
    assert("media-empty"@[0] != "output-area-almost-full"@[0]);
    assert("media-empty"@[0] != "output-area-full"@[0]);
    assert("media-empty"@[0] != "spool-area-full"@[0]);
    assert("media-empty"@[0] != "toner-low"@[0]);
    assert("media-empty"@[0] != "toner-empty"@[0]);
    assert("media-empty"@[1] != "marker-supply-low"@[1]);
    assert("media-empty"@[1] != "marker-supply-empty"@[1]);
    assert("media-empty"@[1] != "marker-waste-almost-full"@[1]);
    assert("media-empty"@[1] != "marker-waste-full"@[1]);
    assert("media-empty"@[0] != "offline"@[0]);
    assert("media-empty"@[0] != "paused"@[0]);
    assert("media-empty"@[0] != "shutdown"@[0]);
    assert("media-empty"@[0] != "timed-out"@[0]);
    assert("media-empty"@[0] != "connecting-to-device"@[0]);
    assert("media-needed"@[6] != "media-low"@[6]);
    assert("media-needed"@[6] != "media-jam"@[6]);
    assert("media-needed"@[0] != "cover-open"@[0]);
    assert("media-needed"@[0] != "door-open"@[0]);
    assert("media-needed"@[0] != "input-tray-missing"@[0]);
    assert("media-needed"@[0] != "output-area-almost-full"@[0]);
    assert("media-needed"@[0] != "output-area-full"@[0]);
    assert("media-needed"@[0] != "spool-area-full"@[0]);
    assert("media-needed"@[0] != "toner-low"@[0]);
    assert("media-needed"@[0] != "toner-empty"@[0]);
    assert("media-needed"@[1] != "marker-supply-low"@[1]);
    assert("media-needed"@[1] != "marker-supply-empty"@[1]);
    assert("media-needed"@[1] != "marker-waste-almost-full"@[1]);
    assert("media-needed"@[1] != "marker-waste-full"@[1]);
    assert("media-needed"@[0] != "offline"@[0]);
    assert("media-needed"@[0] != "paused"@[0]);
    assert("media-needed"@[0] != "shutdown"@[0]);
    assert("media-needed"@[0] != "timed-out"@[0]);
    assert("media-needed"@[0] != "connecting-to-device"@[0]);
    assert("media-low"@[6] != "media-jam"@[6]);
    assert("media-low"@[0] != "cover-open"@[0]);
    assert("media-low"@[0] != "door-open"@[0]);
    assert("media-low"@[0] != "input-tray-missing"@[0]);
    assert("media-low"@[0] != "output-area-almost-full"@[0]);
    assert("media-low"@[0] != "output-area-full"@[0]);
    assert("media-low"@[0] != "spool-area-full"@[0]);
    assert("media-low"@[0] != "toner-low"@[0]);
    assert("media-low"@[0] != "toner-empty"@[0]);
    assert("media-low"@[1] != "marker-supply-low"@[1]);
    assert("media-low"@[1] != "marker-supply-empty"@[1]);
    assert("media-low"@[1] != "marker-waste-almost-full"@[1]);
    assert("media-low"@[1] != "marker-waste-full"@[1]);
    assert("media-low"@[0] != "offline"@[0]);
    assert("media-low"@[0] != "paused"@[0]);
    assert("media-low"@[0] != "shutdown"@[0]);
    assert("media-low"@[0] != "timed-out"@[0]);
    assert("media-low"@[0] != "connecting-to-device"@[0]);
    assert("media-jam"@[0] != "cover-open"@[0]);
    assert("media-jam"@[0] != "door-open"@[0]);
    assert("media-jam"@[0] != "input-tray-missing"@[0]);
    assert("media-jam"@[0] != "output-area-almost-full"@[0]);
    assert("media-jam"@[0] != "output-area-full"@[0]);
    assert("media-jam"@[0] != "spool-area-full"@[0]);
    assert("media-jam"@[0] != "toner-low"@[0]);
    assert("media-jam"@[0] != "toner-empty"@[0]);
    assert("media-jam"@[1] != "marker-supply-low"@[1]);
    assert("media-jam"@[1] != "marker-supply-empty"@[1]);
    assert("media-jam"@[1] != "marker-waste-almost-full"@[1]);
    assert("media-jam"@[1] != "marker-waste-full"@[1]);
    assert("media-jam"@[0] != "offline"@[0]);
    assert("media-jam"@[0] != "paused"@[0]);
    assert("media-jam"@[0] != "shutdown"@[0]);
    assert("media-jam"@[0] != "timed-out"@[0]);
    assert("media-jam"@[0] != "connecting-to-device"@[0]);
    assert("cover-open"@[0] != "door-open"@[0]);
    assert("cover-open"@[0] != "input-tray-missing"@[0]);
    assert("cover-open"@[0] != "output-area-almost-full"@[0]);
    assert("cover-open"@[0] != "output-area-full"@[0]);
    assert("cover-open"@[0] != "spool-area-full"@[0]);
    assert("cover-open"@[0] != "toner-low"@[0]);
    assert("cover-open"@[0] != "toner-empty"@[0]);
    assert("cover-open"@[0] != "marker-supply-low"@[0]);
    assert("cover-open"@[0] != "marker-supply-empty"@[0]);
    assert("cover-open"@[0] != "marker-waste-almost-full"@[0]);
    assert("cover-open"@[0] != "marker-waste-full"@[0]);
    assert("cover-open"@[0] != "offline"@[0]);
    assert("cover-open"@[0] != "paused"@[0]);
    assert("cover-open"@[0] != "shutdown"@[0]);
    assert("cover-open"@[0] != "timed-out"@[0]);
    assert("cover-open"@[2] != "connecting-to-device"@[2]);
    assert("door-open"@[0] != "input-tray-missing"@[0]);
    assert("door-open"@[0] != "output-area-almost-full"@[0]);
    assert("door-open"@[0] != "output-area-full"@[0]);
    assert("door-open"@[0] != "spool-area-full"@[0]);
    assert("door-open"@[0] != "toner-low"@[0]);
    assert("door-open"@[0] != "toner-empty"@[0]);
    assert("door-open"@[0] != "marker-supply-low"@[0]);
    assert("door-open"@[0] != "marker-supply-empty"@[0]);
    assert("door-open"@[0] != "marker-waste-almost-full"@[0]);
    assert("door-open"@[0] != "marker-waste-full"@[0]);
    assert("door-open"@[0] != "offline"@[0]);
    assert("door-open"@[0] != "paused"@[0]);
    assert("door-open"@[0] != "shutdown"@[0]);
    assert("door-open"@[0] != "timed-out"@[0]);
    assert("door-open"@[0] != "connecting-to-device"@[0]);
    assert("input-tray-missing"@[0] != "output-area-almost-full"@[0]);
    assert("input-tray-missing"@[0] != "output-area-full"@[0]);
    assert("input-tray-missing"@[0] != "spool-area-full"@[0]);
    assert("input-tray-missing"@[0] != "toner-low"@[0]);
    assert("input-tray-missing"@[0] != "toner-empty"@[0]);
    assert("input-tray-missing"@[0] != "marker-supply-low"@[0]);
    assert("input-tray-missing"@[0] != "marker-supply-empty"@[0]);
    assert("input-tray-missing"@[0] != "marker-waste-almost-full"@[0]);
    assert("input-tray-missing"@[0] != "marker-waste-full"@[0]);
    assert("input-tray-missing"@[0] != "offline"@[0]);
    assert("input-tray-missing"@[0] != "paused"@[0]);
    assert("input-tray-missing"@[0] != "shutdown"@[0]);
    assert("input-tray-missing"@[0] != "timed-out"@[0]);
    assert("input-tray-missing"@[0] != "connecting-to-device"@[0]);
    assert("output-area-almost-full"@[12] != "output-area-full"@[12]);
    assert("output-area-almost-full"@[0] != "spool-area-full"@[0]);
    assert("output-area-almost-full"@[0] != "toner-low"@[0]);
    assert("output-area-almost-full"@[0] != "toner-empty"@[0]);
    assert("output-area-almost-full"@[0] != "marker-supply-low"@[0]);
    assert("output-area-almost-full"@[0] != "marker-supply-empty"@[0]);
    assert("output-area-almost-full"@[0] != "marker-waste-almost-full"@[0]);
    assert("output-area-almost-full"@[0] != "marker-waste-full"@[0]);
    assert("output-area-almost-full"@[1] != "offline"@[1]);
    assert("output-area-almost-full"@[0] != "paused"@[0]);
    assert("output-area-almost-full"@[0] != "shutdown"@[0]);
    assert("output-area-almost-full"@[0] != "timed-out"@[0]);
    assert("output-area-almost-full"@[0] != "connecting-to-device"@[0]);
    assert("output-area-full"@[0] != "spool-area-full"@[0]);
    assert("output-area-full"@[0] != "toner-low"@[0]);
    assert("output-area-full"@[0] != "toner-empty"@[0]);
    assert("output-area-full"@[0] != "marker-supply-low"@[0]);
    assert("output-area-full"@[0] != "marker-supply-empty"@[0]);
    assert("output-area-full"@[0] != "marker-waste-almost-full"@[0]);
    assert("output-area-full"@[0] != "marker-waste-full"@[0]);
    assert("output-area-full"@[1] != "offline"@[1]);
    assert("output-area-full"@[0] != "paused"@[0]);
    assert("output-area-full"@[0] != "shutdown"@[0]);
    assert("output-area-full"@[0] != "timed-out"@[0]);
    assert("output-area-full"@[0] != "connecting-to-device"@[0]);
    assert("spool-area-full"@[0] != "toner-low"@[0]);
    assert("spool-area-full"@[0] != "toner-empty"@[0]);
    assert("spool-area-full"@[0] != "marker-supply-low"@[0]);
    assert("spool-area-full"@[0] != "marker-supply-empty"@[0]);
    assert("spool-area-full"@[0] != "marker-waste-almost-full"@[0]);
    assert("spool-area-full"@[0] != "marker-waste-full"@[0]);
    assert("spool-area-full"@[0] != "offline"@[0]);
    assert("spool-area-full"@[0] != "paused"@[0]);
    assert("spool-area-full"@[1] != "shutdown"@[1]);
    assert("spool-area-full"@[0] != "timed-out"@[0]);
    assert("spool-area-full"@[0] != "connecting-to-device"@[0]);
    assert("toner-low"@[6] != "toner-empty"@[6]);
    assert("toner-low"@[0] != "marker-supply-low"@[0]);
    assert("toner-low"@[0] != "marker-supply-empty"@[0]);
    assert("toner-low"@[0] != "marker-waste-almost-full"@[0]);
    assert("toner-low"@[0] != "marker-waste-full"@[0]);
    assert("toner-low"@[0] != "offline"@[0]);
    assert("toner-low"@[0] != "paused"@[0]);
    assert("toner-low"@[0] != "shutdown"@[0]);
    assert("toner-low"@[1] != "timed-out"@[1]);
    assert("toner-low"@[0] != "connecting-to-device"@[0]);
    assert("toner-empty"@[0] != "marker-supply-low"@[0]);
    assert("toner-empty"@[0] != "marker-supply-empty"@[0]);
    assert("toner-empty"@[0] != "marker-waste-almost-full"@[0]);
    assert("toner-empty"@[0] != "marker-waste-full"@[0]);
    assert("toner-empty"@[0] != "offline"@[0]);
    assert("toner-empty"@[0] != "paused"@[0]);
    assert("toner-empty"@[0] != "shutdown"@[0]);
    assert("toner-empty"@[1] != "timed-out"@[1]);
    assert("toner-empty"@[0] != "connecting-to-device"@[0]);
    assert("marker-supply-low"@[14] != "marker-supply-empty"@[14]);
    assert("marker-supply-low"@[7] != "marker-waste-almost-full"@[7]);
    assert("marker-supply-low"@[7] != "marker-waste-full"@[7]);
    assert("marker-supply-low"@[0] != "offline"@[0]);
    assert("marker-supply-low"@[0] != "paused"@[0]);
    assert("marker-supply-low"@[0] != "shutdown"@[0]);
    assert("marker-supply-low"@[0] != "timed-out"@[0]);
    assert("marker-supply-low"@[0] != "connecting-to-device"@[0]);
    assert("marker-supply-empty"@[7] != "marker-waste-almost-full"@[7]);
    assert("marker-supply-empty"@[7] != "marker-waste-full"@[7]);
    assert("marker-supply-empty"@[0] != "offline"@[0]);
    assert("marker-supply-empty"@[0] != "paused"@[0]);
    assert("marker-supply-empty"@[0] != "shutdown"@[0]);
    assert("marker-supply-empty"@[0] != "timed-out"@[0]);
    assert("marker-supply-empty"@[0] != "connecting-to-device"@[0]);
    assert("marker-waste-almost-full"@[13] != "marker-waste-full"@[13]);
    assert("marker-waste-almost-full"@[0] != "offline"@[0]);
    assert("marker-waste-almost-full"@[0] != "paused"@[0]);
    assert("marker-waste-almost-full"@[0] != "shutdown"@[0]);
    assert("marker-waste-almost-full"@[0] != "timed-out"@[0]);
    assert("marker-waste-almost-full"@[0] != "connecting-to-device"@[0]);
    assert("marker-waste-full"@[0] != "offline"@[0]);
    assert("marker-waste-full"@[0] != "paused"@[0]);
    assert("marker-waste-full"@[0] != "shutdown"@[0]);
    assert("marker-waste-full"@[0] != "timed-out"@[0]);
    assert("marker-waste-full"@[0] != "connecting-to-device"@[0]);
    assert("offline"@[0] != "paused"@[0]);
    assert("offline"@[0] != "shutdown"@[0]);
    assert("offline"@[0] != "timed-out"@[0]);
    assert("offline"@[0] != "connecting-to-device"@[0]);
    assert("paused"@[0] != "shutdown"@[0]);
    assert("paused"@[0] != "timed-out"@[0]);
    assert("paused"@[0] != "connecting-to-device"@[0]);
    assert("shutdown"@[0] != "timed-out"@[0]);
    assert("shutdown"@[0] != "connecting-to-device"@[0]);
    assert("timed-out"@[0] != "connecting-to-device"@[0]);
}

/// Each reason keyword is worded by its own message: a message words
/// exactly the keywords listed beside it (the legacy and the current
/// spelling of an empty tray share one), and every other keyword has no
/// wording.
pub proof fn each_reason_has_its_own_wording(keyword: Seq<char>)
    ensures
        reason_message_spec(keyword) == Some("printer-reason-out-of-paper"@) <==> (keyword == "media-empty"@ || keyword == "media-needed"@),
        reason_message_spec(keyword) == Some("printer-reason-paper-low"@) <==> keyword == "media-low"@,
        reason_message_spec(keyword) == Some("printer-reason-paper-jam"@) <==> keyword == "media-jam"@,
        reason_message_spec(keyword) == Some("printer-reason-cover-open"@) <==> keyword == "cover-open"@,
        reason_message_spec(keyword) == Some("printer-reason-door-open"@) <==> keyword == "door-open"@,
        reason_message_spec(keyword) == Some("printer-reason-tray-missing"@) <==> keyword == "input-tray-missing"@,
        reason_message_spec(keyword) == Some("printer-reason-output-nearly-full"@) <==> keyword == "output-area-almost-full"@,
        reason_message_spec(keyword) == Some("printer-reason-output-full"@) <==> keyword == "output-area-full"@,
        reason_message_spec(keyword) == Some("printer-reason-spool-full"@) <==> keyword == "spool-area-full"@,
        reason_message_spec(keyword) == Some("printer-reason-toner-low"@) <==> keyword == "toner-low"@,
        reason_message_spec(keyword) == Some("printer-reason-toner-empty"@) <==> keyword == "toner-empty"@,
        reason_message_spec(keyword) == Some("printer-reason-supply-low"@) <==> keyword == "marker-supply-low"@,
        reason_message_spec(keyword) == Some("printer-reason-supply-empty"@) <==> keyword == "marker-supply-empty"@,
        reason_message_spec(keyword) == Some("printer-reason-waste-nearly-full"@) <==> keyword == "marker-waste-almost-full"@,
        reason_message_spec(keyword) == Some("printer-reason-waste-full"@) <==> keyword == "marker-waste-full"@,
        reason_message_spec(keyword) == Some("printer-offline"@) <==> keyword == "offline"@,
        reason_message_spec(keyword) == Some("printer-reason-paused"@) <==> keyword == "paused"@,
        reason_message_spec(keyword) == Some("printer-reason-turned-off"@) <==> keyword == "shutdown"@,
        reason_message_spec(keyword) == Some("printer-reason-no-answer"@) <==> keyword == "timed-out"@,
        reason_message_spec(keyword) == Some("printer-reason-connecting"@) <==> keyword == "connecting-to-device"@,
        reason_message_spec(keyword) is None <==> !(keyword == "media-empty"@ || keyword == "media-needed"@ || keyword == "media-low"@ || keyword == "media-jam"@ || keyword == "cover-open"@ || keyword == "door-open"@ || keyword == "input-tray-missing"@ || keyword == "output-area-almost-full"@ || keyword == "output-area-full"@ || keyword == "spool-area-full"@ || keyword == "toner-low"@ || keyword == "toner-empty"@ || keyword == "marker-supply-low"@ || keyword == "marker-supply-empty"@ || keyword == "marker-waste-almost-full"@ || keyword == "marker-waste-full"@ || keyword == "offline"@ || keyword == "paused"@ || keyword == "shutdown"@ || keyword == "timed-out"@ || keyword == "connecting-to-device"@),
{
    wording_messages_distinct();
    wording_keywords_distinct();
    reveal_strlit("media-empty");
    reveal_strlit("media-needed");
    reveal_strlit("media-low");
    reveal_strlit("media-jam");
    reveal_strlit("cover-open");
    reveal_strlit("door-open");
    reveal_strlit("input-tray-missing");
    reveal_strlit("output-area-almost-full");
    reveal_strlit("output-area-full");
    reveal_strlit("spool-area-full");
    reveal_strlit("toner-low");
    reveal_strlit("toner-empty");
    reveal_strlit("marker-supply-low");
    reveal_strlit("marker-supply-empty");
    reveal_strlit("marker-waste-almost-full");
    reveal_strlit("marker-waste-full");
    reveal_strlit("offline");
    reveal_strlit("paused");
    reveal_strlit("shutdown");
    reveal_strlit("timed-out");
    reveal_strlit("connecting-to-device");
    reveal_strlit("printer-reason-out-of-paper");
    reveal_strlit("printer-reason-paper-low");
    reveal_strlit("printer-reason-paper-jam");
    reveal_strlit("printer-reason-cover-open");
    reveal_strlit("printer-reason-door-open");
    reveal_strlit("printer-reason-tray-missing");
    reveal_strlit("printer-reason-output-nearly-full");
    reveal_strlit("printer-reason-output-full");
    reveal_strlit("printer-reason-spool-full");
    reveal_strlit("printer-reason-toner-low");
    reveal_strlit("printer-reason-toner-empty");
    reveal_strlit("printer-reason-supply-low");
    reveal_strlit("printer-reason-supply-empty");
    reveal_strlit("printer-reason-waste-nearly-full");
    reveal_strlit("printer-reason-waste-full");
    reveal_strlit("printer-offline");
    reveal_strlit("printer-reason-paused");
    reveal_strlit("printer-reason-turned-off");
    reveal_strlit("printer-reason-no-answer");
    reveal_strlit("printer-reason-connecting");
    if keyword == "media-empty"@ {
        assert(reason_message_spec(keyword) == Some("printer-reason-out-of-paper"@));
    } else if keyword == "media-needed"@ {
        assert(reason_message_spec(keyword) == Some("printer-reason-out-of-paper"@));
    } else if keyword == "media-low"@ {
        assert(reason_message_spec(keyword) == Some("printer-reason-paper-low"@));
    } else if keyword == "media-jam"@ {
        assert(reason_message_spec(keyword) == Some("printer-reason-paper-jam"@));
    } else if keyword == "cover-open"@ {
        assert(reason_message_spec(keyword) == Some("printer-reason-cover-open"@));
    } else if keyword == "door-open"@ {
        assert(reason_message_spec(keyword) == Some("printer-reason-door-open"@));
    } else if keyword == "input-tray-missing"@ {
        assert(reason_message_spec(keyword) == Some("printer-reason-tray-missing"@));
    } else if keyword == "output-area-almost-full"@ {
        assert(reason_message_spec(keyword) == Some("printer-reason-output-nearly-full"@));
    } else if keyword == "output-area-full"@ {
        assert(reason_message_spec(keyword) == Some("printer-reason-output-full"@));
    } else if keyword == "spool-area-full"@ {
        assert(reason_message_spec(keyword) == Some("printer-reason-spool-full"@));
    } else if keyword == "toner-low"@ {
        assert(reason_message_spec(keyword) == Some("printer-reason-toner-low"@));
    } else if keyword == "toner-empty"@ {
        assert(reason_message_spec(keyword) == Some("printer-reason-toner-empty"@));
    } else if keyword == "marker-supply-low"@ {
        assert(reason_message_spec(keyword) == Some("printer-reason-supply-low"@));
    } else if keyword == "marker-supply-empty"@ {
        assert(reason_message_spec(keyword) == Some("printer-reason-supply-empty"@));
    } else if keyword == "marker-waste-almost-full"@ {
        assert(reason_message_spec(keyword) == Some("printer-reason-waste-nearly-full"@));
    } else if keyword == "marker-waste-full"@ {
        assert(reason_message_spec(keyword) == Some("printer-reason-waste-full"@));
    } else if keyword == "offline"@ {
        assert(reason_message_spec(keyword) == Some("printer-offline"@));
    } else if keyword == "paused"@ {
        assert(reason_message_spec(keyword) == Some("printer-reason-paused"@));
    } else if keyword == "shutdown"@ {
        assert(reason_message_spec(keyword) == Some("printer-reason-turned-off"@));
    } else if keyword == "timed-out"@ {
        assert(reason_message_spec(keyword) == Some("printer-reason-no-answer"@));
    } else if keyword == "connecting-to-device"@ {
        assert(reason_message_spec(keyword) == Some("printer-reason-connecting"@));
    } else {
        assert(reason_message_spec(keyword) is None);
    }
}

/// Two keywords worded alike are the same keyword, or the two spellings of
/// an empty tray.
pub proof fn wordings_differ(first: Seq<char>, second: Seq<char>)
    requires
        reason_message_spec(first) is Some,
        reason_message_spec(first) == reason_message_spec(second),
    ensures
        first == second || ((first == "media-empty"@ || first == "media-needed"@) && (second == "media-empty"@
            || second == "media-needed"@)),
{
    each_reason_has_its_own_wording(first);
    each_reason_has_its_own_wording(second);
    reveal_strlit("media-empty");
    reveal_strlit("media-needed");
    reveal_strlit("media-low");
    reveal_strlit("media-jam");
    reveal_strlit("cover-open");
    reveal_strlit("door-open");
    reveal_strlit("input-tray-missing");
    reveal_strlit("output-area-almost-full");
    reveal_strlit("output-area-full");
    reveal_strlit("spool-area-full");
    reveal_strlit("toner-low");
    reveal_strlit("toner-empty");
    reveal_strlit("marker-supply-low");
    reveal_strlit("marker-supply-empty");
    reveal_strlit("marker-waste-almost-full");
    reveal_strlit("marker-waste-full");
    reveal_strlit("offline");
    reveal_strlit("paused");
    reveal_strlit("shutdown");
    reveal_strlit("timed-out");
    reveal_strlit("connecting-to-device");
    reveal_strlit("printer-reason-out-of-paper");
    reveal_strlit("printer-reason-paper-low");
    reveal_strlit("printer-reason-paper-jam");
    reveal_strlit("printer-reason-cover-open");
    reveal_strlit("printer-reason-door-open");
    reveal_strlit("printer-reason-tray-missing");
    reveal_strlit("printer-reason-output-nearly-full");
    reveal_strlit("printer-reason-output-full");
    reveal_strlit("printer-reason-spool-full");
    reveal_strlit("printer-reason-toner-low");
    reveal_strlit("printer-reason-toner-empty");
    reveal_strlit("printer-reason-supply-low");
    reveal_strlit("printer-reason-supply-empty");
    reveal_strlit("printer-reason-waste-nearly-full");
    reveal_strlit("printer-reason-waste-full");
    reveal_strlit("printer-offline");
    reveal_strlit("printer-reason-paused");
    reveal_strlit("printer-reason-turned-off");
    reveal_strlit("printer-reason-no-answer");
    reveal_strlit("printer-reason-connecting");
}

/// A keyword about something running low is worded as running low, and
/// no other is.
pub proof fn low_reasons_read_as_low(keyword: Seq<char>)
    requires
        reason_message_spec(keyword) is Some,
    ensures
        ends_with(keyword, "-low"@) <==> ends_with(reason_message_spec(keyword)->0, "-low"@),
{
    reveal_strlit("-low");
    each_reason_has_its_own_wording(keyword);
        if keyword == "media-empty"@ {
            reveal_strlit("media-empty");
            reveal_strlit("printer-reason-out-of-paper");
            assert("media-empty"@.skip(7)[0] != "-low"@[0]);
            assert("printer-reason-out-of-paper"@.skip(23)[0] != "-low"@[0]);
        } else if keyword == "media-needed"@ {
            reveal_strlit("media-needed");
            reveal_strlit("printer-reason-out-of-paper");
            assert("media-needed"@.skip(8)[0] != "-low"@[0]);
            assert("printer-reason-out-of-paper"@.skip(23)[0] != "-low"@[0]);
        } else if keyword == "media-low"@ {
            reveal_strlit("media-low");
            reveal_strlit("printer-reason-paper-low");
            assert("media-low"@.skip(5) =~= "-low"@);
            assert("printer-reason-paper-low"@.skip(20) =~= "-low"@);
        } else if keyword == "media-jam"@ {
            reveal_strlit("media-jam");
            reveal_strlit("printer-reason-paper-jam");
            assert("media-jam"@.skip(5)[1] != "-low"@[1]);
            assert("printer-reason-paper-jam"@.skip(20)[1] != "-low"@[1]);
        } else if keyword == "cover-open"@ {
            reveal_strlit("cover-open");
            reveal_strlit("printer-reason-cover-open");
            assert("cover-open"@.skip(6)[0] != "-low"@[0]);
            assert("printer-reason-cover-open"@.skip(21)[0] != "-low"@[0]);
        } else if keyword == "door-open"@ {
            reveal_strlit("door-open");
            reveal_strlit("printer-reason-door-open");
            assert("door-open"@.skip(5)[0] != "-low"@[0]);
            assert("printer-reason-door-open"@.skip(20)[0] != "-low"@[0]);
        } else if keyword == "input-tray-missing"@ {
            reveal_strlit("input-tray-missing");
            reveal_strlit("printer-reason-tray-missing");
            assert("input-tray-missing"@.skip(14)[0] != "-low"@[0]);
            assert("printer-reason-tray-missing"@.skip(23)[0] != "-low"@[0]);
        } else if keyword == "output-area-almost-full"@ {
            reveal_strlit("output-area-almost-full");
            reveal_strlit("printer-reason-output-nearly-full");
            assert("output-area-almost-full"@.skip(19)[0] != "-low"@[0]);
            assert("printer-reason-output-nearly-full"@.skip(29)[0] != "-low"@[0]);
        } else if keyword == "output-area-full"@ {
            reveal_strlit("output-area-full");
            reveal_strlit("printer-reason-output-full");
            assert("output-area-full"@.skip(12)[0] != "-low"@[0]);
            assert("printer-reason-output-full"@.skip(22)[0] != "-low"@[0]);
        } else if keyword == "spool-area-full"@ {
            reveal_strlit("spool-area-full");
            reveal_strlit("printer-reason-spool-full");
            assert("spool-area-full"@.skip(11)[0] != "-low"@[0]);
            assert("printer-reason-spool-full"@.skip(21)[0] != "-low"@[0]);
        } else if keyword == "toner-low"@ {
            reveal_strlit("toner-low");
            reveal_strlit("printer-reason-toner-low");
            assert("toner-low"@.skip(5) =~= "-low"@);
            assert("printer-reason-toner-low"@.skip(20) =~= "-low"@);
        } else if keyword == "toner-empty"@ {
            reveal_strlit("toner-empty");
            reveal_strlit("printer-reason-toner-empty");
            assert("toner-empty"@.skip(7)[0] != "-low"@[0]);
            assert("printer-reason-toner-empty"@.skip(22)[0] != "-low"@[0]);
        } else if keyword == "marker-supply-low"@ {
            reveal_strlit("marker-supply-low");
            reveal_strlit("printer-reason-supply-low");
            assert("marker-supply-low"@.skip(13) =~= "-low"@);
            assert("printer-reason-supply-low"@.skip(21) =~= "-low"@);
        } else if keyword == "marker-supply-empty"@ {
            reveal_strlit("marker-supply-empty");
            reveal_strlit("printer-reason-supply-empty");
            assert("marker-supply-empty"@.skip(15)[0] != "-low"@[0]);
            assert("printer-reason-supply-empty"@.skip(23)[0] != "-low"@[0]);
        } else if keyword == "marker-waste-almost-full"@ {
            reveal_strlit("marker-waste-almost-full");
            reveal_strlit("printer-reason-waste-nearly-full");
            assert("marker-waste-almost-full"@.skip(20)[0] != "-low"@[0]);
            assert("printer-reason-waste-nearly-full"@.skip(28)[0] != "-low"@[0]);
        } else if keyword == "marker-waste-full"@ {
            reveal_strlit("marker-waste-full");
            reveal_strlit("printer-reason-waste-full");
            assert("marker-waste-full"@.skip(13)[0] != "-low"@[0]);
            assert("printer-reason-waste-full"@.skip(21)[0] != "-low"@[0]);
        } else if keyword == "offline"@ {
            reveal_strlit("offline");
            reveal_strlit("printer-offline");
            assert("offline"@.skip(3)[0] != "-low"@[0]);
            assert("printer-offline"@.skip(11)[0] != "-low"@[0]);
        } else if keyword == "paused"@ {
            reveal_strlit("paused");
            reveal_strlit("printer-reason-paused");
            assert("paused"@.skip(2)[0] != "-low"@[0]);
            assert("printer-reason-paused"@.skip(17)[0] != "-low"@[0]);
        } else if keyword == "shutdown"@ {
            reveal_strlit("shutdown");
            reveal_strlit("printer-reason-turned-off");
            assert("shutdown"@.skip(4)[0] != "-low"@[0]);
            assert("printer-reason-turned-off"@.skip(21)[1] != "-low"@[1]);
        } else if keyword == "timed-out"@ {
            reveal_strlit("timed-out");
            reveal_strlit("printer-reason-no-answer");
            assert("timed-out"@.skip(5)[1] != "-low"@[1]);
            assert("printer-reason-no-answer"@.skip(20)[0] != "-low"@[0]);
        } else if keyword == "connecting-to-device"@ {
            reveal_strlit("connecting-to-device");
            reveal_strlit("printer-reason-connecting");
            assert("connecting-to-device"@.skip(16)[0] != "-low"@[0]);
            assert("printer-reason-connecting"@.skip(21)[0] != "-low"@[0]);
        }
}

pub open spec fn opt_str_view(s: Option<&str>) -> Option<Seq<char>> {
    match s {
        Some(v) => Some(v@),
        None => None,
    }
}

fn is(keyword: &Vec<char>, literal: &str) -> (r: bool)
    ensures
        r == (keyword@ == literal@),
{
    crate::text::eq_vec(keyword, &chars_of(literal))
}

/// The message that words a lower-cased reason keyword.
pub fn reason_message(keyword: &Vec<char>) -> (r: Option<&'static str>)
    ensures
        opt_str_view(r) == reason_message_spec(keyword@),
{
    if is(keyword, "media-empty") || is(keyword, "media-needed") {
        Some("printer-reason-out-of-paper")
    } else if is(keyword, "media-low") {
        Some("printer-reason-paper-low")
    } else if is(keyword, "media-jam") {
        Some("printer-reason-paper-jam")
    } else if is(keyword, "cover-open") {
        Some("printer-reason-cover-open")
    } else if is(keyword, "door-open") {
        Some("printer-reason-door-open")
    } else if is(keyword, "input-tray-missing") {
        Some("printer-reason-tray-missing")
    } else if is(keyword, "output-area-almost-full") {
        Some("printer-reason-output-nearly-full")
    } else if is(keyword, "output-area-full") {
        Some("printer-reason-output-full")
    } else if is(keyword, "spool-area-full") {
        Some("printer-reason-spool-full")
    } else if is(keyword, "toner-low") {
        Some("printer-reason-toner-low")
    } else if is(keyword, "toner-empty") {
        Some("printer-reason-toner-empty")
    } else if is(keyword, "marker-supply-low") {
        Some("printer-reason-supply-low")
    } else if is(keyword, "marker-supply-empty") {
        Some("printer-reason-supply-empty")
    } else if is(keyword, "marker-waste-almost-full") {
        Some("printer-reason-waste-nearly-full")
    } else if is(keyword, "marker-waste-full") {
        Some("printer-reason-waste-full")
    } else if is(keyword, "offline") {
        Some("printer-offline")
    } else if is(keyword, "paused") {
        Some("printer-reason-paused")
    } else if is(keyword, "shutdown") {
        Some("printer-reason-turned-off")
    } else if is(keyword, "timed-out") {
        Some("printer-reason-no-answer")
    } else if is(keyword, "connecting-to-device") {
        Some("printer-reason-connecting")
    } else {
        None
    }
}

/// What one listed reason amounts to: its message and severity, where it
/// has wording. Surrounding white space is ignored and keywords are compared
/// in lower case.
pub open spec fn describe_spec(reason: Seq<char>) -> Option<(Seq<char>, Severity)> {
    let (keyword, severity) = split_severity_spec(trim(reason));
    match reason_message_spec(lower(keyword)) {
        Some(message) => Some((message, severity)),
        None => None,
    }
}

/// Describes one listed reason by its message identifier and severity.
pub fn describe(reason: &Vec<char>) -> (r: Option<(&'static str, Severity)>)
    ensures
        match r {
            Some((message, severity)) => describe_spec(reason@) == Some((message@, severity)),
            None => describe_spec(reason@) is None,
        },
{
    let trimmed = string_of(trim_vec(reason));
    let (keyword, severity) = split_severity(trimmed.as_str());
    let lowered = lower_vec(&chars_of(keyword.as_str()));
    match reason_message(&lowered) {
        Some(message) => Some((message, severity)),
        None => None,
    }
}

/// The reason shown from a list: of the described ones, the most severe,
/// and of equally severe ones the last listed (as `Iterator::max_by_key`
/// picks it).
pub open spec fn worst_of(described: Seq<Option<(Seq<char>, Severity)>>) -> Option<(Seq<char>, Severity)>
    decreases described.len(),
{
    if described.len() == 0 {
        None
    } else {
        let before = worst_of(described.drop_last());
        match described.last() {
            None => before,
            Some(x) => match before {
                None => Some(x),
                Some(b) => if rank(x.1) >= rank(b.1) {
                    Some(x)
                } else {
                    Some(b)
                },
            },
        }
    }
}

/// A severity suffix is read off a reason and the rest is its keyword:
/// `-error` means an error, `-warning` a warning and `-report` a report,
/// and a reason without a suffix is a report.
pub proof fn severity_suffix_is_read(keyword: Seq<char>)
    ensures
        split_severity_spec(keyword + "-error"@) == (keyword, Severity::Error),
        split_severity_spec(keyword + "-warning"@) == (keyword, Severity::Warning),
        split_severity_spec(keyword + "-report"@) == (keyword, Severity::Report),
        !ends_with(keyword, "-error"@) && !ends_with(keyword, "-warning"@) && !ends_with(keyword, "-report"@)
            ==> split_severity_spec(keyword) == (keyword, Severity::Report),
{
    reveal_strlit("-error");
    reveal_strlit("-warning");
    reveal_strlit("-report");
    let e = keyword + "-error"@;
    let w = keyword + "-warning"@;
    let r = keyword + "-report"@;
    assert(e.skip(e.len() - 6) =~= "-error"@);
    assert(e.take(e.len() - 6) =~= keyword);
    assert(w.skip(w.len() - 8) =~= "-warning"@);
    assert(w.take(w.len() - 8) =~= keyword);
    assert(w.skip(w.len() - 6)[0] != "-error"@[0]);
    assert(r.skip(r.len() - 7) =~= "-report"@);
    assert(r.take(r.len() - 7) =~= keyword);
    assert(r.skip(r.len() - 6)[0] != "-error"@[0]);
    if r.len() >= 8 {
        assert(r.skip(r.len() - 8)[1] != "-warning"@[1]);
    }
}

/// The reason shown from a list is one of the described reasons, and none
/// of them is more severe.
pub proof fn worst_is_most_severe(described: Seq<Option<(Seq<char>, Severity)>>)
    ensures
        worst_of(described) is None <==> (forall|k: int| 0 <= k < described.len() ==> #[trigger] described[k] is None),
        worst_of(described) matches Some(w) ==> (exists|k: int| 0 <= k < described.len() && #[trigger] described[k] == Some(w))
            && (forall|k: int| 0 <= k < described.len() && #[trigger] described[k] is Some ==> rank((described[k]->0).1) <= rank(w.1)),
    decreases described.len(),
{
    if described.len() > 0 {
        let init = described.drop_last();
        let last = described.len() - 1;
        worst_is_most_severe(init);
        assert forall|k: int| 0 <= k < init.len() implies #[trigger] init[k] == described[k] by {}
        let before = worst_of(init);
        match described[last] {
            None => {
                assert(worst_of(described) == before);
                if forall|k: int| 0 <= k < init.len() ==> #[trigger] init[k] is None {
                    assert forall|k: int| 0 <= k < described.len() implies #[trigger] described[k] is None by {
                        if k < last {
                            assert(init[k] is None);
                        }
                    }
                }
                if let Some(w) = before {
                    let k0 = choose|k: int| 0 <= k < init.len() && #[trigger] init[k] == Some(w);
                    assert(described[k0] == Some(w));
                    assert forall|k: int| 0 <= k < described.len() && #[trigger] described[k] is Some implies rank(
                        (described[k]->0).1,
                    ) <= rank(w.1) by {
                        assert(k < last);
                        assert(init[k] is Some);
                    }
                }
            },
            Some(x) => {
                assert(described[last] is Some);
                match before {
                    None => {
                        assert(worst_of(described) == Some(x));
                        assert forall|k: int| 0 <= k < described.len() && #[trigger] described[k] is Some implies rank(
                            (described[k]->0).1,
                        ) <= rank(x.1) by {
                            if k < last {
                                assert(init[k] is None);
                            }
                        }
                    },
                    Some(b) => {
                        let k0 = choose|k: int| 0 <= k < init.len() && #[trigger] init[k] == Some(b);
                        assert(described[k0] == Some(b));
                        if rank(x.1) >= rank(b.1) {
                            assert(worst_of(described) == Some(x));
                            assert forall|k: int| 0 <= k < described.len() && #[trigger] described[k] is Some implies rank(
                                (described[k]->0).1,
                            ) <= rank(x.1) by {
                                if k < last {
                                    assert(init[k] is Some);
                                }
                            }
                        } else {
                            assert(worst_of(described) == Some(b));
                            assert forall|k: int| 0 <= k < described.len() && #[trigger] described[k] is Some implies rank(
                                (described[k]->0).1,
                            ) <= rank(b.1) by {
                                if k < last {
                                    assert(init[k] is Some);
                                }
                            }
                        }
                    },
                }
            },
        }
    }
}

/// The worst described reason of a `printer-state-reasons` value.
pub open spec fn worst_spec(reasons: Seq<char>) -> Option<(Seq<char>, Severity)> {
    worst_of(split_on(reasons, seq![',']).map_values(|r: Seq<char>| describe_spec(r)))
}

/// The message and severity of the worst reason in a `printer-state-reasons`
/// value.
pub fn worst_message(reasons: &str) -> (r: Option<(&'static str, Severity)>)
    ensures
        match r {
            Some((message, severity)) => worst_spec(reasons@) == Some((message@, severity)),
            None => worst_spec(reasons@) is None,
        },
{
    let comma = vec![','];
    assert(comma@ =~= seq![',']);
    let pieces = split_on_exec(&chars_of(reasons), &comma);
    let ghost all = split_on(reasons@, seq![',']);
    let ghost described = all.map_values(|r: Seq<char>| describe_spec(r));
    let mut best: Option<(&'static str, Severity)> = None;
    let mut i: usize = 0;
    while i < pieces.len()
        invariant
            i <= pieces.len(),
            pieces.deep_view() == all,
            described == all.map_values(|r: Seq<char>| describe_spec(r)),
            match best {
                Some((m, s)) => worst_of(described.take(i as int)) == Some((m@, s)),
                None => worst_of(described.take(i as int)) is None,
            },
        decreases pieces.len() - i,
    {
        assert(pieces[i as int]@ =~= all[i as int]);
        let d = describe(&pieces[i]);
        proof {
            assert(described.take(i + 1).drop_last() =~= described.take(i as int));
            assert(described.take(i + 1).last() == describe_spec(all[i as int]));
        }
        match d {
            Some((m, s)) => {
                match best {
                    Some((_, bs)) => {
                        if rank_exec(s) >= rank_exec(bs) {
                            best = Some((m, s));
                        }
                    },
                    None => {
                        best = Some((m, s));
                    },
                }
            },
            None => {},
        }
        i += 1;
    }
    assert(described.take(pieces.len() as int) =~= described);
    best
}

/// The `printer-state-reasons` value of a destination; empty without one.
pub open spec fn reasons_of(printer: crate::entry::PrinterEntryView) -> Seq<char> {
    match crate::entry::option_value(printer.options, "printer-state-reasons"@) {
        Some(v) => v,
        None => Seq::empty(),
    }
}

/// Returns the most severe recognized reason a destination reports, worded
/// through the loader; of equally severe reasons the last one listed.
pub fn worst(printer: &crate::entry::PrinterEntry, loader: &FluentLanguageLoader) -> (r: Option<
    Reason,
>)
    ensures
        match r {
            Some(reason) => worst_spec(reasons_of(printer@)) matches Some((_, severity))
                && reason.severity == severity,
            None => worst_spec(reasons_of(printer@)) is None,
        },
{
    let reasons = match printer.option("printer-state-reasons") {
        Some(v) => v,
        None => "",
    };
    proof {
        reveal_strlit("");
    }
    match worst_message(reasons) {
        Some((message, severity)) => Some(Reason { text: localized(loader, message), severity }),
        None => None,
    }
}

} // verus!
