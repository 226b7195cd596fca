//! The state of the update check shown in the settings, and what it displays.
use vstd::prelude::*;
use crate::text::{str_eq, string_of};

verus! {

/// What the updater found.
pub struct UpdateInfo {
    pub version: String,
    pub release_notes: String,
}

/// The outcome of one update check.
pub enum UpdateCheckResult {
    NoUpdate,
    UpdateAvailable(UpdateInfo),
    Error(String),
}

/// Where the update check stands.
pub enum UpdateStatus {
    Idle,
    Checking,
    Available { version: String, notes: String },
    NoUpdate,
    Error(String),
}

/// The abstract value of an `UpdateStatus`.
pub enum UpdateStatusView {
    Idle,
    Checking,
    Available { version: Seq<char>, notes: Seq<char> },
    NoUpdate,
    Error(Seq<char>),
}

impl View for UpdateStatus {
    type V = UpdateStatusView;

    open spec fn view(&self) -> UpdateStatusView {
        match self {
            UpdateStatus::Idle => UpdateStatusView::Idle,
            UpdateStatus::Checking => UpdateStatusView::Checking,
            UpdateStatus::Available { version, notes } => UpdateStatusView::Available {
                version: version@,
                notes: notes@,
            },
            UpdateStatus::NoUpdate => UpdateStatusView::NoUpdate,
            UpdateStatus::Error(e) => UpdateStatusView::Error(e@),
        }
    }
}

/// The status that an outcome of the check leads to.
pub open spec fn status_of_result(result: UpdateCheckResult) -> UpdateStatusView {
    match result {
        UpdateCheckResult::NoUpdate => UpdateStatusView::NoUpdate,
        UpdateCheckResult::UpdateAvailable(info) => UpdateStatusView::Available {
            version: info.version@,
            notes: info.release_notes@,
        },
        UpdateCheckResult::Error(e) => UpdateStatusView::Error(e@),
    }
}

/// The status shown once a check has finished with `result`.
pub fn status_after_check(result: UpdateCheckResult) -> (r: UpdateStatus)
    ensures
        r@ == status_of_result(result),
{
    match result {
        UpdateCheckResult::NoUpdate => UpdateStatus::NoUpdate,
        UpdateCheckResult::UpdateAvailable(info) => UpdateStatus::Available {
            version: info.version,
            notes: info.release_notes,
        },
        UpdateCheckResult::Error(e) => UpdateStatus::Error(e),
    }
}

/// Starts a check: the status becomes `Checking`.
pub fn begin_update_check(status: &mut UpdateStatus)
    ensures
        final(status)@ == UpdateStatusView::Checking,
{
    *status = UpdateStatus::Checking;
}

/// The icon shown beside the update status.
#[derive(PartialEq, Eq, Structural, Clone, Copy, Debug)]
pub enum UpdateIcon {
    Check,
    LoaderCircle,
    ArrowDown,
    CircleX,
}

/// What the settings show for an update status: an icon, the key of the message,
/// the value put into the message, and the release notes when there are any.
pub struct UpdateStatusLine {
    pub icon: UpdateIcon,
    pub message_key: &'static str,
    pub argument: Option<String>,
    pub notes: Option<String>,
}

/// The line shown for `status`.
pub fn update_status_line(status: &UpdateStatus) -> (r: UpdateStatusLine)
    ensures
        match status@ {
            UpdateStatusView::Idle => r.icon == UpdateIcon::Check
                && r.message_key@ == "settings.update.status.up_to_date"@ && r.argument is None
                && r.notes is None,
            UpdateStatusView::NoUpdate => r.icon == UpdateIcon::Check
                && r.message_key@ == "settings.update.status.up_to_date"@ && r.argument is None
                && r.notes is None,
            UpdateStatusView::Checking => r.icon == UpdateIcon::LoaderCircle
                && r.message_key@ == "settings.update.status.checking"@ && r.argument is None
                && r.notes is None,
            UpdateStatusView::Available { version, notes } => r.icon == UpdateIcon::ArrowDown
                && r.message_key@ == "settings.update.status.available"@
                && r.argument is Some && r.argument->0@ == version
                && (r.notes is Some <==> notes.len() > 0)
                && (r.notes is Some ==> r.notes->0@ == notes),
            UpdateStatusView::Error(e) => r.icon == UpdateIcon::CircleX
                && r.message_key@ == "settings.update.status.error"@
                && r.argument is Some && r.argument->0@ == e
                && r.notes is None,
        },
{
    match status {
        UpdateStatus::Idle => UpdateStatusLine {
            icon: UpdateIcon::Check,
            message_key: "settings.update.status.up_to_date",
            argument: None,
            notes: None,
        },
        UpdateStatus::NoUpdate => UpdateStatusLine {
            icon: UpdateIcon::Check,
            message_key: "settings.update.status.up_to_date",
            argument: None,
            notes: None,
        },
        UpdateStatus::Checking => UpdateStatusLine {
            icon: UpdateIcon::LoaderCircle,
            message_key: "settings.update.status.checking",
            argument: None,
            notes: None,
        },
        UpdateStatus::Available { version, notes } => {
            let shown = if str_eq(notes.as_str(), "") {
                None
            } else {
                Some(string_of(notes.as_str()))
            };
            proof {
                reveal_strlit("");
                if notes@.len() == 0 {
                    assert(notes@ =~= ""@);
                }
            }
            UpdateStatusLine {
                icon: UpdateIcon::ArrowDown,
                message_key: "settings.update.status.available",
                argument: Some(string_of(version.as_str())),
                notes: shown,
            }
        },
        UpdateStatus::Error(e) => UpdateStatusLine {
            icon: UpdateIcon::CircleX,
            message_key: "settings.update.status.error",
            argument: Some(string_of(e.as_str())),
            notes: None,
        },
    }
}

} // verus!
