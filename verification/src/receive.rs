//! The receiving side of a transfer: the per-file bookkeeping, the session,
//! and the receive error taxonomy with its HTTP mapping.
use vstd::prelude::*;

use crate::device::{Device, DeviceView};
use crate::dto::{FileDto, FileDtoView};
use crate::files::FileStatus;

verus! {

/// Errors of the receive engine. Each maps to one HTTP status.
#[derive(Debug)]
pub enum ReceiveError {
    EmptyFiles,
    InvalidIp(String),
    InvalidParameters,
    InvalidRecipient,
    InvalidSessionId,
    InvalidServerState,
    InvalidToken,
    NothingSelected,
    SaveFileFailed,
    SessionBlocked,
    SessionDeclined,
    SessionNotExists,
    Cancelled,
}

impl ReceiveError {
    /// The HTTP status this error is answered with.
    pub open spec fn spec_http_status(&self) -> u16 {
        match self {
            ReceiveError::Cancelled => 200,
            ReceiveError::EmptyFiles => 400,
            ReceiveError::InvalidParameters => 400,
            ReceiveError::InvalidIp(_) => 403,
            ReceiveError::InvalidSessionId => 403,
            ReceiveError::InvalidToken => 403,
            ReceiveError::SessionDeclined => 403,
            ReceiveError::NothingSelected => 204,
            ReceiveError::InvalidRecipient => 409,
            ReceiveError::SessionBlocked => 409,
            ReceiveError::SessionNotExists => 409,
            ReceiveError::InvalidServerState => 500,
            ReceiveError::SaveFileFailed => 500,
        }
    }

    /// The HTTP status this error is answered with.
    pub fn http_status(&self) -> (s: u16)
        ensures
            s == self.spec_http_status(),
    {
        match self {
            ReceiveError::Cancelled => 200,
            ReceiveError::EmptyFiles => 400,
            ReceiveError::InvalidParameters => 400,
            ReceiveError::InvalidIp(_) => 403,
            ReceiveError::InvalidSessionId => 403,
            ReceiveError::InvalidToken => 403,
            ReceiveError::SessionDeclined => 403,
            ReceiveError::NothingSelected => 204,
            ReceiveError::InvalidRecipient => 409,
            ReceiveError::SessionBlocked => 409,
            ReceiveError::SessionNotExists => 409,
            ReceiveError::InvalidServerState => 500,
            ReceiveError::SaveFileFailed => 500,
        }
    }

    /// The human-readable message of this error.
    pub open spec fn spec_message(&self) -> Seq<char> {
        match self {
            ReceiveError::EmptyFiles => "Request must contain at least one file"@,
            ReceiveError::InvalidIp(ip) => "Invalid IP address: "@ + ip@,
            ReceiveError::InvalidParameters => "Missing parameters"@,
            ReceiveError::InvalidRecipient => "Recipient is in wrong state"@,
            ReceiveError::InvalidSessionId => "Invalid session id"@,
            ReceiveError::InvalidServerState => "Server is in invalid state"@,
            ReceiveError::InvalidToken => "Invalid token"@,
            ReceiveError::NothingSelected => "Nothing selected"@,
            ReceiveError::SaveFileFailed => "Could not save file"@,
            ReceiveError::SessionBlocked => "Blocked by another session"@,
            ReceiveError::SessionDeclined => "File request declined by recipient"@,
            ReceiveError::SessionNotExists => "No session"@,
            ReceiveError::Cancelled => "Cancelled"@,
        }
    }

    /// The human-readable message of this error.
    pub fn message(&self) -> (m: String)
        ensures
            m@ == self.spec_message(),
    {
        match self {
            ReceiveError::EmptyFiles => String::from_str("Request must contain at least one file"),
            ReceiveError::InvalidIp(ip) => {
                let mut m = String::from_str("Invalid IP address: ");
                m.append(ip.as_str());
                m
            },
            ReceiveError::InvalidParameters => String::from_str("Missing parameters"),
            ReceiveError::InvalidRecipient => String::from_str("Recipient is in wrong state"),
            ReceiveError::InvalidSessionId => String::from_str("Invalid session id"),
            ReceiveError::InvalidServerState => String::from_str("Server is in invalid state"),
            ReceiveError::InvalidToken => String::from_str("Invalid token"),
            ReceiveError::NothingSelected => String::from_str("Nothing selected"),
            ReceiveError::SaveFileFailed => String::from_str("Could not save file"),
            ReceiveError::SessionBlocked => String::from_str("Blocked by another session"),
            ReceiveError::SessionDeclined => String::from_str(
                "File request declined by recipient",
            ),
            ReceiveError::SessionNotExists => String::from_str("No session"),
            ReceiveError::Cancelled => String::from_str("Cancelled"),
        }
    }
}

/// One file expected from the sender. The token is the file's one-shot
/// upload credential: it is present exactly while an upload of this file is
/// still owed, and is cleared when the first upload of it begins.
#[derive(Clone, Debug)]
pub struct ReceivingFile {
    pub file: FileDto,
    pub status: FileStatus,
    pub token: Option<String>,
}

/// Mathematical image of a [`ReceivingFile`].
pub ghost struct ReceivingFileView {
    pub file: FileDtoView,
    pub status: FileStatus,
    pub token: Option<Seq<char>>,
}

impl View for ReceivingFile {
    type V = ReceivingFileView;

    open spec fn view(&self) -> ReceivingFileView {
        ReceivingFileView {
            file: self.file@,
            status: self.status,
            token: self.token.deep_view(),
        }
    }
}

impl DeepView for ReceivingFile {
    type V = ReceivingFileView;

    open spec fn deep_view(&self) -> ReceivingFileView {
        self.view()
    }
}

/// Phase of a receive session: `Waiting` between the prepare request and
/// the acceptance decision, `Sending` while uploads are owed.
#[derive(Clone, Copy, Debug, PartialEq, Eq, Structural)]
pub enum ReceiveSessionStatus {
    Waiting,
    Sending,
}

/// An inbound transfer agreed with one sender.
#[derive(Debug)]
pub struct ReceiveSession {
    pub session_id: String,
    pub status: ReceiveSessionStatus,
    pub sender: Device,
    pub files: Vec<ReceivingFile>,
    pub destination_directory: String,
}

/// Mathematical image of a [`ReceiveSession`].
pub ghost struct ReceiveSessionView {
    pub session_id: Seq<char>,
    pub status: ReceiveSessionStatus,
    pub sender: DeviceView,
    pub files: Seq<ReceivingFileView>,
    pub destination_directory: Seq<char>,
}

impl View for ReceiveSession {
    type V = ReceiveSessionView;

    open spec fn view(&self) -> ReceiveSessionView {
        ReceiveSessionView {
            session_id: self.session_id@,
            status: self.status,
            sender: self.sender@,
            files: self.files.deep_view(),
            destination_directory: self.destination_directory@,
        }
    }
}

impl ReceiveSessionView {
    /// File ids are unique within the session.
    pub open spec fn wf(self) -> bool {
        forall|i: int, j: int|
            0 <= i < self.files.len() && 0 <= j < self.files.len() && i != j
                ==> (#[trigger] self.files[i]).file.id != (#[trigger] self.files[j]).file.id
    }

    /// Whether the session expects a file with this id.
    pub open spec fn has_file(self, id: Seq<char>) -> bool {
        exists|i: int| 0 <= i < self.files.len() && (#[trigger] self.files[i]).file.id == id
    }

    /// The position of the file with this id.
    pub open spec fn file_index(self, id: Seq<char>) -> int {
        choose|i: int| 0 <= i < self.files.len() && (#[trigger] self.files[i]).file.id == id
    }

    /// Whether every file has reached a terminal status.
    pub open spec fn all_terminal(self) -> bool {
        forall|i: int|
            0 <= i < self.files.len()
                ==> ((#[trigger] self.files[i]).status == FileStatus::Finished
                || self.files[i].status == FileStatus::Failed)
    }
}

} // verus!
