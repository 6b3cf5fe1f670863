//! The sending side of a transfer: the send error taxonomy, response
//! classification, progress accounting, and the outbound session.
use vstd::prelude::*;
use vstd::string::StringSliceAdditionalSpecFns;

use crate::device::{Device, DeviceView};
use crate::dto::{PrepareUploadRequestDto, RegisterDto, RegisterDtoView};
use crate::files::{
    entries_wf, spec_apply_token, spec_token_lookup, SendingFile, SendingFileView, SendingFiles,
};
use crate::route::ApiRoute;
use crate::text::dec_of;

verus! {

/// Errors of the send engine.
#[derive(Debug)]
pub enum SendError {
    NothingSelected,
    Rejected,
    Busy,
    Cancelled,
    NoPermission,
    Aborted,
    InvalidBody,
    Unknown(u16),
}

impl SendError {
    /// The HTTP status this error is answered with when it surfaces from
    /// the local cancel endpoint.
    pub open spec fn spec_http_status(&self) -> u16 {
        match self {
            SendError::NoPermission => 403,
            _ => 500,
        }
    }

    /// The HTTP status this error is answered with.
    pub fn http_status(&self) -> (s: u16)
        ensures
            s == self.spec_http_status(),
    {
        match self {
            SendError::NoPermission => 403,
            _ => 500,
        }
    }

    /// The human-readable message of this error.
    pub open spec fn spec_message(&self) -> Seq<char> {
        match self {
            SendError::NothingSelected => "Nothing selected"@,
            SendError::Rejected => "The recipient has rejected the request"@,
            SendError::Busy => "The recipient is busy with another request"@,
            SendError::Cancelled => "Cancelled by receiver"@,
            SendError::NoPermission => "No permission"@,
            SendError::Aborted => "Aborted"@,
            SendError::InvalidBody => "Invalid response body"@,
            SendError::Unknown(c) => "Unknown response status code: "@ + dec_of(*c as nat),
        }
    }

    /// The human-readable message of this error.
    pub fn message(&self) -> (m: String)
        ensures
            m@ == self.spec_message(),
    {
        match self {
            SendError::NothingSelected => String::from_str("Nothing selected"),
            SendError::Rejected => String::from_str("The recipient has rejected the request"),
            SendError::Busy => String::from_str("The recipient is busy with another request"),
            SendError::Cancelled => String::from_str("Cancelled by receiver"),
            SendError::NoPermission => String::from_str("No permission"),
            SendError::Aborted => String::from_str("Aborted"),
            SendError::InvalidBody => String::from_str("Invalid response body"),
            SendError::Unknown(c) => {
                let mut m = String::from_str("Unknown response status code: ");
                crate::text::append_u64(&mut m, *c as u64);
                m
            },
        }
    }
}

/// What a prepare-upload response status means to the sender.
pub fn classify_prepare_status(status: u16) -> (r: Result<(), SendError>)
    ensures
        status == 200 ==> r is Ok,
        status == 204 ==> r == Err::<(), SendError>(SendError::NothingSelected),
        status == 403 ==> r == Err::<(), SendError>(SendError::Rejected),
        status == 409 ==> r == Err::<(), SendError>(SendError::Busy),
        status != 200 && status != 204 && status != 403 && status != 409 ==> r == Err::<
            (),
            SendError,
        >(SendError::Unknown(status)),
{
    if status == 200 {
        Ok(())
    } else if status == 204 {
        Err(SendError::NothingSelected)
    } else if status == 403 {
        Err(SendError::Rejected)
    } else if status == 409 {
        Err(SendError::Busy)
    } else {
        Err(SendError::Unknown(status))
    }
}

/// What an upload response status means to the sender.
pub fn classify_upload_status(status: u16) -> (r: Result<(), SendError>)
    ensures
        status == 200 ==> r is Ok,
        status != 200 ==> r == Err::<(), SendError>(SendError::Unknown(status)),
{
    if status == 200 {
        Ok(())
    } else {
        Err(SendError::Unknown(status))
    }
}

/// What a cancel response status means to the sender.
pub fn classify_cancel_status(status: u16) -> (r: Result<(), SendError>)
    ensures
        status == 200 ==> r is Ok,
        status == 403 ==> r == Err::<(), SendError>(SendError::NoPermission),
        status != 200 && status != 403 ==> r == Err::<(), SendError>(SendError::Unknown(status)),
{
    if status == 200 {
        Ok(())
    } else if status == 403 {
        Err(SendError::NoPermission)
    } else {
        Err(SendError::Unknown(status))
    }
}

/// One progress report of a running upload: how many bytes of `file_id`
/// have been moved, and whether that completes the file.
#[derive(Debug, Clone)]
pub struct UploadProgress {
    pub file_id: String,
    pub position: u64,
    pub finish: bool,
}

/// Mathematical image of an [`UploadProgress`].
pub ghost struct UploadProgressView {
    pub file_id: Seq<char>,
    pub position: u64,
    pub finish: bool,
}

impl View for UploadProgress {
    type V = UploadProgressView;

    open spec fn view(&self) -> UploadProgressView {
        UploadProgressView { file_id: self.file_id@, position: self.position, finish: self.finish }
    }
}

/// The byte position after one more chunk: capped at the file size.
pub open spec fn spec_next_pos(uploaded: u64, chunk: u64, size: u64) -> u64 {
    if uploaded + chunk >= size {
        size
    } else {
        (uploaded + chunk) as u64
    }
}

/// The progress report after one more chunk of `chunk` bytes.
pub fn progress_step(file_id: &String, uploaded: u64, chunk: u64, size: u64) -> (p: UploadProgress)
    requires
        uploaded <= size,
    ensures
        p.file_id@ == file_id@,
        p.position == spec_next_pos(uploaded, chunk, size),
        p.finish == (p.position >= size),
{
    let position: u64 = if chunk >= size - uploaded {
        size
    } else {
        uploaded + chunk
    };
    UploadProgress { file_id: file_id.clone(), position, finish: position >= size }
}

/// Total of a chunk sequence.
pub open spec fn chunk_sum(chunks: Seq<u64>) -> int
    decreases chunks.len(),
{
    if chunks.len() == 0 {
        0
    } else {
        chunk_sum(chunks.drop_last()) + chunks.last()
    }
}

/// The positions reported for a file of `size` bytes as the chunks of
/// `chunks` are moved one by one.
pub open spec fn spec_positions(chunks: Seq<u64>, size: u64) -> Seq<u64>
    decreases chunks.len(),
{
    if chunks.len() == 0 {
        Seq::empty()
    } else {
        let prev = spec_positions(chunks.drop_last(), size);
        let last_pos: u64 = if prev.len() == 0 {
            0
        } else {
            prev.last()
        };
        prev.push(spec_next_pos(last_pos, chunks.last(), size))
    }
}

proof fn lemma_chunk_sum_take(chunks: Seq<u64>, i: int)
    requires
        0 <= i <= chunks.len(),
    ensures
        chunk_sum(chunks.take(i)) <= chunk_sum(chunks.take(i + 1)) || i == chunks.len(),
        chunk_sum(chunks.take(i)) >= 0,
    decreases i,
{
    if i < chunks.len() {
        assert(chunks.take(i + 1).drop_last() =~= chunks.take(i));
    }
    if i > 0 {
        lemma_chunk_sum_take(chunks, i - 1);
        assert(chunks.take(i).drop_last() =~= chunks.take(i - 1));
    }
}

proof fn lemma_chunk_sum_mono(chunks: Seq<u64>, a: int, b: int)
    requires
        0 <= a <= b <= chunks.len(),
    ensures
        chunk_sum(chunks.take(a)) <= chunk_sum(chunks.take(b)),
    decreases b - a,
{
    if a < b {
        lemma_chunk_sum_mono(chunks, a, b - 1);
        assert(chunks.take(b).drop_last() =~= chunks.take(b - 1));
    }
}

proof fn lemma_positions_are_capped_sums(chunks: Seq<u64>, size: u64)
    ensures
        spec_positions(chunks, size).len() == chunks.len(),
        forall|i: int|
            0 <= i < chunks.len() ==> #[trigger] spec_positions(chunks, size)[i] == (if chunk_sum(
                chunks.take(i + 1),
            ) >= size {
                size as int
            } else {
                chunk_sum(chunks.take(i + 1))
            }),
    decreases chunks.len(),
{
    if chunks.len() > 0 {
        let n = chunks.len() as int;
        lemma_positions_are_capped_sums(chunks.drop_last(), size);
        assert(chunks.take(n) =~= chunks);
        assert forall|i: int| 0 <= i < n - 1 implies #[trigger] chunks.drop_last().take(i + 1)
            =~= chunks.take(i + 1) by {}
        lemma_chunk_sum_take(chunks, n - 1);
        assert(chunks.take(n - 1) =~= chunks.drop_last());
        assert(chunks.take(n).drop_last() =~= chunks.take(n - 1));
    }
}

/// The law of progress accounting: for a file of `size` bytes, the reported
/// positions never decrease, never pass the file size, and — once the
/// chunks moved cover the whole file — end exactly at `size`, which is the
/// one position reported as finished.
pub proof fn lemma_progress_monotone_and_complete(chunks: Seq<u64>, size: u64)
    ensures
        spec_positions(chunks, size).len() == chunks.len(),
        forall|i: int, j: int|
            0 <= i <= j < chunks.len() ==> #[trigger] spec_positions(chunks, size)[i]
                <= #[trigger] spec_positions(chunks, size)[j],
        forall|i: int| 0 <= i < chunks.len() ==> #[trigger] spec_positions(chunks, size)[i] <= size,
        chunks.len() > 0 && chunk_sum(chunks) >= size ==> spec_positions(chunks, size).last()
            == size,
        forall|i: int|
            0 <= i < chunks.len() ==> ((#[trigger] spec_positions(chunks, size)[i] >= size) == (
            spec_positions(chunks, size)[i] == size)),
{
    lemma_positions_are_capped_sums(chunks, size);
    assert forall|i: int, j: int|
        0 <= i <= j < chunks.len() implies #[trigger] spec_positions(chunks, size)[i]
        <= #[trigger] spec_positions(chunks, size)[j] by {
        lemma_chunk_sum_mono(chunks, i + 1, j + 1);
    }
    assert forall|i: int| 0 <= i < chunks.len() implies #[trigger] spec_positions(chunks, size)[i]
        <= size by {
        lemma_chunk_sum_take(chunks, i + 1);
    }
    if chunks.len() > 0 && chunk_sum(chunks) >= size {
        assert(chunks.take(chunks.len() as int) =~= chunks);
    }
}

/// An outbound transfer towards one receiver. `worker_started` stands for
/// the running upload task whose handle the surrounding application holds:
/// only a session whose worker runs can be cancelled.
#[derive(Debug)]
pub struct SendSession {
    pub session_id: String,
    pub info: RegisterDto,
    pub target: Device,
    pub files: SendingFiles,
    pub remote_session_id: Option<String>,
    pub worker_started: bool,
}

/// Mathematical image of a [`SendSession`].
pub ghost struct SendSessionView {
    pub session_id: Seq<char>,
    pub info: RegisterDtoView,
    pub target: DeviceView,
    pub files: Seq<(Seq<char>, SendingFileView)>,
    pub remote_session_id: Option<Seq<char>>,
    pub worker_started: bool,
}

impl View for SendSession {
    type V = SendSessionView;

    open spec fn view(&self) -> SendSessionView {
        SendSessionView {
            session_id: self.session_id@,
            info: self.info@,
            target: self.target@,
            files: self.files@,
            remote_session_id: self.remote_session_id.deep_view(),
            worker_started: self.worker_started,
        }
    }
}

/// The upload URL of one file: the upload route on the peer plus the
/// file id, its token, and — when the receiver issued one — the remote
/// session id.
pub open spec fn spec_upload_url(
    target: DeviceView,
    remote_session_id: Option<Seq<char>>,
    f: SendingFileView,
) -> Seq<char> {
    ApiRoute::Upload.spec_target(target.ip, target.port, target.https, target.version)
        + "?fileId="@ + f.file.id + "&token="@ + (match f.token {
        Some(t) => t,
        None => Seq::empty(),
    }) + (match remote_session_id {
        Some(s) => "&sessionId="@ + s,
        None => Seq::empty(),
    })
}

/// The cancel URL of a session: the cancel route on the peer plus the
/// remote session id when the receiver issued one.
pub open spec fn spec_cancel_url(
    target: DeviceView,
    remote_session_id: Option<Seq<char>>,
) -> Seq<char> {
    ApiRoute::Cancel.spec_target(target.ip, target.port, target.https, target.version) + (
    match remote_session_id {
        Some(s) => "?sessionId="@ + s,
        None => Seq::empty(),
    })
}

impl Clone for RegisterDto {
    fn clone(&self) -> (r: Self)
        ensures
            r == *self,
    {
        RegisterDto {
            alias: self.alias.clone(),
            version: crate::dto::clone_opt_string(&self.version),
            device_model: crate::dto::clone_opt_string(&self.device_model),
            device_type: self.device_type,
            fingerprint: self.fingerprint.clone(),
            port: self.port,
            protocol: self.protocol,
            download: self.download,
        }
    }
}

impl SendSession {
    /// A fresh outbound session towards `target`, registering ourselves as
    /// `device` and offering `files`.
    pub fn new(device: &Device, target: Device, files: &SendingFiles) -> (r: Self)
        ensures
            r.session_id@.len() == 36,
            r.info@ == RegisterDto::spec_of_device(device@),
            r.target == target,
            r.files@ == files@,
            r.remote_session_id is None,
            r.worker_started == false,
    {
        SendSession {
            session_id: crate::outside::uuid_v4(),
            info: RegisterDto::of_device(device.clone()),
            target,
            files: files.clone(),
            remote_session_id: None,
            worker_started: false,
        }
    }

    /// The prepare-upload request this session opens with.
    pub fn prepare_request(&self) -> (r: PrepareUploadRequestDto)
        ensures
            r@.info == self.info@,
            r@.files.len() == self.files@.len(),
            forall|i: int|
                0 <= i < self.files@.len() ==> r@.files[i] == (#[trigger] self.files@[i]).1.file,
    {
        PrepareUploadRequestDto { info: self.info.clone(), files: self.files.to_dto_map() }
    }

    /// Applies the receiver's prepare response: records the remote session
    /// id when one came (version 2), and marks every offered file accepted
    /// or skipped. An empty token map means nothing was selected.
    pub fn apply_prepare_tokens(
        &mut self,
        remote_session_id: Option<String>,
        tokens: &Vec<(String, String)>,
    ) -> (r: Result<(), SendError>)
        requires
            entries_wf(old(self).files@),
        ensures
            final(self).session_id == old(self).session_id,
            final(self).info == old(self).info,
            final(self).target == old(self).target,
            final(self).worker_started == old(self).worker_started,
            final(self).remote_session_id.deep_view() == (match remote_session_id {
                Some(s) => Some(s@),
                None => old(self).remote_session_id.deep_view(),
            }),
            tokens.deep_view().len() == 0 ==> r == Err::<(), SendError>(SendError::NothingSelected)
                && final(self).files@ == old(self).files@,
            tokens.deep_view().len() > 0 ==> r is Ok && final(self).files@.len()
                == old(self).files@.len() && (forall|i: int|
                0 <= i < old(self).files@.len() ==> (#[trigger] final(self).files@[i]).0 == old(self).files@[i].0 && final(self).files@[i].1 == spec_apply_token(
                    old(self).files@[i].1,
                    spec_token_lookup(tokens.deep_view(), old(self).files@[i].0),
                )),
    {
        if let Some(sid) = remote_session_id {
            self.remote_session_id = Some(sid);
        }
        if tokens.len() == 0 {
            return Err(SendError::NothingSelected);
        }
        self.files.update_token(tokens);
        Ok(())
    }

    /// The URL one file of this session is uploaded to.
    pub fn upload_url(&self, f: &SendingFile) -> (r: String)
        requires
            f@.token is Some,
        ensures
            r@ == spec_upload_url(self.target@, self.remote_session_id.deep_view(), f@),
    {
        let mut url = ApiRoute::Upload.target(&self.target);
        url.append("?fileId=");
        url.append(f.file.id.as_str());
        url.append("&token=");
        match &f.token {
            Some(t) => url.append(t.as_str()),
            None => (),
        }
        match &self.remote_session_id {
            Some(s) => {
                url.append("&sessionId=");
                url.append(s.as_str());
            },
            None => (),
        }
        proof {
            assert(url@ =~= spec_upload_url(self.target@, self.remote_session_id.deep_view(), f@));
        }
        url
    }

    /// How a cancellation is carried out: `NoPermission` when no worker
    /// runs; otherwise, the cancel URL to post to when the cancellation
    /// originates from this sender, and nothing to post when the receiver
    /// asked for it. Either way the caller then aborts the worker.
    pub fn cancel_plan(&self, from_sender: bool) -> (r: Result<Option<String>, SendError>)
        ensures
            !self.worker_started ==> r == Err::<Option<String>, SendError>(SendError::NoPermission),
            self.worker_started && from_sender ==> (r matches Ok(Some(u)) && u@ == spec_cancel_url(
                self.target@,
                self.remote_session_id.deep_view(),
            )),
            self.worker_started && !from_sender ==> (r matches Ok(None)),
    {
        if !self.worker_started {
            return Err(SendError::NoPermission);
        }
        if from_sender {
            let mut url = ApiRoute::Cancel.target(&self.target);
            match &self.remote_session_id {
                Some(s) => {
                    url.append("?sessionId=");
                    url.append(s.as_str());
                },
                None => (),
            }
            proof {
                assert(url@ =~= spec_cancel_url(self.target@, self.remote_session_id.deep_view()));
            }
            Ok(Some(url))
        } else {
            Ok(None)
        }
    }
}


impl SendSession {
    /// Handles the prepare-upload response: a non-200 status is classified
    /// as the matching send error; a 200 body is parsed — in canonical or
    /// loose member order — as the enveloped response, whose session id
    /// becomes the remote session id, for a version 2 peer, and as the
    /// bare token map for every other peer version (unrecognized versions
    /// degrade to version 1); then every offered file is marked accepted
    /// or skipped.
    pub fn handle_prepare_response(&mut self, status: u16, body: &str) -> (r: Result<
        (),
        SendError,
    >)
        requires
            entries_wf(old(self).files@),
        ensures
            final(self).session_id == old(self).session_id,
            final(self).info == old(self).info,
            final(self).target == old(self).target,
            final(self).worker_started == old(self).worker_started,
            status != 200 ==> r is Err && final(self).files == old(self).files && final(self).remote_session_id == old(self).remote_session_id,
            status == 204 ==> r == Err::<(), SendError>(SendError::NothingSelected),
            status == 403 ==> r == Err::<(), SendError>(SendError::Rejected),
            status == 409 ==> r == Err::<(), SendError>(SendError::Busy),
            status != 200 && status != 204 && status != 403 && status != 409 ==> r == Err::<
                (),
                SendError,
            >(SendError::Unknown(status)),
            status == 200 && old(self).target.version@ != "2.0"@ ==> (match crate::json::sp_token_map_any(
                body@,
            ) {
                Some(pairs) => spec_tokens_applied(*old(self), *final(self), None, pairs, r),
                None => r == Err::<(), SendError>(SendError::InvalidBody) && *final(self) == *old(self),
            }),
            status == 200 && old(self).target.version@ == "2.0"@ ==> (match crate::json::sp_prepare_response_any(
                body@,
            ) {
                Some(resp) => spec_tokens_applied(
                    *old(self),
                    *final(self),
                    Some(resp.session_id),
                    resp.files,
                    r,
                ),
                None => r == Err::<(), SendError>(SendError::InvalidBody) && *final(self) == *old(self),
            }),
    {
        if status != 200 {
            return match classify_prepare_status(status) {
                Ok(()) => Err(SendError::Unknown(status)),
                Err(e) => Err(e),
            };
        }
        if crate::text::str_eq(self.target.version.as_str(), "2.0") {
            match crate::json::parse_prepare_response(body) {
                Some(resp) => self.apply_prepare_tokens(Some(resp.session_id), &resp.files),
                None => Err(SendError::InvalidBody),
            }
        } else {
            match crate::json::parse_token_map(body) {
                Some(pairs) => self.apply_prepare_tokens(None, &pairs),
                None => Err(SendError::InvalidBody),
            }
        }
    }
}

/// How a session looks after the receiver's tokens were applied: the
/// remote session id recorded when one came, `NothingSelected` for an
/// empty token map, and otherwise each offered file accepted with its
/// token or skipped.
pub open spec fn spec_tokens_applied(
    before: SendSession,
    after: SendSession,
    remote_session_id: Option<Seq<char>>,
    tokens: Seq<(Seq<char>, Seq<char>)>,
    r: Result<(), SendError>,
) -> bool {
    &&& after.remote_session_id.deep_view() == (match remote_session_id {
        Some(sid) => Some(sid),
        None => before.remote_session_id.deep_view(),
    })
    &&& tokens.len() == 0 ==> r == Err::<(), SendError>(SendError::NothingSelected)
        && after.files@ == before.files@
    &&& tokens.len() > 0 ==> r is Ok && after.files@.len() == before.files@.len() && (forall|
        i: int,
    |
        0 <= i < before.files@.len() ==> (#[trigger] after.files@[i]).0 == before.files@[i].0
            && after.files@[i].1 == spec_apply_token(
            before.files@[i].1,
            spec_token_lookup(tokens, before.files@[i].0),
        ))
}


/// Where one file's upload body comes from: streamed from its source path,
/// or the inline text preview's bytes.
pub enum UploadBody {
    FromPath(String),
    Inline(Vec<u8>),
}

/// The body source of one file. A file without a source path is only
/// sendable when it is inline text carrying its preview.
pub fn upload_body(f: &SendingFile) -> (r: UploadBody)
    requires
        f@.path is Some || (f@.file.file_type == crate::dto::FileType::Text
            && f@.file.preview is Some),
    ensures
        match r {
            UploadBody::FromPath(p) => f@.path == Some(p@),
            UploadBody::Inline(b) => f@.path is None && (f@.file.preview matches Some(t) && b@
                == vstd::utf8::encode_utf8(t)),
        },
{
    match &f.path {
        Some(p) => UploadBody::FromPath(p.clone()),
        None => match &f.file.preview {
            Some(t) => UploadBody::Inline(t.as_str().as_bytes_vec()),
            None => {
                proof {
                    assert(false);
                }
                UploadBody::Inline(Vec::new())
            },
        },
    }
}

} // verus!
