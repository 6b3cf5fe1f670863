//! The shared endpoint state and the decision logic of the receive
//! engine's three endpoints: prepare-upload, upload and cancel. The
//! surrounding application performs the HTTP and file I/O between these
//! steps; every decision about sessions, tokens and statuses is made here.
use vstd::prelude::*;

use crate::device::Settings;
use crate::dto::{FileDto, FileDtoView, PrepareUploadResponseDto};
use crate::files::FileStatus;
use crate::receive::{
    ReceiveError, ReceiveSession, ReceiveSessionStatus, ReceiveSessionView, ReceivingFile,
    ReceivingFileView,
};
use crate::send::{SendError, SendSession};
use crate::text::str_eq;

verus! {

/// What the receive engine tells the surrounding user interface: the files
/// a sender offers, for selection.
#[derive(Debug)]
pub enum ServerMessage {
    SelectedFiles(Vec<FileDto>),
}

/// What the user interface answers: the accepted subset, or a refusal.
#[derive(Debug)]
pub enum ClientMessage {
    FilesSelected(Vec<FileDto>),
    Declined,
}

/// The process-wide state: the receiver policy and at most one receive and
/// one send session. All access happens under the surrounding
/// application's one lock.
#[derive(Debug)]
pub struct ServerState {
    pub settings: Settings,
    pub receive_session: Option<ReceiveSession>,
    pub send_session: Option<SendSession>,
}

impl ServerState {
    /// The state invariant: an installed receive session has unique file
    /// ids.
    pub open spec fn inv(&self) -> bool {
        match self.receive_session {
            Some(s) => s@.wf(),
            None => true,
        }
    }

    /// A fresh state: default settings, no sessions.
    pub fn new() -> (r: Self)
        ensures
            r.receive_session is None,
            r.send_session is None,
            r.settings.destination@ == "."@,
            r.settings.quick_save == false,
            r.inv(),
    {
        ServerState {
            settings: Settings::default(),
            receive_session: None,
            send_session: None,
        }
    }
}

/// A copy of a file list.
pub fn clone_files(v: &Vec<FileDto>) -> (r: Vec<FileDto>)
    ensures
        r.deep_view() == v.deep_view(),
{
    let mut r: Vec<FileDto> = Vec::new();
    let mut i: usize = 0;
    while i < v.len()
        invariant
            i <= v.len(),
            r.deep_view().len() == i,
            forall|j: int| 0 <= j < i ==> r.deep_view()[j] == v.deep_view()[j],
        decreases v.len() - i,
    {
        r.push(v[i].clone());
        i += 1;
    }
    proof {
        assert(r.deep_view() =~= v.deep_view());
    }
    r
}

/// Opens a prepare-upload exchange: refused with `SessionBlocked` while a
/// receive session exists, with `EmptyFiles` for an empty offer; otherwise
/// a fresh `Waiting` session is installed, whose sender is resolved from
/// the request's registration and the peer's address. Returns the
/// receiver's quick-save policy and the offered files, from which the
/// caller forms the acceptance decision.
pub fn prepare_upload_start(
    state: &mut ServerState,
    peer_ip: &str,
    dto: &crate::dto::PrepareUploadRequestDto,
) -> (r: Result<(bool, Vec<FileDto>), ReceiveError>)
    requires
        old(state).inv(),
    ensures
        final(state).inv(),
        final(state).send_session == old(state).send_session,
        final(state).settings == old(state).settings,
        old(state).receive_session is Some ==> r == Err::<(bool, Vec<FileDto>), ReceiveError>(
            ReceiveError::SessionBlocked,
        ) && *final(state) == *old(state),
        old(state).receive_session is None && dto@.files.len() == 0 ==> r == Err::<
            (bool, Vec<FileDto>),
            ReceiveError,
        >(ReceiveError::EmptyFiles) && *final(state) == *old(state),
        old(state).receive_session is None && dto@.files.len() > 0 ==> (r matches Ok(p) && {
            &&& p.0 == old(state).settings.quick_save
            &&& p.1.deep_view() == dto@.files
            &&& final(state).receive_session matches Some(s) && {
                &&& s@.status == ReceiveSessionStatus::Waiting
                &&& s@.files.len() == 0
                &&& s@.destination_directory == old(state).settings.destination@
                &&& s@.sender == dto@.info.spec_to_device(
                    peer_ip@,
                    crate::DEFAULT_PORT,
                    false,
                )
                &&& s@.session_id.len() == 36
            }
        }),
{
    if state.receive_session.is_some() {
        return Err(ReceiveError::SessionBlocked);
    }
    if dto.files.len() == 0 {
        return Err(ReceiveError::EmptyFiles);
    }
    let session_id = crate::outside::uuid_v4();
    let sender = dto.info.clone().to_device(
        String::from_str(peer_ip),
        crate::DEFAULT_PORT,
        false,
    );
    let session = ReceiveSession {
        session_id,
        status: ReceiveSessionStatus::Waiting,
        sender,
        files: Vec::new(),
        destination_directory: state.settings.destination.clone(),
    };
    let quick_save = state.settings.quick_save;
    let files = clone_files(&dto.files);
    state.receive_session = Some(session);
    Ok((quick_save, files))
}

/// Removes a receive session that is still `Waiting`: the cleanup guard
/// that fires when control leaves the prepare exchange without the session
/// having advanced.
pub fn cleanup_waiting(state: &mut ServerState)
    requires
        old(state).inv(),
    ensures
        final(state).inv(),
        final(state).send_session == old(state).send_session,
        final(state).settings == old(state).settings,
        match old(state).receive_session {
            Some(s) => if s@.status == ReceiveSessionStatus::Waiting {
                final(state).receive_session is None
            } else {
                final(state).receive_session == old(state).receive_session
            },
            None => final(state).receive_session is None,
        },
{
    let waiting = match &state.receive_session {
        Some(s) => match s.status {
            ReceiveSessionStatus::Waiting => true,
            ReceiveSessionStatus::Sending => false,
        },
        None => true,
    };
    if waiting {
        state.receive_session = None;
    }
}

/// File ids are pairwise distinct.
pub open spec fn distinct_ids(files: Seq<FileDtoView>) -> bool {
    forall|i: int, j: int|
        0 <= i < files.len() && 0 <= j < files.len() && i != j ==> (#[trigger] files[i]).id
            != (#[trigger] files[j]).id
}

/// `acc` with `f` written over the entry of the same id, or appended.
pub open spec fn upsert_file(acc: Seq<FileDtoView>, f: FileDtoView) -> Seq<FileDtoView> {
    if exists|j: int| 0 <= j < acc.len() && (#[trigger] acc[j]).id == f.id {
        acc.update(choose|j: int| 0 <= j < acc.len() && (#[trigger] acc[j]).id == f.id, f)
    } else {
        acc.push(f)
    }
}

/// A file list collapsed to unique ids: later occurrences of an id replace
/// earlier ones in place.
pub open spec fn spec_dedup_files(files: Seq<FileDtoView>) -> Seq<FileDtoView>
    decreases files.len(),
{
    if files.len() == 0 {
        Seq::empty()
    } else {
        upsert_file(spec_dedup_files(files.drop_last()), files.last())
    }
}

proof fn lemma_upsert_distinct(acc: Seq<FileDtoView>, f: FileDtoView)
    requires
        distinct_ids(acc),
    ensures
        distinct_ids(upsert_file(acc, f)),
{
    if exists|j: int| 0 <= j < acc.len() && (#[trigger] acc[j]).id == f.id {
        let j = choose|j: int| 0 <= j < acc.len() && (#[trigger] acc[j]).id == f.id;
        assert(acc[j].id == f.id);
    }
}

/// The position of the file descriptor with id `id`, if any.
fn find_dto(files: &Vec<FileDto>, id: &String) -> (r: Option<usize>)
    ensures
        match r {
            Some(i) => i < files.deep_view().len() && files.deep_view()[i as int].id == id@,
            None => forall|j: int|
                0 <= j < files.deep_view().len() ==> (#[trigger] files.deep_view()[j]).id != id@,
        },
{
    let ghost fv = files.deep_view();
    let mut i: usize = 0;
    while i < files.len()
        invariant
            i <= files.len(),
            fv == files.deep_view(),
            fv.len() == files.len(),
            forall|j: int| 0 <= j < i ==> (#[trigger] fv[j]).id != id@,
        decreases files.len() - i,
    {
        if str_eq(files[i].id.as_str(), id.as_str()) {
            proof {
                assert(fv[i as int].id == files@[i as int].id@);
            }
            return Some(i);
        }
        proof {
            assert(fv[i as int].id == files@[i as int].id@);
        }
        i += 1;
    }
    None
}

/// Collapses a file list to unique ids, later occurrences replacing
/// earlier ones in place.
pub fn dedup_files(files: Vec<FileDto>) -> (r: Vec<FileDto>)
    ensures
        r.deep_view() == spec_dedup_files(files.deep_view()),
        distinct_ids(r.deep_view()),
{
    let ghost fv = files.deep_view();
    let mut acc: Vec<FileDto> = Vec::new();
    let mut i: usize = 0;
    while i < files.len()
        invariant
            i <= files.len(),
            fv == files.deep_view(),
            fv.len() == files.len(),
            acc.deep_view() == spec_dedup_files(fv.take(i as int)),
            distinct_ids(acc.deep_view()),
        decreases files.len() - i,
    {
        let f = files[i].clone();
        proof {
            assert(f@ == fv[i as int]);
        }
        let ghost accv = acc.deep_view();
        let found = find_dto(&acc, &f.id);
        proof {
            assert(fv.take(i + 1).drop_last() =~= fv.take(i as int));
            assert(fv.take(i + 1).last() == fv[i as int]);
            lemma_upsert_distinct(accv, fv[i as int]);
        }
        match found {
            Some(k) => {
                acc[k] = f;
                proof {
                    assert(accv[k as int].id == fv[i as int].id);
                    let jj = choose|j: int|
                        0 <= j < accv.len() && (#[trigger] accv[j]).id == fv[i as int].id;
                    assert(accv[jj].id == accv[k as int].id);
                    assert(jj == k);
                    assert(acc.deep_view() =~= upsert_file(accv, fv[i as int]));
                }
            },
            None => {
                acc.push(f);
                proof {
                    assert(!(exists|j: int|
                        0 <= j < accv.len() && (#[trigger] accv[j]).id == fv[i as int].id));
                    assert(acc.deep_view() =~= upsert_file(accv, fv[i as int]));
                }
            },
        }
        i += 1;
    }
    proof {
        assert(fv.take(files.len() as int) =~= fv);
    }
    acc
}

/// The shape of the `k`-th issued token: a fresh 36-character id or — on
/// a collision of freshly drawn ids — that id disambiguated by the file's
/// position, so tokens of one response are always pairwise distinct.
pub open spec fn token_shape(t: Seq<char>, k: int) -> bool {
    t.len() == 36 || (t.len() >= 38 && t.skip(37) == crate::text::dec_of(k as nat))
}

/// Whether `t` is already among the issued tokens.
fn token_taken(pairs: &Vec<(String, String)>, t: &String) -> (r: bool)
    ensures
        r == exists|k: int|
            0 <= k < pairs.deep_view().len() && (#[trigger] pairs.deep_view()[k]).1 == t@,
{
    let ghost pv = pairs.deep_view();
    let mut k: usize = 0;
    while k < pairs.len()
        invariant
            k <= pairs.len(),
            pv == pairs.deep_view(),
            pv.len() == pairs.len(),
            forall|l: int| 0 <= l < k ==> (#[trigger] pv[l]).1 != t@,
        decreases pairs.len() - k,
    {
        if str_eq(pairs[k].1.as_str(), t.as_str()) {
            proof {
                assert(pv[k as int].1 == pairs@[k as int].1@);
            }
            return true;
        }
        proof {
            assert(pv[k as int].1 == pairs@[k as int].1@);
        }
        k += 1;
    }
    false
}

/// Closes a prepare-upload exchange with the acceptance decision. `None`
/// stands for a closed reply channel; `Declined` removes the session and
/// refuses with `SessionDeclined`; an empty acceptance removes it with
/// `NothingSelected`. Otherwise one fresh token is issued per accepted
/// file (later duplicates of an id replacing earlier ones, token
/// collisions disambiguated by position so the tokens are pairwise
/// distinct), the session turns `Sending`, and the response carries the
/// session id and the very tokens now stored.
pub fn prepare_upload_finish(state: &mut ServerState, reply: Option<ClientMessage>) -> (r: Result<
    PrepareUploadResponseDto,
    ReceiveError,
>)
    requires
        old(state).inv(),
    ensures
        final(state).inv(),
        final(state).send_session == old(state).send_session,
        final(state).settings == old(state).settings,
        reply is None ==> r == Err::<PrepareUploadResponseDto, ReceiveError>(
            ReceiveError::NothingSelected,
        ) && *final(state) == *old(state),
        reply is Some && old(state).receive_session is None ==> r == Err::<
            PrepareUploadResponseDto,
            ReceiveError,
        >(ReceiveError::InvalidServerState) && *final(state) == *old(state),
        reply matches Some(ClientMessage::Declined) ==> (old(state).receive_session is Some
            ==> r == Err::<PrepareUploadResponseDto, ReceiveError>(ReceiveError::SessionDeclined)
            && final(state).receive_session is None),
        reply matches Some(ClientMessage::FilesSelected(files)) ==> (files.deep_view().len() == 0
            && old(state).receive_session is Some ==> r == Err::<
            PrepareUploadResponseDto,
            ReceiveError,
        >(ReceiveError::NothingSelected) && final(state).receive_session is None),
        reply matches Some(ClientMessage::FilesSelected(files)) ==> (old(state).receive_session matches Some(s) ==> (files.deep_view().len() > 0 ==> (r matches Ok(resp)
            && (final(state).receive_session matches Some(s2) && {
            let dedup = spec_dedup_files(files.deep_view());
            &&& s2@.session_id == s@.session_id
            &&& s2@.sender == s@.sender
            &&& s2@.destination_directory == s@.destination_directory
            &&& s2@.status == ReceiveSessionStatus::Sending
            &&& s2@.files.len() == dedup.len()
            &&& forall|i: int|
                0 <= i < dedup.len() ==> (#[trigger] s2@.files[i]).file == dedup[i]
                    && s2@.files[i].status == FileStatus::Queue && s2@.files[i].token is Some && (
                s2@.files[i].token->Some_0).len() >= 36
            &&& resp@.session_id == s@.session_id
            &&& resp@.files.len() == dedup.len()
            &&& forall|i: int|
                0 <= i < dedup.len() ==> (#[trigger] resp@.files[i]).0 == dedup[i].id && Some(
                    resp@.files[i].1,
                ) == s2@.files[i].token
            &&& forall|i: int, j: int|
                0 <= i < dedup.len() && 0 <= j < dedup.len() && i != j ==> (
                #[trigger] resp@.files[i]).1 != (#[trigger] resp@.files[j]).1
        })))),
{
    let selection: Vec<FileDto> = match reply {
        None => {
            return Err(ReceiveError::NothingSelected);
        },
        Some(ClientMessage::Declined) => {
            if state.receive_session.is_some() {
                state.receive_session = None;
                return Err(ReceiveError::SessionDeclined);
            } else {
                return Err(ReceiveError::InvalidServerState);
            }
        },
        Some(ClientMessage::FilesSelected(f)) => f,
    };
    if state.receive_session.is_none() {
        return Err(ReceiveError::InvalidServerState);
    }
    if selection.len() == 0 {
        state.receive_session = None;
        return Err(ReceiveError::NothingSelected);
    }
    let ghost selv = selection.deep_view();
    let dedup = dedup_files(selection);
    let mut rfiles: Vec<ReceivingFile> = Vec::new();
    let mut pairs: Vec<(String, String)> = Vec::new();
    let mut i: usize = 0;
    while i < dedup.len()
        invariant
            i <= dedup.len(),
            dedup.deep_view() == spec_dedup_files(selv),
            dedup.deep_view().len() == dedup.len(),
            rfiles.deep_view().len() == i,
            pairs.deep_view().len() == i,
            forall|k: int|
                0 <= k < i ==> {
                    let fk = #[trigger] rfiles.deep_view()[k];
                    &&& fk.file == dedup.deep_view()[k]
                    &&& fk.status == FileStatus::Queue
                    &&& fk.token is Some
                    &&& (fk.token->Some_0).len() >= 36
                    &&& pairs.deep_view()[k].0 == dedup.deep_view()[k].id
                    &&& Some(pairs.deep_view()[k].1) == fk.token
                    &&& token_shape(pairs.deep_view()[k].1, k)
                },
            forall|k: int, l: int|
                0 <= k < i && 0 <= l < i && k != l ==> (#[trigger] pairs.deep_view()[k]).1 != (
                #[trigger] pairs.deep_view()[l]).1,
        decreases dedup.len() - i,
    {
        let drawn = crate::outside::uuid_v4();
        let token: String = if token_taken(&pairs, &drawn) {
            // a collision of freshly drawn tokens: disambiguate by position
            let mut t = drawn;
            t.append("-");
            crate::text::append_u64(&mut t, i as u64);
            proof {
                reveal_strlit("-");
                crate::json::lemma_dec_of_digits(i as nat);
                assert(t@.skip(37) =~= crate::text::dec_of(i as nat));
                assert(token_shape(t@, i as int));
            }
            t
        } else {
            proof {
                assert(token_shape(drawn@, i as int));
            }
            drawn
        };
        proof {
            assert forall|k: int| 0 <= k < i implies (#[trigger] pairs.deep_view()[k]).1
                != token@ by {
                let w = pairs.deep_view()[k].1;
                assert((#[trigger] rfiles.deep_view()[k]).token is Some);
                assert(token_shape(w, k));
                if w.len() != token@.len() {
                } else if token@.len() == 36 {
                } else {
                    if w == token@ {
                        assert(w.skip(37) == token@.skip(37));
                        crate::json::lemma_dec_of_digits(i as nat);
                        crate::json::lemma_dec_of_digits(k as nat);
                        assert(crate::json::dec_val(crate::text::dec_of(k as nat)) == crate::json::dec_val(
                            crate::text::dec_of(i as nat),
                        ));
                    }
                }
            }
        }
        let f = dedup[i].clone();
        let id = f.id.clone();
        proof {
            assert(f@ == dedup.deep_view()[i as int]);
        }
        let rf = ReceivingFile { file: f, status: FileStatus::Queue, token: Some(token.clone()) };
        let ghost rfv = rf@;
        let ghost rprev = rfiles.deep_view();
        let ghost pprev = pairs.deep_view();
        rfiles.push(rf);
        pairs.push((id, token));
        proof {
            assert(rfiles.deep_view() =~= rprev.push(rfv));
            assert(pairs.deep_view() =~= pprev.push(
                (pairs@[pairs@.len() - 1].0@, pairs@[pairs@.len() - 1].1@),
            ));
        }
        i += 1;
    }
    match &mut state.receive_session {
        Some(s) => {
            s.status = ReceiveSessionStatus::Sending;
            s.files = rfiles;
            let resp = PrepareUploadResponseDto {
                session_id: s.session_id.clone(),
                files: pairs,
            };
            proof {
                let dd = spec_dedup_files(selv);
                assert forall|a: int, b: int|
                    0 <= a < s@.files.len() && 0 <= b < s@.files.len() && a != b implies (
                #[trigger] s@.files[a]).file.id != (#[trigger] s@.files[b]).file.id by {
                    assert(s@.files[a].file == dd[a]);
                    assert(s@.files[b].file == dd[b]);
                }
            }
            Ok(resp)
        },
        None => Err(ReceiveError::InvalidServerState),
    }
}

/// What the surrounding application needs to stream one accepted upload to
/// disk.
#[derive(Debug)]
pub struct UploadTask {
    pub file_id: String,
    pub file_name: String,
    pub size: u64,
    pub destination_directory: String,
}

/// The verdict of the upload checks, over the session's image. The checks
/// are applied in this order: peer address, session phase, presence of the
/// parameters, the session id (version 2 only), then the file and its
/// one-shot token.
pub ghost enum UploadCheck {
    Accept(int),
    BadIp,
    BadState,
    BadParams,
    BadSessionId,
    BadToken,
}

/// The upload checks of one request against one session.
pub open spec fn spec_upload_check(
    s: ReceiveSessionView,
    peer_ip: Seq<char>,
    file_id: Option<Seq<char>>,
    token: Option<Seq<char>>,
    session_id: Option<Seq<char>>,
    v2: bool,
) -> UploadCheck {
    if peer_ip != s.sender.ip {
        UploadCheck::BadIp
    } else if s.status != ReceiveSessionStatus::Sending {
        UploadCheck::BadState
    } else if file_id is None || token is None || (v2 && session_id is None) {
        UploadCheck::BadParams
    } else if v2 && session_id->Some_0 != s.session_id {
        UploadCheck::BadSessionId
    } else if !s.has_file(file_id->Some_0) {
        UploadCheck::BadToken
    } else if s.files[s.file_index(file_id->Some_0)].token != token {
        UploadCheck::BadToken
    } else {
        UploadCheck::Accept(s.file_index(file_id->Some_0))
    }
}

/// The position of the file with id `id`, if any.
fn find_file(files: &Vec<ReceivingFile>, id: &String) -> (r: Option<usize>)
    ensures
        match r {
            Some(i) => i < files.deep_view().len() && files.deep_view()[i as int].file.id == id@,
            None => forall|j: int|
                0 <= j < files.deep_view().len() ==> (#[trigger] files.deep_view()[j]).file.id
                    != id@,
        },
{
    let ghost fv = files.deep_view();
    let mut i: usize = 0;
    while i < files.len()
        invariant
            i <= files.len(),
            fv == files.deep_view(),
            fv.len() == files.len(),
            forall|j: int| 0 <= j < i ==> (#[trigger] fv[j]).file.id != id@,
        decreases files.len() - i,
    {
        if str_eq(files[i].file.id.as_str(), id.as_str()) {
            proof {
                assert(fv[i as int].file.id == files@[i as int].file.id@);
            }
            return Some(i);
        }
        proof {
            assert(fv[i as int].file.id == files@[i as int].file.id@);
        }
        i += 1;
    }
    None
}

/// Begins one upload: checks the peer address, the session phase, the
/// parameters, the session id (version 2) and the file's one-shot token, in
/// the order of `spec_upload_check`; on acceptance the file turns
/// `Sending`, its token is consumed, and the caller receives what it needs
/// to stream the body.
pub fn upload_begin(
    state: &mut ServerState,
    peer_ip: &str,
    file_id: Option<String>,
    token: Option<String>,
    session_id: Option<String>,
    v2: bool,
) -> (r: Result<UploadTask, ReceiveError>)
    requires
        old(state).inv(),
    ensures
        final(state).inv(),
        final(state).send_session == old(state).send_session,
        final(state).settings == old(state).settings,
        old(state).receive_session is None ==> r == Err::<UploadTask, ReceiveError>(
            ReceiveError::SessionNotExists,
        ) && *final(state) == *old(state),
        old(state).receive_session matches Some(s) ==> (match spec_upload_check(
            s@,
            peer_ip@,
            file_id.deep_view(),
            token.deep_view(),
            session_id.deep_view(),
            v2,
        ) {
            UploadCheck::Accept(i) => r matches Ok(task) && final(state).receive_session matches Some(s2) && {
                &&& s2@.session_id == s@.session_id
                &&& s2@.status == s@.status
                &&& s2@.sender == s@.sender
                &&& s2@.destination_directory == s@.destination_directory
                &&& s2@.files == s@.files.update(
                    i,
                    ReceivingFileView {
                        file: s@.files[i].file,
                        status: FileStatus::Sending,
                        token: None,
                    },
                )
                &&& task.file_id@ == s@.files[i].file.id
                &&& task.file_name@ == s@.files[i].file.file_name
                &&& task.size == s@.files[i].file.size
                &&& task.destination_directory@ == s@.destination_directory
            },
            UploadCheck::BadIp => (r matches Err(e) && e matches ReceiveError::InvalidIp(ip)
                && ip@ == peer_ip@) && *final(state) == *old(state),
            UploadCheck::BadState => r == Err::<UploadTask, ReceiveError>(
                ReceiveError::InvalidRecipient,
            ) && *final(state) == *old(state),
            UploadCheck::BadParams => r == Err::<UploadTask, ReceiveError>(
                ReceiveError::InvalidParameters,
            ) && *final(state) == *old(state),
            UploadCheck::BadSessionId => r == Err::<UploadTask, ReceiveError>(
                ReceiveError::InvalidSessionId,
            ) && *final(state) == *old(state),
            UploadCheck::BadToken => r == Err::<UploadTask, ReceiveError>(
                ReceiveError::InvalidToken,
            ) && *final(state) == *old(state),
        }),
{
    match &mut state.receive_session {
        None => Err(ReceiveError::SessionNotExists),
        Some(s) => {
            let ghost sv = s@;
            if !str_eq(peer_ip, s.sender.ip.as_str()) {
                return Err(ReceiveError::InvalidIp(String::from_str(peer_ip)));
            }
            match s.status {
                ReceiveSessionStatus::Sending => (),
                ReceiveSessionStatus::Waiting => {
                    return Err(ReceiveError::InvalidRecipient);
                },
            }
            let fid = match file_id {
                Some(f) => f,
                None => {
                    return Err(ReceiveError::InvalidParameters);
                },
            };
            let tok = match token {
                Some(t) => t,
                None => {
                    return Err(ReceiveError::InvalidParameters);
                },
            };
            if v2 {
                match &session_id {
                    None => {
                        return Err(ReceiveError::InvalidParameters);
                    },
                    Some(q) => {
                        if !str_eq(q.as_str(), s.session_id.as_str()) {
                            return Err(ReceiveError::InvalidSessionId);
                        }
                    },
                }
            }
            let i = match find_file(&s.files, &fid) {
                Some(i) => i,
                None => {
                    proof {
                        assert(!sv.has_file(fid@));
                    }
                    return Err(ReceiveError::InvalidToken);
                },
            };
            proof {
                assert(sv.has_file(fid@));
                let ci = sv.file_index(fid@);
                assert(sv.files[ci].file.id == fid@);
                assert(ci == i as int);
            }
            let token_ok = match &s.files[i].token {
                Some(st) => str_eq(st.as_str(), tok.as_str()),
                None => false,
            };
            if !token_ok {
                return Err(ReceiveError::InvalidToken);
            }
            let file_name = s.files[i].file.file_name.clone();
            let size = s.files[i].file.size;
            let nf = ReceivingFile {
                file: s.files[i].file.clone(),
                status: FileStatus::Sending,
                token: None,
            };
            s.files[i] = nf;
            let task = UploadTask {
                file_id: fid,
                file_name,
                size,
                destination_directory: s.destination_directory.clone(),
            };
            proof {
                assert(s@.files =~= sv.files.update(
                    i as int,
                    ReceivingFileView {
                        file: sv.files[i as int].file,
                        status: FileStatus::Sending,
                        token: None,
                    },
                ));
                assert forall|a: int, b: int|
                    0 <= a < s@.files.len() && 0 <= b < s@.files.len() && a != b implies (
                #[trigger] s@.files[a]).file.id != (#[trigger] s@.files[b]).file.id by {
                    assert(sv.files[a].file.id != sv.files[b].file.id);
                }
            }
            Ok(task)
        },
    }
}

/// The law of one-shot tokens: once an upload of a file is accepted, its
/// token is consumed, so in the session left behind no upload naming the
/// same file is ever accepted again — whatever address, token or session
/// id it brings — and one that passes the address, phase, parameter and
/// session-id checks is refused with `InvalidToken` (HTTP 403).
pub proof fn lemma_upload_token_one_shot(
    s: ReceiveSessionView,
    peer_ip: Seq<char>,
    fid: Seq<char>,
    tok: Seq<char>,
    sid: Option<Seq<char>>,
    v2: bool,
)
    requires
        s.wf(),
        spec_upload_check(s, peer_ip, Some(fid), Some(tok), sid, v2) matches UploadCheck::Accept(_),
    ensures
        ({
            let i = s.file_index(fid);
            let s2 = ReceiveSessionView {
                files: s.files.update(
                    i,
                    ReceivingFileView {
                        file: s.files[i].file,
                        status: FileStatus::Sending,
                        token: None,
                    },
                ),
                ..s
            };
            &&& forall|ip2: Seq<char>, tok2: Seq<char>, sid2: Option<Seq<char>>, v2b: bool|
                !(#[trigger] spec_upload_check(
                    s2,
                    ip2,
                    Some(fid),
                    Some(tok2),
                    sid2,
                    v2b,
                ) matches UploadCheck::Accept(_))
            &&& forall|tok2: Seq<char>|
                #[trigger] spec_upload_check(s2, peer_ip, Some(fid), Some(tok2), sid, v2)
                    == UploadCheck::BadToken
        }),
{
    let i = s.file_index(fid);
    let s2 = ReceiveSessionView {
        files: s.files.update(
            i,
            ReceivingFileView { file: s.files[i].file, status: FileStatus::Sending, token: None },
        ),
        ..s
    };
    assert(0 <= i < s.files.len() && s.files[i].file.id == fid);
    assert(s2.has_file(fid)) by {
        assert(s2.files[i].file.id == fid);
    }
    let i2 = s2.file_index(fid);
    assert(0 <= i2 < s2.files.len() && s2.files[i2].file.id == fid);
    assert(i2 == i) by {
        if i2 != i {
            assert(s.files[i2].file.id == s2.files[i2].file.id);
            assert(s.files[i2].file.id != s.files[i].file.id);
        }
    }
    assert(s2.files[i2].token is None);
    assert forall|ip2: Seq<char>, tok2: Seq<char>, sid2: Option<Seq<char>>, v2b: bool|
        !(#[trigger] spec_upload_check(
            s2,
            ip2,
            Some(fid),
            Some(tok2),
            sid2,
            v2b,
        ) matches UploadCheck::Accept(_)) by {
        assert(s2.files[s2.file_index(fid)].token != Some(tok2));
    }
}

/// Whether every file of the sequence has reached a terminal status.
pub open spec fn all_files_terminal(files: Seq<ReceivingFileView>) -> bool {
    forall|i: int|
        0 <= i < files.len() ==> ((#[trigger] files[i]).status == FileStatus::Finished
            || files[i].status == FileStatus::Failed)
}

/// Closes one upload: the file turns `Finished` on success, else `Failed`
/// — surfacing `Cancelled` when the stream broke (the graceful-cancel
/// path, answered with 200 after the partial file was removed) and
/// `SaveFileFailed` otherwise; when every file of the session is terminal
/// the session is destroyed. `Cancelled` is also reported for a session
/// that vanished while the body was streamed.
pub fn upload_finish(
    state: &mut ServerState,
    file_id: &String,
    success: bool,
    stream_broken: bool,
) -> (r: Result<(), ReceiveError>)
    requires
        old(state).inv(),
    ensures
        final(state).inv(),
        final(state).send_session == old(state).send_session,
        final(state).settings == old(state).settings,
        old(state).receive_session is None ==> r == Err::<(), ReceiveError>(
            ReceiveError::Cancelled,
        ) && *final(state) == *old(state),
        old(state).receive_session matches Some(s) ==> (!s@.has_file(file_id@) ==> r == Err::<
            (),
            ReceiveError,
        >(ReceiveError::InvalidToken) && *final(state) == *old(state)),
        old(state).receive_session matches Some(s) ==> (s@.has_file(file_id@) ==> {
            let i = s@.file_index(file_id@);
            let updated = s@.files.update(
                i,
                ReceivingFileView {
                    file: s@.files[i].file,
                    status: if success {
                        FileStatus::Finished
                    } else {
                        FileStatus::Failed
                    },
                    token: s@.files[i].token,
                },
            );
            &&& (success ==> r is Ok)
            &&& (!success && stream_broken ==> r == Err::<(), ReceiveError>(
                ReceiveError::Cancelled,
            ))
            &&& (!success && !stream_broken ==> r == Err::<(), ReceiveError>(
                ReceiveError::SaveFileFailed,
            ))
            &&& if all_files_terminal(updated) {
                final(state).receive_session is None
            } else {
                final(state).receive_session matches Some(s2) && s2@.session_id == s@.session_id
                    && s2@.status == s@.status && s2@.sender == s@.sender
                    && s2@.destination_directory == s@.destination_directory && s2@.files == updated
            }
        }),
{
    let all_done: bool;
    let result: Result<(), ReceiveError>;
    match &mut state.receive_session {
        None => {
            return Err(ReceiveError::Cancelled);
        },
        Some(s) => {
            let ghost sv = s@;
            let i = match find_file(&s.files, file_id) {
                Some(i) => i,
                None => {
                    proof {
                        assert(!sv.has_file(file_id@));
                    }
                    return Err(ReceiveError::InvalidToken);
                },
            };
            proof {
                assert(sv.has_file(file_id@));
                let ci = sv.file_index(file_id@);
                assert(sv.files[ci].file.id == file_id@);
                assert(ci == i as int);
            }
            let nf = ReceivingFile {
                file: s.files[i].file.clone(),
                status: if success {
                    FileStatus::Finished
                } else {
                    FileStatus::Failed
                },
                token: crate::dto::clone_opt_string(&s.files[i].token),
            };
            s.files[i] = nf;
            proof {
                assert(s@.files =~= sv.files.update(
                    i as int,
                    ReceivingFileView {
                        file: sv.files[i as int].file,
                        status: if success {
                            FileStatus::Finished
                        } else {
                            FileStatus::Failed
                        },
                        token: sv.files[i as int].token,
                    },
                ));
                assert forall|a: int, b: int|
                    0 <= a < s@.files.len() && 0 <= b < s@.files.len() && a != b implies (
                #[trigger] s@.files[a]).file.id != (#[trigger] s@.files[b]).file.id by {
                    assert(sv.files[a].file.id != sv.files[b].file.id);
                }
            }
            // is every file terminal now?
            let mut done = true;
            let mut k: usize = 0;
            let ghost uv = s@.files;
            while k < s.files.len()
                invariant
                    k <= s.files.len(),
                    uv == s@.files,
                    uv.len() == s.files.len(),
                    done == (forall|j: int|
                        0 <= j < k ==> ((#[trigger] uv[j]).status == FileStatus::Finished
                            || uv[j].status == FileStatus::Failed)),
                decreases s.files.len() - k,
            {
                let terminal = match s.files[k].status {
                    FileStatus::Finished => true,
                    FileStatus::Failed => true,
                    _ => false,
                };
                proof {
                    assert(uv[k as int].status == s@.files[k as int].status);
                }
                done = done && terminal;
                k += 1;
            }
            all_done = done;
            result = if success {
                Ok(())
            } else if stream_broken {
                Err(ReceiveError::Cancelled)
            } else {
                Err(ReceiveError::SaveFileFailed)
            };
        },
    }
    if all_done {
        state.receive_session = None;
    }
    result
}

/// The version 1 cancel endpoint: takes the active send session, whose
/// worker the caller then aborts; `NoPermission` when none is active.
pub fn cancel_v1(state: &mut ServerState) -> (r: Result<SendSession, SendError>)
    requires
        old(state).inv(),
    ensures
        final(state).inv(),
        final(state).receive_session == old(state).receive_session,
        final(state).settings == old(state).settings,
        old(state).send_session is None ==> r == Err::<SendSession, SendError>(
            SendError::NoPermission,
        ) && *final(state) == *old(state),
        old(state).send_session matches Some(s) ==> ((r matches Ok(s2) && s2 == s) && final(state).send_session is None),
{
    match state.send_session.take() {
        None => Err(SendError::NoPermission),
        Some(s) => Ok(s),
    }
}

/// The version 2 cancel endpoint: additionally demands the query's session
/// id and refuses with `NoPermission` unless it matches the active send
/// session's remote session id.
pub fn cancel_v2(state: &mut ServerState, session_id: Option<&String>) -> (r: Result<
    SendSession,
    SendError,
>)
    requires
        old(state).inv(),
    ensures
        final(state).inv(),
        final(state).receive_session == old(state).receive_session,
        final(state).settings == old(state).settings,
        session_id is None ==> r == Err::<SendSession, SendError>(SendError::NoPermission)
            && *final(state) == *old(state),
        session_id matches Some(q) ==> (old(state).send_session matches Some(s) ==> (
        s.remote_session_id.deep_view() != Some(q@) ==> r == Err::<SendSession, SendError>(
            SendError::NoPermission,
        ) && *final(state) == *old(state))),
        session_id is Some && old(state).send_session is None ==> r == Err::<
            SendSession,
            SendError,
        >(SendError::NoPermission) && *final(state) == *old(state),
        session_id matches Some(q) ==> (old(state).send_session matches Some(s) ==> (
        s.remote_session_id.deep_view() == Some(q@) ==> ((r matches Ok(s2) && s2 == s) && final(state).send_session is None))),
{
    let q = match session_id {
        Some(q) => q,
        None => {
            return Err(SendError::NoPermission);
        },
    };
    let matches_remote = match &state.send_session {
        Some(s) => match &s.remote_session_id {
            Some(rs) => str_eq(rs.as_str(), q.as_str()),
            None => false,
        },
        None => true,
    };
    if !matches_remote {
        return Err(SendError::NoPermission);
    }
    match state.send_session.take() {
        None => Err(SendError::NoPermission),
        Some(s) => Ok(s),
    }
}

} // verus!
