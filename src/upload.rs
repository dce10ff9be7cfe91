//! Sending media to a product, with a bounded retry on rate limiting.
use vstd::prelude::*;
use vstd::string::*;
use crate::classify::FileInfo;
use crate::error::SyncError;
use crate::run::RunState;
use crate::text::{has_prefix, is_prefix, joined};

verus! {

/// Sends per upload, first one included.
pub const UPLOAD_ATTEMPTS: u64 = 3;

/// Pause before sending again after rate limiting or no response, in
/// milliseconds.
pub const RATE_LIMIT_PAUSE_MS: u64 = 60000;

/// The status that signals rate limiting.
pub const TOO_MANY_REQUESTS: u16 = 429;

/// The addresses to attach to one product, in photo order.
#[derive(Clone, Debug)]
pub struct MediaOutput {
    pub nm_id: i64,
    pub data: Vec<String>,
}

/// An address with a scheme that the content service accepts.
pub open spec fn is_accepted_url(u: Seq<char>) -> bool {
    is_prefix("http://"@, u) || is_prefix("https://"@, u) || is_prefix("file://"@, u)
}

/// Accepts a list of addresses only where each one starts with `http://`,
/// `https://` or `file://`.
pub fn validate_urls(urls: &Vec<String>) -> (r: Result<(), SyncError>)
    ensures
        r is Ok <==> (forall|i: int| 0 <= i < urls@.len() ==> is_accepted_url(#[trigger] urls@[i]@)),
        r is Err ==> r == Err::<(), SyncError>(SyncError::Validation),
{
    let mut i: usize = 0;
    while i < urls.len()
        invariant
            i <= urls@.len(),
            forall|j: int| 0 <= j < i ==> is_accepted_url(#[trigger] urls@[j]@),
        decreases urls@.len() - i,
    {
        let u = urls[i].as_str();
        if !(has_prefix(u, "http://") || has_prefix(u, "https://") || has_prefix(u, "file://")) {
            return Err(SyncError::Validation);
        }
        i = i + 1;
    }
    Ok(())
}

/// The address under which a local file is handed to the content service.
pub fn local_file_url(path: &str) -> (r: String)
    ensures
        r@ == "file://"@ + path@,
{
    joined("file://", path)
}

/// Clean-up after an upload: nothing to do for a local file; a file of a
/// remote share cannot be removed without write access.
pub fn cleanup_file(file_path: &str) -> (r: Result<(), SyncError>)
    ensures
        is_prefix("file://"@, file_path@) ==> r is Ok,
        !is_prefix("file://"@, file_path@) ==> r == Err::<(), SyncError>(SyncError::Unsupported),
{
    if has_prefix(file_path, "file://") {
        Ok(())
    } else {
        Err(SyncError::Unsupported)
    }
}

/// Gathers the direct addresses of a product's files, one at a time, in file
/// order; the first file without an address fails the whole batch.
pub struct BatchBuilder {
    nm_id: i64,
    paths: Vec<String>,
    urls: Vec<String>,
    error: Option<SyncError>,
}

impl BatchBuilder {
    pub closed spec fn paths(&self) -> Seq<Seq<char>> {
        self.paths@.map_values(|p: String| p@)
    }

    /// The addresses gathered so far.
    pub closed spec fn urls(&self) -> Seq<Seq<char>> {
        self.urls@.map_values(|u: String| u@)
    }

    pub closed spec fn error(&self) -> Option<SyncError> {
        self.error
    }

    pub closed spec fn nm_id(&self) -> i64 {
        self.nm_id
    }

    pub open spec fn gathering(&self) -> bool {
        self.error() is None && self.urls().len() < self.paths().len()
    }

    pub closed spec fn wf(&self) -> bool {
        self.urls@.len() <= self.paths@.len()
    }

    /// A batch for product `nm_id` over the paths of `files`.
    pub fn new(nm_id: i64, files: &Vec<FileInfo>) -> (r: BatchBuilder)
        ensures
            r.wf(),
            r.nm_id() == nm_id,
            r.paths() == files@.map_values(|f: FileInfo| f.path@),
            r.urls().len() == 0,
            r.error() is None,
    {
        let mut paths: Vec<String> = Vec::new();
        let mut i: usize = 0;
        while i < files.len()
            invariant
                i <= files@.len(),
                paths@.map_values(|p: String| p@) == files@.subrange(0, i as int).map_values(
                    |f: FileInfo| f.path@,
                ),
            decreases files@.len() - i,
        {
            let ghost before = paths@;
            let p = files[i].path.clone();
            assert(p@ == files@[i as int].path@);
            paths.push(p);
            assert(paths@ == before.push(p));
            assert(files@.subrange(0, i as int + 1) =~= files@.subrange(0, i as int).push(files@[i as int]));
            assert(paths@.map_values(|p: String| p@) =~= before.map_values(|p: String| p@).push(p@));
            assert(paths@.map_values(|p: String| p@) =~= files@.subrange(0, i as int + 1).map_values(
                |f: FileInfo| f.path@,
            ));
            i = i + 1;
        }
        assert(files@.subrange(0, i as int) =~= files@);
        let r = BatchBuilder { nm_id, paths, urls: Vec::new(), error: None };
        assert(r.urls() =~= Seq::empty());
        r
    }

    /// The path whose address is needed next, while gathering.
    pub fn next_path(&self) -> (r: Option<String>)
        requires
            self.wf(),
        ensures
            r is Some <==> self.gathering(),
            r matches Some(p) ==> p@ == self.paths()[self.urls().len() as int],
    {
        if self.error.is_some() || self.urls.len() >= self.paths.len() {
            None
        } else {
            Some(self.paths[self.urls.len()].clone())
        }
    }

    /// Takes the address of the path that `next_path` gave, or why there is none.
    pub fn on_link(&mut self, link: Result<String, SyncError>)
        requires
            old(self).wf(),
            old(self).gathering(),
        ensures
            final(self).wf(),
            final(self).paths() == old(self).paths(),
            final(self).nm_id() == old(self).nm_id(),
            match link {
                Ok(u) => final(self).urls() == old(self).urls().push(u@) && final(self).error()
                    is None,
                Err(e) => final(self).urls() == old(self).urls() && final(self).error() == Some(e),
            },
    {
        match link {
            Ok(u) => {
                let ghost before = self.urls@;
                self.urls.push(u);
                assert(self.urls() =~= before.map_values(|u: String| u@).push(self.urls@.last()@));
            },
            Err(e) => {
                self.error = Some(e);
            },
        }
    }

    /// The batch once every address is in, or the failure that stopped it.
    pub fn into_output(self) -> (r: Result<MediaOutput, SyncError>)
        requires
            self.wf(),
            !self.gathering(),
        ensures
            match self.error() {
                Some(e) => r == Err::<MediaOutput, SyncError>(e),
                None => if self.paths().len() == 0 {
                    r == Err::<MediaOutput, SyncError>(SyncError::NotFound)
                } else {
                    r matches Ok(m) && m.nm_id == self.nm_id() && m.data@.map_values(
                        |u: String| u@,
                    ) == self.urls()
                },
            },
    {
        match self.error {
            Some(e) => Err(e),
            None => media_output(self.nm_id, self.urls),
        }
    }
}

/// The addresses of local files, in the order given.
pub fn local_urls(files: &Vec<FileInfo>) -> (r: Vec<String>)
    ensures
        r@.len() == files@.len(),
        forall|i: int| 0 <= i < files@.len() ==> (#[trigger] r@[i])@ == "file://"@ + files@[i].path@,
{
    let mut r: Vec<String> = Vec::new();
    let mut i: usize = 0;
    while i < files.len()
        invariant
            i <= files@.len(),
            r@.len() == i,
            forall|j: int| 0 <= j < i ==> (#[trigger] r@[j])@ == "file://"@ + files@[j].path@,
        decreases files@.len() - i,
    {
        r.push(local_file_url(files[i].path.as_str()));
        i = i + 1;
    }
    r
}

/// The batch for one product; there must be at least one address.
pub fn media_output(nm_id: i64, urls: Vec<String>) -> (r: Result<MediaOutput, SyncError>)
    ensures
        urls@.len() == 0 ==> r == Err::<MediaOutput, SyncError>(SyncError::NotFound),
        urls@.len() > 0 ==> (r matches Ok(m) && m.nm_id == nm_id && m.data@ == urls@),
{
    if urls.len() == 0 {
        Err(SyncError::NotFound)
    } else {
        Ok(MediaOutput { nm_id, data: urls })
    }
}

impl FileInfo {
    /// A copy of this file record.
    pub fn copied(&self) -> (r: FileInfo)
        ensures
            r == *self,
    {
        FileInfo {
            name: self.name.clone(),
            path: self.path.clone(),
            articul: self.articul.clone(),
            photo_number: self.photo_number,
        }
    }
}

/// The files of one vendor code, in the order given.
pub fn files_for_code(files: &Vec<FileInfo>, code: &str) -> (r: Vec<FileInfo>)
    ensures
        r@ == files@.filter(|f: FileInfo| f.articul@ == code@),
{
    let mut r: Vec<FileInfo> = Vec::new();
    let mut i: usize = 0;
    while i < files.len()
        invariant
            i <= files@.len(),
            r@ == files@.subrange(0, i as int).filter(|f: FileInfo| f.articul@ == code@),
        decreases files@.len() - i,
    {
        let f = &files[i];
        proof {
            let s = files@.subrange(0, i as int + 1);
            assert(s.drop_last() =~= files@.subrange(0, i as int));
            reveal(Seq::filter);
        }
        if crate::text::same_text(f.articul.as_str(), code) {
            r.push(f.copied());
        }
        i = i + 1;
    }
    assert(files@.subrange(0, i as int) =~= files@);
    r
}

/// A reply of the content service to one send.
#[derive(Clone, Copy, Debug, PartialEq, Eq, Structural)]
pub enum SendResult {
    /// The response status.
    Status(u16),
    /// No response.
    Transport,
}

/// Where an upload stands.
#[derive(Clone, Copy, Debug, PartialEq, Eq, Structural)]
pub enum UploadState {
    /// Send (again) after pausing `wait_millis`.
    Sending { wait_millis: u64 },
    Succeeded,
    Failed { error: SyncError },
}

/// The retry policy of one upload: rate limiting and missing responses are
/// retried after a pause, up to a fixed number of sends; any other status
/// outside 2xx ends it.
#[derive(Clone, Copy, Debug, PartialEq, Eq, Structural)]
pub struct Upload {
    /// Sends made so far.
    pub sent: u64,
    pub state: UploadState,
}

pub open spec fn is_success(status: u16) -> bool {
    200 <= status < 300
}

impl Upload {
    /// The upload after the reply to its latest send.
    pub open spec fn after(self, reply: SendResult) -> Upload {
        let sent = (self.sent + 1) as u64;
        match reply {
            SendResult::Status(s) => if is_success(s) {
                Upload { sent, state: UploadState::Succeeded }
            } else if s == TOO_MANY_REQUESTS {
                if sent < UPLOAD_ATTEMPTS {
                    Upload { sent, state: UploadState::Sending { wait_millis: RATE_LIMIT_PAUSE_MS } }
                } else {
                    Upload { sent, state: UploadState::Failed { error: SyncError::Api { status: s } } }
                }
            } else {
                Upload { sent, state: UploadState::Failed { error: SyncError::Api { status: s } } }
            },
            SendResult::Transport => if sent < UPLOAD_ATTEMPTS {
                Upload { sent, state: UploadState::Sending { wait_millis: RATE_LIMIT_PAUSE_MS } }
            } else {
                Upload { sent, state: UploadState::Failed { error: SyncError::Transport } }
            },
        }
    }

    /// An upload about to make its first send.
    pub fn new() -> (r: Upload)
        ensures
            r == (Upload { sent: 0, state: UploadState::Sending { wait_millis: 0 } }),
    {
        Upload { sent: 0, state: UploadState::Sending { wait_millis: 0 } }
    }

    /// Takes the reply to the latest send; a success is counted in `run`.
    pub fn on_reply(&mut self, reply: SendResult, run: &mut RunState)
        requires
            old(self).state is Sending,
            old(self).sent < UPLOAD_ATTEMPTS,
            old(run)@.uploaded < u64::MAX,
        ensures
            *final(self) == old(self).after(reply),
            final(run)@ == if final(self).state is Succeeded {
                old(run)@.with_upload()
            } else {
                old(run)@
            },
    {
        let sent = self.sent + 1;
        self.sent = sent;
        match reply {
            SendResult::Status(s) => {
                if 200 <= s && s < 300 {
                    self.state = UploadState::Succeeded;
                    run.count_upload();
                } else if s == TOO_MANY_REQUESTS && sent < UPLOAD_ATTEMPTS {
                    self.state = UploadState::Sending { wait_millis: RATE_LIMIT_PAUSE_MS };
                } else {
                    self.state = UploadState::Failed { error: SyncError::Api { status: s } };
                }
            },
            SendResult::Transport => {
                if sent < UPLOAD_ATTEMPTS {
                    self.state = UploadState::Sending { wait_millis: RATE_LIMIT_PAUSE_MS };
                } else {
                    self.state = UploadState::Failed { error: SyncError::Transport };
                }
            },
        }
    }
}

/// An upload never asks for a send beyond its fixed number: whenever it
/// asks for one more, fewer than that many have been made.
pub proof fn upload_sends_are_bounded(u: Upload, reply: SendResult)
    requires
        u.state is Sending,
        u.sent < UPLOAD_ATTEMPTS,
    ensures
        u.after(reply).state is Sending ==> u.after(reply).sent < UPLOAD_ATTEMPTS,
        u.after(reply).sent == u.sent + 1,
{
}

/// Two rate-limited replies and then a success: the upload succeeds on its
/// third send. Three rate-limited replies: it fails after its third send,
/// with no fourth.
pub proof fn rate_limit_retry_outcomes()
    ensures
        ({
            let u = (Upload { sent: 0, state: UploadState::Sending { wait_millis: 0 } });
            let ok = u.after(SendResult::Status(TOO_MANY_REQUESTS)).after(
                SendResult::Status(TOO_MANY_REQUESTS),
            ).after(SendResult::Status(200));
            let ko = u.after(SendResult::Status(TOO_MANY_REQUESTS)).after(
                SendResult::Status(TOO_MANY_REQUESTS),
            ).after(SendResult::Status(TOO_MANY_REQUESTS));
            &&& ok.sent == 3 && ok.state == UploadState::Succeeded
            &&& ko.sent == 3 && ko.state == UploadState::Failed {
                error: SyncError::Api { status: TOO_MANY_REQUESTS },
            }
        }),
{
}

} // verus!
