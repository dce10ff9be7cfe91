//! Obtaining a direct download address for a file of a remote share.
//!
//! The shares are asked in order. A share that answers 401 cannot serve the
//! path and is passed over at once; other failures are retried a fixed number
//! of times before the next share is tried.
use vstd::prelude::*;
use crate::error::SyncError;
use crate::urls::{download_url, download_url_of};

verus! {

/// Attempts per share.
pub const LINK_ATTEMPTS: u64 = 3;

/// Pause before asking the same share again, in milliseconds.
pub const LINK_RETRY_PAUSE_MS: u64 = 5000;

/// The status with which a share refuses a path it does not hold.
pub const UNAUTHORIZED: u16 = 401;

/// What came of one request for a direct address.
#[derive(Debug)]
pub enum LinkResponse {
    /// A successful response and the address in it.
    Link(String),
    /// A response with a status outside 2xx.
    Status(u16),
    /// A successful response whose body could not be read.
    Malformed,
    /// No response.
    Transport,
}

/// A request for a direct address: where to send it and how long to pause first.
#[derive(Clone, Debug)]
pub struct LinkRequest {
    pub url: String,
    pub wait_millis: u64,
}

/// A search for the direct address of one path across the shares.
pub struct LinkResolution {
    roots: Vec<String>,
    path: String,
    root_index: usize,
    attempts: u64,
    wait_millis: u64,
    link: Option<String>,
}

impl LinkResolution {
    pub closed spec fn roots(&self) -> Seq<String> {
        self.roots@
    }

    pub closed spec fn path(&self) -> Seq<char> {
        self.path@
    }

    /// The share now asked; past the last one, the search has failed.
    pub closed spec fn root_index(&self) -> nat {
        self.root_index as nat
    }

    /// Failed attempts on the share now asked.
    pub closed spec fn attempts(&self) -> nat {
        self.attempts as nat
    }

    /// The address found, once found.
    pub closed spec fn link(&self) -> Option<Seq<char>> {
        match self.link {
            Some(l) => Some(l@),
            None => None,
        }
    }

    pub closed spec fn wait(&self) -> u64 {
        self.wait_millis
    }

    /// Still asking.
    pub open spec fn asking(&self) -> bool {
        self.link() is None && self.root_index() < self.roots().len()
    }

    pub closed spec fn wf(&self) -> bool {
        &&& self.attempts < LINK_ATTEMPTS
        &&& self.root_index <= self.roots@.len()
    }

    /// Starts the search for `path` across `roots`.
    pub fn new(roots: Vec<String>, path: String) -> (r: LinkResolution)
        ensures
            r.wf(),
            r.roots() == roots@,
            r.path() == path@,
            r.root_index() == 0,
            r.attempts() == 0,
            r.link() is None,
    {
        LinkResolution { roots, path, root_index: 0, attempts: 0, wait_millis: 0, link: None }
    }

    /// The request to send next, while still asking.
    pub fn next_request(&self) -> (r: Option<LinkRequest>)
        requires
            self.wf(),
        ensures
            r is Some <==> self.asking(),
            r matches Some(q) ==> q.url@ == download_url_of(
                self.roots()[self.root_index() as int]@,
                self.path(),
            ) && q.wait_millis == self.wait(),
    {
        if self.link.is_some() || self.root_index >= self.roots.len() {
            return None;
        }
        Some(
            LinkRequest {
                url: download_url(self.roots[self.root_index].as_str(), self.path.as_str()),
                wait_millis: self.wait_millis,
            },
        )
    }

    /// Takes the response to the request that `next_request` described.
    pub fn on_response(&mut self, response: LinkResponse)
        requires
            old(self).wf(),
            old(self).asking(),
        ensures
            final(self).wf(),
            final(self).roots() == old(self).roots(),
            final(self).path() == old(self).path(),
            match response {
                LinkResponse::Link(l) => final(self).link() == Some(l@),
                LinkResponse::Status(s) if s == UNAUTHORIZED => {
                    &&& final(self).link() is None
                    &&& final(self).root_index() == old(self).root_index() + 1
                    &&& final(self).attempts() == 0
                    &&& final(self).wait() == 0
                },
                _ => {
                    &&& final(self).link() is None
                    &&& old(self).attempts() + 1 < LINK_ATTEMPTS ==> {
                        &&& final(self).root_index() == old(self).root_index()
                        &&& final(self).attempts() == old(self).attempts() + 1
                        &&& final(self).wait() == LINK_RETRY_PAUSE_MS
                    }
                    &&& old(self).attempts() + 1 >= LINK_ATTEMPTS ==> {
                        &&& final(self).root_index() == old(self).root_index() + 1
                        &&& final(self).attempts() == 0
                        &&& final(self).wait() == 0
                    }
                },
            },
    {
        let n_roots = self.roots.len();
        assert(self.root_index < n_roots);
        match response {
            LinkResponse::Link(l) => {
                self.link = Some(l);
            },
            LinkResponse::Status(s) if s == UNAUTHORIZED => {
                self.root_index = self.root_index + 1;
                self.attempts = 0;
                self.wait_millis = 0;
            },
            _ => {
                if self.attempts + 1 < LINK_ATTEMPTS {
                    self.attempts = self.attempts + 1;
                    self.wait_millis = LINK_RETRY_PAUSE_MS;
                } else {
                    self.root_index = self.root_index + 1;
                    self.attempts = 0;
                    self.wait_millis = 0;
                }
            },
        }
    }

    /// The address found, or the failure once every share has been tried.
    pub fn into_result(self) -> (r: Result<String, SyncError>)
        requires
            self.wf(),
            !self.asking(),
        ensures
            match self.link() {
                Some(l) => r matches Ok(s) && s@ == l,
                None => r == Err::<String, SyncError>(SyncError::Resolution),
            },
    {
        match self.link {
            Some(l) => Ok(l),
            None => Err(SyncError::Resolution),
        }
    }
}

} // verus!
