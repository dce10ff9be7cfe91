//! The form that starts a run, and the checks made before one starts.
use vstd::prelude::*;
use vstd::string::*;
use crate::input::{contains, contains_text, entries, split_entries, split_trimmed, trimmed_pieces};
use crate::media::{extension_of, is_media_file, media_name};
use crate::profile::ProfileManager;
use crate::run::{joined_lines, Progress, RunState};

verus! {

/// Where the media of a run come from.
#[derive(Debug)]
pub enum Source {
    /// Public links of remote shares.
    Remote { roots: Vec<String> },
    /// A local directory tree.
    LocalDir { path: String },
    /// One local file.
    SingleFile { path: String },
}

/// What a run was started with.
#[derive(Debug)]
pub struct RunPlan {
    pub codes: Vec<String>,
    pub source: Source,
    pub api_key: String,
}

/// Why a run was not started.
#[derive(Clone, Copy, Debug, PartialEq, Eq, Structural)]
pub enum StartRefusal {
    /// A remote address is not a public share link.
    NotShareLink,
    /// The single file does not exist.
    NotAFile,
    /// The single file is not an image or video.
    NotMedia,
    /// The local source is not a directory.
    NotADirectory,
    /// The selected profile has no API key.
    NoApiKey,
    /// No vendor code was given.
    NoCodes,
    /// A run is already going on.
    AlreadyRunning,
}

/// The log line that reports a refused start.
pub open spec fn refusal_message(e: StartRefusal) -> Seq<char> {
    match e {
        StartRefusal::NotShareLink => "run not started: every link must be a public share link"@,
        StartRefusal::NotAFile => "run not started: the file path does not name a file"@,
        StartRefusal::NotMedia => "run not started: the file is not an image or a video"@,
        StartRefusal::NotADirectory => "run not started: the local path is not a directory"@,
        StartRefusal::NoApiKey => "run not started: the profile has no API key"@,
        StartRefusal::NoCodes => "run not started: no vendor code was given"@,
        StartRefusal::AlreadyRunning => "run not started: a run is already going on"@,
    }
}

/// The log line that reports a refused start.
pub fn refusal_text(e: StartRefusal) -> (r: String)
    ensures
        r@ == refusal_message(e),
{
    match e {
        StartRefusal::NotShareLink => "run not started: every link must be a public share link".to_owned(),
        StartRefusal::NotAFile => "run not started: the file path does not name a file".to_owned(),
        StartRefusal::NotMedia => "run not started: the file is not an image or a video".to_owned(),
        StartRefusal::NotADirectory => "run not started: the local path is not a directory".to_owned(),
        StartRefusal::NoApiKey => "run not started: the profile has no API key".to_owned(),
        StartRefusal::NoCodes => "run not started: no vendor code was given".to_owned(),
        StartRefusal::AlreadyRunning => "run not started: a run is already going on".to_owned(),
    }
}

/// What every public share link holds.
pub open spec fn share_marker() -> Seq<char> {
    "disk.yandex.ru/d/"@
}

/// Every comma-separated piece of `urls`, trimmed, is a public share link.
pub open spec fn all_share_links(urls: Seq<char>) -> bool {
    forall|i: int|
        0 <= i < trimmed_pieces(urls, ',').len() ==> contains(
            #[trigger] trimmed_pieces(urls, ',')[i],
            share_marker(),
        )
}

/// The form's inputs and the state of the current run.
pub struct DownloaderApp {
    /// Comma-separated public share links.
    pub urls: String,
    /// Vendor codes, one per line.
    pub file_names: String,
    pub profile_manager: ProfileManager,
    pub new_profile_name: String,
    pub use_local_path: bool,
    pub local_source_path: String,
    pub single_file_path: String,
    pub show_logs: bool,
    pub run: RunState,
}

impl DownloaderApp {
    /// The API key of the selected profile; empty where there is none.
    pub open spec fn api_key(&self) -> Seq<char> {
        if self.profile_manager.selected_index < self.profile_manager.profiles@.len() {
            self.profile_manager.profiles@[self.profile_manager.selected_index as int].api_key@
        } else {
            Seq::empty()
        }
    }

    /// The refusal that the form's inputs call for, checked in this order;
    /// `local_is_file` and `local_is_dir` say what is found on disk at the
    /// single file path and at the local source path.
    pub open spec fn refusal(&self, local_is_file: bool, local_is_dir: bool) -> Option<StartRefusal> {
        if !self.use_local_path && !all_share_links(self.urls@) {
            Some(StartRefusal::NotShareLink)
        } else if self.use_local_path && self.single_file_path@.len() > 0 && !local_is_file {
            Some(StartRefusal::NotAFile)
        } else if self.use_local_path && self.single_file_path@.len() > 0 && !media_name(
            extension_of(self.single_file_path@),
        ) {
            Some(StartRefusal::NotMedia)
        } else if self.use_local_path && self.single_file_path@.len() == 0 && !local_is_dir {
            Some(StartRefusal::NotADirectory)
        } else if self.api_key().len() == 0 {
            Some(StartRefusal::NoApiKey)
        } else if entries(self.file_names@, '\n').len() == 0 {
            Some(StartRefusal::NoCodes)
        } else {
            None
        }
    }

    /// `p` is the plan that the form's inputs describe.
    pub open spec fn plan_matches(&self, p: RunPlan) -> bool {
        &&& p.codes@.map_values(|e: String| e@) == entries(self.file_names@, '\n')
        &&& p.api_key@ == self.api_key()
        &&& match p.source {
            Source::Remote { roots } => !self.use_local_path && roots@.map_values(|e: String| e@)
                == entries(self.urls@, ','),
            Source::LocalDir { path } => self.use_local_path && self.single_file_path@.len() == 0
                && path == self.local_source_path,
            Source::SingleFile { path } => self.use_local_path && self.single_file_path@.len() > 0
                && path == self.single_file_path,
        }
    }

    /// An empty form over `profile_manager`, with no run yet.
    pub fn new(profile_manager: ProfileManager) -> (r: DownloaderApp)
        ensures
            r.urls@.len() == 0,
            r.file_names@.len() == 0,
            !r.use_local_path,
            r.single_file_path@.len() == 0,
            r.local_source_path@.len() == 0,
            r.run@ == (Progress {
                running: false,
                aborted: false,
                total: None,
                processed: 0,
                uploaded: 0,
                failed: Seq::empty(),
                logs: Seq::empty(),
            }),
            r.profile_manager == profile_manager,
    {
        DownloaderApp {
            urls: String::new(),
            file_names: String::new(),
            profile_manager,
            new_profile_name: String::new(),
            use_local_path: false,
            local_source_path: String::new(),
            single_file_path: String::new(),
            show_logs: false,
            run: RunState::new(),
        }
    }

    /// Checks the form and, where it is in order, says what to run.
    pub fn plan_run(&self, local_is_file: bool, local_is_dir: bool) -> (r: Result<
        RunPlan,
        StartRefusal,
    >)
        ensures
            match self.refusal(local_is_file, local_is_dir) {
                Some(e) => r == Err::<RunPlan, StartRefusal>(e),
                None => r matches Ok(p) && self.plan_matches(p),
            },
    {
        if !self.use_local_path {
            let pieces = split_trimmed(self.urls.as_str(), ',');
            let mut i: usize = 0;
            while i < pieces.len()
                invariant
                    !self.use_local_path,
                    i <= pieces@.len(),
                    pieces@.map_values(|e: String| e@) == trimmed_pieces(self.urls@, ','),
                    forall|j: int|
                        0 <= j < i ==> contains(
                            #[trigger] trimmed_pieces(self.urls@, ',')[j],
                            share_marker(),
                        ),
                decreases pieces@.len() - i,
            {
                assert(pieces@.map_values(|e: String| e@)[i as int] == pieces@[i as int]@);
                if !contains_text(pieces[i].as_str(), "disk.yandex.ru/d/") {
                    assert(!contains(trimmed_pieces(self.urls@, ',')[i as int], share_marker()));
                    assert(!all_share_links(self.urls@));
                    return Err(StartRefusal::NotShareLink);
                }
                i = i + 1;
            }
        }
        let single = self.single_file_path.unicode_len() > 0;
        if self.use_local_path && single && !local_is_file {
            return Err(StartRefusal::NotAFile);
        }
        if self.use_local_path && single && !is_media_file(self.single_file_path.as_str()) {
            return Err(StartRefusal::NotMedia);
        }
        if self.use_local_path && !single && !local_is_dir {
            return Err(StartRefusal::NotADirectory);
        }
        let pm = &self.profile_manager;
        let api_key = if pm.selected_index < pm.profiles.len() {
            pm.profiles[pm.selected_index].api_key.clone()
        } else {
            String::new()
        };
        if api_key.unicode_len() == 0 {
            return Err(StartRefusal::NoApiKey);
        }
        let codes = split_entries(self.file_names.as_str(), '\n');
        if codes.len() == 0 {
            return Err(StartRefusal::NoCodes);
        }
        let source = if !self.use_local_path {
            let roots = crate::input::split_entries(self.urls.as_str(), ',');
            Source::Remote { roots }
        } else if single {
            Source::SingleFile { path: self.single_file_path.clone() }
        } else {
            Source::LocalDir { path: self.local_source_path.clone() }
        };
        Ok(RunPlan { codes, source, api_key })
    }

    /// Checks the form and begins a run: refused while one is going on. A
    /// refusal is reported in the run's log.
    pub fn start_run(&mut self, local_is_file: bool, local_is_dir: bool) -> (r: Result<
        RunPlan,
        StartRefusal,
    >)
        ensures
            old(self).run@.running ==> (r == Err::<RunPlan, StartRefusal>(
                StartRefusal::AlreadyRunning,
            ) && final(self).run@ == old(self).run@.logged(
                refusal_message(StartRefusal::AlreadyRunning),
            )),
            !old(self).run@.running ==> match old(self).refusal(local_is_file, local_is_dir) {
                Some(e) => r == Err::<RunPlan, StartRefusal>(e) && final(self).run@ == old(self).run@.logged(refusal_message(e)),
                None => r matches Ok(p) && old(self).plan_matches(p) && final(self).run@ == old(self).run@.started(p.codes@.len()),
            },
            final(self).file_names == old(self).file_names,
    {
        if self.run.is_running() {
            self.run.log(refusal_text(StartRefusal::AlreadyRunning));
            return Err(StartRefusal::AlreadyRunning);
        }
        let plan = self.plan_run(local_is_file, local_is_dir);
        match plan {
            Ok(p) => {
                let _ = self.run.start(p.codes.len());
                Ok(p)
            },
            Err(e) => {
                self.run.log(refusal_text(e));
                Err(e)
            },
        }
    }

    /// After a run: the failed codes become the input, one per line; no
    /// failure leaves the input empty.
    pub fn take_failed_as_input(&mut self)
        ensures
            final(self).file_names@ == joined_lines(old(self).run@.failed),
            final(self).run@ == old(self).run@,
    {
        self.file_names = self.run.retry_input();
    }
}

} // verus!
