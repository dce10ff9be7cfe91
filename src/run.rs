//! The progress of one run over a list of vendor codes, as the interface
//! reads it.
use vstd::prelude::*;
use crate::error::SyncError;

verus! {

/// The abstract content of a `RunState`.
pub struct Progress {
    pub running: bool,
    /// The last run stopped during its setup, before any vendor code.
    pub aborted: bool,
    pub total: Option<nat>,
    /// Vendor codes whose outcome has been recorded.
    pub processed: nat,
    /// Products whose media upload succeeded.
    pub uploaded: nat,
    pub failed: Seq<Seq<char>>,
    pub logs: Seq<Seq<char>>,
}

impl Progress {
    /// Reset for a run over `n` vendor codes.
    pub open spec fn started(self, n: nat) -> Progress {
        Progress {
            running: true,
            aborted: false,
            total: Some(n),
            processed: 0,
            uploaded: 0,
            failed: Seq::empty(),
            logs: self.logs,
        }
    }

    /// The outcome of one vendor code recorded.
    pub open spec fn recorded(self, code: Seq<char>, ok: bool) -> Progress {
        Progress {
            failed: if ok {
                self.failed
            } else {
                self.failed.push(code)
            },
            processed: match self.total {
                Some(t) => if self.processed < t {
                    self.processed + 1
                } else {
                    self.processed
                },
                None => self.processed,
            },
            ..self
        }
    }

    /// A line appended to the log.
    pub open spec fn logged(self, line: Seq<char>) -> Progress {
        Progress { logs: self.logs.push(line), ..self }
    }

    pub open spec fn with_upload(self) -> Progress {
        Progress { uploaded: self.uploaded + 1, ..self }
    }

    pub open spec fn finished(self) -> Progress {
        Progress { running: false, ..self }
    }

    pub open spec fn aborted_now(self) -> Progress {
        Progress { running: false, aborted: true, ..self }
    }

    /// The count of processed codes stays within the total once it is set.
    pub open spec fn within_total(self) -> bool {
        self.total matches Some(t) ==> self.processed <= t
    }

    /// Every vendor code of `codes` recorded as a success, in order.
    pub open spec fn all_succeeded(self, codes: Seq<Seq<char>>) -> Progress
        decreases codes.len(),
    {
        if codes.len() == 0 {
            self
        } else {
            self.all_succeeded(codes.drop_last()).recorded(codes.last(), true)
        }
    }

    /// A whole run over `codes` in which every code succeeds.
    pub open spec fn successful_run(self, codes: Seq<Seq<char>>) -> Progress {
        self.started(codes.len()).all_succeeded(codes).finished()
    }
}

/// The shared state of the current run.
pub struct RunState {
    is_running: bool,
    aborted: bool,
    total: Option<usize>,
    processed: usize,
    uploaded: u64,
    failed: Vec<String>,
    logs: Vec<String>,
}

pub open spec fn text_views(v: Seq<String>) -> Seq<Seq<char>> {
    v.map_values(|s: String| s@)
}

/// The lines of `lines`, each after the first preceded by a line break.
pub open spec fn joined_lines(lines: Seq<Seq<char>>) -> Seq<char>
    decreases lines.len(),
{
    if lines.len() == 0 {
        Seq::empty()
    } else if lines.len() == 1 {
        lines[0]
    } else {
        joined_lines(lines.drop_last()) + "\n"@ + lines.last()
    }
}

impl View for RunState {
    type V = Progress;

    closed spec fn view(&self) -> Progress {
        Progress {
            running: self.is_running,
            aborted: self.aborted,
            total: match self.total {
                Some(t) => Some(t as nat),
                None => None,
            },
            processed: self.processed as nat,
            uploaded: self.uploaded as nat,
            failed: text_views(self.failed@),
            logs: text_views(self.logs@),
        }
    }
}

impl RunState {
    /// No run yet.
    pub fn new() -> (r: RunState)
        ensures
            r@ == (Progress {
                running: false,
                aborted: false,
                total: None,
                processed: 0,
                uploaded: 0,
                failed: Seq::empty(),
                logs: Seq::empty(),
            }),
    {
        let r = RunState {
            is_running: false,
            aborted: false,
            total: None,
            processed: 0,
            uploaded: 0,
            failed: Vec::new(),
            logs: Vec::new(),
        };
        assert(r@.failed =~= Seq::empty());
        assert(r@.logs =~= Seq::empty());
        r
    }

    /// Begins a run over `code_count` vendor codes; refused while a run is
    /// going on.
    pub fn start(&mut self, code_count: usize) -> (r: Result<(), SyncError>)
        ensures
            old(self)@.running ==> (r == Err::<(), SyncError>(SyncError::Validation)
                && final(self)@ == old(self)@),
            !old(self)@.running ==> (r is Ok && final(self)@ == old(self)@.started(
                code_count as nat,
            )),
    {
        if self.is_running {
            return Err(SyncError::Validation);
        }
        self.is_running = true;
        self.aborted = false;
        self.total = Some(code_count);
        self.processed = 0;
        self.uploaded = 0;
        self.failed = Vec::new();
        assert(self@.failed =~= Seq::empty());
        assert(self@ =~= old(self)@.started(code_count as nat));
        Ok(())
    }

    /// Records the outcome of one vendor code.
    pub fn record(&mut self, code: &str, ok: bool)
        ensures
            final(self)@ == old(self)@.recorded(code@, ok),
    {
        if !ok {
            self.failed.push(code.to_owned());
            assert(self@.failed =~= old(self)@.failed.push(code@));
        }
        match self.total {
            Some(t) => if self.processed < t {
                self.processed = self.processed + 1;
            },
            None => {},
        }
        assert(self@ =~= old(self)@.recorded(code@, ok));
    }

    /// Counts one product whose upload succeeded.
    pub fn count_upload(&mut self)
        requires
            old(self)@.uploaded < u64::MAX,
        ensures
            final(self)@ == old(self)@.with_upload(),
    {
        self.uploaded = self.uploaded + 1;
    }

    /// Ends the run.
    pub fn finish(&mut self)
        ensures
            final(self)@ == old(self)@.finished(),
    {
        self.is_running = false;
    }

    /// Ends the run during its setup: no vendor code is processed.
    pub fn abort(&mut self)
        ensures
            final(self)@ == old(self)@.aborted_now(),
    {
        self.is_running = false;
        self.aborted = true;
    }

    /// Whether the last run stopped during its setup.
    pub fn was_aborted(&self) -> (r: bool)
        ensures
            r == self@.aborted,
    {
        self.aborted
    }

    /// Appends a line to the log.
    pub fn log(&mut self, line: String)
        ensures
            final(self)@ == old(self)@.logged(line@),
    {
        self.logs.push(line);
        assert(self@.logs =~= old(self)@.logs.push(line@));
    }

    pub fn is_running(&self) -> (r: bool)
        ensures
            r == self@.running,
    {
        self.is_running
    }

    pub fn total(&self) -> (r: Option<usize>)
        ensures
            match r {
                Some(t) => self@.total == Some(t as nat),
                None => self@.total is None,
            },
    {
        self.total
    }

    pub fn processed(&self) -> (r: usize)
        ensures
            r == self@.processed,
    {
        self.processed
    }

    pub fn uploaded(&self) -> (r: u64)
        ensures
            r == self@.uploaded,
    {
        self.uploaded
    }

    pub fn failed_codes(&self) -> (r: &Vec<String>)
        ensures
            text_views(r@) == self@.failed,
    {
        &self.failed
    }

    pub fn logs(&self) -> (r: &Vec<String>)
        ensures
            text_views(r@) == self@.logs,
    {
        &self.logs
    }

    /// The input for a retry: the failed codes, one per line.
    pub fn retry_input(&self) -> (r: String)
        ensures
            r@ == joined_lines(self@.failed),
    {
        let mut s = String::new();
        let mut i: usize = 0;
        while i < self.failed.len()
            invariant
                i <= self.failed@.len(),
                s@ == joined_lines(text_views(self.failed@).subrange(0, i as int)),
            decreases self.failed@.len() - i,
        {
            let ghost before = text_views(self.failed@).subrange(0, i as int);
            let ghost after = text_views(self.failed@).subrange(0, i as int + 1);
            assert(after.drop_last() =~= before);
            if i > 0 {
                s.append("\n");
            }
            s.append(self.failed[i].as_str());
            proof {
                if i == 0 {
                    assert(s@ =~= after[0]);
                } else {
                    assert(s@ =~= joined_lines(before) + "\n"@ + after.last());
                }
            }
            i = i + 1;
        }
        assert(text_views(self.failed@).subrange(0, i as int) =~= self@.failed);
        s
    }

    /// Seconds still to go, estimated from the average time per processed
    /// code so far; none before the first code or without a total.
    pub fn eta_seconds(&self, elapsed_secs: u64) -> (r: Option<u64>)
        ensures
            match self@.total {
                Some(t) => if self@.processed == 0 || t < self@.processed {
                    r is None
                } else {
                    let e = elapsed_secs * (t - self@.processed) / (self@.processed as int);
                    r == Some(if e > u64::MAX {
                        u64::MAX
                    } else {
                        e as u64
                    })
                },
                None => r is None,
            },
    {
        match self.total {
            None => None,
            Some(t) => {
                if self.processed == 0 || t < self.processed {
                    None
                } else {
                    let remaining = (t - self.processed) as u128;
                    assert(elapsed_secs * remaining <= u64::MAX * u64::MAX) by (nonlinear_arith)
                        requires
                            elapsed_secs <= u64::MAX,
                            remaining <= u64::MAX,
                    ;
                    let e = (elapsed_secs as u128) * remaining / (self.processed as u128);
                    if e > u64::MAX as u128 {
                        Some(u64::MAX)
                    } else {
                        Some(e as u64)
                    }
                }
            },
        }
    }
}

/// Recording an outcome never lowers the count of processed codes, and never
/// takes it past the total once the total is set.
pub proof fn processed_is_monotone_and_bounded(p: Progress, code: Seq<char>, ok: bool)
    requires
        p.within_total(),
    ensures
        p.recorded(code, ok).within_total(),
        p.recorded(code, ok).processed >= p.processed,
        p.recorded(code, ok).total == p.total,
        p.started(0).within_total(),
        p.with_upload().within_total(),
        p.finished().within_total(),
        p.aborted_now().within_total(),
{
}

/// A run in which every code succeeds ends with all codes processed and none
/// failed, and running it again from there ends in the same place.
pub proof fn successful_run_is_complete_and_repeatable(p: Progress, codes: Seq<Seq<char>>)
    ensures
        ({
            let q = p.successful_run(codes);
            &&& q.total == Some(codes.len())
            &&& q.processed == codes.len()
            &&& q.failed.len() == 0
            &&& !q.running
            &&& !q.aborted
            &&& q.successful_run(codes) == q
        }),
{
    all_succeeded_counts(p.started(codes.len()), codes, codes.len());
    let q = p.successful_run(codes);
    all_succeeded_counts(q.started(codes.len()), codes, codes.len());
    assert(q.started(codes.len()) == p.started(codes.len()));
}

proof fn all_succeeded_counts(s: Progress, codes: Seq<Seq<char>>, n: nat)
    requires
        s.total == Some(n),
        s.processed == 0,
        s.failed.len() == 0,
        codes.len() <= n,
    ensures
        s.all_succeeded(codes) == (Progress { processed: codes.len(), ..s }),
    decreases codes.len(),
{
    if codes.len() > 0 {
        all_succeeded_counts(s, codes.drop_last(), n);
    }
}

} // verus!
