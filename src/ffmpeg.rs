use vstd::prelude::*;

use crate::args::Args;
use crate::text::{decimal, join, join_with, opt_view, push_decimal, split_words, views, words};
use crate::utils::{is_valid_format, valid_format};

verus! {

/// One conversion: an input path and the output path it is converted to.
pub struct Job {
    pub input: String,
    pub output: String,
}

impl View for Job {
    type V = (Seq<char>, Seq<char>);

    open spec fn view(&self) -> (Seq<char>, Seq<char>) {
        (self.input@, self.output@)
    }
}

/// Views of a sequence of jobs.
pub open spec fn job_views(v: Seq<Job>) -> Seq<(Seq<char>, Seq<char>)> {
    v.map_values(|j: Job| j@)
}

/// The consecutive, non-overlapping pairs of `files`, in order.
pub open spec fn pairs(files: Seq<Seq<char>>) -> Seq<(Seq<char>, Seq<char>)> {
    Seq::new((files.len() / 2) as nat, |k: int| (files[2 * k], files[2 * k + 1]))
}

/// The file list cannot be split into input/output pairs.
#[derive(Debug, PartialEq, Eq, Structural)]
pub enum UsageError {
    MismatchedPairs,
}

/// Splits the file list into jobs, two paths at a time, in the order given.
/// An odd number of paths is refused.
pub fn pair_files(files: &Vec<String>) -> (r: Result<Vec<Job>, UsageError>)
    ensures
        r is Err <==> files@.len() % 2 == 1,
        r matches Ok(jobs) ==> job_views(jobs@) == pairs(views(files@)),
{
    if files.len() % 2 == 1 {
        return Err(UsageError::MismatchedPairs);
    }
    let mut jobs: Vec<Job> = Vec::new();
    let mut k: usize = 0;
    let mut i: usize = 0;
    let n = files.len();
    let half = n / 2;
    while k < half
        invariant
            n == files@.len(),
            half == files@.len() / 2,
            2 * half == files@.len(),
            files@.len() % 2 == 0,
            k <= half,
            i == 2 * k,
            job_views(jobs@) =~= pairs(views(files@)).subrange(0, k as int),
        decreases half - k,
    {
        let job = Job { input: files[i].clone(), output: files[i + 1].clone() };
        let ghost before = jobs@;
        jobs.push(job);
        assert(job_views(jobs@) =~= job_views(before).push(job@));
        k = k + 1;
        i = i + 2;
    }
    Ok(jobs)
}

/// `-i`
pub open spec fn flag_input() -> Seq<char> {
    seq!['-', 'i']
}

/// `-threads`
pub open spec fn flag_threads() -> Seq<char> {
    seq!['-', 't', 'h', 'r', 'e', 'a', 'd', 's']
}

/// The encoder's argument vector for one job: the input, the thread count, the
/// user's extra options split on white space, and the output last.
pub open spec fn encoder_arguments(
    job: (Seq<char>, Seq<char>),
    threads: nat,
    options: Option<Seq<char>>,
) -> Seq<Seq<char>> {
    seq![flag_input(), job.0, flag_threads(), decimal(threads)] + match options {
        Some(o) => words(o),
        None => seq![],
    } + seq![job.1]
}

/// Builds the encoder's argument vector for `job`.
pub fn encoder_args(job: &Job, threads: usize, options: &Option<String>) -> (r: Vec<String>)
    ensures
        views(r@) == encoder_arguments(job@, threads as nat, opt_view(*options)),
{
    proof {
        reveal_strlit("-i");
        reveal_strlit("-threads");
    }
    let mut args: Vec<String> = Vec::new();
    args.push(String::from_str("-i"));
    args.push(job.input.clone());
    args.push(String::from_str("-threads"));
    let mut count = String::new();
    push_decimal(&mut count, threads);
    args.push(count);
    let ghost head = views(args@);
    assert("-i"@ =~= flag_input());
    assert("-threads"@ =~= flag_threads());
    assert(head =~= seq![flag_input(), job@.0, flag_threads(), decimal(threads as nat)]);
    let extra: Vec<String> = match options {
        Some(o) => split_words(o.as_str()),
        None => Vec::new(),
    };
    let ghost extra_view = match options {
        Some(o) => words(o@),
        None => Seq::<Seq<char>>::empty(),
    };
    assert(views(extra@) =~= extra_view);
    let mut i: usize = 0;
    while i < extra.len()
        invariant
            i <= extra@.len(),
            views(args@) =~= head + views(extra@).subrange(0, i as int),
        decreases extra@.len() - i,
    {
        let ghost before = args@;
        args.push(extra[i].clone());
        assert(views(args@) =~= views(before).push(extra@[i as int]@));
        i = i + 1;
    }
    let ghost before = args@;
    args.push(job.output.clone());
    assert(views(args@) =~= views(before).push(job@.1));
    assert(views(extra@).subrange(0, extra@.len() as int) =~= views(extra@));
    assert(views(args@) =~= head + extra_view + seq![job@.1]);
    args
}

pub const DRY_RUN_HEAD: &'static str = "Dry-run mode: Simulated FFmpeg command: ffmpeg ";

/// The line printed in place of running the encoder.
pub open spec fn dry_run_text(args: Seq<Seq<char>>) -> Seq<char> {
    DRY_RUN_HEAD@ + join(args, seq![' '])
}

/// The line that a dry run prints for the argument vector `args`.
pub fn dry_run_line(args: &Vec<String>) -> (r: String)
    ensures
        r@ == dry_run_text(views(args@)),
{
    proof {
        reveal_strlit(" ");
        assert(" "@ =~= seq![' ']);
    }
    let mut line = String::from_str(DRY_RUN_HEAD);
    let joined = join_with(args, " ");
    line.append(joined.as_str());
    line
}

/// The marker that the encoder writes in its progress lines.
pub const PROGRESS_MARKER: &'static str = "frame=";

/// The nominal scale of the progress counter.
pub const PROGRESS_SCALE: u64 = 100;

/// Whether `t` occurs in `s` as a contiguous run.
pub open spec fn contains(s: Seq<char>, t: Seq<char>) -> bool {
    exists|i: int| 0 <= i <= s.len() - t.len() && #[trigger] s.subrange(i, i + t.len()) == t
}

/// Tells whether `s` contains `t`.
pub fn contains_text(s: &str, t: &str) -> (r: bool)
    ensures
        r == contains(s@, t@),
{
    let n = s.unicode_len();
    let k = t.unicode_len();
    if k > n {
        return false;
    }
    let mut i: usize = 0;
    loop
        invariant
            n == s@.len(),
            k == t@.len() <= n,
            i <= n - k,
            forall|j: int| 0 <= j < i ==> #[trigger] s@.subrange(j, j + k) != t@,
        decreases n - k - i,
    {
        if crate::text::span_is(s, i, i + k, t) {
            return true;
        }
        if i == n - k {
            return false;
        }
        i = i + 1;
    }
}

/// Tells whether a line of the encoder's error stream reports progress: it holds the marker.
pub fn is_progress_line(line: &str) -> (r: bool)
    ensures
        r == contains(line@, PROGRESS_MARKER@),
{
    contains_text(line, PROGRESS_MARKER)
}

/// Relies on num_cpus::get: the number of processing units this process may use,
/// documented to be at least 1.
#[verifier::external_body]
fn cpu_count() -> (r: usize)
    ensures
        r >= 1,
{
    num_cpus::get()
}

/// The text `a`, `b` and `c` laid end to end.
fn glue(a: &str, b: &str, c: &str) -> (r: String)
    ensures
        r@ == a@ + b@ + c@,
{
    let mut out = String::from_str(a);
    out.append(b);
    out.append(c);
    out
}

pub const ERROR_PREFIX: &'static str = "Error: ";

pub const MISSING_HEAD: &'static str = "Input file '";

pub const MISSING_TAIL: &'static str = "' does not exist.";

pub const UNSUPPORTED_CONSOLE: &'static str = "Error: Unsupported file format.";

pub const UNSUPPORTED_RECORD: &'static str = "Unsupported file format detected.";

pub const CONVERTING_HEAD: &'static str = "Converting ";

pub const CONVERTING_ARROW: &'static str = " -> ";

pub const CONVERTING_USING: &'static str = " using ";

pub const CONVERTING_TAIL: &'static str = " CPU cores";

pub const SPAWN_HEAD: &'static str = "Error executing FFmpeg: ";

pub const FAILED_CONSOLE_HEAD: &'static str = "Conversion failed with status: ";

pub const FAILED_RECORD_HEAD: &'static str = "FFmpeg process failed with status: ";

pub const CONVERTED_HEAD: &'static str = "Successfully converted '";

pub const CONVERTED_MID: &'static str = "' to '";

pub const CONVERTED_TAIL: &'static str = "'.";

/// The error record for an input that does not exist.
pub open spec fn missing_record(input: Seq<char>) -> Seq<char> {
    MISSING_HEAD@ + input + MISSING_TAIL@
}

/// The line announcing a conversion.
pub open spec fn converting_text(job: (Seq<char>, Seq<char>), threads: nat) -> Seq<char> {
    CONVERTING_HEAD@ + job.0 + CONVERTING_ARROW@ + job.1 + CONVERTING_USING@ + decimal(threads)
        + CONVERTING_TAIL@
}

/// The success record of a conversion.
pub open spec fn converted_record(job: (Seq<char>, Seq<char>)) -> Seq<char> {
    CONVERTED_HEAD@ + job.0 + CONVERTED_MID@ + job.1 + CONVERTED_TAIL@
}

/// Whether both paths of a job name supported formats.
pub open spec fn job_formats_ok(job: (Seq<char>, Seq<char>)) -> bool {
    valid_format(job.0) && valid_format(job.1)
}

/// Where a run stands, as plain values.
pub struct RunState {
    /// Index of the job to decide next.
    pub next: nat,
    /// The encoder runs on job `next`.
    pub running: bool,
    /// The exit status that ended the run early.
    pub stopped: Option<i32>,
    /// Indices of the jobs the encoder was launched on, in launch order.
    pub launched: Seq<nat>,
}

/// A run before any job was decided.
pub open spec fn initial_state() -> RunState {
    RunState { next: 0, running: false, stopped: None, launched: seq![] }
}

/// The state after deciding job `s.next`, knowing whether its input exists.
/// A missing input or an unsupported format skips the job; a dry run ends the run with
/// status 0; otherwise the encoder is launched.
pub open spec fn begin_state(
    jobs: Seq<(Seq<char>, Seq<char>)>,
    dry_run: bool,
    s: RunState,
    input_exists: bool,
) -> RunState {
    if !input_exists || !job_formats_ok(jobs[s.next as int]) {
        RunState { next: s.next + 1, ..s }
    } else if dry_run {
        RunState { stopped: Some(0), ..s }
    } else {
        RunState { running: true, launched: s.launched.push(s.next), ..s }
    }
}

/// The state after the encoder's run: `None` where it could not be started, else whether
/// it exited with success. A failed exit ends the run with status 1; anything else goes on.
pub open spec fn finish_state(s: RunState, exited_ok: Option<bool>) -> RunState {
    match exited_ok {
        Some(false) => RunState { running: false, stopped: Some(1), ..s },
        _ => RunState { running: false, next: s.next + 1, ..s },
    }
}

/// What became of the encoder process.
pub enum Outcome {
    /// It could not be started.
    SpawnFailed { reason: String },
    /// It ran and exited; `status` describes the exit status.
    Exited { success: bool, status: String },
}

/// `None` where the process did not start, else whether it exited with success.
pub open spec fn exited_ok(o: Outcome) -> Option<bool> {
    match o {
        Outcome::SpawnFailed { .. } => None,
        Outcome::Exited { success, .. } => Some(success),
    }
}

/// What to do about a job before its conversion.
pub enum JobStart {
    /// Skip it: print `console` to the error stream and record `record` as an error.
    MissingInput { console: String, record: String },
    /// Skip it, as above.
    UnsupportedFormat { console: String, record: String },
    /// Print `line` and end the run with status 0.
    Simulate { line: String },
    /// Print `announce`, run the encoder with `args`, and report how it went.
    Launch { announce: String, args: Vec<String> },
}

/// What to do after a job's encoder process.
pub enum JobEnd {
    /// Print `console` to the error stream, record `record` as an error, go on.
    SpawnError { console: String, record: String },
    /// Print `console` to the error stream, record `record` as an error, end with status 1.
    Failed { console: String, record: String },
    /// Record `record` as a success, go on.
    Converted { record: String },
}

/// The decisions of a run over its jobs, one at a time, in order.
pub struct Session {
    pub jobs: Vec<Job>,
    pub threads: usize,
    pub options: Option<String>,
    pub dry_run: bool,
    pub next: usize,
    pub running: bool,
    pub stopped: Option<i32>,
    pub launched: Ghost<Seq<nat>>,
}

impl Session {
    /// Where the run stands, as plain values.
    pub open spec fn state(&self) -> RunState {
        RunState {
            next: self.next as nat,
            running: self.running,
            stopped: self.stopped,
            launched: self.launched@,
        }
    }

    /// The next index stays within the jobs, a running job is a real one and the run is
    /// not over while it runs, and the encoder gets at least one thread.
    pub open spec fn wf(&self) -> bool {
        &&& self.next <= self.jobs@.len()
        &&& self.running ==> self.next < self.jobs@.len() && self.stopped is None
        &&& self.threads >= 1
    }

    /// Whether two sessions run the same jobs with the same settings.
    pub open spec fn same_run(&self, other: &Session) -> bool {
        &&& job_views(self.jobs@) == job_views(other.jobs@)
        &&& self.threads == other.threads
        &&& opt_view(self.options) == opt_view(other.options)
        &&& self.dry_run == other.dry_run
    }

    /// The job with index `k`, as plain values.
    pub open spec fn job(&self, k: int) -> (Seq<char>, Seq<char>) {
        self.jobs@[k]@
    }

    /// Starts a run of the configuration `args`, handing the encoder `threads` threads.
    /// An odd number of files is refused before any job is decided.
    pub fn with_threads(args: &Args, threads: usize) -> (r: Result<Session, UsageError>)
        requires
            threads >= 1,
        ensures
            r is Err <==> args@.files.len() % 2 == 1,
            r matches Ok(s) ==> {
                &&& s.wf()
                &&& job_views(s.jobs@) == pairs(args@.files)
                &&& s.threads == threads
                &&& opt_view(s.options) == args@.options
                &&& s.dry_run == args.dry_run
                &&& s.state() == initial_state()
            },
    {
        match pair_files(&args.files) {
            Err(e) => Err(e),
            Ok(jobs) => Ok(
                Session {
                    jobs,
                    threads,
                    options: args.options.clone(),
                    dry_run: args.dry_run,
                    next: 0,
                    running: false,
                    stopped: None,
                    launched: Ghost(Seq::empty()),
                },
            ),
        }
    }

    /// Starts a run of the configuration `args`, handing the encoder as many threads as
    /// there are processing units.
    pub fn start(args: &Args) -> (r: Result<Session, UsageError>)
        ensures
            r is Err <==> args@.files.len() % 2 == 1,
            r matches Ok(s) ==> {
                &&& s.wf()
                &&& job_views(s.jobs@) == pairs(args@.files)
                &&& s.threads >= 1
                &&& opt_view(s.options) == args@.options
                &&& s.dry_run == args.dry_run
                &&& s.state() == initial_state()
            },
    {
        Session::with_threads(args, cpu_count())
    }

    /// Whether the run is over: it was ended early, or every job was decided.
    pub fn is_over(&self) -> (r: bool)
        requires
            self.wf(),
        ensures
            r == (self.stopped is Some || (!self.running && self.next == self.jobs@.len())),
    {
        self.stopped.is_some() || (!self.running && self.next == self.jobs.len())
    }

    /// The exit status of a run that is over: the one it was ended with, else 0.
    pub fn exit_code(&self) -> (r: i32)
        ensures
            r == match self.stopped {
                Some(c) => c,
                None => 0,
            },
    {
        match self.stopped {
            Some(c) => c,
            None => 0,
        }
    }

    /// The input path of the job to decide next, whose existence `begin_job` asks for.
    pub fn pending_input(&self) -> (r: Option<String>)
        requires
            self.wf(),
        ensures
            match r {
                Some(p) => !self.running && self.stopped is None && self.next < self.jobs@.len()
                    && p@ == self.job(self.next as int).0,
                None => self.running || self.stopped is Some || self.next == self.jobs@.len(),
            },
    {
        if self.running || self.stopped.is_some() || self.next == self.jobs.len() {
            None
        } else {
            Some(self.jobs[self.next].input.clone())
        }
    }

    /// Decides the next job, given whether its input exists.
    pub fn begin_job(&mut self, input_exists: bool) -> (r: JobStart)
        requires
            old(self).wf(),
            !old(self).running,
            old(self).stopped is None,
            old(self).next < old(self).jobs@.len(),
        ensures
            final(self).wf(),
            final(self).same_run(old(self)),
            final(self).state() == begin_state(
                job_views(old(self).jobs@),
                old(self).dry_run,
                old(self).state(),
                input_exists,
            ),
            ({
                let job = old(self).job(old(self).next as int);
                let argv = encoder_arguments(
                    job,
                    old(self).threads as nat,
                    opt_view(old(self).options),
                );
                match r {
                    JobStart::MissingInput { console, record } => {
                        &&& !input_exists
                        &&& record@ == missing_record(job.0)
                        &&& console@ == ERROR_PREFIX@ + record@
                    },
                    JobStart::UnsupportedFormat { console, record } => {
                        &&& input_exists
                        &&& !job_formats_ok(job)
                        &&& console@ == UNSUPPORTED_CONSOLE@
                        &&& record@ == UNSUPPORTED_RECORD@
                    },
                    JobStart::Simulate { line } => {
                        &&& input_exists
                        &&& job_formats_ok(job)
                        &&& old(self).dry_run
                        &&& line@ == dry_run_text(argv)
                    },
                    JobStart::Launch { announce, args } => {
                        &&& input_exists
                        &&& job_formats_ok(job)
                        &&& !old(self).dry_run
                        &&& announce@ == converting_text(job, old(self).threads as nat)
                        &&& views(args@) == argv
                    },
                }
            }),
    {
        let k = self.next;
        // a Vec's length fits in usize, and so does the index after `k`
        let _job_count = self.jobs.len();
        let job = &self.jobs[k];
        if !input_exists {
            let record = glue(MISSING_HEAD, job.input.as_str(), MISSING_TAIL);
            let console = glue(ERROR_PREFIX, record.as_str(), "");
            proof {
                reveal_strlit("");
            }
            self.next = k + 1;
            return JobStart::MissingInput { console, record };
        }
        if !is_valid_format(job.input.as_str()) || !is_valid_format(job.output.as_str()) {
            self.next = k + 1;
            return JobStart::UnsupportedFormat {
                console: String::from_str(UNSUPPORTED_CONSOLE),
                record: String::from_str(UNSUPPORTED_RECORD),
            };
        }
        let args = encoder_args(job, self.threads, &self.options);
        if self.dry_run {
            let line = dry_run_line(&args);
            self.stopped = Some(0);
            return JobStart::Simulate { line };
        }
        let mut announce = glue(CONVERTING_HEAD, job.input.as_str(), CONVERTING_ARROW);
        announce.append(job.output.as_str());
        announce.append(CONVERTING_USING);
        push_decimal(&mut announce, self.threads);
        announce.append(CONVERTING_TAIL);
        self.running = true;
        self.launched = Ghost(self.launched@.push(k as nat));
        JobStart::Launch { announce, args }
    }

    /// Decides what follows the encoder's run on the current job.
    pub fn finish_job(&mut self, outcome: &Outcome) -> (r: JobEnd)
        requires
            old(self).wf(),
            old(self).running,
        ensures
            final(self).wf(),
            final(self).same_run(old(self)),
            final(self).state() == finish_state(old(self).state(), exited_ok(*outcome)),
            ({
                let job = old(self).job(old(self).next as int);
                match r {
                    JobEnd::SpawnError { console, record } => {
                        &&& *outcome matches Outcome::SpawnFailed { reason }
                        &&& record@ == SPAWN_HEAD@ + reason@
                        &&& console@ == record@
                    },
                    JobEnd::Failed { console, record } => {
                        &&& *outcome matches Outcome::Exited { success, status }
                        &&& !success
                        &&& console@ == FAILED_CONSOLE_HEAD@ + status@
                        &&& record@ == FAILED_RECORD_HEAD@ + status@
                    },
                    JobEnd::Converted { record } => {
                        &&& *outcome matches Outcome::Exited { success, .. }
                        &&& success
                        &&& record@ == converted_record(job)
                    },
                }
            }),
    {
        proof {
            reveal_strlit("");
        }
        let k = self.next;
        // a Vec's length fits in usize, and so does the index after `k`
        let _job_count = self.jobs.len();
        self.running = false;
        match outcome {
            Outcome::SpawnFailed { reason } => {
                self.next = k + 1;
                let record = glue(SPAWN_HEAD, reason.as_str(), "");
                let console = glue(SPAWN_HEAD, reason.as_str(), "");
                JobEnd::SpawnError { console, record }
            },
            Outcome::Exited { success, status } => {
                if *success {
                    self.next = k + 1;
                    let job = &self.jobs[k];
                    let mut record = glue(CONVERTED_HEAD, job.input.as_str(), CONVERTED_MID);
                    record.append(job.output.as_str());
                    record.append(CONVERTED_TAIL);
                    JobEnd::Converted { record }
                } else {
                    self.stopped = Some(1);
                    JobEnd::Failed {
                        console: glue(FAILED_CONSOLE_HEAD, status.as_str(), ""),
                        record: glue(FAILED_RECORD_HEAD, status.as_str(), ""),
                    }
                }
            },
        }
    }
}

/// The state after `k` rounds in which each input exists and each encoder run succeeds,
/// outside a dry run.
pub open spec fn clean_rounds(jobs: Seq<(Seq<char>, Seq<char>)>, k: nat) -> RunState
    decreases k,
{
    if k == 0 {
        initial_state()
    } else {
        finish_state(begin_state(jobs, false, clean_rounds(jobs, (k - 1) as nat), true), Some(true))
    }
}

proof fn lemma_clean_rounds(jobs: Seq<(Seq<char>, Seq<char>)>, k: nat)
    requires
        k <= jobs.len(),
        forall|i: int| 0 <= i < jobs.len() ==> job_formats_ok(#[trigger] jobs[i]),
    ensures
        clean_rounds(jobs, k) == (RunState {
            next: k,
            running: false,
            stopped: None,
            launched: Seq::new(k, |i: int| i as nat),
        }),
    decreases k,
{
    if k > 0 {
        lemma_clean_rounds(jobs, (k - 1) as nat);
        let prev = clean_rounds(jobs, (k - 1) as nat);
        assert(job_formats_ok(jobs[prev.next as int]));
        assert(Seq::new((k - 1) as nat, |i: int| i as nat).push((k - 1) as nat) =~= Seq::new(
            k,
            |i: int| i as nat,
        ));
    } else {
        assert(Seq::new(0, |i: int| i as nat) =~= Seq::<nat>::empty());
    }
}

/// A list of an even number of files, each of a supported format, whose inputs all exist
/// and whose conversions all succeed, launches the encoder once for each pair, in the
/// order of the list, and ends with no early stop.
pub proof fn lemma_every_pair_attempted_in_order(files: Seq<Seq<char>>)
    requires
        files.len() % 2 == 0,
        forall|i: int| 0 <= i < files.len() ==> valid_format(#[trigger] files[i]),
    ensures
        ({
            let jobs = pairs(files);
            let end = clean_rounds(jobs, jobs.len());
            &&& jobs.len() == files.len() / 2
            &&& end.next == jobs.len()
            &&& end.stopped is None
            &&& !end.running
            &&& end.launched.len() == files.len() / 2
            &&& forall|k: int|
                0 <= k < end.launched.len() ==> end.launched[k] == k && #[trigger] jobs[k] == (
                    files[2 * k],
                    files[2 * k + 1],
                )
        }),
{
    let jobs = pairs(files);
    assert forall|i: int| 0 <= i < jobs.len() implies job_formats_ok(#[trigger] jobs[i]) by {
        assert(valid_format(files[2 * i]));
        assert(valid_format(files[2 * i + 1]));
    }
    lemma_clean_rounds(jobs, jobs.len());
}

/// An encoder run that exits with failure ends the whole run with status 1: no job is
/// decided or launched after it.
pub proof fn lemma_failed_exit_ends_run(s: RunState)
    ensures
        finish_state(s, Some(false)).stopped == Some(1i32),
        finish_state(s, Some(false)).launched == s.launched,
        finish_state(s, Some(false)).next == s.next,
{
}

proof fn lemma_join_append(a: Seq<Seq<char>>, b: Seq<Seq<char>>, sep: Seq<char>)
    requires
        a.len() > 0,
        b.len() > 0,
    ensures
        join(a + b, sep) == join(a, sep) + sep + join(b, sep),
    decreases b.len(),
{
    if b.len() == 1 {
        assert((a + b).drop_last() =~= a);
    } else {
        lemma_join_append(a, b.drop_last(), sep);
        assert((a + b).drop_last() =~= a + b.drop_last());
        assert(join(a + b, sep) =~= join(a, sep) + sep + join(b, sep));
    }
}

/// The line of a dry run holds the user's options verbatim, their words joined by single
/// spaces, between the thread count and the output path.
pub proof fn lemma_dry_run_shows_options(
    job: (Seq<char>, Seq<char>),
    threads: nat,
    options: Seq<char>,
)
    requires
        words(options).len() > 0,
    ensures
        contains(
            dry_run_text(encoder_arguments(job, threads, Some(options))),
            join(words(options), seq![' ']),
        ),
{
    let sep = seq![' '];
    let head = seq![flag_input(), job.0, flag_threads(), decimal(threads)];
    let w = words(options);
    let tail = seq![job.1];
    lemma_join_append(head, w, sep);
    lemma_join_append(head + w, tail, sep);
    let text = dry_run_text(encoder_arguments(job, threads, Some(options)));
    let before = DRY_RUN_HEAD@ + join(head, sep) + sep;
    let middle = join(w, sep);
    assert(text =~= before + middle + (sep + join(tail, sep)));
    assert(text.subrange(before.len() as int, (before.len() + middle.len()) as int) =~= middle);
}

} // verus!
