//! A run over the source files of a command line, as a machine that asks for
//! one thing at a time. It answers each event with the next request: open a
//! file, look for a directory, create it, read, write slices, print a line,
//! end. Whoever drives it carries the request out and reports how it ended.

use vstd::prelude::*;
use vstd::string::*;
use crate::chunks::{ready, tail};
use crate::cli::{parse_args, parsed, refusal_message, refusal_text, texts, EXIT_FAILURE, EXIT_SUCCESS};
use crate::names::{final_component, output_dir_name, output_dir_of, slice_name};
use crate::report::{error_message, error_text, success_message, success_text, ErrorKind};
use crate::slicer::{Slice, Slicer};

verus! {

/// What the machine is waiting for.
#[derive(Debug, Clone, Copy, PartialEq, Eq, Structural)]
pub enum Phase {
    /// The command line was refused; the line that says so is being printed.
    Refusing,
    /// The current source file is being opened.
    Opening,
    /// The output directory is being looked for.
    Probing,
    /// The output directory is being created.
    Creating,
    /// Bytes of the source are being read.
    Reading,
    /// Full slices are being written; the source may hold more.
    Writing,
    /// The short slice at the end of the source is being written.
    Flushing,
    /// The line that ends the current file is being printed.
    Telling,
    /// The run is over with an exit code.
    Over { code: i32 },
    /// The run is over with a failure of input or output.
    Failed,
}

/// How the request that the machine made last has ended.
#[derive(Debug, PartialEq, Eq)]
pub enum Event {
    /// It was carried out.
    Done,
    /// It could not be carried out.
    Failed,
    /// For `Probe`: whether the directory is there.
    Found(bool),
    /// For `Read`: the bytes read; none at the end of the source.
    Data(Vec<u8>),
}

/// What the machine asks for next.
#[derive(Debug, PartialEq, Eq)]
pub enum Action {
    /// Open the source file at `path` for reading.
    Open { path: String },
    /// Find out whether `dir` exists.
    Probe { dir: String },
    /// Create the directory `dir`, with the directories above it.
    Create { dir: String },
    /// Read up to `limit` bytes from the open source.
    Read { limit: usize },
    /// Write each slice to the file of its name inside `dir`.
    Write { dir: String, slices: Vec<Slice> },
    /// Print `line` on standard output.
    Print { line: String },
    /// Print `line`, which reports an error of `kind`, on standard error.
    Complain { kind: ErrorKind, line: String },
    /// End the process with `code`.
    Exit { code: i32 },
    /// End the process with the failure that was just reported.
    Fail,
}

/// An `Action` as mathematics: texts and bytes in place of strings and
/// vectors, and each slice as the name of its file with its bytes.
pub enum ActionView {
    Open { path: Seq<char> },
    Probe { dir: Seq<char> },
    Create { dir: Seq<char> },
    Read { limit: nat },
    Write { dir: Seq<char>, files: Seq<(Seq<char>, Seq<u8>)> },
    Print { line: Seq<char> },
    Complain { kind: ErrorKind, line: Seq<char> },
    Exit { code: i32 },
    Fail,
}

/// Each of `slices` as the name of its file with its bytes.
pub open spec fn named(slices: Seq<Slice>) -> Seq<(Seq<char>, Seq<u8>)> {
    slices.map_values(|s: Slice| (slice_name(s.index as nat), s.data@))
}

/// The byte sequences `parts` as files of slices numbered from `first`.
pub open spec fn named_from(first: nat, parts: Seq<Seq<u8>>) -> Seq<(Seq<char>, Seq<u8>)> {
    Seq::new(parts.len(), |k: int| (slice_name((first + k) as nat), parts[k]))
}

impl View for Action {
    type V = ActionView;

    open spec fn view(&self) -> ActionView {
        match *self {
            Action::Open { path } => ActionView::Open { path: path@ },
            Action::Probe { dir } => ActionView::Probe { dir: dir@ },
            Action::Create { dir } => ActionView::Create { dir: dir@ },
            Action::Read { limit } => ActionView::Read { limit: limit as nat },
            Action::Write { dir, slices } => ActionView::Write { dir: dir@, files: named(slices@) },
            Action::Print { line } => ActionView::Print { line: line@ },
            Action::Complain { kind, line } => ActionView::Complain { kind, line: line@ },
            Action::Exit { code } => ActionView::Exit { code },
            Action::Fail => ActionView::Fail,
        }
    }
}

/// The state of a run as mathematics.
pub struct RunView {
    /// The number of bytes in a full slice.
    pub chunk: nat,
    /// The paths of the source files, in the order of the command line.
    pub files: Seq<Seq<char>>,
    /// Which of `files` the run is at.
    pub cursor: nat,
    /// What the run is waiting for.
    pub phase: Phase,
    /// The output directory of the current file, once it is known.
    pub dir: Seq<char>,
    /// The bytes read from the current file so far.
    pub fed: Seq<u8>,
}

impl RunView {
    /// The chunk size is positive, and while the run is at a file, that file
    /// is one of those on the command line.
    pub open spec fn wf(self) -> bool {
        &&& self.chunk >= 1
        &&& match self.phase {
            Phase::Refusing | Phase::Over { .. } | Phase::Failed => true,
            _ => self.cursor < self.files.len(),
        }
    }

    /// The path of the current file.
    pub open spec fn path(self) -> Seq<char> {
        self.files[self.cursor as int]
    }

    /// The run ends with a failure.
    pub open spec fn fail(self) -> (RunView, ActionView) {
        (RunView { phase: Phase::Failed, ..self }, ActionView::Fail)
    }

    /// The run ends with `code`.
    pub open spec fn exit(self, code: i32) -> (RunView, ActionView) {
        (RunView { phase: Phase::Over { code }, ..self }, ActionView::Exit { code })
    }

    /// The current file is given up for `kind`, and the line that says so,
    /// about `subject`, goes to standard error.
    pub open spec fn skip(self, kind: ErrorKind, subject: Seq<char>) -> (RunView, ActionView) {
        (
            RunView { phase: Phase::Telling, ..self },
            ActionView::Complain { kind, line: error_text(kind, subject) },
        )
    }

    /// The run turns to the next file, or ends where there is none.
    pub open spec fn move_on(self) -> (RunView, ActionView) {
        if self.cursor + 1 < self.files.len() {
            (
                RunView { cursor: self.cursor + 1, phase: Phase::Opening, ..self },
                ActionView::Open { path: self.files[self.cursor as int + 1] },
            )
        } else {
            self.exit(EXIT_SUCCESS)
        }
    }

    /// More of the source is asked for.
    pub open spec fn read_on(self) -> (RunView, ActionView) {
        (RunView { phase: Phase::Reading, ..self }, ActionView::Read { limit: self.chunk })
    }

    /// The source has given `data`. At its end the short slice that is left
    /// goes out, or the file is reported as sliced. Before its end the
    /// slices that `data` completes go out, and where it completes none,
    /// more is read.
    pub open spec fn take_in(self, data: Seq<u8>) -> (RunView, ActionView) {
        if data.len() == 0 {
            let ended = RunView { fed: Seq::empty(), ..self };
            match tail(self.fed, self.chunk) {
                Some(last) => (
                    RunView { phase: Phase::Flushing, ..ended },
                    ActionView::Write {
                        dir: self.dir,
                        files: seq![(slice_name(self.fed.len() / self.chunk), last)],
                    },
                ),
                None => (
                    RunView { phase: Phase::Telling, ..ended },
                    ActionView::Print { line: success_text(self.path()) },
                ),
            }
        } else if self.fed.len() + data.len() > u64::MAX {
            self.fail()
        } else {
            let fed = self.fed + data;
            let full = ready(self.fed.len(), fed, self.chunk);
            if full.len() == 0 {
                RunView { fed, ..self }.read_on()
            } else {
                (
                    RunView { phase: Phase::Writing, fed, ..self },
                    ActionView::Write {
                        dir: self.dir,
                        files: named_from(self.fed.len() / self.chunk, full),
                    },
                )
            }
        }
    }

    /// The state after `event`, and the request that answers it. `base` is
    /// the file name at the end of the current path, if it has one; it
    /// counts only when the current file has just been opened.
    ///
    /// An event that does not answer the request made last ends the run with
    /// a failure, as does every failure but that of opening a source file.
    pub open spec fn next(self, event: Event, base: Option<Seq<char>>) -> (RunView, ActionView) {
        match self.phase {
            Phase::Refusing => match event {
                Event::Done => self.exit(EXIT_FAILURE),
                _ => self.fail(),
            },
            Phase::Opening => match event {
                Event::Done => match base {
                    Some(name) => (
                        RunView { phase: Phase::Probing, dir: output_dir_of(name), ..self },
                        ActionView::Probe { dir: output_dir_of(name) },
                    ),
                    None => self.skip(ErrorKind::InvalidName, self.path()),
                },
                Event::Failed => self.skip(ErrorKind::OpenFailure, self.path()),
                _ => self.fail(),
            },
            Phase::Probing => match event {
                Event::Found(there) => if there {
                    self.skip(ErrorKind::OutputExists, self.dir)
                } else {
                    (
                        RunView { phase: Phase::Creating, ..self },
                        ActionView::Create { dir: self.dir },
                    )
                },
                _ => self.fail(),
            },
            Phase::Creating => match event {
                Event::Done => RunView { fed: Seq::empty(), ..self }.read_on(),
                _ => self.fail(),
            },
            Phase::Reading => match event {
                Event::Data(data) => self.take_in(data@),
                _ => self.fail(),
            },
            Phase::Writing => match event {
                Event::Done => self.read_on(),
                _ => self.fail(),
            },
            Phase::Flushing => match event {
                Event::Done => (
                    RunView { phase: Phase::Telling, ..self },
                    ActionView::Print { line: success_text(self.path()) },
                ),
                _ => self.fail(),
            },
            Phase::Telling => match event {
                Event::Done => self.move_on(),
                _ => self.fail(),
            },
            Phase::Over { code } => (self, ActionView::Exit { code }),
            Phase::Failed => (self, ActionView::Fail),
        }
    }
}

/// The state in which a run over the command line `args` begins, and its
/// first request: the first source file is opened, or the command line is
/// refused.
pub open spec fn begin(args: Seq<Seq<char>>) -> (RunView, ActionView) {
    match parsed(args) {
        Ok((size, files)) => (
            RunView {
                chunk: size as nat,
                files,
                cursor: 0,
                phase: Phase::Opening,
                dir: Seq::empty(),
                fed: Seq::empty(),
            },
            ActionView::Open { path: files[0] },
        ),
        Err(kind) => (
            RunView {
                chunk: 1,
                files: Seq::empty(),
                cursor: 0,
                phase: Phase::Refusing,
                dir: Seq::empty(),
                fed: Seq::empty(),
            },
            ActionView::Complain { kind, line: refusal_text(args, kind) },
        ),
    }
}

/// Whether nothing that a run does from here on can tell `a` from `b`: they
/// agree on the chunk size, the files, the current file and the phase, on
/// the output directory while it is in use, and on the bytes read while the
/// source is being read.
pub open spec fn alike(a: RunView, b: RunView) -> bool {
    &&& a.chunk == b.chunk
    &&& a.files == b.files
    &&& a.cursor == b.cursor
    &&& a.phase == b.phase
    &&& (a.phase is Probing || a.phase is Creating || a.phase is Reading || a.phase is Writing)
        ==> a.dir == b.dir
    &&& (a.phase is Reading || a.phase is Writing) ==> a.fed == b.fed
}

/// Every event leaves a well-formed state well formed.
pub proof fn lemma_next_keeps_wf(pre: RunView, event: Event, base: Option<Seq<char>>)
    requires
        pre.wf(),
    ensures
        pre.next(event, base).0.wf(),
{
}

/// A run never goes back to a file, and never changes its chunk size or its
/// list of files.
pub proof fn lemma_next_goes_forward(pre: RunView, event: Event, base: Option<Seq<char>>)
    ensures
        pre.next(event, base).0.chunk == pre.chunk,
        pre.next(event, base).0.files == pre.files,
        pre.cursor <= pre.next(event, base).0.cursor <= pre.cursor + 1,
{
}

/// Once a run is over, every event is answered with the same ending and
/// changes nothing.
pub proof fn lemma_over_is_final(pre: RunView, event: Event, base: Option<Seq<char>>)
    requires
        pre.phase is Over || pre.phase is Failed,
    ensures
        pre.next(event, base).0 == pre,
        pre.phase matches Phase::Over { code } ==> pre.next(event, base).1 == (ActionView::Exit {
            code,
        }),
        pre.phase is Failed ==> pre.next(event, base).1 == ActionView::Fail,
{
}

/// An output directory that is already there is left alone: the file is
/// given up as `OutputExists`, and once that is said the run turns to the
/// next file, or ends in success, with no request to create or to write.
pub proof fn lemma_existing_output_is_left_alone(
    pre: RunView,
    base: Option<Seq<char>>,
    later: Option<Seq<char>>,
)
    requires
        pre.wf(),
        pre.phase is Probing,
    ensures
        ({
            let (mid, said) = pre.next(Event::Found(true), base);
            let (post, then) = mid.next(Event::Done, later);
            &&& said == ActionView::Complain {
                kind: ErrorKind::OutputExists,
                line: error_text(ErrorKind::OutputExists, pre.dir),
            }
            &&& mid == RunView { phase: Phase::Telling, ..pre }
            &&& (post, then) == pre.move_on()
        }),
{
}

/// Whether `event`, with `base` as the file name of the current path, makes
/// the run give up the current file: the file cannot be opened, its path has
/// no file name, or its output directory is already there.
pub open spec fn gives_up(pre: RunView, event: Event, base: Option<Seq<char>>) -> bool {
    ||| pre.phase is Opening && event is Failed
    ||| pre.phase is Opening && event is Done && base is None
    ||| pre.phase is Probing && event == Event::Found(true)
}

/// A file that is given up does not end the run: the error is reported, and
/// the run then turns to the next file as it does after a file that was
/// sliced, or ends in success where there is no next file.
pub proof fn lemma_given_up_file_is_passed_over(
    pre: RunView,
    event: Event,
    base: Option<Seq<char>>,
    later: Option<Seq<char>>,
)
    requires
        pre.wf(),
        gives_up(pre, event, base),
    ensures
        ({
            let (mid, said) = pre.next(event, base);
            let (post, then) = mid.next(Event::Done, later);
            &&& said is Complain
            &&& mid == RunView { phase: Phase::Telling, ..pre }
            &&& (post, then) == pre.move_on()
            &&& pre.cursor + 1 < pre.files.len() ==> then == (ActionView::Open {
                path: pre.files[pre.cursor as int + 1],
            })
            &&& pre.cursor + 1 >= pre.files.len() ==> then == (ActionView::Exit {
                code: EXIT_SUCCESS,
            })
        }),
{
}

/// When a run turns to the next file, nothing that it does from there on
/// can tell what became of the file before: whatever directory and bytes
/// that file has left behind, the states are alike and the request is the
/// same.
pub proof fn lemma_next_file_starts_afresh(a: RunView, b: RunView)
    requires
        a.chunk == b.chunk,
        a.files == b.files,
        a.cursor == b.cursor,
    ensures
        a.move_on().1 == b.move_on().1,
        alike(a.move_on().0, b.move_on().0),
{
}

/// What a run does with a file does not depend on what became of the files
/// before it: states that are alike answer every event with the same request
/// and stay alike.
pub proof fn lemma_files_are_independent(
    a: RunView,
    b: RunView,
    event: Event,
    base: Option<Seq<char>>,
)
    requires
        alike(a, b),
    ensures
        a.next(event, base).1 == b.next(event, base).1,
        alike(a.next(event, base).0, b.next(event, base).0),
{
}

/// The text of `base`, if there is one.
pub open spec fn text_of(base: Option<String>) -> Option<Seq<char>> {
    match base {
        Some(name) => Some(name@),
        None => None,
    }
}

/// A run over the source files of a command line.
pub struct Run {
    files: Vec<String>,
    cursor: usize,
    phase: Phase,
    dir: String,
    slicer: Slicer,
}

impl View for Run {
    type V = RunView;

    closed spec fn view(&self) -> RunView {
        RunView {
            chunk: self.slicer.chunk(),
            files: texts(self.files@),
            cursor: self.cursor as nat,
            phase: self.phase,
            dir: self.dir@,
            fed: self.slicer.fed(),
        }
    }
}

impl Run {
    /// The run is in a state that its own operations produce.
    pub closed spec fn wf(&self) -> bool {
        self.slicer.wf() && self@.wf()
    }

    /// A run in a state that its own operations produce has a state that is
    /// well formed as mathematics.
    pub proof fn lemma_view_wf(&self)
        requires
            self.wf(),
        ensures
            self@.wf(),
    {
    }

    /// Begins a run over the command line `args`, `args[0]` being the
    /// program's name, and makes its first request.
    pub fn start(args: &Vec<String>) -> (r: (Run, Action))
        ensures
            r.0.wf(),
            (r.0@, r.1@) == begin(texts(args@)),
    {
        match parse_args(args) {
            Ok(config) => {
                let path = config.files[0].clone();
                let run = Run {
                    files: config.files,
                    cursor: 0,
                    phase: Phase::Opening,
                    dir: String::new(),
                    slicer: Slicer::new(config.chunk_size),
                };
                (run, Action::Open { path })
            },
            Err(kind) => {
                let line = refusal_message(args, kind);
                let run = Run {
                    files: Vec::new(),
                    cursor: 0,
                    phase: Phase::Refusing,
                    dir: String::new(),
                    slicer: Slicer::new(1),
                };
                proof {
                    assert(texts(run.files@) =~= Seq::<Seq<char>>::empty());
                }
                (run, Action::Complain { kind, line })
            },
        }
    }

    /// What the run is waiting for.
    pub fn phase(&self) -> (phase: Phase)
        ensures
            phase == self@.phase,
    {
        self.phase
    }

    /// Whether the run is over, so that no event changes it any more.
    pub fn is_over(&self) -> (over: bool)
        ensures
            over <==> (self@.phase is Over || self@.phase is Failed),
    {
        match self.phase {
            Phase::Over { .. } | Phase::Failed => true,
            _ => false,
        }
    }

    fn fail(&mut self) -> (action: Action)
        requires
            old(self).wf(),
        ensures
            final(self).wf(),
            (final(self)@, action@) == old(self)@.fail(),
    {
        self.phase = Phase::Failed;
        Action::Fail
    }

    fn skip(&mut self, kind: ErrorKind, subject: &str) -> (action: Action)
        requires
            old(self).wf(),
            old(self)@.cursor < old(self)@.files.len(),
        ensures
            final(self).wf(),
            (final(self)@, action@) == old(self)@.skip(kind, subject@),
    {
        self.phase = Phase::Telling;
        Action::Complain { kind, line: error_message(kind, subject) }
    }

    fn read_on(&mut self) -> (action: Action)
        requires
            old(self).wf(),
            old(self)@.cursor < old(self)@.files.len(),
        ensures
            final(self).wf(),
            (final(self)@, action@) == old(self)@.read_on(),
    {
        self.phase = Phase::Reading;
        Action::Read { limit: self.slicer.chunk_size() }
    }

    fn current_path(&self) -> (path: &str)
        requires
            self.wf(),
            self@.cursor < self@.files.len(),
        ensures
            path@ == self@.path(),
    {
        self.files[self.cursor].as_str()
    }

    fn move_on(&mut self) -> (action: Action)
        requires
            old(self).wf(),
            old(self)@.cursor < old(self)@.files.len(),
        ensures
            final(self).wf(),
            (final(self)@, action@) == old(self)@.move_on(),
    {
        let count = self.files.len();
        if self.cursor + 1 < count {
            self.cursor = self.cursor + 1;
            self.phase = Phase::Opening;
            Action::Open { path: self.files[self.cursor].clone() }
        } else {
            self.phase = Phase::Over { code: EXIT_SUCCESS };
            Action::Exit { code: EXIT_SUCCESS }
        }
    }

    fn take_in(&mut self, data: Vec<u8>) -> (action: Action)
        requires
            old(self).wf(),
            old(self)@.cursor < old(self)@.files.len(),
        ensures
            final(self).wf(),
            (final(self)@, action@) == old(self)@.take_in(data@),
    {
        let ghost pre = self@;
        if data.len() == 0 {
            let mut slicer = Slicer::new(self.slicer.chunk_size());
            std::mem::swap(&mut self.slicer, &mut slicer);
            match slicer.finish() {
                Some(last) => {
                    self.phase = Phase::Flushing;
                    let mut slices: Vec<Slice> = Vec::new();
                    slices.push(last);
                    proof {
                        assert(named(slices@) =~= seq![
                            (slice_name(pre.fed.len() / pre.chunk), last.data@),
                        ]);
                    }
                    Action::Write { dir: self.dir.clone(), slices }
                },
                None => {
                    self.phase = Phase::Telling;
                    Action::Print { line: success_message(self.current_path()) }
                },
            }
        } else if data.len() as u64 > u64::MAX - self.slicer.received() {
            self.fail()
        } else {
            let slices = self.slicer.feed(data.as_slice());
            proof {
                let full = ready(pre.fed.len(), pre.fed + data@, pre.chunk);
                assert forall|k: int| 0 <= k < slices@.len() implies named(slices@)[k]
                    == named_from(pre.fed.len() / pre.chunk, full)[k] by {}
                assert(named(slices@) =~= named_from(pre.fed.len() / pre.chunk, full));
            }
            if slices.len() == 0 {
                self.read_on()
            } else {
                self.phase = Phase::Writing;
                Action::Write { dir: self.dir.clone(), slices }
            }
        }
    }

    /// Takes `event`, the end of the request made last, and makes the next
    /// request. `base` is the file name at the end of the current path, if
    /// it has one; it counts only when the current file has just been opened.
    pub fn advance(&mut self, event: Event, base: Option<String>) -> (action: Action)
        requires
            old(self).wf(),
        ensures
            final(self).wf(),
            (final(self)@, action@) == old(self)@.next(event, text_of(base)),
    {
        match self.phase {
            Phase::Refusing => match event {
                Event::Done => {
                    self.phase = Phase::Over { code: EXIT_FAILURE };
                    Action::Exit { code: EXIT_FAILURE }
                },
                _ => self.fail(),
            },
            Phase::Opening => match event {
                Event::Done => match base {
                    Some(name) => {
                        let dir = output_dir_name(name.as_str());
                        self.dir = dir.clone();
                        self.phase = Phase::Probing;
                        Action::Probe { dir }
                    },
                    None => {
                        let path = self.files[self.cursor].clone();
                        assert(path@ == self@.path()) by {
                            assert(texts(self.files@)[self.cursor as int]
                                == self.files@[self.cursor as int]@);
                        }
                        self.skip(ErrorKind::InvalidName, path.as_str())
                    },
                },
                Event::Failed => {
                    let path = self.files[self.cursor].clone();
                    assert(path@ == self@.path()) by {
                        assert(texts(self.files@)[self.cursor as int]
                            == self.files@[self.cursor as int]@);
                    }
                    self.skip(ErrorKind::OpenFailure, path.as_str())
                },
                _ => self.fail(),
            },
            Phase::Probing => match event {
                Event::Found(there) => {
                    if there {
                        let dir = self.dir.clone();
                        self.skip(ErrorKind::OutputExists, dir.as_str())
                    } else {
                        self.phase = Phase::Creating;
                        Action::Create { dir: self.dir.clone() }
                    }
                },
                _ => self.fail(),
            },
            Phase::Creating => match event {
                Event::Done => {
                    self.slicer = Slicer::new(self.slicer.chunk_size());
                    self.read_on()
                },
                _ => self.fail(),
            },
            Phase::Reading => match event {
                Event::Data(data) => self.take_in(data),
                _ => self.fail(),
            },
            Phase::Writing => match event {
                Event::Done => self.read_on(),
                _ => self.fail(),
            },
            Phase::Flushing => match event {
                Event::Done => {
                    self.phase = Phase::Telling;
                    Action::Print { line: success_message(self.current_path()) }
                },
                _ => self.fail(),
            },
            Phase::Telling => match event {
                Event::Done => self.move_on(),
                _ => self.fail(),
            },
            Phase::Over { code } => Action::Exit { code },
            Phase::Failed => Action::Fail,
        }
    }

    /// Takes `event`, the end of the request made last, and makes the next
    /// request. Where the current file has just been opened, the file name
    /// at the end of its path is asked of the system's rules for paths, and
    /// the request is the one that `advance` makes for the answer.
    pub fn step(&mut self, event: Event) -> (action: Action)
        requires
            old(self).wf(),
        ensures
            final(self).wf(),
            exists|base: Option<Seq<char>>|
                (final(self)@, action@) == #[trigger] old(self)@.next(event, base),
            !(old(self)@.phase is Opening && event is Done) ==> (final(self)@, action@) == old(
                self,
            )@.next(event, None),
    {
        let base = match self.phase {
            Phase::Opening => match event {
                Event::Done => final_component(self.files[self.cursor].as_str()),
                _ => None,
            },
            _ => None,
        };
        self.advance(event, base)
    }
}

} // verus!
