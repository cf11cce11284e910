use vstd::prelude::*;

use crate::data_size::DataSize;
use crate::fill::{file_content, is_pattern, random_below, random_buffer};
use crate::statistics::RunStatistics;

verus! {

/// The elapsed time recorded for every cycle of a dry run: one second.
pub const DRY_RUN_NANOS: u64 = 1_000_000_000;

/// The fewest cycles a configuration may ask for.
pub const MIN_CYCLES: i32 = 2;

/// The direction of the transfers of one run.
#[derive(PartialEq, Eq, Structural, Debug, Clone, Copy)]
pub enum ReadWrite {
    Read,
    Write,
}

/// A requested kind of test: `All` stands for a read run followed by a
/// write run.
#[derive(PartialEq, Eq, Structural, Debug, Clone, Copy)]
pub enum Mode {
    All,
    Read,
    Write,
}

/// The runs that the requested modes stand for, in order.
pub open spec fn expanded_modes(modes: Seq<Mode>) -> Seq<ReadWrite> {
    if modes.contains(Mode::All) {
        seq![ReadWrite::Read, ReadWrite::Write]
    } else {
        modes.map_values(|m: Mode| if m == Mode::Read { ReadWrite::Read } else { ReadWrite::Write })
    }
}

/// Turns the requested modes into the runs of a session.
pub fn expand_modes(modes: &[Mode]) -> (r: Vec<ReadWrite>)
    ensures
        r@ == expanded_modes(modes@),
{
    let mut i: usize = 0;
    while i < modes.len()
        invariant
            i <= modes@.len(),
            forall|j: int| 0 <= j < i ==> modes@[j] != Mode::All,
        decreases modes@.len() - i,
    {
        if modes[i] == Mode::All {
            assert(modes@.contains(Mode::All)) by {
                assert(modes@[i as int] == Mode::All);
            }
            return vec![ReadWrite::Read, ReadWrite::Write];
        }
        i = i + 1;
    }
    let mut r: Vec<ReadWrite> = Vec::new();
    let mut j: usize = 0;
    while j < modes.len()
        invariant
            j <= modes@.len(),
            !modes@.contains(Mode::All),
            r@ == modes@.take(j as int).map_values(
                |m: Mode| if m == Mode::Read { ReadWrite::Read } else { ReadWrite::Write },
            ),
        decreases modes@.len() - j,
    {
        let rw = if modes[j] == Mode::Read { ReadWrite::Read } else { ReadWrite::Write };
        r.push(rw);
        j = j + 1;
        assert(r@ =~= modes@.take(j as int).map_values(
            |m: Mode| if m == Mode::Read { ReadWrite::Read } else { ReadWrite::Write },
        ));
    }
    assert(modes@.take(j as int) =~= modes@);
    r
}

/// The configuration of a benchmark session.
#[derive(Debug, Clone)]
pub struct SessionOptions {
    /// One run per entry, in order.
    pub modes: Vec<ReadWrite>,
    /// Location of the test file.
    pub path: String,
    pub file_size: usize,
    pub block_size: usize,
    pub cycles: usize,
    /// Use the file that is there instead of creating one (and never delete it).
    pub no_create: bool,
    /// Leave the test file in place at the end.
    pub no_delete: bool,
    /// Go through the session without moving any data in the timed passes.
    pub dry_run: bool,
    /// Show no progress.
    pub no_progress: bool,
    /// Let the operating system cache the file.
    pub no_disable_cache: bool,
    /// Start each pass at a random offset.
    pub random_seek: bool,
    /// Open the file once per run instead of once per cycle.
    pub no_close_file: bool,
    /// Fill the test file with the fixed pattern instead of random bytes.
    pub no_random_buffer: bool,
}

impl SessionOptions {
    /// The sizes and counts the engine runs on.
    pub open spec fn valid(&self) -> bool {
        &&& 0 < self.block_size < self.file_size
        &&& self.file_size % self.block_size == 0
        &&& self.cycles >= 1
    }

    /// Block transfers in one pass over the file.
    pub open spec fn ops(&self) -> int {
        self.file_size as int / self.block_size as int
    }
}

/// Why a configuration was refused before any I/O.
#[derive(PartialEq, Eq, Structural, Debug, Clone, Copy)]
pub enum ConfigError {
    /// The file size does not fit in `usize`.
    FileSizeTooLarge,
    /// The block size does not fit in `usize`.
    BlockSizeTooLarge,
    /// The file, once cut down to whole blocks, is not larger than one block.
    FileNotLargerThanBlock,
    /// Fewer cycles than `MIN_CYCLES`.
    TooFewCycles,
    /// A block of zero bytes.
    ZeroBlockSize,
}

/// What checking a configuration gives: the file size cut down to a whole
/// number of blocks, the block size and the cycle count, or the first rule
/// broken.
pub open spec fn checked_config(file_size: DataSize, block_size: DataSize, cycles: i32) -> Result<
    (usize, usize, usize),
    ConfigError,
> {
    let f = file_size.byte_count();
    let b = block_size.byte_count();
    if f > usize::MAX {
        Err(ConfigError::FileSizeTooLarge)
    } else if b > usize::MAX {
        Err(ConfigError::BlockSizeTooLarge)
    } else if f <= b {
        Err(ConfigError::FileNotLargerThanBlock)
    } else if cycles < MIN_CYCLES {
        Err(ConfigError::TooFewCycles)
    } else if b == 0 {
        Err(ConfigError::ZeroBlockSize)
    } else if f - f % b <= b {
        Err(ConfigError::FileNotLargerThanBlock)
    } else {
        Ok(((f - f % b) as usize, b as usize, cycles as usize))
    }
}

/// Checks the sizes and the cycle count of a configuration.
pub fn check_config(file_size: &DataSize, block_size: &DataSize, cycles: i32) -> (r: Result<
    (usize, usize, usize),
    ConfigError,
>)
    ensures
        r == checked_config(*file_size, *block_size, cycles),
        r matches Ok((f, b, c)) ==> 0 < b < f && f % b == 0 && c >= 1,
{
    let f = match file_size.checked_bytes() {
        Some(f) => f,
        None => return Err(ConfigError::FileSizeTooLarge),
    };
    let b = match block_size.checked_bytes() {
        Some(b) => b,
        None => return Err(ConfigError::BlockSizeTooLarge),
    };
    if f <= b {
        return Err(ConfigError::FileNotLargerThanBlock);
    }
    if cycles < MIN_CYCLES {
        return Err(ConfigError::TooFewCycles);
    }
    if b == 0 {
        return Err(ConfigError::ZeroBlockSize);
    }
    let whole = f - f % b;
    if whole <= b {
        return Err(ConfigError::FileNotLargerThanBlock);
    }
    assert(whole % b == 0) by {
        vstd::arithmetic::div_mod::lemma_fundamental_div_mod(f as int, b as int);
        vstd::arithmetic::div_mod::lemma_mod_multiples_basic(f as int / b as int, b as int);
        assert(whole == b * (f / b));
        assert((f as int / b as int) * b as int == b * (f / b));
    }
    Ok((whole, b, cycles as usize))
}

/// A configuration whose file is no larger than one block, that asks for
/// no cycles, or whose blocks are empty is refused; one that is accepted
/// has a non-empty block smaller than the file, and at least `MIN_CYCLES`
/// cycles.
pub proof fn lemma_config_boundaries(file_size: DataSize, block_size: DataSize, cycles: i32)
    ensures
        file_size.byte_count() == block_size.byte_count() ==> checked_config(
            file_size,
            block_size,
            cycles,
        ) is Err,
        cycles == 0 ==> checked_config(file_size, block_size, cycles) is Err,
        block_size.byte_count() == 0 ==> checked_config(file_size, block_size, cycles) is Err,
        checked_config(file_size, block_size, cycles) matches Ok((f, b, c)) ==> 0 < b < f && c
            >= MIN_CYCLES,
{
}

/// The outcome of one timed pass over the test file.
#[derive(Debug, Clone, Copy)]
pub struct CycleResult {
    /// Position of the cycle within its run, from zero.
    pub cycle: usize,
    /// Bytes moved during the pass.
    pub bytes: usize,
    /// Wall-clock length of the pass, in nanoseconds.
    pub elapsed_nanos: u64,
}

/// The outcome of one run: its cycles in order and their statistics.
#[derive(Debug, Clone)]
pub struct RunResult {
    pub mode: ReadWrite,
    pub cycle_results: Vec<CycleResult>,
    pub statistics: RunStatistics,
}

impl RunResult {
    pub fn new(mode: ReadWrite, cycle_results: Vec<CycleResult>) -> (r: RunResult)
        requires
            cycle_results@.len() > 0,
        ensures
            r.mode == mode,
            r.cycle_results@ == cycle_results@,
            r.statistics.describes(cycle_results@),
    {
        let statistics = RunStatistics::new(cycle_results.as_slice());
        RunResult { mode, cycle_results, statistics }
    }
}

/// How a run uses the test file.
#[derive(Debug, Clone, Copy)]
pub struct RunOptions {
    pub mode: ReadWrite,
    /// One handle for all cycles of the run, instead of one per cycle.
    pub shared_handle: bool,
}

/// A run in progress.
#[derive(Debug)]
pub struct Run {
    pub options: RunOptions,
    /// The cycles finished so far, in order.
    pub cycle_results: Vec<CycleResult>,
}

/// A cycle in progress.
#[derive(Debug, Clone, Copy)]
pub struct Cycle {
    /// Position of the cycle within its run, from zero.
    pub cycle: usize,
    /// Block transfers finished in the current pass.
    pub ops_done: usize,
}

/// Why a session stopped.
#[derive(PartialEq, Eq, Structural, Debug, Clone, Copy)]
pub enum BenchError {
    /// The operating system refused an operation; its error code.
    Io { code: i32 },
    /// A write reported fewer bytes than were handed to it.
    ShortWrite { written: usize, expected: usize },
    /// A read returned fewer bytes than the block holds.
    ShortRead { read: usize, expected: usize },
    /// The event does not answer the action that was asked for, or the
    /// session is over.
    OutOfOrder,
}

/// The next thing to do, handed out by `Session::step`. Each is answered by
/// the event named, or by `Event::IoFailed`.
#[derive(Debug)]
pub enum Action {
    /// Tell whether the test file exists: `Event::Exists`.
    CheckExists,
    /// Delete the existing test file: `Event::Done`.
    RemoveFile,
    /// Open the test file for reading and writing, creating it if needed and
    /// emptying it when `replace` is set, with the cache bypassed when
    /// `disable_cache` is set: `Event::Done`.
    CreateFile { disable_cache: bool, replace: bool },
    /// Write all of `data` through the handle just created, in one call:
    /// `Event::Transferred` with the count written.
    WriteFile { data: Vec<u8> },
    /// Flush that handle to the device and close it: `Event::Done`.
    SyncFile,
    /// A run begins; `buffer` is its block buffer: `Event::Done`.
    BeginRun { mode: ReadWrite, buffer: Vec<u8> },
    /// Open the handle that all cycles of the run share: `Event::Done`.
    OpenShared { disable_cache: bool },
    /// A cycle begins: `Event::Done`.
    BeginCycle { cycle: usize },
    /// Open a handle for this cycle only: `Event::Done`.
    OpenPrivate { disable_cache: bool },
    /// Start the clock, then move the handle in use to `offset`: `Event::Done`.
    StartPass { offset: u64 },
    /// Move one block between the block buffer and the handle in use:
    /// `Event::Transferred` with the count.
    Transfer { mode: ReadWrite },
    /// Stop the clock: `Event::Elapsed` with the nanoseconds since `StartPass`.
    StopClock,
    /// Close the handle of this cycle: `Event::Done`.
    ClosePrivate,
    /// The cycle ended with `result`: `Event::Done`.
    EndCycle { result: CycleResult },
    /// Close the handle of the run: `Event::Done`.
    CloseShared,
    /// Delete the test file: `Event::Done`.
    DeleteFile,
    /// The session is over; its runs, in order.
    Finished { runs: Vec<RunResult> },
    /// The session stopped on an error; nothing more is asked.
    Failed { error: BenchError },
}

/// The answer to the last action.
#[derive(PartialEq, Eq, Structural, Debug, Clone, Copy)]
pub enum Event {
    /// Answers nothing: the first event of a session.
    Started,
    Exists(bool),
    Done,
    Transferred(usize),
    Elapsed(u64),
    /// The operation failed with this operating system error code.
    IoFailed(i32),
}

/// What a session waits for.
#[derive(PartialEq, Eq, Structural, Debug, Clone, Copy)]
pub enum Phase {
    Start,
    Exists,
    Remove,
    Create,
    Write,
    Sync,
    RunBegun,
    SharedOpen,
    CycleBegun,
    PrivateOpen,
    Positioned,
    Transfer,
    Clock,
    PrivateClose,
    CycleEnded,
    SharedClose,
    Delete,
    Finished,
    Failed,
}

impl Phase {
    /// The phases of the preparation of the test file.
    pub open spec fn in_preparation(self) -> bool {
        match self {
            Phase::Start | Phase::Exists | Phase::Remove | Phase::Create | Phase::Write
            | Phase::Sync => true,
            _ => false,
        }
    }

    /// The phases inside a run.
    pub open spec fn in_run(self) -> bool {
        match self {
            Phase::RunBegun | Phase::SharedOpen | Phase::CycleBegun | Phase::PrivateOpen
            | Phase::Positioned | Phase::Transfer | Phase::Clock | Phase::PrivateClose
            | Phase::CycleEnded => true,
            _ => false,
        }
    }

    /// The phases inside a cycle.
    pub open spec fn in_cycle(self) -> bool {
        match self {
            Phase::CycleBegun | Phase::PrivateOpen | Phase::Positioned | Phase::Transfer
            | Phase::Clock | Phase::PrivateClose | Phase::CycleEnded => true,
            _ => false,
        }
    }

    /// The phases of a timed pass, where data moves.
    pub open spec fn in_pass(self) -> bool {
        match self {
            Phase::PrivateOpen | Phase::Positioned | Phase::Transfer | Phase::Clock
            | Phase::PrivateClose => true,
            _ => false,
        }
    }

    pub open spec fn is_over(self) -> bool {
        self == Phase::Finished || self == Phase::Failed
    }
}

/// The phase an action leaves a session in.
pub open spec fn phase_after(a: Action) -> Phase {
    match a {
        Action::CheckExists => Phase::Exists,
        Action::RemoveFile => Phase::Remove,
        Action::CreateFile { .. } => Phase::Create,
        Action::WriteFile { .. } => Phase::Write,
        Action::SyncFile => Phase::Sync,
        Action::BeginRun { .. } => Phase::RunBegun,
        Action::OpenShared { .. } => Phase::SharedOpen,
        Action::BeginCycle { .. } => Phase::CycleBegun,
        Action::OpenPrivate { .. } => Phase::PrivateOpen,
        Action::StartPass { .. } => Phase::Positioned,
        Action::Transfer { .. } => Phase::Transfer,
        Action::StopClock => Phase::Clock,
        Action::ClosePrivate => Phase::PrivateClose,
        Action::EndCycle { .. } => Phase::CycleEnded,
        Action::CloseShared => Phase::SharedClose,
        Action::DeleteFile => Phase::Delete,
        Action::Finished { .. } => Phase::Finished,
        Action::Failed { .. } => Phase::Failed,
    }
}

/// The cycles of a run as the options ask for them: in order, each over the
/// whole file, and each timed at one second in a dry run.
pub open spec fn cycles_ok(rs: Seq<CycleResult>, o: SessionOptions) -> bool {
    forall|j: int| #![trigger rs[j]] 0 <= j < rs.len() ==> {
        &&& rs[j].cycle == j
        &&& rs[j].bytes == o.file_size
        &&& o.dry_run ==> rs[j].elapsed_nanos == DRY_RUN_NANOS
    }
}

/// A finished run of `mode` as the options ask for it.
pub open spec fn run_ok(r: RunResult, mode: ReadWrite, o: SessionOptions) -> bool {
    &&& r.mode == mode
    &&& r.cycle_results@.len() == o.cycles
    &&& cycles_ok(r.cycle_results@, o)
    &&& r.statistics.describes(r.cycle_results@)
}

/// The runs of a session so far, one per mode, in the order of the modes.
pub open spec fn runs_ok(rs: Seq<RunResult>, o: SessionOptions) -> bool {
    &&& rs.len() <= o.modes@.len()
    &&& forall|i: int| #![trigger rs[i]] 0 <= i < rs.len() ==> run_ok(rs[i], o.modes@[i], o)
}

/// The finished runs after an action: handed out with `Finished`, kept
/// by the session otherwise.
pub open spec fn handed_runs(s: Session, a: Action) -> Seq<RunResult> {
    if a is Finished {
        a->Finished_runs@
    } else {
        s.runs@
    }
}

/// `after` is `before` with one more run, of `mode` with `cycles`.
pub open spec fn one_more_run(
    before: Seq<RunResult>,
    after: Seq<RunResult>,
    mode: ReadWrite,
    cycles: Seq<CycleResult>,
) -> bool {
    &&& after.len() == before.len() + 1
    &&& after.take(before.len() as int) == before
    &&& after.last().mode == mode
    &&& after.last().cycle_results@ == cycles
}

/// What every action says, given the state it leaves the session in.
pub open spec fn action_ok(s: Session, a: Action) -> bool {
    let o = s.options;
    &&& a is CreateFile ==> a->CreateFile_disable_cache == !o.no_disable_cache
        && a->CreateFile_replace == !o.no_create
    &&& a is WriteFile ==> a->WriteFile_data@.len() == o.file_size && (o.no_random_buffer
        ==> is_pattern(a->WriteFile_data@))
    &&& a is BeginRun ==> a->BeginRun_buffer@.len() == o.block_size && a->BeginRun_mode
        == o.modes@[s.run_index as int]
    &&& a is OpenShared ==> o.no_close_file && a->OpenShared_disable_cache == !o.no_disable_cache
    &&& a is OpenPrivate ==> !o.no_close_file && a->OpenPrivate_disable_cache == !o.no_disable_cache
    &&& a is StartPass ==> s.cycle.ops_done == 0 && if o.random_seek {
        a->StartPass_offset < o.file_size - o.block_size
    } else {
        a->StartPass_offset == 0
    }
    &&& a is Transfer ==> a->Transfer_mode == s.run.options.mode && s.cycle.ops_done < o.ops()
    &&& a is EndCycle ==> a->EndCycle_result == s.run.cycle_results@.last()
        && s.run.cycle_results@.len() == s.cycle.cycle + 1
    &&& a is DeleteFile ==> !o.no_delete && !o.no_create
    &&& a is Finished ==> a->Finished_runs@.len() == o.modes@.len() && runs_ok(a->Finished_runs@, o)
}

/// How a session ends after its last run: by deleting the test file unless
/// `no_delete` or `no_create` is set, and by handing out the runs otherwise.
pub open spec fn ending_ok(o: SessionOptions, a: Action) -> bool {
    if !o.no_delete && !o.no_create {
        a is DeleteFile
    } else {
        a is Finished
    }
}

/// How the preparation of the test file answers each event.
pub open spec fn prepare_step_ok(s: Session, event: Event, t: Session, a: Action) -> bool {
    let o = s.options;
    &&& s.phase == Phase::Start && event == Event::Started ==> a is CheckExists
    &&& s.phase == Phase::Exists ==> (event matches Event::Exists(e) ==> if e && !o.no_create {
        a is RemoveFile
    } else {
        a is CreateFile
    })
    &&& s.phase == Phase::Remove && event == Event::Done ==> a is CreateFile
    &&& s.phase == Phase::Create && event == Event::Done ==> a is WriteFile
    &&& s.phase == Phase::Write ==> (event matches Event::Transferred(n) ==> if n == o.file_size {
        a is SyncFile
    } else {
        a == (Action::Failed { error: BenchError::ShortWrite { written: n, expected: o.file_size } })
    })
    &&& s.phase == Phase::Sync && event == Event::Done ==> if o.modes@.len() > 0 {
        a is BeginRun && t.run_index == 0
    } else {
        ending_ok(o, a)
    }
}

/// How a run begins and ends.
pub open spec fn run_step_ok(s: Session, event: Event, t: Session, a: Action) -> bool {
    let o = s.options;
    &&& s.phase == Phase::RunBegun && event == Event::Done ==> if o.no_close_file {
        a is OpenShared
    } else {
        a == (Action::BeginCycle { cycle: 0 })
    }
    &&& s.phase == Phase::SharedOpen && event == Event::Done ==> a == (Action::BeginCycle { cycle: 0 })
    &&& s.phase == Phase::SharedClose && event == Event::Done ==> {
        &&& handed_runs(t, a) == s.runs@
        &&& if s.run_index < o.modes@.len() {
            a is BeginRun
        } else {
            ending_ok(o, a)
        }
    }
    &&& s.phase == Phase::Delete && event == Event::Done ==> a is Finished
}

/// How a cycle answers each event: a timed pass of exactly
/// `file_size / block_size` transfers, its elapsed time recorded, unless
/// the run is dry.
pub open spec fn cycle_step_ok(s: Session, event: Event, t: Session, a: Action) -> bool {
    let o = s.options;
    let recorded = |nanos: u64|
        CycleResult { cycle: s.cycle.cycle, bytes: o.file_size, elapsed_nanos: nanos };
    &&& s.phase == Phase::CycleBegun && event == Event::Done ==> if o.dry_run {
        a == (Action::EndCycle { result: recorded(DRY_RUN_NANOS) })
    } else if o.no_close_file {
        a is StartPass
    } else {
        a is OpenPrivate
    }
    &&& s.phase == Phase::PrivateOpen && event == Event::Done ==> a is StartPass
    &&& s.phase == Phase::Positioned && event == Event::Done ==> a is Transfer && t.cycle.ops_done == 0
    &&& s.phase == Phase::Transfer ==> (event matches Event::Transferred(n) ==> if n == o.block_size {
        &&& t.cycle.ops_done == s.cycle.ops_done + 1
        &&& if t.cycle.ops_done < o.ops() {
            a is Transfer
        } else {
            a is StopClock
        }
    } else {
        a == (Action::Failed {
            error: if s.run.options.mode == ReadWrite::Read {
                BenchError::ShortRead { read: n, expected: o.block_size }
            } else {
                BenchError::ShortWrite { written: n, expected: o.block_size }
            },
        })
    })
    &&& s.phase == Phase::Clock ==> (event matches Event::Elapsed(nanos) ==> {
        &&& s.cycle.ops_done == o.ops()
        &&& t.run.cycle_results@ == s.run.cycle_results@.push(recorded(nanos))
        &&& if o.no_close_file {
            a is EndCycle
        } else {
            a is ClosePrivate
        }
    })
    &&& s.phase == Phase::PrivateClose && event == Event::Done ==> a is EndCycle
    &&& s.phase == Phase::CycleEnded && event == Event::Done ==> if s.cycle.cycle + 1 < o.cycles {
        &&& a == (Action::BeginCycle { cycle: (s.cycle.cycle + 1) as usize })
        &&& t.run.cycle_results@ == s.run.cycle_results@
    } else {
        &&& one_more_run(s.runs@, handed_runs(t, a), s.run.options.mode, s.run.cycle_results@)
        &&& if o.no_close_file {
            a is CloseShared
        } else if s.run_index + 1 < o.modes@.len() {
            a is BeginRun
        } else {
            ending_ok(o, a)
        }
    }
    &&& (s.phase != Phase::Clock && !(s.phase == Phase::CycleBegun && o.dry_run) && t.phase.in_run()
        && t.run_index == s.run_index) ==> t.run.cycle_results@ == s.run.cycle_results@
}

/// A benchmark session, driven one action at a time: it prepares the test
/// file, runs each mode for the configured number of cycles, deletes the
/// file, and hands out the results.
#[derive(Debug)]
pub struct Session {
    pub options: SessionOptions,
    pub phase: Phase,
    /// Index in `options.modes` of the current run.
    pub run_index: usize,
    pub run: Run,
    pub cycle: Cycle,
    /// The finished runs, in order.
    pub runs: Vec<RunResult>,
}

impl Session {
    /// What holds in every phase: the options are valid and the finished
    /// runs are as they ask.
    pub open spec fn base_ok(&self) -> bool {
        &&& self.options.valid()
        &&& runs_ok(self.runs@, self.options)
        &&& self.run_index == self.runs@.len()
    }

    /// The current run is run `run_index` of the options, and its finished
    /// cycles are as they ask.
    pub open spec fn run_state_ok(&self) -> bool {
        let o = self.options;
        &&& self.run_index < o.modes@.len()
        &&& self.run.options.mode == o.modes@[self.run_index as int]
        &&& self.run.options.shared_handle == o.no_close_file
        &&& cycles_ok(self.run.cycle_results@, o)
    }

    /// The state of a session agrees with its options and its phase.
    pub open spec fn wf(&self) -> bool {
        let o = self.options;
        let p = self.phase;
        let done = self.run.cycle_results@.len();
        &&& self.base_ok()
        &&& p.in_preparation() ==> self.runs@.len() == 0
        &&& p.in_run() ==> self.run_state_ok()
        &&& p.in_cycle() ==> self.cycle.cycle < o.cycles && self.cycle.ops_done <= o.ops()
        &&& (p.in_cycle() && p != Phase::PrivateClose && p != Phase::CycleEnded) ==> done
            == self.cycle.cycle
        &&& (p == Phase::PrivateClose || p == Phase::CycleEnded) ==> done == self.cycle.cycle + 1
        &&& (p == Phase::RunBegun || p == Phase::SharedOpen) ==> done == 0
        &&& p == Phase::Positioned ==> self.cycle.ops_done == 0
        &&& p == Phase::Transfer ==> self.cycle.ops_done < o.ops()
        &&& p == Phase::Clock ==> self.cycle.ops_done == o.ops()
        &&& o.dry_run ==> !p.in_pass()
        &&& o.no_close_file ==> p != Phase::PrivateOpen && p != Phase::PrivateClose
        &&& p == Phase::Delete ==> self.run_index == o.modes@.len()
    }

    /// A session at its start.
    pub fn new(options: SessionOptions) -> (r: Session)
        requires
            options.valid(),
        ensures
            r.wf(),
            r.options == options,
            r.phase == Phase::Start,
    {
        Session {
            options,
            phase: Phase::Start,
            run_index: 0,
            run: Run {
                options: RunOptions { mode: ReadWrite::Read, shared_handle: false },
                cycle_results: Vec::new(),
            },
            cycle: Cycle { cycle: 0, ops_done: 0 },
            runs: Vec::new(),
        }
    }

    fn fail(&mut self, error: BenchError) -> (a: Action)
        requires
            old(self).base_ok(),
        ensures
            final(self).wf(),
            final(self).options == old(self).options,
            final(self).phase == Phase::Failed,
            a == (Action::Failed { error }),
    {
        self.phase = Phase::Failed;
        Action::Failed { error }
    }

    /// Creates the test file.
    fn create(&mut self) -> (a: Action)
        requires
            old(self).base_ok(),
            old(self).runs@.len() == 0,
        ensures
            final(self).wf(),
            final(self).options == old(self).options,
            final(self).phase == phase_after(a),
            a == (Action::CreateFile {
                disable_cache: !old(self).options.no_disable_cache,
                replace: !old(self).options.no_create,
            }),
    {
        self.phase = Phase::Create;
        Action::CreateFile {
            disable_cache: !self.options.no_disable_cache,
            replace: !self.options.no_create,
        }
    }

    /// Hands out the finished runs.
    fn finish(&mut self) -> (a: Action)
        requires
            old(self).base_ok(),
            old(self).run_index == old(self).options.modes@.len(),
        ensures
            final(self).wf(),
            final(self).options == old(self).options,
            final(self).phase == phase_after(a),
            a is Finished,
            a->Finished_runs@ == old(self).runs@,
            a->Finished_runs@.len() == final(self).options.modes@.len(),
            runs_ok(a->Finished_runs@, final(self).options),
    {
        let mut runs: Vec<RunResult> = Vec::new();
        std::mem::swap(&mut runs, &mut self.runs);
        self.run_index = 0;
        self.phase = Phase::Finished;
        Action::Finished { runs }
    }

    /// Starts run `run_index`, or ends the session after the last run.
    fn begin_run(&mut self) -> (a: Action)
        requires
            old(self).base_ok(),
        ensures
            final(self).wf(),
            final(self).options == old(self).options,
            final(self).phase == phase_after(a),
            a is BeginRun || a is DeleteFile || a is Finished,
            a is BeginRun ==> a->BeginRun_buffer@.len() == final(self).options.block_size
                && a->BeginRun_mode == final(self).options.modes@[final(self).run_index as int],
            a is DeleteFile ==> !final(self).options.no_delete && !final(self).options.no_create,
            a is Finished ==> a->Finished_runs@.len() == final(self).options.modes@.len()
                && runs_ok(a->Finished_runs@, final(self).options),
            handed_runs(*final(self), a) == old(self).runs@,
            old(self).run_index < old(self).options.modes@.len() ==> a is BeginRun
                && final(self).run_index == old(self).run_index,
            old(self).run_index >= old(self).options.modes@.len() ==> ending_ok(old(self).options, a),
    {
        if self.run_index < self.options.modes.len() {
            let mode = self.options.modes[self.run_index];
            let buffer = match mode {
                ReadWrite::Write => random_buffer(self.options.block_size),
                ReadWrite::Read => vec![0u8; self.options.block_size],
            };
            self.run = Run {
                options: RunOptions { mode, shared_handle: self.options.no_close_file },
                cycle_results: Vec::new(),
            };
            self.phase = Phase::RunBegun;
            Action::BeginRun { mode, buffer }
        } else if !self.options.no_delete && !self.options.no_create {
            self.phase = Phase::Delete;
            Action::DeleteFile
        } else {
            self.finish()
        }
    }

    /// Starts cycle `cycle` of the current run.
    fn begin_cycle(&mut self, cycle: usize) -> (a: Action)
        requires
            old(self).base_ok(),
            old(self).run_state_ok(),
            cycle < old(self).options.cycles,
            old(self).run.cycle_results@.len() == cycle,
        ensures
            final(self).wf(),
            final(self).options == old(self).options,
            final(self).phase == phase_after(a),
            final(self).cycle == (Cycle { cycle, ops_done: 0 }),
            final(self).run == old(self).run,
            final(self).runs == old(self).runs,
            final(self).run_index == old(self).run_index,
            a == (Action::BeginCycle { cycle }),
    {
        self.cycle = Cycle { cycle, ops_done: 0 };
        self.phase = Phase::CycleBegun;
        Action::BeginCycle { cycle }
    }

    /// Starts the timed pass of the current cycle.
    fn start_pass(&mut self) -> (a: Action)
        requires
            old(self).wf(),
            old(self).phase == Phase::CycleBegun || old(self).phase == Phase::PrivateOpen,
            !old(self).options.dry_run,
        ensures
            final(self).wf(),
            final(self).options == old(self).options,
            final(self).phase == phase_after(a),
            final(self).cycle.ops_done == 0,
            final(self).run == old(self).run,
            final(self).runs == old(self).runs,
            final(self).run_index == old(self).run_index,
            a is StartPass,
            old(self).options.random_seek ==> a->StartPass_offset < old(self).options.file_size
                - old(self).options.block_size,
            !old(self).options.random_seek ==> a->StartPass_offset == 0,
    {
        let offset = if self.options.random_seek {
            random_below((self.options.file_size - self.options.block_size) as u64)
        } else {
            0
        };
        self.cycle.ops_done = 0;
        self.phase = Phase::Positioned;
        Action::StartPass { offset }
    }

    /// Closes the current run after its last cycle.
    fn end_run(&mut self) -> (a: Action)
        requires
            old(self).base_ok(),
            old(self).run_state_ok(),
            old(self).run.cycle_results@.len() == old(self).options.cycles,
        ensures
            final(self).wf(),
            final(self).options == old(self).options,
            final(self).phase == phase_after(a),
            a is CloseShared || a is BeginRun || a is DeleteFile || a is Finished,
            a is BeginRun ==> a->BeginRun_buffer@.len() == final(self).options.block_size
                && a->BeginRun_mode == final(self).options.modes@[final(self).run_index as int],
            a is DeleteFile ==> !final(self).options.no_delete && !final(self).options.no_create,
            a is Finished ==> a->Finished_runs@.len() == final(self).options.modes@.len()
                && runs_ok(a->Finished_runs@, final(self).options),
            one_more_run(
                old(self).runs@,
                handed_runs(*final(self), a),
                old(self).run.options.mode,
                old(self).run.cycle_results@,
            ),
            if old(self).options.no_close_file {
                a is CloseShared
            } else if old(self).run_index + 1 < old(self).options.modes@.len() {
                a is BeginRun
            } else {
                ending_ok(old(self).options, a)
            },
    {
        let runs_asked = self.options.modes.len();
        assert(self.run_index < runs_asked);
        let mut results: Vec<CycleResult> = Vec::new();
        std::mem::swap(&mut results, &mut self.run.cycle_results);
        let result = RunResult::new(self.run.options.mode, results);
        let ghost before = self.runs@;
        self.runs.push(result);
        assert(self.runs@.take(before.len() as int) =~= before);
        proof {
            let o = self.options;
            assert forall|i: int| 0 <= i < self.runs@.len() implies #[trigger] run_ok(
                self.runs@[i],
                o.modes@[i],
                o,
            ) by {
                if i < before.len() {
                    assert(self.runs@[i] == before[i]);
                }
            }
        }
        self.run_index = self.run_index + 1;
        if self.run.options.shared_handle {
            self.phase = Phase::SharedClose;
            Action::CloseShared
        } else {
            self.begin_run()
        }
    }

    /// Moves on after the current cycle was recorded.
    fn next_cycle(&mut self) -> (a: Action)
        requires
            old(self).base_ok(),
            old(self).run_state_ok(),
            old(self).cycle.cycle < old(self).options.cycles,
            old(self).run.cycle_results@.len() == old(self).cycle.cycle + 1,
        ensures
            final(self).wf(),
            final(self).options == old(self).options,
            final(self).phase == phase_after(a),
            a is BeginCycle || a is CloseShared || a is BeginRun || a is DeleteFile || a is Finished,
            a is BeginRun ==> a->BeginRun_buffer@.len() == final(self).options.block_size
                && a->BeginRun_mode == final(self).options.modes@[final(self).run_index as int],
            a is DeleteFile ==> !final(self).options.no_delete && !final(self).options.no_create,
            a is Finished ==> a->Finished_runs@.len() == final(self).options.modes@.len()
                && runs_ok(a->Finished_runs@, final(self).options),
            old(self).cycle.cycle + 1 < old(self).options.cycles ==> a == (Action::BeginCycle {
                cycle: (old(self).cycle.cycle + 1) as usize,
            }) && final(self).run.cycle_results@ == old(self).run.cycle_results@
                && final(self).run_index == old(self).run_index,
            old(self).cycle.cycle + 1 == old(self).options.cycles ==> one_more_run(
                old(self).runs@,
                handed_runs(*final(self), a),
                old(self).run.options.mode,
                old(self).run.cycle_results@,
            ),
            old(self).cycle.cycle + 1 == old(self).options.cycles ==> if old(self).options.no_close_file {
                a is CloseShared
            } else if old(self).run_index + 1 < old(self).options.modes@.len() {
                a is BeginRun
            } else {
                ending_ok(old(self).options, a)
            },
    {
        if self.cycle.cycle + 1 < self.options.cycles {
            self.begin_cycle(self.cycle.cycle + 1)
        } else {
            self.end_run()
        }
    }

    /// Reports the result of the current cycle, which is recorded.
    fn end_cycle(&mut self) -> (a: Action)
        requires
            old(self).base_ok(),
            old(self).run_state_ok(),
            old(self).cycle.cycle < old(self).options.cycles,
            old(self).cycle.ops_done <= old(self).options.ops(),
            old(self).run.cycle_results@.len() == old(self).cycle.cycle + 1,
        ensures
            final(self).wf(),
            final(self).options == old(self).options,
            final(self).run == old(self).run,
            final(self).runs == old(self).runs,
            final(self).run_index == old(self).run_index,
            final(self).cycle == old(self).cycle,
            final(self).phase == phase_after(a),
            a == (Action::EndCycle { result: old(self).run.cycle_results@.last() }),
    {
        let result = self.run.cycle_results[self.cycle.cycle];
        self.phase = Phase::CycleEnded;
        Action::EndCycle { result }
    }

    /// Records the pass of the current cycle.
    fn record(&mut self, elapsed_nanos: u64)
        requires
            old(self).base_ok(),
            old(self).run_state_ok(),
            old(self).run.cycle_results@.len() == old(self).cycle.cycle,
            old(self).options.dry_run ==> elapsed_nanos == DRY_RUN_NANOS,
        ensures
            final(self).base_ok(),
            final(self).run_state_ok(),
            final(self).options == old(self).options,
            final(self).phase == old(self).phase,
            final(self).cycle == old(self).cycle,
            final(self).run.cycle_results@ == old(self).run.cycle_results@.push(
                CycleResult {
                    cycle: old(self).cycle.cycle,
                    bytes: old(self).options.file_size,
                    elapsed_nanos,
                },
            ),
    {
        let result = CycleResult { cycle: self.cycle.cycle, bytes: self.options.file_size, elapsed_nanos };
        let ghost before = self.run.cycle_results@;
        self.run.cycle_results.push(result);
        proof {
            let rs = self.run.cycle_results@;
            assert forall|j: int| 0 <= j < rs.len() implies #[trigger] rs[j].cycle == j by {
                if j < before.len() {
                    assert(rs[j] == before[j]);
                }
            }
        }
    }

    /// The preparation of the test file.
    fn prepare_step(&mut self, event: Event) -> (a: Action)
        requires
            old(self).wf(),
            old(self).phase == Phase::Start || old(self).phase == Phase::Exists || old(self).phase
                == Phase::Remove || old(self).phase == Phase::Create || old(self).phase == Phase::Write
                || old(self).phase == Phase::Sync,
            !(event is IoFailed),
        ensures
            final(self).wf(),
            final(self).options == old(self).options,
            final(self).phase == phase_after(a),
            action_ok(*final(self), a),
            prepare_step_ok(*old(self), event, *final(self), a),
    {
        match self.phase {
            Phase::Start => match event {
                Event::Started => {
                    self.phase = Phase::Exists;
                    Action::CheckExists
                },
                _ => self.fail(BenchError::OutOfOrder),
            },
            Phase::Exists => match event {
                Event::Exists(exists) => {
                    if exists && !self.options.no_create {
                        self.phase = Phase::Remove;
                        Action::RemoveFile
                    } else {
                        self.create()
                    }
                },
                _ => self.fail(BenchError::OutOfOrder),
            },
            Phase::Remove => match event {
                Event::Done => self.create(),
                _ => self.fail(BenchError::OutOfOrder),
            },
            Phase::Create => match event {
                Event::Done => {
                    let data = file_content(self.options.file_size, self.options.no_random_buffer);
                    self.phase = Phase::Write;
                    Action::WriteFile { data }
                },
                _ => self.fail(BenchError::OutOfOrder),
            },
            Phase::Write => match event {
                Event::Transferred(n) => {
                    if n == self.options.file_size {
                        self.phase = Phase::Sync;
                        Action::SyncFile
                    } else {
                        self.fail(BenchError::ShortWrite { written: n, expected: self.options.file_size })
                    }
                },
                _ => self.fail(BenchError::OutOfOrder),
            },
            _ => match event {
                Event::Done => self.begin_run(),
                _ => self.fail(BenchError::OutOfOrder),
            },
        }
    }

    /// One step inside a cycle.
    #[verifier::rlimit(60)]
    fn cycle_step(&mut self, event: Event) -> (a: Action)
        requires
            old(self).wf(),
            old(self).phase.in_cycle(),
            !(event is IoFailed),
        ensures
            final(self).wf(),
            final(self).options == old(self).options,
            final(self).phase == phase_after(a),
            action_ok(*final(self), a),
            cycle_step_ok(*old(self), event, *final(self), a),
    {
        match self.phase {
            Phase::CycleBegun => match event {
                Event::Done => {
                    if self.options.dry_run {
                        self.record(DRY_RUN_NANOS);
                        self.end_cycle()
                    } else if self.run.options.shared_handle {
                        self.start_pass()
                    } else {
                        self.phase = Phase::PrivateOpen;
                        Action::OpenPrivate { disable_cache: !self.options.no_disable_cache }
                    }
                },
                _ => self.fail(BenchError::OutOfOrder),
            },
            Phase::PrivateOpen => match event {
                Event::Done => self.start_pass(),
                _ => self.fail(BenchError::OutOfOrder),
            },
            Phase::Positioned => match event {
                Event::Done => {
                    proof {
                        let o = self.options;
                        vstd::arithmetic::div_mod::lemma_div_is_ordered(
                            o.block_size as int,
                            o.file_size as int,
                            o.block_size as int,
                        );
                        vstd::arithmetic::div_mod::lemma_div_by_multiple(1, o.block_size as int);
                    }
                    self.phase = Phase::Transfer;
                    Action::Transfer { mode: self.run.options.mode }
                },
                _ => self.fail(BenchError::OutOfOrder),
            },
            Phase::Transfer => match event {
                Event::Transferred(n) => {
                    let expected = self.options.block_size;
                    if n != expected {
                        let error = match self.run.options.mode {
                            ReadWrite::Read => BenchError::ShortRead { read: n, expected },
                            ReadWrite::Write => BenchError::ShortWrite { written: n, expected },
                        };
                        return self.fail(error);
                    }
                    self.cycle.ops_done = self.cycle.ops_done + 1;
                    if self.cycle.ops_done < self.options.file_size / self.options.block_size {
                        Action::Transfer { mode: self.run.options.mode }
                    } else {
                        self.phase = Phase::Clock;
                        Action::StopClock
                    }
                },
                _ => self.fail(BenchError::OutOfOrder),
            },
            Phase::Clock => match event {
                Event::Elapsed(nanos) => {
                    self.record(nanos);
                    if self.run.options.shared_handle {
                        self.end_cycle()
                    } else {
                        self.phase = Phase::PrivateClose;
                        Action::ClosePrivate
                    }
                },
                _ => self.fail(BenchError::OutOfOrder),
            },
            Phase::PrivateClose => match event {
                Event::Done => self.end_cycle(),
                _ => self.fail(BenchError::OutOfOrder),
            },
            _ => match event {
                Event::Done => self.next_cycle(),
                _ => self.fail(BenchError::OutOfOrder),
            },
        }
    }

    /// Takes the answer to the last action and hands out the next one.
    ///
    /// The session prepares the test file (removing an existing one unless
    /// `no_create` is set, creating it, writing `file_size` bytes in one call
    /// and syncing), then for each mode in order runs `cycles` cycles, each a
    /// timed pass of `file_size / block_size` block transfers (none in a dry
    /// run), then deletes the file unless `no_delete` or `no_create` is set,
    /// and hands out the runs. Any failure or short transfer ends the session.
    pub fn step(&mut self, event: Event) -> (a: Action)
        requires
            old(self).wf(),
        ensures
            final(self).wf(),
            final(self).options == old(self).options,
            action_ok(*final(self), a),
            old(self).phase.is_over() ==> a == (Action::Failed { error: BenchError::OutOfOrder })
                && final(self).phase == old(self).phase,
            !old(self).phase.is_over() ==> final(self).phase == phase_after(a),
            // Every failure of the outside world ends the session.
            !old(self).phase.is_over() ==> (event matches Event::IoFailed(code) ==> a == (
            Action::Failed { error: BenchError::Io { code } })),
            !(event is IoFailed) ==> prepare_step_ok(*old(self), event, *final(self), a),
            !(event is IoFailed) ==> run_step_ok(*old(self), event, *final(self), a),
            !(event is IoFailed) && old(self).phase.in_cycle() ==> cycle_step_ok(
                *old(self),
                event,
                *final(self),
                a,
            ),
    {
        if self.phase == Phase::Finished || self.phase == Phase::Failed {
            return Action::Failed { error: BenchError::OutOfOrder };
        }
        if let Event::IoFailed(code) = event {
            return self.fail(BenchError::Io { code });
        }
        match self.phase {
            Phase::Start | Phase::Exists | Phase::Remove | Phase::Create | Phase::Write | Phase::Sync => {
                self.prepare_step(event)
            },
            Phase::RunBegun => match event {
                Event::Done => {
                    if self.run.options.shared_handle {
                        self.phase = Phase::SharedOpen;
                        Action::OpenShared { disable_cache: !self.options.no_disable_cache }
                    } else {
                        self.begin_cycle(0)
                    }
                },
                _ => self.fail(BenchError::OutOfOrder),
            },
            Phase::SharedOpen => match event {
                Event::Done => self.begin_cycle(0),
                _ => self.fail(BenchError::OutOfOrder),
            },
            Phase::SharedClose => match event {
                Event::Done => self.begin_run(),
                _ => self.fail(BenchError::OutOfOrder),
            },
            Phase::Delete => match event {
                Event::Done => self.finish(),
                _ => self.fail(BenchError::OutOfOrder),
            },
            Phase::Finished | Phase::Failed => Action::Failed { error: BenchError::OutOfOrder },
            _ => self.cycle_step(event),
        }
    }
}

/// A timed pass ends after exactly `file_size / block_size` block
/// transfers, which together cover the whole file.
pub proof fn lemma_pass_covers_file(s: Session)
    requires
        s.wf(),
        s.phase == Phase::Clock,
    ensures
        s.cycle.ops_done == s.options.file_size / s.options.block_size,
        s.cycle.ops_done * s.options.block_size == s.options.file_size,
{
    let o = s.options;
    vstd::arithmetic::div_mod::lemma_fundamental_div_mod(o.file_size as int, o.block_size as int);
    assert(s.cycle.ops_done * o.block_size == o.block_size * (o.file_size as int / o.block_size as int))
        by (nonlinear_arith)
        requires s.cycle.ops_done == o.file_size as int / o.block_size as int;
}

/// In a dry run the session never opens a cycle's own handle, starts a
/// timed pass, moves a block or reads the clock: no data moves after the
/// test file is prepared.
pub proof fn lemma_dry_run_moves_no_data(s: Session, a: Action)
    requires
        s.wf(),
        s.options.dry_run,
        s.phase == phase_after(a),
    ensures
        !(a is OpenPrivate),
        !(a is StartPass),
        !(a is Transfer),
        !(a is StopClock),
        !(a is ClosePrivate),
{
}

/// Every cycle of a finished dry run is timed at the fixed one second and
/// covers the whole file.
pub proof fn lemma_dry_run_results(runs: Seq<RunResult>, o: SessionOptions)
    requires
        o.dry_run,
        runs_ok(runs, o),
    ensures
        forall|i: int, j: int|
            0 <= i < runs.len() && 0 <= j < runs[i].cycle_results@.len() ==> (
            #[trigger] runs[i].cycle_results@[j]).elapsed_nanos == DRY_RUN_NANOS
                && runs[i].cycle_results@[j].bytes == o.file_size,
{
    assert forall|i: int, j: int|
        0 <= i < runs.len() && 0 <= j < runs[i].cycle_results@.len() implies (
        #[trigger] runs[i].cycle_results@[j]).elapsed_nanos == DRY_RUN_NANOS
            && runs[i].cycle_results@[j].bytes == o.file_size by {
        assert(run_ok(runs[i], o.modes@[i], o));
    }
}

} // verus!
