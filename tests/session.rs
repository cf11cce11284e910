use disk_bench::data_size::{DataSize, Unit};
use disk_bench::fill::{file_content, fill_pattern, random_buffer};
use disk_bench::session::{
    check_config, expand_modes, Action, BenchError, ConfigError, Event, Mode, Phase, ReadWrite,
    RunResult, Session, SessionOptions, DRY_RUN_NANOS,
};
use disk_bench::statistics::Rate;
use disk_bench::volume::{Volume, VolumeError};

fn options(file_size: usize, block_size: usize, cycles: usize, modes: Vec<ReadWrite>) -> SessionOptions {
    SessionOptions {
        modes,
        path: "testfile.dat".to_string(),
        file_size,
        block_size,
        cycles,
        no_create: false,
        no_delete: false,
        dry_run: false,
        no_progress: true,
        no_disable_cache: false,
        random_seek: false,
        no_close_file: false,
        no_random_buffer: true,
    }
}

/// An in-memory stand-in for the file system and the clock.
struct World {
    file: Option<Vec<u8>>,
    pos: usize,
    buffer: Vec<u8>,
    open_handles: i32,
    passes: usize,
    transfers_in_pass: usize,
    transfers_per_pass: Vec<usize>,
    reads: usize,
    writes: usize,
    log: Vec<&'static str>,
    short_at: Option<usize>,
    ended: Vec<u64>,
}

impl World {
    fn new(file: Option<Vec<u8>>) -> World {
        World {
            file,
            pos: 0,
            buffer: Vec::new(),
            open_handles: 0,
            passes: 0,
            transfers_in_pass: 0,
            transfers_per_pass: Vec::new(),
            reads: 0,
            writes: 0,
            log: Vec::new(),
            short_at: None,
            ended: Vec::new(),
        }
    }

    fn write_at_pos(&mut self, data: &[u8]) {
        let file = self.file.as_mut().unwrap();
        if file.len() < self.pos + data.len() {
            file.resize(self.pos + data.len(), 0);
        }
        file[self.pos..self.pos + data.len()].copy_from_slice(data);
        self.pos += data.len();
    }

    /// Runs a session to its end; returns the last action.
    fn run(&mut self, session: &mut Session) -> Action {
        let mut event = Event::Started;
        loop {
            let action = session.step(event);
            event = match action {
                Action::CheckExists => {
                    self.log.push("check");
                    Event::Exists(self.file.is_some())
                }
                Action::RemoveFile => {
                    self.log.push("remove");
                    self.file = None;
                    Event::Done
                }
                Action::CreateFile { replace, .. } => {
                    self.log.push("create");
                    if replace || self.file.is_none() {
                        self.file = Some(Vec::new());
                    }
                    self.pos = 0;
                    Event::Done
                }
                Action::WriteFile { data } => {
                    self.log.push("write_file");
                    self.write_at_pos(&data);
                    Event::Transferred(data.len())
                }
                Action::SyncFile => {
                    self.log.push("sync");
                    Event::Done
                }
                Action::BeginRun { buffer, .. } => {
                    self.log.push("run");
                    self.buffer = buffer;
                    Event::Done
                }
                Action::OpenShared { .. } | Action::OpenPrivate { .. } => {
                    self.log.push("open");
                    self.open_handles += 1;
                    self.pos = 0;
                    Event::Done
                }
                Action::BeginCycle { .. } => {
                    self.log.push("cycle");
                    Event::Done
                }
                Action::StartPass { offset } => {
                    self.log.push("pass");
                    self.pos = offset as usize;
                    self.transfers_in_pass = 0;
                    Event::Done
                }
                Action::Transfer { mode } => {
                    self.transfers_in_pass += 1;
                    let n = self.buffer.len();
                    if Some(self.reads + self.writes) == self.short_at {
                        Event::Transferred(n - 1)
                    } else {
                        match mode {
                            ReadWrite::Read => {
                                self.reads += 1;
                                let file = self.file.as_ref().unwrap();
                                let count = n.min(file.len().saturating_sub(self.pos));
                                self.buffer[..count].copy_from_slice(&file[self.pos..self.pos + count]);
                                self.pos += count;
                                Event::Transferred(count)
                            }
                            ReadWrite::Write => {
                                self.writes += 1;
                                let data = self.buffer.clone();
                                self.write_at_pos(&data);
                                Event::Transferred(n)
                            }
                        }
                    }
                }
                Action::StopClock => {
                    self.passes += 1;
                    self.transfers_per_pass.push(self.transfers_in_pass);
                    Event::Elapsed(1_000_000_000 * self.passes as u64)
                }
                Action::EndCycle { result } => {
                    self.log.push("end");
                    self.ended.push(result.elapsed_nanos);
                    Event::Done
                }
                Action::ClosePrivate | Action::CloseShared => {
                    self.log.push("close");
                    self.open_handles -= 1;
                    Event::Done
                }
                Action::DeleteFile => {
                    self.log.push("delete");
                    self.file = None;
                    Event::Done
                }
                Action::Finished { .. } | Action::Failed { .. } => return action,
            };
        }
    }
}

fn finished(a: Action) -> Vec<RunResult> {
    match a {
        Action::Finished { runs } => runs,
        other => panic!("session did not finish: {:?}", other),
    }
}

#[test]
fn write_run_of_two_cycles() {
    let mut s = Session::new(options(1_048_576, 65_536, 2, vec![ReadWrite::Write]));
    let mut w = World::new(None);
    let runs = finished(w.run(&mut s));
    assert_eq!(runs.len(), 1);
    assert_eq!(runs[0].mode, ReadWrite::Write);
    assert_eq!(runs[0].cycle_results.len(), 2);
    for (i, c) in runs[0].cycle_results.iter().enumerate() {
        assert_eq!(c.cycle, i);
        assert_eq!(c.bytes, 1_048_576);
        assert!(c.elapsed_nanos > 0);
    }
    assert_eq!(runs[0].statistics.max, Rate { bytes: 1_048_576, nanos: 1_000_000_000 });
    assert_eq!(runs[0].statistics.min, Rate { bytes: 1_048_576, nanos: 2_000_000_000 });
    assert!(runs[0].statistics.standard_deviation > 0);
    assert_eq!(w.transfers_per_pass, vec![16, 16]);
    assert_eq!(w.ended, vec![1_000_000_000, 2_000_000_000]);
    assert_eq!(runs[0].cycle_results[0].elapsed_nanos, 1_000_000_000);
    assert_eq!(runs[0].cycle_results[1].elapsed_nanos, 2_000_000_000);
    assert_eq!(w.writes, 32);
    assert_eq!(w.open_handles, 0);
    assert!(w.file.is_none());
}

#[test]
fn every_pass_moves_file_size_over_block_size_blocks() {
    for (file_size, block_size) in [(8usize, 1usize), (4096, 512), (3 * 4096, 4096), (10, 5)] {
        let mut s = Session::new(options(file_size, block_size, 3, vec![ReadWrite::Read, ReadWrite::Write]));
        let mut w = World::new(None);
        let runs = finished(w.run(&mut s));
        assert_eq!(runs.len(), 2);
        assert_eq!(w.transfers_per_pass, vec![file_size / block_size; 6]);
    }
}

#[test]
fn read_run_reads_back_pattern_file() {
    let mut o = options(4096, 1024, 2, vec![ReadWrite::Read]);
    o.no_delete = true;
    let mut s = Session::new(o);
    let mut w = World::new(None);
    let runs = finished(w.run(&mut s));
    assert_eq!(runs[0].cycle_results.len(), 2);
    assert_eq!(w.reads, 8);
    assert_eq!(w.file.as_ref().unwrap(), &fill_pattern(4096));
    assert_eq!(&w.buffer[..], &fill_pattern(1024)[..]);
}

#[test]
fn dry_run_records_sentinel_and_moves_no_blocks() {
    let mut o = options(65_536, 4096, 4, vec![ReadWrite::Read, ReadWrite::Write]);
    o.dry_run = true;
    o.no_delete = true;
    let mut s = Session::new(o);
    let mut w = World::new(None);
    let runs = finished(w.run(&mut s));
    assert_eq!(runs.len(), 2);
    for r in &runs {
        assert_eq!(r.cycle_results.len(), 4);
        for c in &r.cycle_results {
            assert_eq!(c.elapsed_nanos, DRY_RUN_NANOS);
            assert_eq!(c.bytes, 65_536);
        }
        assert_eq!(r.statistics.standard_deviation, 0);
    }
    assert_eq!(w.reads + w.writes, 0);
    assert_eq!(w.passes, 0);
    assert_eq!(w.file.as_ref().unwrap(), &fill_pattern(65_536));
}

#[test]
fn prepare_replaces_existing_file() {
    let mut o = options(4096, 1024, 2, vec![]);
    o.no_delete = true;
    let mut s = Session::new(o.clone());
    let mut w = World::new(Some(vec![7u8; 100_000]));
    finished(w.run(&mut s));
    assert_eq!(w.file.as_ref().unwrap().len(), 4096);
    assert_eq!(w.log, vec!["check", "remove", "create", "write_file", "sync"]);
    // Preparing again gives the same file.
    let mut s = Session::new(o);
    finished(w.run(&mut s));
    assert_eq!(w.file.as_ref().unwrap(), &fill_pattern(4096));
}

#[test]
fn no_create_keeps_file_and_never_deletes() {
    let mut o = options(4096, 1024, 2, vec![ReadWrite::Read]);
    o.no_create = true;
    let mut s = Session::new(o);
    let mut w = World::new(Some(vec![7u8; 8192]));
    finished(w.run(&mut s));
    assert!(!w.log.contains(&"remove"));
    assert!(!w.log.contains(&"delete"));
    assert_eq!(w.file.as_ref().unwrap().len(), 8192);
}

#[test]
fn shared_handle_opens_once_per_run() {
    let mut o = options(4096, 1024, 3, vec![ReadWrite::Write, ReadWrite::Read]);
    o.no_close_file = true;
    let mut s = Session::new(o);
    let mut w = World::new(None);
    let runs = finished(w.run(&mut s));
    assert_eq!(runs.len(), 2);
    assert_eq!(w.log.iter().filter(|e| **e == "open").count(), 2);
    assert_eq!(w.open_handles, 0);
}

#[test]
fn private_handles_open_once_per_cycle() {
    let mut s = Session::new(options(4096, 1024, 3, vec![ReadWrite::Write]));
    let mut w = World::new(None);
    finished(w.run(&mut s));
    assert_eq!(w.log.iter().filter(|e| **e == "open").count(), 3);
}

#[test]
fn random_seek_stays_inside_file() {
    let mut o = options(8192, 1024, 5, vec![ReadWrite::Write]);
    o.random_seek = true;
    for _ in 0..20 {
        let mut s = Session::new(o.clone());
        assert!(matches!(s.step(Event::Started), Action::CheckExists));
        let mut a = s.step(Event::Exists(false));
        let mut answers = 0;
        while answers < 200 {
            a = match a {
                Action::StartPass { offset } => {
                    assert!(offset < 8192 - 1024);
                    s.step(Event::Done)
                }
                Action::WriteFile { data } => s.step(Event::Transferred(data.len())),
                Action::Transfer { .. } => s.step(Event::Transferred(1024)),
                Action::StopClock => s.step(Event::Elapsed(5)),
                Action::Finished { .. } | Action::Failed { .. } => break,
                _ => s.step(Event::Done),
            };
            answers += 1;
        }
    }
}

#[test]
fn short_block_transfer_fails_session() {
    let mut s = Session::new(options(4096, 1024, 2, vec![ReadWrite::Write]));
    let mut w = World::new(None);
    w.short_at = Some(5);
    match w.run(&mut s) {
        Action::Failed { error } => {
            assert_eq!(error, BenchError::ShortWrite { written: 1023, expected: 1024 })
        }
        other => panic!("expected a failure, got {:?}", other),
    }
    assert_eq!(s.phase, Phase::Failed);
}

#[test]
fn short_read_fails_session() {
    let mut s = Session::new(options(4096, 1024, 2, vec![ReadWrite::Read]));
    let mut w = World::new(None);
    w.short_at = Some(0);
    match w.run(&mut s) {
        Action::Failed { error } => assert_eq!(error, BenchError::ShortRead { read: 1023, expected: 1024 }),
        other => panic!("expected a failure, got {:?}", other),
    }
}

#[test]
fn short_file_write_fails_preparation() {
    let mut s = Session::new(options(4096, 1024, 2, vec![ReadWrite::Read]));
    s.step(Event::Started);
    s.step(Event::Exists(false));
    match s.step(Event::Done) {
        Action::WriteFile { data } => assert_eq!(data.len(), 4096),
        other => panic!("expected the file write, got {:?}", other),
    }
    match s.step(Event::Transferred(4000)) {
        Action::Failed { error } => assert_eq!(error, BenchError::ShortWrite { written: 4000, expected: 4096 }),
        other => panic!("expected a failure, got {:?}", other),
    }
}

#[test]
fn io_failure_ends_session() {
    let mut s = Session::new(options(4096, 1024, 2, vec![ReadWrite::Read]));
    s.step(Event::Started);
    match s.step(Event::IoFailed(13)) {
        Action::Failed { error } => assert_eq!(error, BenchError::Io { code: 13 }),
        other => panic!("expected a failure, got {:?}", other),
    }
    match s.step(Event::Done) {
        Action::Failed { error } => assert_eq!(error, BenchError::OutOfOrder),
        other => panic!("expected a failure, got {:?}", other),
    }
}

#[test]
fn unexpected_event_is_refused() {
    let mut s = Session::new(options(4096, 1024, 2, vec![ReadWrite::Read]));
    match s.step(Event::Done) {
        Action::Failed { error } => assert_eq!(error, BenchError::OutOfOrder),
        other => panic!("expected a failure, got {:?}", other),
    }
}

#[test]
fn config_rejects_equal_sizes() {
    let r = check_config(&DataSize::new(64, Unit::KB), &DataSize::new(64, Unit::KB), 10);
    assert_eq!(r, Err(ConfigError::FileNotLargerThanBlock));
}

#[test]
fn config_rejects_too_few_cycles() {
    let f = DataSize::new(1, Unit::MB);
    let b = DataSize::new(64, Unit::KB);
    assert_eq!(check_config(&f, &b, 0), Err(ConfigError::TooFewCycles));
    assert_eq!(check_config(&f, &b, 1), Err(ConfigError::TooFewCycles));
    assert_eq!(check_config(&f, &b, -3), Err(ConfigError::TooFewCycles));
    assert_eq!(check_config(&f, &b, 2), Ok((1_048_576, 65_536, 2)));
}

#[test]
fn config_rejects_zero_block() {
    let r = check_config(&DataSize::new(1, Unit::MB), &DataSize::new(0, Unit::KB), 10);
    assert_eq!(r, Err(ConfigError::ZeroBlockSize));
}

#[test]
fn config_rejects_zero_file() {
    let r = check_config(&DataSize::new(0, Unit::MB), &DataSize::new(0, Unit::KB), 10);
    assert_eq!(r, Err(ConfigError::FileNotLargerThanBlock));
}

#[test]
fn config_cuts_file_to_whole_blocks() {
    let r = check_config(&DataSize::new(1000, Unit::B), &DataSize::new(64, Unit::B), 3);
    assert_eq!(r, Ok((960, 64, 3)));
    let r = check_config(&DataSize::new(100, Unit::B), &DataSize::new(64, Unit::B), 3);
    assert_eq!(r, Err(ConfigError::FileNotLargerThanBlock));
}

#[test]
fn config_rejects_sizes_beyond_usize() {
    let r = check_config(&DataSize::new(16, Unit::EB), &DataSize::new(1, Unit::KB), 3);
    assert_eq!(r, Err(ConfigError::FileSizeTooLarge));
    let r = check_config(&DataSize::new(1, Unit::KB), &DataSize::new(usize::MAX, Unit::MB), 3);
    assert_eq!(r, Err(ConfigError::BlockSizeTooLarge));
}

#[test]
fn all_mode_expands_to_read_then_write() {
    assert_eq!(expand_modes(&[Mode::All]), vec![ReadWrite::Read, ReadWrite::Write]);
    assert_eq!(expand_modes(&[Mode::Write, Mode::All]), vec![ReadWrite::Read, ReadWrite::Write]);
    assert_eq!(expand_modes(&[Mode::Write, Mode::Read]), vec![ReadWrite::Write, ReadWrite::Read]);
    assert_eq!(expand_modes(&[]), Vec::<ReadWrite>::new());
}

#[test]
fn pattern_fill_repeats_deadbeef() {
    assert_eq!(fill_pattern(6), vec![0xDE, 0xAD, 0xBE, 0xEF, 0xDE, 0xAD]);
    assert_eq!(fill_pattern(0), Vec::<u8>::new());
    let long = fill_pattern(4099);
    assert_eq!(&long[..4096], &fill_pattern(4096)[..]);
    assert_eq!(file_content(5, true), vec![0xDE, 0xAD, 0xBE, 0xEF, 0xDE]);
}

#[test]
fn random_fill_keeps_length() {
    assert_eq!(random_buffer(1000).len(), 1000);
    assert_eq!(file_content(333, false).len(), 333);
    // 4096 random bytes are all zero with negligible probability.
    assert!(random_buffer(4096).iter().any(|b| *b != 0));
}

#[test]
fn volume_lookup_is_unavailable() {
    assert_eq!(Volume::volume_for_path(&"testfile.dat".to_string()).err(), Some(VolumeError::NotImplemented));
}

#[test]
fn session_without_runs_deletes_its_file() {
    let mut s = Session::new(options(4096, 1024, 2, vec![]));
    let mut w = World::new(None);
    let runs = finished(w.run(&mut s));
    assert!(runs.is_empty());
    assert_eq!(w.log, vec!["check", "create", "write_file", "sync", "delete"]);
    assert!(w.file.is_none());
}
