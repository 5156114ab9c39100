use std::collections::{BTreeMap, BTreeSet};

use file_slicer::report::ErrorKind;
use file_slicer::run::{Action, Event, Phase, Run};
use file_slicer::slicer::Slice;

fn strings(words: &[&str]) -> Vec<String> {
    words.iter().map(|w| w.to_string()).collect()
}

fn sample(len: usize) -> Vec<u8> {
    (0..len).map(|i| (i * 7 % 253) as u8).collect()
}

/// A file system held in memory, for a run to be driven against.
struct Disk {
    sources: BTreeMap<String, Vec<u8>>,
    dirs: BTreeSet<String>,
    written: BTreeMap<String, Vec<u8>>,
    /// The most bytes that one read gives.
    portion: usize,
    create_fails: bool,
    /// The read, counted from 0, that fails.
    failing_read: Option<usize>,
    write_fails: bool,
}

impl Disk {
    fn new() -> Disk {
        Disk {
            sources: BTreeMap::new(),
            dirs: BTreeSet::new(),
            written: BTreeMap::new(),
            portion: usize::MAX,
            create_fails: false,
            failing_read: None,
            write_fails: false,
        }
    }

    fn with(mut self, path: &str, bytes: Vec<u8>) -> Disk {
        self.sources.insert(path.to_string(), bytes);
        self
    }

    /// The slices found in `dir`, joined in the order of their numbers.
    fn rejoined(&self, dir: &str) -> Vec<u8> {
        let mut all = Vec::new();
        let mut i = 0;
        while let Some(bytes) = self.written.get(&format!("{}/{}.bin", dir, i)) {
            all.extend_from_slice(bytes);
            i += 1;
        }
        all
    }

    fn count_in(&self, dir: &str) -> usize {
        let prefix = format!("{}/", dir);
        self.written.keys().filter(|k| k.starts_with(&prefix)).count()
    }
}

#[derive(Debug, PartialEq, Eq)]
enum Ending {
    Exit(i32),
    Fail,
}

struct Outcome {
    printed: Vec<String>,
    complained: Vec<(ErrorKind, String)>,
    opened: Vec<String>,
    ending: Ending,
}

fn drive(args: &[&str], disk: &mut Disk) -> Outcome {
    let (mut run, mut action) = Run::start(&strings(args));
    let mut outcome =
        Outcome { printed: vec![], complained: vec![], opened: vec![], ending: Ending::Fail };
    let mut source: Option<(Vec<u8>, usize)> = None;
    let mut reads = 0;
    for _ in 0..100_000 {
        let event = match action {
            Action::Open { path } => {
                outcome.opened.push(path.clone());
                match disk.sources.get(&path) {
                    Some(bytes) => {
                        source = Some((bytes.clone(), 0));
                        Event::Done
                    }
                    None => Event::Failed,
                }
            }
            Action::Probe { dir } => Event::Found(disk.dirs.contains(&dir)),
            Action::Create { dir } => {
                if disk.create_fails {
                    Event::Failed
                } else {
                    disk.dirs.insert(dir);
                    Event::Done
                }
            }
            Action::Read { limit } => {
                let failing = disk.failing_read == Some(reads);
                reads += 1;
                if failing {
                    Event::Failed
                } else {
                    let (bytes, pos) = source.as_mut().unwrap();
                    let n = limit.min(disk.portion).min(bytes.len() - *pos);
                    let data = bytes[*pos..*pos + n].to_vec();
                    *pos += n;
                    Event::Data(data)
                }
            }
            Action::Write { dir, slices } => {
                assert!(disk.dirs.contains(&dir));
                assert!(!slices.is_empty());
                if disk.write_fails {
                    Event::Failed
                } else {
                    for slice in slices {
                        let path = format!("{}/{}", dir, slice.file_name());
                        assert!(!disk.written.contains_key(&path));
                        disk.written.insert(path, slice.data);
                    }
                    Event::Done
                }
            }
            Action::Print { line } => {
                outcome.printed.push(line);
                Event::Done
            }
            Action::Complain { kind, line } => {
                outcome.complained.push((kind, line));
                Event::Done
            }
            Action::Exit { code } => {
                assert!(run.is_over());
                outcome.ending = Ending::Exit(code);
                return outcome;
            }
            Action::Fail => {
                assert!(run.is_over());
                outcome.ending = Ending::Fail;
                return outcome;
            }
        };
        action = run.step(event);
    }
    panic!("the run did not end");
}

#[test]
fn run_slices_one_file() {
    let mut disk = Disk::new().with("foo/bar.txt", sample(10));
    let outcome = drive(&["slicer", "4", "foo/bar.txt"], &mut disk);
    assert_eq!(outcome.ending, Ending::Exit(0));
    assert_eq!(outcome.printed, vec!["Successfully sliced: 'foo/bar.txt'"]);
    assert!(outcome.complained.is_empty());
    assert!(disk.dirs.contains("bar.txt_sliced"));
    assert_eq!(disk.written.len(), 3);
    assert_eq!(disk.written["bar.txt_sliced/0.bin"], sample(10)[0..4]);
    assert_eq!(disk.written["bar.txt_sliced/1.bin"], sample(10)[4..8]);
    assert_eq!(disk.written["bar.txt_sliced/2.bin"], sample(10)[8..10]);
}

#[test]
fn run_rejoins_to_the_source() {
    for len in [0usize, 1, 2, 9, 10, 11, 64, 100, 257] {
        for chunk in [1usize, 2, 3, 7, 10, 64, 1022] {
            for portion in [1usize, 3, 8, usize::MAX] {
                let mut disk = Disk::new().with("data", sample(len));
                disk.portion = portion;
                let size = format!("{}", chunk);
                let outcome = drive(&["slicer", &size, "data"], &mut disk);
                assert_eq!(outcome.ending, Ending::Exit(0));
                assert_eq!(disk.rejoined("data_sliced"), sample(len));
                assert_eq!(disk.count_in("data_sliced"), (len + chunk - 1) / chunk);
            }
        }
    }
}

#[test]
fn run_writes_full_slices_whatever_the_reads_give() {
    let mut disk = Disk::new().with("data", sample(23));
    disk.portion = 3;
    let outcome = drive(&["slicer", "5", "data"], &mut disk);
    assert_eq!(outcome.ending, Ending::Exit(0));
    assert_eq!(disk.count_in("data_sliced"), 5);
    for i in 0..4 {
        assert_eq!(disk.written[&format!("data_sliced/{}.bin", i)].len(), 5);
    }
    assert_eq!(disk.written["data_sliced/4.bin"].len(), 3);
}

#[test]
fn run_on_an_empty_file_creates_the_directory_only() {
    let mut disk = Disk::new().with("empty", vec![]);
    let outcome = drive(&["slicer", "1022", "empty"], &mut disk);
    assert_eq!(outcome.ending, Ending::Exit(0));
    assert!(disk.dirs.contains("empty_sliced"));
    assert!(disk.written.is_empty());
    assert_eq!(outcome.printed, vec!["Successfully sliced: 'empty'"]);
}

#[test]
fn run_with_too_few_arguments_exits_with_usage() {
    let mut disk = Disk::new();
    let outcome = drive(&["slicer", "1022"], &mut disk);
    assert_eq!(outcome.ending, Ending::Exit(1));
    assert_eq!(
        outcome.complained,
        vec![(
            ErrorKind::Usage,
            "Usage: slicer <file_slice_size_in_bytes> <file1_path> <file2_path> ...".to_string()
        )]
    );
    assert!(outcome.opened.is_empty());
    let alone = drive(&["slicer"], &mut disk);
    assert_eq!(alone.ending, Ending::Exit(1));
    assert_eq!(alone.complained[0].0, ErrorKind::Usage);
}

#[test]
fn run_with_a_bad_size_exits_with_failure() {
    let mut disk = Disk::new().with("data", sample(5));
    let zero = drive(&["slicer", "0", "data"], &mut disk);
    assert_eq!(zero.ending, Ending::Exit(1));
    assert_eq!(
        zero.complained,
        vec![(
            ErrorKind::SizeTooSmall,
            "File slice size must be greater than 1 bytes".to_string()
        )]
    );
    let word = drive(&["slicer", "abc", "data"], &mut disk);
    assert_eq!(word.ending, Ending::Exit(1));
    assert_eq!(
        word.complained,
        vec![(ErrorKind::InvalidSize, "'abc' is not a valid file size".to_string())]
    );
    assert!(disk.dirs.is_empty());
    assert!(disk.written.is_empty());
}

#[test]
fn second_run_leaves_existing_output_alone() {
    let mut disk = Disk::new().with("data", sample(10));
    let first = drive(&["slicer", "4", "data"], &mut disk);
    assert_eq!(first.ending, Ending::Exit(0));
    let before = disk.written.clone();
    disk.sources.insert("data".to_string(), sample(50));
    let second = drive(&["slicer", "3", "data"], &mut disk);
    assert_eq!(second.ending, Ending::Exit(0));
    assert!(second.printed.is_empty());
    assert_eq!(
        second.complained,
        vec![(
            ErrorKind::OutputExists,
            "Path 'data_sliced' already exists, skipping. Please remove folder to create a new one."
                .to_string()
        )]
    );
    assert_eq!(disk.written, before);
}

#[test]
fn a_file_that_fails_does_not_stop_the_others() {
    let mut disk = Disk::new().with("dir/a.txt", sample(9)).with("b", sample(4));
    disk.dirs.insert("b_sliced".to_string());
    let outcome = drive(&["slicer", "4", "missing", "b", "..", "dir/a.txt"], &mut disk);
    assert_eq!(outcome.ending, Ending::Exit(0));
    assert_eq!(outcome.opened, strings(&["missing", "b", "..", "dir/a.txt"]));
    assert_eq!(
        outcome.complained,
        vec![
            (ErrorKind::OpenFailure, "Failed to open file: 'missing'".to_string()),
            (
                ErrorKind::OutputExists,
                "Path 'b_sliced' already exists, skipping. Please remove folder to create a new one."
                    .to_string()
            ),
            (ErrorKind::OpenFailure, "Failed to open file: '..'".to_string()),
        ]
    );
    assert_eq!(outcome.printed, vec!["Successfully sliced: 'dir/a.txt'"]);
    assert_eq!(disk.rejoined("a.txt_sliced"), sample(9));
    assert_eq!(disk.count_in("b_sliced"), 0);
}

#[test]
fn a_path_without_a_file_name_is_skipped() {
    let mut disk = Disk::new().with("..", sample(3)).with("x/", sample(3)).with("/", sample(1));
    let outcome = drive(&["slicer", "2", "..", "/", "x/"], &mut disk);
    assert_eq!(outcome.ending, Ending::Exit(0));
    assert_eq!(
        outcome.complained,
        vec![
            (ErrorKind::InvalidName, "Invalid file path: '..'".to_string()),
            (ErrorKind::InvalidName, "Invalid file path: '/'".to_string()),
        ]
    );
    assert_eq!(outcome.printed, vec!["Successfully sliced: 'x/'"]);
    assert_eq!(disk.rejoined("x_sliced"), sample(3));
}

#[test]
fn output_directory_is_named_after_the_last_component() {
    let (mut run, first) = Run::start(&strings(&["slicer", "4", "foo/baz/bar.txt"]));
    assert_eq!(first, Action::Open { path: "foo/baz/bar.txt".to_string() });
    assert_eq!(run.step(Event::Done), Action::Probe { dir: "bar.txt_sliced".to_string() });
    assert_eq!(run.phase(), Phase::Probing);
}

#[test]
fn failure_to_create_ends_the_run() {
    let mut disk = Disk::new().with("a", sample(9)).with("b", sample(9));
    disk.create_fails = true;
    let outcome = drive(&["slicer", "4", "a", "b"], &mut disk);
    assert_eq!(outcome.ending, Ending::Fail);
    assert_eq!(outcome.opened, strings(&["a"]));
    assert!(outcome.printed.is_empty());
    assert!(outcome.complained.is_empty());
    assert!(disk.written.is_empty());
}

#[test]
fn failure_to_read_ends_the_run() {
    let mut disk = Disk::new().with("a", sample(9)).with("b", sample(9));
    disk.failing_read = Some(1);
    let outcome = drive(&["slicer", "4", "a", "b"], &mut disk);
    assert_eq!(outcome.ending, Ending::Fail);
    assert_eq!(outcome.opened, strings(&["a"]));
    assert_eq!(disk.count_in("a_sliced"), 1);
    assert!(outcome.printed.is_empty());
}

#[test]
fn failure_to_write_ends_the_run() {
    let mut disk = Disk::new().with("a", sample(9)).with("b", sample(9));
    disk.write_fails = true;
    let outcome = drive(&["slicer", "4", "a", "b"], &mut disk);
    assert_eq!(outcome.ending, Ending::Fail);
    assert_eq!(outcome.opened, strings(&["a"]));
    assert!(disk.dirs.contains("a_sliced"));
    assert!(disk.written.is_empty());
}

#[test]
fn advance_goes_by_the_base_name_given() {
    let (mut run, first) = Run::start(&strings(&["slicer", "2", "some/path", "other"]));
    assert_eq!(first, Action::Open { path: "some/path".to_string() });
    assert_eq!(run.phase(), Phase::Opening);
    assert_eq!(
        run.advance(Event::Done, Some("name".to_string())),
        Action::Probe { dir: "name_sliced".to_string() }
    );
    assert_eq!(run.phase(), Phase::Probing);
    assert_eq!(
        run.advance(Event::Found(false), None),
        Action::Create { dir: "name_sliced".to_string() }
    );
    assert_eq!(run.phase(), Phase::Creating);
    assert_eq!(run.advance(Event::Done, None), Action::Read { limit: 2 });
    assert_eq!(run.phase(), Phase::Reading);
    assert_eq!(run.advance(Event::Data(vec![1]), None), Action::Read { limit: 2 });
    assert_eq!(
        run.advance(Event::Data(vec![2, 3, 4, 5]), None),
        Action::Write {
            dir: "name_sliced".to_string(),
            slices: vec![
                Slice { index: 0, data: vec![1, 2] },
                Slice { index: 1, data: vec![3, 4] },
            ],
        }
    );
    assert_eq!(run.phase(), Phase::Writing);
    assert_eq!(run.advance(Event::Done, None), Action::Read { limit: 2 });
    assert_eq!(
        run.advance(Event::Data(vec![]), None),
        Action::Write {
            dir: "name_sliced".to_string(),
            slices: vec![Slice { index: 2, data: vec![5] }],
        }
    );
    assert_eq!(run.phase(), Phase::Flushing);
    assert_eq!(
        run.advance(Event::Done, None),
        Action::Print { line: "Successfully sliced: 'some/path'".to_string() }
    );
    assert_eq!(run.phase(), Phase::Telling);
    assert_eq!(run.advance(Event::Done, None), Action::Open { path: "other".to_string() });
    assert_eq!(
        run.advance(Event::Done, None),
        Action::Complain {
            kind: ErrorKind::InvalidName,
            line: "Invalid file path: 'other'".to_string()
        }
    );
    assert!(!run.is_over());
    assert_eq!(run.advance(Event::Done, None), Action::Exit { code: 0 });
    assert_eq!(run.phase(), Phase::Over { code: 0 });
    assert!(run.is_over());
    assert_eq!(run.advance(Event::Data(vec![1]), None), Action::Exit { code: 0 });
    assert_eq!(run.step(Event::Failed), Action::Exit { code: 0 });
}

#[test]
fn an_event_that_answers_nothing_ends_the_run() {
    let (mut run, _) = Run::start(&strings(&["slicer", "2", "a"]));
    assert_eq!(run.step(Event::Found(true)), Action::Fail);
    assert_eq!(run.phase(), Phase::Failed);
    assert!(run.is_over());
    assert_eq!(run.step(Event::Done), Action::Fail);
    let (mut refused, said) = Run::start(&strings(&["slicer"]));
    assert!(matches!(said, Action::Complain { kind: ErrorKind::Usage, .. }));
    assert_eq!(refused.phase(), Phase::Refusing);
    assert_eq!(refused.step(Event::Failed), Action::Fail);
}
