use cabinet::archive_job::ArchiveAction;
use cabinet::archive_job::ArchiveEvent;
use cabinet::archive_job::ArchiveJob;
use cabinet::archive_job::JobPhase;
use cabinet::error::ArchiveError;
use cabinet::io_helper::read_from_archive;
use std::collections::BTreeMap;

struct Disk {
    files: BTreeMap<String, Vec<u8>>,
    container: Option<Vec<u8>>,
    write_fails: bool,
    stuck: Vec<String>,
    log: Vec<String>,
}

fn disk(files: &[(&str, &[u8])]) -> Disk {
    Disk {
        files: files.iter().map(|(path, bytes)| (path.to_string(), bytes.to_vec())).collect(),
        container: None,
        write_fails: false,
        stuck: Vec::new(),
        log: Vec::new(),
    }
}

fn run(paths: &[&str], disk: &mut Disk) -> Result<(), ArchiveError> {
    let paths: Vec<String> = paths.iter().map(|path| path.to_string()).collect();
    let mut job = ArchiveJob::new(paths.clone());
    let mut event = ArchiveEvent::Start;
    loop {
        let (next, action) = job.step(event);
        job = next;
        event = match action {
            ArchiveAction::ReadSource(i) => {
                disk.log.push(format!("read {}", paths[i]));
                ArchiveEvent::SourceRead(disk.files.get(&paths[i]).cloned())
            }
            ArchiveAction::WriteContainer(bytes) => {
                disk.log.push("write".to_string());
                if disk.write_fails {
                    ArchiveEvent::ContainerWritten(false)
                } else {
                    disk.container = Some(bytes);
                    ArchiveEvent::ContainerWritten(true)
                }
            }
            ArchiveAction::RemoveSource(i) => {
                disk.log.push(format!("remove {}", paths[i]));
                if disk.stuck.contains(&paths[i]) {
                    ArchiveEvent::SourceRemoved(false)
                } else {
                    disk.files.remove(&paths[i]);
                    ArchiveEvent::SourceRemoved(true)
                }
            }
            ArchiveAction::Done(outcome) => return outcome,
        };
    }
}

#[test]
fn successful_run_packs_and_then_removes() {
    let mut disk = disk(&[("a.txt", b"hello"), ("b.txt", b"world")]);
    assert_eq!(run(&["a.txt", "b.txt"], &mut disk), Ok(()));
    assert_eq!(disk.log, vec!["read a.txt", "read b.txt", "write", "remove a.txt", "remove b.txt"]);
    assert!(disk.files.is_empty());
    let container = disk.container.unwrap();
    assert_eq!(read_from_archive(container.clone(), "a.txt"), Ok(b"hello".to_vec()));
    assert_eq!(read_from_archive(container.clone(), "b.txt"), Ok(b"world".to_vec()));
    assert_eq!(read_from_archive(container, "missing.txt"), Err(ArchiveError::EntryNotFound));
}

#[test]
fn duplicate_names_leave_the_sources() {
    let mut disk = disk(&[("dir1/a.txt", b"one"), ("dir2/a.txt", b"two")]);
    assert_eq!(run(&["dir1/a.txt", "dir2/a.txt"], &mut disk), Err(ArchiveError::DuplicateEntryName));
    assert_eq!(disk.log, vec!["read dir1/a.txt"]);
    assert_eq!(disk.files.len(), 2);
    assert_eq!(disk.container, None);
}

#[test]
fn duplicate_is_found_before_the_source_is_read() {
    let mut disk = disk(&[("dir1/a.txt", b"one")]);
    assert_eq!(run(&["dir1/a.txt", "gone/a.txt"], &mut disk), Err(ArchiveError::DuplicateEntryName));
    assert_eq!(disk.files.len(), 1);
}

#[test]
fn unreadable_source_leaves_the_sources() {
    let mut disk = disk(&[("a.txt", b"hello")]);
    assert_eq!(run(&["a.txt", "b.txt"], &mut disk), Err(ArchiveError::Io));
    assert_eq!(disk.log, vec!["read a.txt", "read b.txt"]);
    assert_eq!(disk.files.len(), 1);
    assert_eq!(disk.container, None);
}

#[test]
fn failed_write_leaves_the_sources() {
    let mut disk = disk(&[("a.txt", b"hello"), ("b.txt", b"world")]);
    disk.write_fails = true;
    assert_eq!(run(&["a.txt", "b.txt"], &mut disk), Err(ArchiveError::Io));
    assert_eq!(disk.log, vec!["read a.txt", "read b.txt", "write"]);
    assert_eq!(disk.files.len(), 2);
}

#[test]
fn failed_removal_is_reported_and_the_rest_still_goes() {
    let mut disk = disk(&[("a.txt", b"hello"), ("b.txt", b"world")]);
    disk.stuck.push("a.txt".to_string());
    assert_eq!(run(&["a.txt", "b.txt"], &mut disk), Err(ArchiveError::Io));
    assert_eq!(disk.log, vec!["read a.txt", "read b.txt", "write", "remove a.txt", "remove b.txt"]);
    assert_eq!(disk.files.len(), 1);
    assert!(disk.files.contains_key("a.txt"));
    assert!(disk.container.is_some());
}

#[test]
fn path_without_base_name_ends_the_run() {
    let mut disk = disk(&[("a.txt", b"hello")]);
    assert_eq!(run(&["a.txt", ".."], &mut disk), Err(ArchiveError::Io));
    assert_eq!(disk.log, vec!["read a.txt"]);
    assert_eq!(disk.files.len(), 1);
}

#[test]
fn run_without_sources_writes_an_empty_container() {
    let mut disk = disk(&[]);
    assert_eq!(run(&[], &mut disk), Ok(()));
    assert_eq!(disk.log, vec!["write"]);
    assert_eq!(read_from_archive(disk.container.unwrap(), "a"), Err(ArchiveError::EntryNotFound));
}

#[test]
fn job_agrees_with_generate_archive() {
    let mut disk = disk(&[("x/a.txt", b"hello"), ("y/b.txt", b"world")]);
    assert_eq!(run(&["x/a.txt", "y/b.txt"], &mut disk), Ok(()));
    let sources = vec![
        cabinet::io_helper::SourceFile { path: "x/a.txt".to_string(), contents: b"hello".to_vec() },
        cabinet::io_helper::SourceFile { path: "y/b.txt".to_string(), contents: b"world".to_vec() },
    ];
    assert_eq!(cabinet::io_helper::generate_archive(&sources).ok(), disk.container);
}

#[test]
fn phases_follow_the_run() {
    let job = ArchiveJob::new(vec!["a.txt".to_string()]);
    assert_eq!(job.phase(), JobPhase::Fresh);
    let (job, action) = job.step(ArchiveEvent::Start);
    assert!(matches!(action, ArchiveAction::ReadSource(0)));
    assert_eq!(job.phase(), JobPhase::Reading);
    let (job, action) = job.step(ArchiveEvent::SourceRead(Some(b"hello".to_vec())));
    assert!(matches!(action, ArchiveAction::WriteContainer(_)));
    assert_eq!(job.phase(), JobPhase::Writing);
    let (job, action) = job.step(ArchiveEvent::ContainerWritten(true));
    assert!(matches!(action, ArchiveAction::RemoveSource(0)));
    assert_eq!(job.phase(), JobPhase::Removing);
    let (job, action) = job.step(ArchiveEvent::SourceRemoved(true));
    assert!(matches!(action, ArchiveAction::Done(Ok(()))));
    assert_eq!(job.phase(), JobPhase::Succeeded);
    let (job, action) = job.step(ArchiveEvent::SourceRemoved(true));
    assert!(matches!(action, ArchiveAction::Done(Ok(()))));
    assert_eq!(job.phase(), JobPhase::Succeeded);
}

#[test]
fn event_out_of_turn_ends_the_job() {
    let job = ArchiveJob::new(vec!["a.txt".to_string()]);
    let (job, action) = job.step(ArchiveEvent::SourceRemoved(true));
    assert!(matches!(action, ArchiveAction::Done(Err(ArchiveError::Io))));
    assert_eq!(job.phase(), JobPhase::Failed(ArchiveError::Io));
    let (job, action) = job.step(ArchiveEvent::Start);
    assert!(matches!(action, ArchiveAction::Done(Err(ArchiveError::Io))));
    assert_eq!(job.phase(), JobPhase::Failed(ArchiveError::Io));

    let job = ArchiveJob::new(vec!["a.txt".to_string()]);
    let (job, _) = job.step(ArchiveEvent::Start);
    let (job, action) = job.step(ArchiveEvent::ContainerWritten(true));
    assert!(matches!(action, ArchiveAction::Done(Err(ArchiveError::Io))));
    assert_eq!(job.phase(), JobPhase::Failed(ArchiveError::Io));
}

#[test]
fn removal_is_never_asked_for_before_the_write_is_reported() {
    let job = ArchiveJob::new(vec!["a.txt".to_string()]);
    let (job, _) = job.step(ArchiveEvent::Start);
    let (job, _) = job.step(ArchiveEvent::SourceRead(Some(b"hello".to_vec())));
    let (job, action) = job.step(ArchiveEvent::SourceRemoved(true));
    assert!(matches!(action, ArchiveAction::Done(Err(ArchiveError::Io))));
    let (_, action) = job.step(ArchiveEvent::ContainerWritten(true));
    assert!(matches!(action, ArchiveAction::Done(Err(ArchiveError::Io))));
}
