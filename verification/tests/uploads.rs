use bandsnatch::staging::{random_temp_release_dir_name, temp_release_dir_name};
use bandsnatch::upload::{job_count, DirEntry, EntryKind, FileCollector, UploadQueue};

fn entry(path: &'static str, kind: EntryKind) -> DirEntry<&'static str> {
    DirEntry { path, relative: path.to_string(), kind }
}

#[test]
fn walks_collect_files_depth_first() {
    let mut collector = FileCollector::new("root", "/release/");
    assert_eq!(collector.next_directory(), Some("root"));
    collector.add_listing(vec![
        entry("1.flac", EntryKind::File),
        entry("cd", EntryKind::Directory),
        entry("link", EntryKind::Other),
        entry("4.flac", EntryKind::File),
    ]);
    assert_eq!(collector.next_directory(), Some("cd"));
    assert_eq!(collector.files.len(), 1);
    collector.add_listing(vec![
        entry("cd\\2.flac", EntryKind::File),
        entry("cd/3.flac", EntryKind::File),
    ]);
    assert_eq!(collector.next_directory(), None);
    let expected = vec![
        ("1.flac", "release/1.flac".to_string()),
        ("cd\\2.flac", "release/cd/2.flac".to_string()),
        ("cd/3.flac", "release/cd/3.flac".to_string()),
        ("4.flac", "release/4.flac".to_string()),
    ];
    assert_eq!(collector.files, expected);
    assert_eq!(collector.next_directory(), None);
}

#[test]
fn empty_folders_hold_no_files() {
    let mut collector = FileCollector::new(0, "");
    assert_eq!(collector.next_directory(), Some(0));
    collector.add_listing(Vec::new());
    assert_eq!(collector.next_directory(), None);
    assert!(collector.files.is_empty());
}

#[test]
fn jobs_are_bounded_by_files_and_setting() {
    assert_eq!(job_count(0, 0), 1);
    assert_eq!(job_count(0, 5), 1);
    assert_eq!(job_count(4, 0), 1);
    assert_eq!(job_count(4, 1), 1);
    assert_eq!(job_count(4, 3), 3);
    assert_eq!(job_count(4, 4), 4);
    assert_eq!(job_count(4, 9), 4);
}

#[test]
fn queues_hand_files_out_in_order() {
    let mut queue = UploadQueue::new(vec![1, 2]);
    assert_eq!(queue.take_next(), Some(1));
    assert_eq!(queue.take_next(), Some(2));
    assert_eq!(queue.take_next(), None);
    assert_eq!(queue.finish(), Ok(()));
}

#[test]
fn queues_stop_at_the_first_failure() {
    let mut queue = UploadQueue::new(vec![1, 2, 3]);
    assert_eq!(queue.take_next(), Some(1));
    queue.record_failure("first".to_string());
    queue.record_failure("second".to_string());
    assert_eq!(queue.take_next(), None);
    assert_eq!(queue.finish(), Err("first".to_string()));
}

#[test]
fn staging_folders_are_named_after_release_and_number() {
    assert_eq!(temp_release_dir_name("r1", 0), "bandsnatch-r1-0");
    assert_eq!(
        temp_release_dir_name("p", u64::MAX),
        "bandsnatch-p-18446744073709551615"
    );
}

#[test]
fn staging_folders_get_a_random_number() {
    let name = || random_temp_release_dir_name("a/b", |id: &str| id.replace('/', "_"));
    let (first, second) = (name(), name());
    let suffix = first.strip_prefix("bandsnatch-a_b-").unwrap();
    assert!(suffix.parse::<u64>().is_ok());
    assert_ne!(first, second);
}

/// Runs an upload with a number of workers that take turns, and returns what
/// was uploaded, in order of the names, if nothing failed.
fn upload(
    jobs: usize,
    files: &[&'static str],
    failing: Option<&str>,
) -> Result<Vec<&'static str>, String> {
    let mut queue = UploadQueue::new(files.to_vec());
    let workers = job_count(jobs, files.len());
    let mut stopped = vec![false; workers];
    let mut uploaded = Vec::new();
    while stopped.contains(&false) {
        let mut busy = Vec::new();
        for worker in 0..workers {
            if !stopped[worker] {
                match queue.take_next() {
                    Some(file) => busy.push((worker, file)),
                    None => stopped[worker] = true,
                }
            }
        }
        for (worker, file) in busy.into_iter().rev() {
            if failing == Some(file) {
                queue.record_failure(format!("{file} failed"));
                stopped[worker] = true;
            } else {
                uploaded.push(file);
            }
        }
    }
    uploaded.sort();
    queue.finish().map(|()| uploaded)
}

#[test]
fn the_number_of_upload_jobs_does_not_matter() {
    let files = ["a", "b", "c", "d", "e"];
    for jobs in [0, 1, 2, 3, 9] {
        assert_eq!(upload(jobs, &files, None), Ok(files.to_vec()));
        assert_eq!(upload(jobs, &files, Some("d")), Err("d failed".to_string()));
        assert_eq!(upload(jobs, &[], None), Ok(Vec::new()));
    }
}
