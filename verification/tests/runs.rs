use bandsnatch::config::{S3Config, S3Env};
use bandsnatch::job::{Action, JobSettings, Outcome, Place, ReleaseItem, ReleaseJob, Stage};
use bandsnatch::plan::{Event, Phase, RunPlan, Task};
use bandsnatch::run::{
    add_cache_entry, announcement, cached_ids, closing, formats, pending_releases, skip_warning,
    Args,
};
use bandsnatch::storage::{OutputTarget, S3Target};

fn args() -> Args {
    Args {
        album: None,
        artist: None,
        audio_format: "flac".to_string(),
        cookies: None,
        debug: false,
        dry_run: false,
        force: false,
        download_jobs: 4,
        upload_jobs: 4,
        limit: None,
        output_folder: "./".to_string(),
        s3_endpoint: Some("e".to_string()),
        s3_region: Some("r".to_string()),
        s3_access_key_id: Some("a".to_string()),
        s3_secret_access_key: Some("s".to_string()),
        s3_session_token: Some("t".to_string()),
        user: "user".to_string(),
    }
}

fn release(downloadable: bool) -> ReleaseItem {
    ReleaseItem {
        title: "Title".to_string(),
        artist: "Artist".to_string(),
        release_year: "2024".to_string(),
        single: "Some(false)".to_string(),
        downloadable,
    }
}

fn item(downloadable: bool) -> Outcome<&'static str> {
    Outcome::Item(release(downloadable))
}

fn settings(dry_run: bool, remote: bool) -> JobSettings {
    let place = if remote {
        Place::Bucket { prefix: "prefix".to_string() }
    } else {
        Place::Local { root: "root".to_string() }
    };
    JobSettings { dry_run, debug: true, audio_format: "alac".to_string(), place }
}

fn job(dry_run: bool, remote: bool) -> ReleaseJob<u8, &'static str> {
    ReleaseJob::new("p1", 7, &settings(dry_run, remote))
}

fn add_to_cache() -> Action<'static, u8, &'static str> {
    Action::AddToCache {
        id: "p1".to_string(),
        description: "Title (2024) by Artist".to_string(),
    }
}

fn found() -> Vec<(String, u8)> {
    vec![("a".to_string(), 1), ("b".to_string(), 2), ("c".to_string(), 3)]
}

fn ids(releases: Vec<(String, u8)>) -> Vec<u8> {
    releases.into_iter().map(|release| release.1).collect()
}

#[test]
fn formats_are_listed() {
    assert_eq!(
        formats(),
        ["flac", "wav", "aac-hi", "mp3-320", "aiff-lossless", "vorbis", "mp3-v0", "alac"]
    );
}

#[test]
fn there_is_at_least_one_job() {
    let mut args = args();
    assert_eq!(args.download_workers(), 4);
    assert_eq!(args.s3_config().upload_jobs, 4);
    args.download_jobs = 0;
    args.upload_jobs = 0;
    assert_eq!(args.download_workers(), 1);
    assert_eq!(args.s3_config().upload_jobs, 1);
}

#[test]
fn s3_settings_are_passed_on() {
    let config = args().s3_config();
    assert_eq!(config.endpoint.as_deref(), Some("e"));
    assert_eq!(config.region.as_deref(), Some("r"));
    assert_eq!(config.access_key_id.as_deref(), Some("a"));
    assert_eq!(config.secret_access_key.as_deref(), Some("s"));
    assert_eq!(config.session_token.as_deref(), Some("t"));
}

#[test]
fn cookies_files_are_expanded() {
    let mut args = args();
    let home = Some("/home/me".to_string());
    assert_eq!(args.cookies_file(&home), None);
    args.cookies = Some("cookies.txt".to_string());
    assert_eq!(args.cookies_file(&home).as_deref(), Some("cookies.txt"));
    args.cookies = Some("~/cookies.txt".to_string());
    assert_eq!(args.cookies_file(&home).as_deref(), Some("/home/me/cookies.txt"));
    assert_eq!(args.cookies_file(&None).as_deref(), Some("~/cookies.txt"));
}

#[test]
fn cached_releases_are_skipped() {
    let cached = vec!["b".to_string()];
    assert_eq!(ids(pending_releases(found(), &cached, false, None)), [1, 3]);
    assert_eq!(ids(pending_releases(found(), &cached, true, None)), [1, 2, 3]);
}

#[test]
fn limits_cut_the_wanted_releases() {
    let cached = vec!["a".to_string()];
    assert_eq!(ids(pending_releases(found(), &cached, false, Some(1))), [2]);
    assert_eq!(ids(pending_releases(found(), &cached, false, Some(9))), [2, 3]);
    assert!(pending_releases(found(), &cached, false, Some(0)).is_empty());
}

#[test]
fn nothing_is_left_once_all_is_cached() {
    let cached: Vec<String> = found().into_iter().map(|release| release.0).collect();
    assert!(pending_releases(found(), &cached, false, None).is_empty());
}

#[test]
fn runs_announce_themselves() {
    assert_eq!(announcement(true, 12), "Fetching information for 12 found releases");
    assert_eq!(announcement(false, 0), "Trying to download 0 releases");
}

#[test]
fn runs_close() {
    let report = vec!["one".to_string(), "two".to_string()];
    assert_eq!(closing(true, 2, &report), "one\ntwo");
    assert_eq!(closing(true, 2, &Vec::new()), "");
    assert_eq!(closing(true, 0, &Vec::new()), "Finished!");
    assert_eq!(closing(false, 2, &Vec::new()), "Finished!");
}

#[test]
fn the_cache_is_dirty_once_an_entry_was_added() {
    let mut dirty = false;
    assert_eq!(add_cache_entry(Ok(false), &mut dirty), None);
    assert!(!dirty);
    assert_eq!(
        add_cache_entry(Err("disk full".to_string()), &mut dirty),
        Some("An error: disk full; skipped.".to_string())
    );
    assert!(!dirty);
    assert_eq!(add_cache_entry(Ok(true), &mut dirty), None);
    assert!(dirty);
    assert_eq!(add_cache_entry(Ok(false), &mut dirty), None);
    assert!(dirty);
    assert_eq!(skip_warning("x"), "An error: x; skipped.");
}

#[test]
fn local_releases_are_downloaded_and_cached() {
    let mut job = job(false, false);
    assert_eq!(job.action(), Action::Fetch { link: &7, debug: true });
    job.step(item(true));
    assert_eq!(
        job.action(),
        Action::Announce("Trying p1, Title - Artist (Some(false))".to_string())
    );
    job.step(Outcome::Done);
    assert_eq!(job.action(), Action::CreateFolder { root: "root".to_string() });
    job.step(Outcome::Created("folder"));
    let audio_format = "alac".to_string();
    assert_eq!(job.action(), Action::Download { folder: &"folder", audio_format });
    job.step(Outcome::Done);
    assert_eq!(job.action(), add_to_cache());
    job.step(Outcome::Done);
    assert_eq!(job.action(), Action::Finish);
    job.step(Outcome::Done);
    assert_eq!(job.stage(), Stage::Finished);
}

#[test]
fn remote_releases_are_staged_uploaded_and_cleaned_up() {
    let mut job = job(false, true);
    job.step(item(true));
    job.step(Outcome::Done);
    assert_eq!(job.action(), Action::CreateStagingFolder { id: "p1".to_string() });
    job.step(Outcome::Created("staging"));
    let audio_format = "alac".to_string();
    assert_eq!(job.action(), Action::Download { folder: &"staging", audio_format });
    job.step(Outcome::Done);
    let prefix = "prefix".to_string();
    assert_eq!(job.action(), Action::Upload { folder: &"staging", prefix });
    job.step(Outcome::Done);
    assert_eq!(job.action(), Action::RemoveStagingFolder { folder: &"staging" });
    job.step(Outcome::Done);
    assert_eq!(job.action(), add_to_cache());
    job.step(Outcome::Done);
    assert_eq!(job.stage(), Stage::Finished);
}

#[test]
fn failed_downloads_and_uploads_are_cleaned_up() {
    for uploads in [false, true] {
        let mut job = job(false, true);
        job.step(item(true));
        job.step(Outcome::Done);
        job.step(Outcome::Created("staging"));
        if uploads {
            job.step(Outcome::Done);
        }
        job.step(Outcome::Failed("gone".to_string()));
        assert_eq!(job.action(), Action::Warn("An error: gone; skipped.".to_string()));
        job.step(Outcome::Done);
        assert_eq!(job.action(), Action::RemoveStagingFolder { folder: &"staging" });
        job.step(Outcome::Done);
        assert_eq!(job.stage(), Stage::Finished);
    }
}

#[test]
fn failures_without_a_staging_folder_only_warn() {
    let mut local = job(false, false);
    local.step(item(true));
    local.step(Outcome::Done);
    local.step(Outcome::Created("folder"));
    local.step(Outcome::Failed("gone".to_string()));
    assert_eq!(local.action(), Action::Warn("An error: gone; skipped.".to_string()));
    local.step(Outcome::Done);
    assert_eq!(local.stage(), Stage::Finished);

    let mut remote = job(false, true);
    remote.step(item(true));
    remote.step(Outcome::Done);
    remote.step(Outcome::Failed("no space".to_string()));
    assert_eq!(remote.action(), Action::Warn("An error: no space; skipped.".to_string()));
    remote.step(Outcome::Done);
    assert_eq!(remote.stage(), Stage::Finished);
}

#[test]
fn jobs_are_set_as_the_run_is() {
    let mut run = args();
    run.audio_format = "mp3-v0".to_string();
    run.debug = true;
    let local = OutputTarget::Local { root: "music".to_string() };
    let settings = run.job_settings(&local);
    assert_eq!(settings.place, Place::Local { root: "music".to_string() });
    assert_eq!(settings.audio_format, "mp3-v0");
    assert_eq!((settings.dry_run, settings.debug), (false, true));
    let bucket = S3Target::new("s3://b/p/", S3Config { endpoint: None, ..run.s3_config() }, &S3Env::default());
    let remote = OutputTarget::S3(bucket.ok().unwrap());
    let settings = run.job_settings(&remote);
    assert_eq!(settings.place, Place::Bucket { prefix: "p".to_string() });
}

#[test]
fn dry_runs_report() {
    let mut job = job(true, true);
    job.step(item(true));
    assert_eq!(job.action(), Action::Report("p1, Title - Artist".to_string()));
    job.step(Outcome::Done);
    assert_eq!(job.stage(), Stage::Finished);
}

#[test]
fn releases_without_item_or_downloads_are_skipped() {
    let mut missing = job(false, true);
    missing.step(Outcome::NoItem);
    assert_eq!(missing.action(), Action::Warn("Could not find digital item for p1".to_string()));
    missing.step(Outcome::Done);
    assert_eq!(missing.stage(), Stage::Finished);

    let mut empty = job(true, true);
    empty.step(item(false));
    assert_eq!(
        empty.action(),
        Action::Warn("No downloads available for p1; nothing to download.".to_string())
    );

    let mut offline = job(false, true);
    offline.step(Outcome::Failed("offline".to_string()));
    assert_eq!(offline.action(), Action::Finish);
}

#[test]
fn forced_runs_ignore_the_cache() {
    let content = || Ok(vec!["a".to_string()]);
    assert_eq!(cached_ids(false, content()), content());
    assert_eq!(cached_ids(true, content()), Ok(Vec::new()));
    let unreadable = || Err("unreadable".to_string());
    assert_eq!(cached_ids(false, unreadable()), unreadable());
    assert_eq!(cached_ids(true, unreadable()), Ok(Vec::new()));
}

#[test]
fn remote_runs_go_step_by_step() {
    let mut settings = args();
    settings.cookies = Some("~/c".to_string());
    settings.artist = Some("artist".to_string());
    let mut plan = RunPlan::new(&settings, &Some("/home/me".to_string()), true);
    assert_eq!(plan.task(), Task::PrepareTarget);
    plan.step(Event::Done);
    assert_eq!(plan.task(), Task::FetchCache);
    plan.step(Event::Done);
    assert_eq!(plan.task(), Task::LogIn { cookies_file: Some("/home/me/c".to_string()) });
    plan.step(Event::Done);
    let list = Task::ListReleases {
        user: "user".to_string(),
        artist: Some("artist".to_string()),
        album: None,
    };
    assert_eq!(plan.task(), list);
    plan.step(Event::Done);
    assert_eq!(plan.task(), Task::PickReleases);
    plan.step(Event::Picked(2));
    assert_eq!(plan.task(), Task::Print("Trying to download 2 releases".to_string()));
    plan.step(Event::Done);
    assert_eq!(plan.task(), Task::Work);
    plan.step(Event::Worked { cache_dirty: true, report: Vec::new() });
    assert_eq!(plan.task(), Task::StoreCache);
    plan.step(Event::Done);
    assert_eq!(plan.task(), Task::Print("Finished!".to_string()));
    plan.step(Event::Done);
    assert_eq!(plan.task(), Task::Finish);
    plan.step(Event::Failed("late".to_string()));
    assert_eq!(plan.phase(), Phase::Finished);
}

fn picked(dry_run: bool, remote: bool, releases: usize) -> RunPlan {
    let mut settings = args();
    settings.dry_run = dry_run;
    let mut plan = RunPlan::new(&settings, &None, remote);
    while plan.phase() != Phase::PickReleases {
        plan.step(Event::Done);
    }
    plan.step(Event::Picked(releases));
    plan
}

#[test]
fn local_runs_leave_the_remote_cache_out() {
    let mut plan = RunPlan::new(&args(), &None, false);
    plan.step(Event::Done);
    assert_eq!(plan.task(), Task::LogIn { cookies_file: None });
    let mut plan = picked(false, false, 1);
    plan.step(Event::Done);
    plan.step(Event::Worked { cache_dirty: true, report: Vec::new() });
    assert_eq!(plan.phase(), Phase::Close);
}

#[test]
fn a_clean_cache_is_not_uploaded() {
    let mut plan = picked(false, true, 1);
    plan.step(Event::Done);
    plan.step(Event::Worked { cache_dirty: false, report: Vec::new() });
    assert_eq!(plan.phase(), Phase::Close);
}

#[test]
fn runs_without_releases_close_at_once() {
    let mut plan = picked(true, true, 0);
    let line = "Fetching information for 0 found releases".to_string();
    assert_eq!(plan.task(), Task::Print(line));
    plan.step(Event::Done);
    assert_eq!(plan.task(), Task::Print("Finished!".to_string()));
}

#[test]
fn dry_runs_close_with_their_report() {
    let mut plan = picked(true, true, 2);
    plan.step(Event::Done);
    let report = vec!["one".to_string(), "two".to_string()];
    plan.step(Event::Worked { cache_dirty: false, report });
    assert_eq!(plan.task(), Task::Print("one\ntwo".to_string()));
}

#[test]
fn a_failure_ends_the_run() {
    let mut plan = RunPlan::new(&args(), &None, true);
    plan.step(Event::Done);
    plan.step(Event::Failed("offline".to_string()));
    assert_eq!(plan.task(), Task::Fail("offline".to_string()));
    plan.step(Event::Done);
    plan.step(Event::Failed("again".to_string()));
    assert_eq!(plan.task(), Task::Fail("offline".to_string()));
}

/// Works on some releases with a number of workers that take turns, and
/// returns what was done, in a fixed order.
fn work(workers: u8, ids: &[&str]) -> Vec<String> {
    let mut pending = ids.iter();
    let mut jobs: Vec<Option<(String, ReleaseJob<u8, String>)>> = Vec::new();
    for _ in 0..workers {
        jobs.push(None);
    }
    let mut done = Vec::new();
    loop {
        let mut idle = true;
        for slot in jobs.iter_mut() {
            if slot.is_none() {
                let settings = settings(false, true);
                *slot = pending
                    .next()
                    .map(|id| (id.to_string(), ReleaseJob::new(id, 7, &settings)));
            }
            let Some((id, job)) = slot else { continue };
            idle = false;
            let action = job.action();
            let outcome = match &action {
                Action::Finish => {
                    *slot = None;
                    continue;
                }
                Action::Fetch { .. } if id == "missing" => Outcome::NoItem,
                Action::Fetch { .. } => Outcome::Item(release(true)),
                Action::CreateStagingFolder { id } => Outcome::Created(format!("staging {id}")),
                Action::Download { .. } if id == "broken" => Outcome::Failed("gone".to_string()),
                _ => Outcome::Done,
            };
            done.push(format!("{id}: {action:?}"));
            job.step(outcome);
        }
        if idle {
            break;
        }
    }
    done.sort();
    done
}

#[test]
fn the_number_of_download_jobs_does_not_matter() {
    let ids = ["one", "missing", "two", "broken", "three"];
    let mut settings = args();
    settings.download_jobs = 1;
    let alone = work(settings.download_workers(), &ids);
    assert_eq!(alone.iter().filter(|deed| deed.contains("AddToCache")).count(), 3);
    assert_eq!(alone.iter().filter(|deed| deed.contains("RemoveStagingFolder")).count(), 4);
    for jobs in [0, 2, 3, 9] {
        settings.download_jobs = jobs;
        assert_eq!(work(settings.download_workers(), &ids), alone);
    }
}
