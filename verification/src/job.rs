//! What is done with one release: a machine that says what comes next, given
//! how the last thing went.

use crate::run::{skip_warning, skip_warning_of, Args};
use crate::storage::OutputTarget;
use crate::text::optional_text;
use vstd::prelude::*;
use vstd::string::*;

verus! {

/// What is known of a release once it was looked up.
pub struct ReleaseItem {
    pub title: String,
    pub artist: String,
    pub release_year: String,
    /// Whether the release is a single, in words.
    pub single: String,
    /// Whether there is anything to download.
    pub downloadable: bool,
}

/// The model of [`ReleaseItem`].
pub struct ItemView {
    pub title: Seq<char>,
    pub artist: Seq<char>,
    pub release_year: Seq<char>,
    pub single: Seq<char>,
    pub downloadable: bool,
}

impl View for ReleaseItem {
    type V = ItemView;

    open spec fn view(&self) -> ItemView {
        ItemView {
            title: self.title@,
            artist: self.artist@,
            release_year: self.release_year@,
            single: self.single@,
            downloadable: self.downloadable,
        }
    }
}

/// Where releases go.
#[derive(Debug, PartialEq, Eq)]
pub enum Place {
    /// Below a local folder.
    Local { root: String },
    /// Below a key prefix of a bucket.
    Bucket { prefix: String },
}

/// The model of [`Place`].
pub enum PlaceView {
    Local { root: Seq<char> },
    Bucket { prefix: Seq<char> },
}

impl View for Place {
    type V = PlaceView;

    open spec fn view(&self) -> PlaceView {
        match *self {
            Place::Local { root } => PlaceView::Local { root: root@ },
            Place::Bucket { prefix } => PlaceView::Bucket { prefix: prefix@ },
        }
    }
}

/// What the jobs of a run have in common.
#[derive(Debug, PartialEq, Eq)]
pub struct JobSettings {
    pub dry_run: bool,
    pub debug: bool,
    pub audio_format: String,
    pub place: Place,
}

/// The model of [`JobSettings`].
pub struct SettingsView {
    pub dry_run: bool,
    pub debug: bool,
    pub audio_format: Seq<char>,
    pub place: PlaceView,
}

impl View for JobSettings {
    type V = SettingsView;

    open spec fn view(&self) -> SettingsView {
        SettingsView {
            dry_run: self.dry_run,
            debug: self.debug,
            audio_format: self.audio_format@,
            place: self.place@,
        }
    }
}

/// Where a target keeps releases.
pub open spec fn place_of(target: OutputTarget) -> PlaceView {
    match target {
        OutputTarget::Local { root } => PlaceView::Local { root: root@ },
        OutputTarget::S3(bucket) => PlaceView::Bucket { prefix: bucket.prefix@ },
    }
}

/// The settings of the jobs of a run.
pub open spec fn settings_of(args: Args, target: OutputTarget) -> SettingsView {
    SettingsView {
        dry_run: args.dry_run,
        debug: args.debug,
        audio_format: args.audio_format@,
        place: place_of(target),
    }
}

impl Args {
    /// The settings of the run's jobs, for a target.
    pub fn job_settings(&self, target: &OutputTarget) -> (settings: JobSettings)
        ensures
            settings@ == settings_of(*self, *target),
    {
        let place = match target {
            OutputTarget::Local { root } => Place::Local { root: root.clone() },
            OutputTarget::S3(bucket) => Place::Bucket { prefix: bucket.prefix.clone() },
        };
        JobSettings {
            dry_run: self.dry_run,
            debug: self.debug,
            audio_format: self.audio_format.clone(),
            place,
        }
    }
}

/// How far a job has come: what is done next.
#[derive(Clone, Copy, Debug, PartialEq, Eq, Structural)]
pub enum Stage {
    /// The release is looked up.
    Fetch,
    /// A dry run notes the release down.
    Report,
    /// The download is announced.
    Announce,
    /// The folder to download into is created.
    Prepare,
    /// The release is downloaded.
    Download,
    /// The downloaded files are uploaded.
    Upload,
    /// A warning ends the job.
    WarnAndStop,
    /// A warning comes before the staging folder goes.
    WarnAndClean,
    /// The staging folder goes after a failure.
    CleanAfterFailure,
    /// The staging folder goes after the upload.
    CleanAfterSuccess,
    /// The cache takes the release in.
    Record,
    /// Nothing is left to do.
    Finished,
}

/// How the last thing went.
pub enum Outcome<P> {
    Done,
    Failed(String),
    /// This folder was created.
    Created(P),
    /// Looking the release up gave an item.
    Item(ReleaseItem),
    /// Looking the release up gave none.
    NoItem,
}

/// The model of [`Outcome`].
pub enum OutcomeView<P> {
    Done,
    Failed(Seq<char>),
    Created(P),
    Item(ItemView),
    NoItem,
}

impl<P> View for Outcome<P> {
    type V = OutcomeView<P>;

    open spec fn view(&self) -> OutcomeView<P> {
        match *self {
            Outcome::Done => OutcomeView::Done,
            Outcome::Failed(error) => OutcomeView::Failed(error@),
            Outcome::Created(folder) => OutcomeView::Created(folder),
            Outcome::Item(item) => OutcomeView::Item(item@),
            Outcome::NoItem => OutcomeView::NoItem,
        }
    }
}

/// What is to be done next.
#[derive(Debug, PartialEq, Eq)]
pub enum Action<'a, L, P> {
    /// Look the release up.
    Fetch { link: &'a L, debug: bool },
    Report(String),
    Announce(String),
    /// Create the folder of the release below the root of the local target.
    CreateFolder { root: String },
    /// Create a folder for the time between download and upload.
    CreateStagingFolder { id: String },
    /// Download the release into a folder.
    Download { folder: &'a P, audio_format: String },
    /// Upload what a folder holds, below the prefix of the bucket.
    Upload { folder: &'a P, prefix: String },
    RemoveStagingFolder { folder: &'a P },
    AddToCache { id: String, description: String },
    Warn(String),
    Finish,
}

/// The model of [`Action`].
pub enum ActionView<L, P> {
    Fetch { link: L, debug: bool },
    Report(Seq<char>),
    Announce(Seq<char>),
    CreateFolder { root: Seq<char> },
    CreateStagingFolder { id: Seq<char> },
    Download { folder: P, audio_format: Seq<char> },
    Upload { folder: P, prefix: Seq<char> },
    RemoveStagingFolder { folder: P },
    AddToCache { id: Seq<char>, description: Seq<char> },
    Warn(Seq<char>),
    Finish,
}

impl<'a, L, P> View for Action<'a, L, P> {
    type V = ActionView<L, P>;

    open spec fn view(&self) -> ActionView<L, P> {
        match *self {
            Action::Fetch { link, debug } => ActionView::Fetch { link: *link, debug },
            Action::Report(line) => ActionView::Report(line@),
            Action::Announce(line) => ActionView::Announce(line@),
            Action::CreateFolder { root } => ActionView::CreateFolder { root: root@ },
            Action::CreateStagingFolder { id } => ActionView::CreateStagingFolder { id: id@ },
            Action::Download { folder, audio_format } => ActionView::Download {
                folder: *folder,
                audio_format: audio_format@,
            },
            Action::Upload { folder, prefix } => ActionView::Upload {
                folder: *folder,
                prefix: prefix@,
            },
            Action::RemoveStagingFolder { folder } => ActionView::RemoveStagingFolder {
                folder: *folder,
            },
            Action::AddToCache { id, description } => ActionView::AddToCache {
                id: id@,
                description: description@,
            },
            Action::Warn(text) => ActionView::Warn(text@),
            Action::Finish => ActionView::Finish,
        }
    }
}

/// The work on one release, which can be looked up under a link of type `L`
/// and is downloaded into a folder of type `P`.
pub struct ReleaseJob<L, P> {
    id: String,
    link: L,
    dry_run: bool,
    debug: bool,
    audio_format: String,
    place: Place,
    item: Option<ReleaseItem>,
    folder: Option<P>,
    warning: Option<String>,
    stage: Stage,
}

/// The model of [`ReleaseJob`].
pub struct JobView<L, P> {
    pub id: Seq<char>,
    pub link: L,
    pub settings: SettingsView,
    pub item: Option<ItemView>,
    /// The folder that the release is downloaded into.
    pub folder: Option<P>,
    pub warning: Option<Seq<char>>,
    pub stage: Stage,
}

/// The model of an optional item.
pub open spec fn optional_item(item: Option<ReleaseItem>) -> Option<ItemView> {
    match item {
        Some(item) => Some(item@),
        None => None,
    }
}

impl<L, P> View for ReleaseJob<L, P> {
    type V = JobView<L, P>;

    closed spec fn view(&self) -> JobView<L, P> {
        JobView {
            id: self.id@,
            link: self.link,
            settings: SettingsView {
                dry_run: self.dry_run,
                debug: self.debug,
                audio_format: self.audio_format@,
                place: self.place@,
            },
            item: optional_item(self.item),
            folder: self.folder,
            warning: optional_text(self.warning),
            stage: self.stage,
        }
    }
}

/// Whether releases go to a bucket.
pub open spec fn is_remote(settings: SettingsView) -> bool {
    settings.place is Bucket
}

/// A job at its start.
pub open spec fn new_job<L, P>(id: Seq<char>, link: L, settings: SettingsView) -> JobView<L, P> {
    JobView { id, link, settings, item: None, folder: None, warning: None, stage: Stage::Fetch }
}

/// A job that has what its stage speaks of: the item, the folder, the bucket
/// or the warning.
pub open spec fn is_job<L, P>(job: JobView<L, P>) -> bool {
    match job.stage {
        Stage::Report | Stage::Announce | Stage::Prepare | Stage::Record => job.item is Some,
        Stage::Download => job.item is Some && job.folder is Some,
        Stage::Upload | Stage::CleanAfterSuccess => job.item is Some && job.folder is Some
            && is_remote(job.settings),
        Stage::WarnAndStop => job.warning is Some,
        Stage::WarnAndClean => job.warning is Some && job.folder is Some,
        Stage::CleanAfterFailure => job.folder is Some,
        Stage::Fetch | Stage::Finished => true,
    }
}

/// The warning for a release that could not be found.
pub open spec fn not_found_warning(id: Seq<char>) -> Seq<char> {
    "Could not find digital item for "@ + id
}

/// The warning for a release without downloads.
pub open spec fn no_downloads_warning(id: Seq<char>) -> Seq<char> {
    "No downloads available for "@ + id + "; nothing to download."@
}

/// The job with a warning, at a stage that gives it.
pub open spec fn warned<L, P>(
    job: JobView<L, P>,
    stage: Stage,
    warning: Seq<char>,
) -> JobView<L, P> {
    JobView { stage, warning: Some(warning), ..job }
}

/// The job after the release was looked up.
pub open spec fn fetched<L, P>(job: JobView<L, P>, outcome: OutcomeView<P>) -> JobView<L, P> {
    match outcome {
        OutcomeView::Item(item) => if !item.downloadable {
            warned(
                JobView { item: Some(item), ..job },
                Stage::WarnAndStop,
                no_downloads_warning(job.id),
            )
        } else if job.settings.dry_run {
            JobView { item: Some(item), stage: Stage::Report, ..job }
        } else {
            JobView { item: Some(item), stage: Stage::Announce, ..job }
        },
        OutcomeView::NoItem => warned(job, Stage::WarnAndStop, not_found_warning(job.id)),
        _ => JobView { stage: Stage::Finished, ..job },
    }
}

/// The job after its folder was to be created.
pub open spec fn prepared<L, P>(job: JobView<L, P>, outcome: OutcomeView<P>) -> JobView<L, P> {
    match outcome {
        OutcomeView::Created(folder) => JobView {
            folder: Some(folder),
            stage: Stage::Download,
            ..job
        },
        OutcomeView::Failed(error) => warned(job, Stage::WarnAndStop, skip_warning_of(error)),
        _ => JobView { stage: Stage::Finished, ..job },
    }
}

/// The job after a download or an upload: at stage `next` if it went well, else
/// with a warning, which comes before the staging folder goes if there is one.
pub open spec fn tried<L, P>(
    job: JobView<L, P>,
    outcome: OutcomeView<P>,
    next: Stage,
) -> JobView<L, P> {
    match outcome {
        OutcomeView::Failed(error) => warned(
            job,
            if is_remote(job.settings) {
                Stage::WarnAndClean
            } else {
                Stage::WarnAndStop
            },
            skip_warning_of(error),
        ),
        _ => JobView { stage: next, ..job },
    }
}

/// The job after the last thing went as `outcome` says.
pub open spec fn next_job<L, P>(job: JobView<L, P>, outcome: OutcomeView<P>) -> JobView<L, P> {
    match job.stage {
        Stage::Fetch => fetched(job, outcome),
        Stage::Report => JobView { stage: Stage::Finished, ..job },
        Stage::Announce => JobView { stage: Stage::Prepare, ..job },
        Stage::Prepare => prepared(job, outcome),
        Stage::Download => tried(
            job,
            outcome,
            if is_remote(job.settings) {
                Stage::Upload
            } else {
                Stage::Record
            },
        ),
        Stage::Upload => tried(job, outcome, Stage::CleanAfterSuccess),
        Stage::WarnAndStop => JobView { stage: Stage::Finished, ..job },
        Stage::WarnAndClean => JobView { stage: Stage::CleanAfterFailure, ..job },
        Stage::CleanAfterFailure => JobView { stage: Stage::Finished, ..job },
        Stage::CleanAfterSuccess => JobView { stage: Stage::Record, ..job },
        Stage::Record => JobView { stage: Stage::Finished, ..job },
        Stage::Finished => job,
    }
}

/// The line by which a dry run reports a release.
pub open spec fn report_line(id: Seq<char>, item: ItemView) -> Seq<char> {
    id + ", "@ + item.title + " - "@ + item.artist
}

/// The line that announces a download.
pub open spec fn announce_line(id: Seq<char>, item: ItemView) -> Seq<char> {
    "Trying "@ + report_line(id, item) + " ("@ + item.single + ")"@
}

/// How the cache describes a release.
pub open spec fn description_of(item: ItemView) -> Seq<char> {
    item.title + " ("@ + item.release_year + ") by "@ + item.artist
}

/// What a job does next.
pub open spec fn action_of<L, P>(job: JobView<L, P>) -> ActionView<L, P>
    recommends
        is_job(job),
{
    match job.stage {
        Stage::Fetch => ActionView::Fetch { link: job.link, debug: job.settings.debug },
        Stage::Report => ActionView::Report(report_line(job.id, job.item->0)),
        Stage::Announce => ActionView::Announce(announce_line(job.id, job.item->0)),
        Stage::Prepare => match job.settings.place {
            PlaceView::Local { root } => ActionView::CreateFolder { root },
            PlaceView::Bucket { .. } => ActionView::CreateStagingFolder { id: job.id },
        },
        Stage::Download => ActionView::Download {
            folder: job.folder->0,
            audio_format: job.settings.audio_format,
        },
        Stage::Upload => ActionView::Upload {
            folder: job.folder->0,
            prefix: job.settings.place->prefix,
        },
        Stage::WarnAndStop | Stage::WarnAndClean => ActionView::Warn(job.warning->0),
        Stage::CleanAfterFailure | Stage::CleanAfterSuccess => ActionView::RemoveStagingFolder {
            folder: job.folder->0,
        },
        Stage::Record => ActionView::AddToCache {
            id: job.id,
            description: description_of(job.item->0),
        },
        Stage::Finished => ActionView::Finish,
    }
}

fn report_text(id: &str, item: &ReleaseItem) -> (line: String)
    ensures
        line@ == report_line(id@, item@),
{
    let mut line = String::from_str(id);
    line.append(", ");
    line.append(item.title.as_str());
    line.append(" - ");
    line.append(item.artist.as_str());
    line
}

fn announce_text(id: &str, item: &ReleaseItem) -> (line: String)
    ensures
        line@ == announce_line(id@, item@),
{
    let mut line = String::from_str("Trying ");
    line.append(report_text(id, item).as_str());
    line.append(" (");
    line.append(item.single.as_str());
    line.append(")");
    line
}

fn description_text(item: &ReleaseItem) -> (description: String)
    ensures
        description@ == description_of(item@),
{
    let mut description = String::from_str(item.title.as_str());
    description.append(" (");
    description.append(item.release_year.as_str());
    description.append(") by ");
    description.append(item.artist.as_str());
    description
}

impl<L, P> ReleaseJob<L, P> {
    /// A job has what its stage speaks of, at all times.
    #[verifier::type_invariant]
    spec fn is_complete(self) -> bool {
        is_job(self@)
    }

    /// The work on a release, at its start.
    pub fn new(id: &str, link: L, settings: &JobSettings) -> (job: Self)
        ensures
            job@ == new_job::<L, P>(id@, link, settings@),
    {
        let place = match &settings.place {
            Place::Local { root } => Place::Local { root: root.clone() },
            Place::Bucket { prefix } => Place::Bucket { prefix: prefix.clone() },
        };
        ReleaseJob {
            id: String::from_str(id),
            link,
            dry_run: settings.dry_run,
            debug: settings.debug,
            audio_format: settings.audio_format.clone(),
            place,
            item: None,
            folder: None,
            warning: None,
            stage: Stage::Fetch,
        }
    }

    /// How far the job has come.
    pub fn stage(&self) -> (stage: Stage)
        ensures
            stage == self@.stage,
    {
        self.stage
    }

    /// What is to be done next.
    pub fn action(&self) -> (action: Action<'_, L, P>)
        ensures
            action@ == action_of(self@),
            is_job(self@),
    {
        proof {
            use_type_invariant(self);
        }
        match self.stage {
            Stage::Fetch => return Action::Fetch { link: &self.link, debug: self.debug },
            Stage::Report => if let Some(item) = &self.item {
                return Action::Report(report_text(self.id.as_str(), item));
            },
            Stage::Announce => if let Some(item) = &self.item {
                return Action::Announce(announce_text(self.id.as_str(), item));
            },
            Stage::Prepare => return match &self.place {
                Place::Local { root } => Action::CreateFolder { root: root.clone() },
                Place::Bucket { .. } => Action::CreateStagingFolder { id: self.id.clone() },
            },
            Stage::Download => if let Some(folder) = &self.folder {
                return Action::Download { folder, audio_format: self.audio_format.clone() };
            },
            Stage::Upload => if let Some(folder) = &self.folder {
                if let Place::Bucket { prefix } = &self.place {
                    return Action::Upload { folder, prefix: prefix.clone() };
                }
            },
            Stage::WarnAndStop | Stage::WarnAndClean => if let Some(warning) = &self.warning {
                return Action::Warn(warning.clone());
            },
            Stage::CleanAfterFailure | Stage::CleanAfterSuccess => if let Some(folder) =
                &self.folder {
                return Action::RemoveStagingFolder { folder };
            },
            Stage::Record => if let Some(item) = &self.item {
                return Action::AddToCache {
                    id: self.id.clone(),
                    description: description_text(item),
                };
            },
            Stage::Finished => {},
        }
        Action::Finish
    }

    /// Whether the release goes to a bucket.
    fn goes_to_bucket(&self) -> (yes: bool)
        ensures
            yes == is_remote(self@.settings),
    {
        match self.place {
            Place::Local { .. } => false,
            Place::Bucket { .. } => true,
        }
    }

    /// Warns, at a stage that gives the warning.
    fn warn(&mut self, stage: Stage, warning: String)
        requires
            stage is WarnAndStop || stage is WarnAndClean && old(self)@.folder is Some,
        ensures
            final(self)@ == warned(old(self)@, stage, warning@),
    {
        proof {
            use_type_invariant(&*self);
        }
        self.warning = Some(warning);
        self.stage = stage;
    }

    /// Moves on after the release was looked up.
    fn after_fetch(&mut self, outcome: Outcome<P>)
        ensures
            final(self)@ == fetched(old(self)@, outcome@),
    {
        proof {
            use_type_invariant(&*self);
        }
        match outcome {
            Outcome::Item(item) => {
                let downloadable = item.downloadable;
                self.item = Some(item);
                if !downloadable {
                    let mut warning = String::from_str("No downloads available for ");
                    warning.append(self.id.as_str());
                    warning.append("; nothing to download.");
                    self.warn(Stage::WarnAndStop, warning);
                } else if self.dry_run {
                    self.stage = Stage::Report;
                } else {
                    self.stage = Stage::Announce;
                }
            },
            Outcome::NoItem => {
                let mut warning = String::from_str("Could not find digital item for ");
                warning.append(self.id.as_str());
                self.warn(Stage::WarnAndStop, warning);
            },
            _ => {
                self.stage = Stage::Finished;
            },
        }
    }

    /// Moves on after the folder was to be created.
    fn after_prepare(&mut self, outcome: Outcome<P>)
        requires
            old(self)@.stage is Prepare,
        ensures
            final(self)@ == prepared(old(self)@, outcome@),
    {
        proof {
            use_type_invariant(&*self);
        }
        match outcome {
            Outcome::Created(folder) => {
                self.folder = Some(folder);
                self.stage = Stage::Download;
            },
            Outcome::Failed(error) => {
                let warning = skip_warning(error.as_str());
                self.warn(Stage::WarnAndStop, warning);
            },
            _ => {
                self.stage = Stage::Finished;
            },
        }
    }

    /// Moves on after a download or an upload.
    fn after_try(&mut self, outcome: Outcome<P>)
        requires
            old(self)@.stage is Download || old(self)@.stage is Upload,
        ensures
            final(self)@ == next_job(old(self)@, outcome@),
    {
        proof {
            use_type_invariant(&*self);
        }
        let remote = self.goes_to_bucket();
        match outcome {
            Outcome::Failed(error) => {
                let stage = if remote {
                    Stage::WarnAndClean
                } else {
                    Stage::WarnAndStop
                };
                let warning = skip_warning(error.as_str());
                self.warn(stage, warning);
            },
            _ => {
                self.stage = if self.stage == Stage::Upload {
                    Stage::CleanAfterSuccess
                } else if remote {
                    Stage::Upload
                } else {
                    Stage::Record
                };
            },
        }
    }

    /// Moves on, given how the last thing went.
    pub fn step(&mut self, outcome: Outcome<P>)
        ensures
            final(self)@ == next_job(old(self)@, outcome@),
    {
        proof {
            use_type_invariant(&*self);
        }
        match self.stage {
            Stage::Fetch => self.after_fetch(outcome),
            Stage::Announce => {
                self.stage = Stage::Prepare;
            },
            Stage::Prepare => self.after_prepare(outcome),
            Stage::Download | Stage::Upload => self.after_try(outcome),
            Stage::WarnAndClean => {
                self.stage = Stage::CleanAfterFailure;
            },
            Stage::CleanAfterSuccess => {
                self.stage = Stage::Record;
            },
            Stage::Report | Stage::WarnAndStop | Stage::CleanAfterFailure | Stage::Record => {
                self.stage = Stage::Finished;
            },
            Stage::Finished => {},
        }
    }
}

} // verus!
