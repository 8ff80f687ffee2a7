//! A run from its start to its end: a machine that says what comes next, given
//! how the last thing went.

use crate::home::is_expanded;
use crate::run::{announcement, announcement_of, closing, closing_of, Args};
use crate::text::{optional_text, texts};
use vstd::prelude::*;
use vstd::string::*;

verus! {

/// How far a run has come: what is done next.
#[derive(Clone, Copy, Debug, PartialEq, Eq, Structural)]
pub enum Phase {
    /// The target is made ready.
    Prepare,
    /// The remote cache is downloaded.
    FetchCache,
    /// The session with the API is opened.
    LogIn,
    /// The releases of the user are listed.
    ListReleases,
    /// The releases to take on are picked, with the help of the cache.
    PickReleases,
    /// The run is announced.
    Announce,
    /// The releases are worked on.
    Work,
    /// The cache is uploaded.
    StoreCache,
    /// The run closes.
    Close,
    /// Something failed, and nothing else is done.
    Failed,
    /// Nothing is left to do.
    Finished,
}

/// How the last thing went.
pub enum Event {
    Done,
    Failed(String),
    /// So many releases were picked.
    Picked(usize),
    /// The releases were worked on.
    Worked {
        /// Whether the cache took a release in.
        cache_dirty: bool,
        /// The lines that a dry run noted down.
        report: Vec<String>,
    },
}

/// The model of [`Event`].
pub enum EventView {
    Done,
    Failed(Seq<char>),
    Picked(nat),
    Worked { cache_dirty: bool, report: Seq<Seq<char>> },
}

impl View for Event {
    type V = EventView;

    open spec fn view(&self) -> EventView {
        match *self {
            Event::Done => EventView::Done,
            Event::Failed(error) => EventView::Failed(error@),
            Event::Picked(releases) => EventView::Picked(releases as nat),
            Event::Worked { cache_dirty, report } => EventView::Worked {
                cache_dirty,
                report: texts(report@),
            },
        }
    }
}

/// What is to be done next.
#[derive(Debug, PartialEq, Eq)]
pub enum Task {
    PrepareTarget,
    FetchCache,
    /// Log in with the cookies of a file, or with those that are found.
    LogIn { cookies_file: Option<String> },
    ListReleases { user: String, artist: Option<String>, album: Option<String> },
    PickReleases,
    Print(String),
    Work,
    StoreCache,
    /// End the run with this error.
    Fail(String),
    Finish,
}

/// The model of [`Task`].
pub enum TaskView {
    PrepareTarget,
    FetchCache,
    LogIn { cookies_file: Option<Seq<char>> },
    ListReleases { user: Seq<char>, artist: Option<Seq<char>>, album: Option<Seq<char>> },
    PickReleases,
    Print(Seq<char>),
    Work,
    StoreCache,
    Fail(Seq<char>),
    Finish,
}

impl View for Task {
    type V = TaskView;

    open spec fn view(&self) -> TaskView {
        match *self {
            Task::PrepareTarget => TaskView::PrepareTarget,
            Task::FetchCache => TaskView::FetchCache,
            Task::LogIn { cookies_file } => TaskView::LogIn {
                cookies_file: optional_text(cookies_file),
            },
            Task::ListReleases { user, artist, album } => TaskView::ListReleases {
                user: user@,
                artist: optional_text(artist),
                album: optional_text(album),
            },
            Task::PickReleases => TaskView::PickReleases,
            Task::Print(line) => TaskView::Print(line@),
            Task::Work => TaskView::Work,
            Task::StoreCache => TaskView::StoreCache,
            Task::Fail(error) => TaskView::Fail(error@),
            Task::Finish => TaskView::Finish,
        }
    }
}

/// What a run does as a whole.
pub struct RunPlan {
    dry_run: bool,
    remote: bool,
    cookies_file: Option<String>,
    user: String,
    artist: Option<String>,
    album: Option<String>,
    phase: Phase,
    releases: usize,
    report: Vec<String>,
    error: String,
}

/// The model of [`RunPlan`].
pub struct PlanView {
    pub dry_run: bool,
    /// Whether the releases go to a bucket.
    pub remote: bool,
    pub cookies_file: Option<Seq<char>>,
    pub user: Seq<char>,
    pub artist: Option<Seq<char>>,
    pub album: Option<Seq<char>>,
    pub phase: Phase,
    /// The number of releases that were picked.
    pub releases: nat,
    /// The lines that a dry run noted down.
    pub report: Seq<Seq<char>>,
    /// What failed.
    pub error: Seq<char>,
}

impl View for RunPlan {
    type V = PlanView;

    closed spec fn view(&self) -> PlanView {
        PlanView {
            dry_run: self.dry_run,
            remote: self.remote,
            cookies_file: optional_text(self.cookies_file),
            user: self.user@,
            artist: optional_text(self.artist),
            album: optional_text(self.album),
            phase: self.phase,
            releases: self.releases as nat,
            report: texts(self.report@),
            error: self.error@,
        }
    }
}

/// `plan` is that of a run with these settings, at its start.
pub open spec fn is_new_plan(
    plan: PlanView,
    args: Args,
    home: Option<Seq<char>>,
    remote: bool,
) -> bool {
    &&& plan.dry_run == args.dry_run
    &&& plan.remote == remote
    &&& match args.cookies {
        None => plan.cookies_file is None,
        Some(cookies) => plan.cookies_file matches Some(file) && is_expanded(cookies@, home, file),
    }
    &&& plan.user == args.user@
    &&& plan.artist == optional_text(args.artist)
    &&& plan.album == optional_text(args.album)
    &&& plan.phase == Phase::Prepare
    &&& plan.releases == 0
    &&& plan.report == Seq::<Seq<char>>::empty()
    &&& plan.error == Seq::<char>::empty()
}

/// The phase after one that went well. A local target has no cache to fetch or
/// to store.
pub open spec fn phase_after(plan: PlanView, event: EventView) -> Phase {
    match plan.phase {
        Phase::Prepare => if plan.remote {
            Phase::FetchCache
        } else {
            Phase::LogIn
        },
        Phase::FetchCache => Phase::LogIn,
        Phase::LogIn => Phase::ListReleases,
        Phase::ListReleases => Phase::PickReleases,
        Phase::PickReleases => Phase::Announce,
        Phase::Announce => if plan.releases == 0 {
            Phase::Close
        } else {
            Phase::Work
        },
        Phase::Work => if plan.remote && event is Worked && event->cache_dirty {
            Phase::StoreCache
        } else {
            Phase::Close
        },
        Phase::StoreCache => Phase::Close,
        Phase::Close => Phase::Finished,
        Phase::Failed => Phase::Failed,
        Phase::Finished => Phase::Finished,
    }
}

/// Whether a run can still fail.
pub open spec fn can_fail(phase: Phase) -> bool {
    !(phase is Failed) && !(phase is Finished)
}

/// The plan after the last thing went as `event` says.
pub open spec fn next_plan(plan: PlanView, event: EventView) -> PlanView {
    if event is Failed && can_fail(plan.phase) {
        PlanView { phase: Phase::Failed, error: event->Failed_0, ..plan }
    } else {
        PlanView {
            phase: phase_after(plan, event),
            releases: if plan.phase is PickReleases && event is Picked {
                event->Picked_0
            } else {
                plan.releases
            },
            report: if plan.phase is Work && event is Worked {
                event->report
            } else {
                plan.report
            },
            ..plan
        }
    }
}

/// What a run does next.
pub open spec fn task_of(plan: PlanView) -> TaskView {
    match plan.phase {
        Phase::Prepare => TaskView::PrepareTarget,
        Phase::FetchCache => TaskView::FetchCache,
        Phase::LogIn => TaskView::LogIn { cookies_file: plan.cookies_file },
        Phase::ListReleases => TaskView::ListReleases {
            user: plan.user,
            artist: plan.artist,
            album: plan.album,
        },
        Phase::PickReleases => TaskView::PickReleases,
        Phase::Announce => TaskView::Print(announcement_of(plan.dry_run, plan.releases)),
        Phase::Work => TaskView::Work,
        Phase::StoreCache => TaskView::StoreCache,
        Phase::Close => TaskView::Print(closing_of(plan.dry_run, plan.releases, plan.report)),
        Phase::Failed => TaskView::Fail(plan.error),
        Phase::Finished => TaskView::Finish,
    }
}

impl RunPlan {
    /// The plan of a run at its start. `remote` says whether its releases go to
    /// a bucket.
    pub fn new(args: &Args, home: &Option<String>, remote: bool) -> (plan: Self)
        ensures
            is_new_plan(plan@, *args, optional_text(*home), remote),
    {
        let plan = RunPlan {
            dry_run: args.dry_run,
            remote,
            cookies_file: args.cookies_file(home),
            user: args.user.clone(),
            artist: args.artist.clone(),
            album: args.album.clone(),
            phase: Phase::Prepare,
            releases: 0,
            report: Vec::new(),
            error: String::new(),
        };
        assert(plan@.report =~= Seq::<Seq<char>>::empty());
        plan
    }

    /// How far the run has come.
    pub fn phase(&self) -> (phase: Phase)
        ensures
            phase == self@.phase,
    {
        self.phase
    }

    /// What is to be done next.
    pub fn task(&self) -> (task: Task)
        ensures
            task@ == task_of(self@),
    {
        match self.phase {
            Phase::Prepare => Task::PrepareTarget,
            Phase::FetchCache => Task::FetchCache,
            Phase::LogIn => Task::LogIn { cookies_file: self.cookies_file.clone() },
            Phase::ListReleases => Task::ListReleases {
                user: self.user.clone(),
                artist: self.artist.clone(),
                album: self.album.clone(),
            },
            Phase::PickReleases => Task::PickReleases,
            Phase::Announce => Task::Print(announcement(self.dry_run, self.releases)),
            Phase::Work => Task::Work,
            Phase::StoreCache => Task::StoreCache,
            Phase::Close => Task::Print(closing(self.dry_run, self.releases, &self.report)),
            Phase::Failed => Task::Fail(self.error.clone()),
            Phase::Finished => Task::Finish,
        }
    }

    /// Moves on, given how the last thing went.
    pub fn step(&mut self, event: Event)
        ensures
            final(self)@ == next_plan(old(self)@, event@),
    {
        let mut cache_dirty = false;
        match event {
            Event::Done => {},
            Event::Failed(error) => {
                if self.phase != Phase::Failed && self.phase != Phase::Finished {
                    self.phase = Phase::Failed;
                    self.error = error;
                }
                return;
            },
            Event::Picked(releases) => {
                if self.phase == Phase::PickReleases {
                    self.releases = releases;
                }
            },
            Event::Worked { cache_dirty: dirty, report } => {
                if self.phase == Phase::Work {
                    cache_dirty = dirty;
                    self.report = report;
                }
            },
        }
        self.phase = match self.phase {
            Phase::Prepare => if self.remote {
                Phase::FetchCache
            } else {
                Phase::LogIn
            },
            Phase::FetchCache => Phase::LogIn,
            Phase::LogIn => Phase::ListReleases,
            Phase::ListReleases => Phase::PickReleases,
            Phase::PickReleases => Phase::Announce,
            Phase::Announce => if self.releases == 0 {
                Phase::Close
            } else {
                Phase::Work
            },
            Phase::Work => if self.remote && cache_dirty {
                Phase::StoreCache
            } else {
                Phase::Close
            },
            Phase::StoreCache => Phase::Close,
            Phase::Close => Phase::Finished,
            Phase::Failed => Phase::Failed,
            Phase::Finished => Phase::Finished,
        };
    }
}

} // verus!
