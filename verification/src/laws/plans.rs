//! The order of a run, and what a failure does to it.

use crate::laws::settings::is_at_home;
use crate::laws::texts::{as_text, law_decimals_spell_their_number, lemma_joined_lines, spells};
use crate::plan::{
    next_plan, task_of, Event, EventView, Phase, PlanView, RunPlan, Task, TaskView,
};
use crate::run::Args;
use crate::text::{decimal_of, texts};
use vstd::prelude::*;

verus! {

/// The plan after some events.
pub open spec fn plan_after(plan: PlanView, events: Seq<EventView>) -> PlanView
    decreases events.len(),
{
    if events.len() == 0 {
        plan
    } else {
        next_plan(plan_after(plan, events.drop_last()), events.last())
    }
}

/// The phases of a run up to its announcement, in order.
pub open spec fn setup(remote: bool) -> Seq<Phase> {
    if remote {
        seq![
            Phase::Prepare,
            Phase::FetchCache,
            Phase::LogIn,
            Phase::ListReleases,
            Phase::PickReleases,
            Phase::Announce,
        ]
    } else {
        seq![
            Phase::Prepare,
            Phase::LogIn,
            Phase::ListReleases,
            Phase::PickReleases,
            Phase::Announce,
        ]
    }
}

/// A run is set up step by step: the target is made ready, the remote cache is
/// downloaded if there is one, then come the log-in, the list of releases and
/// the pick among them, and each only after all before it went well.
pub proof fn law_setup_goes_in_order(plan: PlanView, events: Seq<EventView>)
    requires
        plan.phase is Prepare,
        events.len() < setup(plan.remote).len(),
        forall|i: int| 0 <= i < events.len() ==> !((#[trigger] events[i]) is Failed),
    ensures
        plan_after(plan, events).phase == setup(plan.remote)[events.len() as int],
        plan_after(plan, events).remote == plan.remote,
        plan_after(plan, events).dry_run == plan.dry_run,
        plan_after(plan, events).cookies_file == plan.cookies_file,
        plan_after(plan, events).user == plan.user,
        plan_after(plan, events).artist == plan.artist,
        plan_after(plan, events).album == plan.album,
    decreases events.len(),
{
    if events.len() > 0 {
        let earlier = events.drop_last();
        assert forall|i: int| 0 <= i < earlier.len() implies !(
        (#[trigger] earlier[i]) is Failed) by {
            assert(earlier[i] == events[i]);
        }
        law_setup_goes_in_order(plan, earlier);
        assert(!(events[events.len() - 1] is Failed));
    }
}

/// After a failure a run does nothing more, and ends with the error of the
/// failure, whatever happens.
pub proof fn law_failures_end_a_run(
    plan: PlanView,
    error: Seq<char>,
    events: Seq<EventView>,
)
    requires
        !(plan.phase is Failed),
        !(plan.phase is Finished),
    ensures
        plan_after(next_plan(plan, EventView::Failed(error)), events).phase is Failed,
        plan_after(next_plan(plan, EventView::Failed(error)), events).error == error,
    decreases events.len(),
{
    if events.len() > 0 {
        law_failures_end_a_run(plan, error, events.drop_last());
    }
}

/// A run without releases closes at once; one with releases works on them, and
/// then uploads the cache if and only if it is dirty and there is a bucket.
pub proof fn law_runs_work_and_store_what_there_is(
    plan: PlanView,
    cache_dirty: bool,
    report: Seq<Seq<char>>,
)
    requires
        plan.phase is Announce,
    ensures
        plan.releases == 0 ==> next_plan(plan, EventView::Done).phase is Close,
        plan.releases > 0 ==> {
            let worked = next_plan(
                next_plan(plan, EventView::Done),
                EventView::Worked { cache_dirty, report },
            );
            &&& next_plan(plan, EventView::Done).phase is Work
            &&& worked.phase is StoreCache <==> cache_dirty && plan.remote
            &&& worked.phase is Close <==> !(cache_dirty && plan.remote)
            &&& worked.report == report
        },
{
}

/// How many events a run has left at most.
pub open spec fn events_left(phase: Phase) -> nat {
    match phase {
        Phase::Prepare => 9,
        Phase::FetchCache => 8,
        Phase::LogIn => 7,
        Phase::ListReleases => 6,
        Phase::PickReleases => 5,
        Phase::Announce => 4,
        Phase::Work => 3,
        Phase::StoreCache => 2,
        Phase::Close => 1,
        Phase::Failed | Phase::Finished => 0,
    }
}

/// Every event brings a run nearer to its end.
pub proof fn law_plans_end(plan: PlanView, event: EventView)
    requires
        !(plan.phase is Failed),
        !(plan.phase is Finished),
    ensures
        events_left(next_plan(plan, event).phase) < events_left(plan.phase),
{
}

/// A run moves on by the event that it is told.
pub proof fn law_runs_move_on_by_their_events(plan: &mut RunPlan, event: Event)
    requires
        call_ensures(RunPlan::step, (plan, event), ()),
    ensures
        event is Done ==> final(plan)@ == next_plan(old(plan)@, EventView::Done),
        event matches Event::Failed(error) ==> final(plan)@ == next_plan(
            old(plan)@,
            EventView::Failed(error@),
        ),
        event matches Event::Picked(releases) ==> final(plan)@ == next_plan(
            old(plan)@,
            EventView::Picked(releases as nat),
        ),
        event matches Event::Worked { cache_dirty, report } ==> final(plan)@ == next_plan(
            old(plan)@,
            (EventView::Worked {
                cache_dirty,
                report: Seq::new(report@.len(), |i: int| report@[i]@),
            }),
        ),
{
    if let Event::Worked { cache_dirty, report } = event {
        assert(texts(report@) =~= Seq::new(report@.len(), |i: int| report@[i]@));
    }
}

/// A run asks for what comes next, in the words and with the values that it
/// has.
pub proof fn law_runs_ask_for_what_comes_next(plan: RunPlan, task: Task)
    requires
        call_ensures(RunPlan::task, (&plan,), task),
    ensures
        task is PrepareTarget ==> task_of(plan@) is PrepareTarget,
        task is FetchCache ==> task_of(plan@) is FetchCache,
        task matches Task::LogIn { cookies_file } ==> task_of(plan@) == (TaskView::LogIn {
            cookies_file: match cookies_file {
                Some(file) => Some(file@),
                None => None,
            },
        }),
        task matches Task::ListReleases { user, artist, album } ==> task_of(plan@) == (
        TaskView::ListReleases {
            user: user@,
            artist: match artist {
                Some(text) => Some(text@),
                None => None,
            },
            album: match album {
                Some(text) => Some(text@),
                None => None,
            },
        }),
        task is PickReleases ==> task_of(plan@) is PickReleases,
        task matches Task::Print(line) ==> task_of(plan@) == TaskView::Print(line@),
        task is Work ==> task_of(plan@) is Work,
        task is StoreCache ==> task_of(plan@) is StoreCache,
        task matches Task::Fail(error) ==> task_of(plan@) == TaskView::Fail(error@),
        task is Finish ==> task_of(plan@) is Finish,
{
}

/// The plan of a run once its target and its cache are there.
pub open spec fn once_ready(
    plan: PlanView,
    remote: bool,
    preparing: EventView,
    fetching: EventView,
) -> PlanView {
    if remote {
        next_plan(next_plan(plan, preparing), fetching)
    } else {
        next_plan(plan, preparing)
    }
}

/// A run first makes its target ready, and downloads the cache of a bucket. It
/// then logs in with the cookies that are set, and asks for the releases of the
/// user, the artist and the album that are set, unchanged; then it picks among
/// them.
pub proof fn law_runs_ask_for_what_is_set(
    args: Args,
    home: Option<String>,
    remote: bool,
    plan: RunPlan,
    preparing: EventView,
    fetching: EventView,
    logging_in: EventView,
    listing: EventView,
)
    requires
        call_ensures(RunPlan::new, (&args, &home, remote), plan),
        !(preparing is Failed),
        !(fetching is Failed),
        !(logging_in is Failed),
        !(listing is Failed),
    ensures
        task_of(plan@) is PrepareTarget,
        remote ==> task_of(next_plan(plan@, preparing)) is FetchCache,
        ({
            let ready = once_ready(plan@, remote, preparing, fetching);
            &&& task_of(ready) is LogIn
            &&& args.cookies is None ==> task_of(ready)->cookies_file is None
            &&& args.cookies matches Some(cookies) ==> (
            task_of(ready)->cookies_file matches Some(file) && is_at_home(cookies@, home, file))
        }),
        ({
            let session = next_plan(once_ready(plan@, remote, preparing, fetching), logging_in);
            &&& task_of(session) == (TaskView::ListReleases {
                user: args.user@,
                artist: match args.artist {
                    Some(artist) => Some(artist@),
                    None => None,
                },
                album: match args.album {
                    Some(album) => Some(album@),
                    None => None,
                },
            })
            &&& task_of(next_plan(session, listing)) is PickReleases
        }),
{
}

/// The plan of a run once its releases are picked.
pub open spec fn once_picked(
    plan: PlanView,
    remote: bool,
    preparing: EventView,
    fetching: EventView,
    logging_in: EventView,
    listing: EventView,
    releases: nat,
) -> PlanView {
    next_plan(
        next_plan(
            next_plan(once_ready(plan, remote, preparing, fetching), logging_in),
            listing,
        ),
        EventView::Picked(releases),
    )
}

/// A run that has closed: nothing is asked for any more.
pub open spec fn has_closed(plan: PlanView) -> bool {
    &&& task_of(plan) is Finish
    &&& forall|event: EventView| (task_of(#[trigger] next_plan(plan, event))) is Finish
}

/// Once its releases are picked, a run says how many there are. Without any it
/// says that it has finished. Else it works on them, and then uploads the cache
/// if that took a release in and there is a bucket. At its end a dry run prints
/// the lines that it noted down, and any other one that it has finished.
pub proof fn law_runs_print_work_and_close(
    args: Args,
    home: Option<String>,
    remote: bool,
    plan: RunPlan,
    preparing: EventView,
    fetching: EventView,
    logging_in: EventView,
    listing: EventView,
    releases: nat,
    announcing: EventView,
    cache_dirty: bool,
    report: Seq<Seq<char>>,
    storing: EventView,
    closing: EventView,
)
    requires
        call_ensures(RunPlan::new, (&args, &home, remote), plan),
        !(preparing is Failed),
        !(fetching is Failed),
        !(logging_in is Failed),
        !(listing is Failed),
        !(announcing is Failed),
        !(storing is Failed),
        !(closing is Failed),
    ensures
        ({
            let picked = once_picked(
                plan@,
                remote,
                preparing,
                fetching,
                logging_in,
                listing,
                releases,
            );
            let next = next_plan(picked, announcing);
            let worked = next_plan(next, EventView::Worked { cache_dirty, report });
            let stored = if cache_dirty && remote {
                next_plan(worked, storing)
            } else {
                worked
            };
            &&& exists|digits: Seq<char>| #[trigger]
                spells(digits, releases) && task_of(picked) == TaskView::Print(
                    if args.dry_run {
                        "Fetching information for "@ + digits + " found releases"@
                    } else {
                        "Trying to download "@ + digits + " releases"@
                    },
                )
            &&& releases == 0 ==> task_of(next) == TaskView::Print("Finished!"@) && has_closed(
                next_plan(next, closing),
            )
            &&& releases > 0 ==> {
                &&& task_of(next) is Work
                &&& cache_dirty && remote ==> task_of(worked) is StoreCache
                &&& args.dry_run && report.len() > 0 ==> task_of(stored) == TaskView::Print(
                    as_text(report),
                )
                &&& args.dry_run && report.len() == 0 ==> task_of(stored) == TaskView::Print(
                    Seq::<char>::empty(),
                )
                &&& !args.dry_run ==> task_of(stored) == TaskView::Print("Finished!"@)
                &&& has_closed(next_plan(stored, closing))
            }
        }),
{
    law_decimals_spell_their_number(releases);
    assert(spells(decimal_of(releases), releases));
    if report.len() > 0 {
        lemma_joined_lines(report);
    }
}

/// Where something fails, a run ends with that error, whatever it was at and
/// whatever comes after.
pub proof fn law_runs_end_with_their_first_failure(
    plan: PlanView,
    error: Seq<char>,
    later: EventView,
)
    requires
        !(task_of(plan) is Fail),
        !(task_of(plan) is Finish),
    ensures
        task_of(next_plan(plan, EventView::Failed(error))) == TaskView::Fail(error),
        task_of(next_plan(next_plan(plan, EventView::Failed(error)), later)) == TaskView::Fail(
            error,
        ),
{
}

/// The phases that count for an end are those in which a run has come to one.
pub proof fn law_ended_runs_are_over(plan: RunPlan, phase: Phase)
    requires
        call_ensures(RunPlan::phase, (&plan,), phase),
    ensures
        phase is Finished <==> task_of(plan@) is Finish,
        phase is Failed <==> task_of(plan@) is Fail,
{
}

} // verus!
