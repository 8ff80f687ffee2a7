//! Which releases a run takes on, and what becomes of each.

use crate::job::{
    action_of, is_job, is_remote, new_job, next_job, ActionView, JobView, OutcomeView, PlaceView,
    SettingsView, Stage,
};
use crate::laws::gathering::{
    gathered, lemma_gathered_front, lemma_gathered_nothing, lemma_gathered_update,
    lemma_total_update, total,
};
use crate::run::{at_least_one, dirty_after_entry, is_wanted, pending_of};
use crate::text::texts;
use vstd::multiset::*;
use vstd::prelude::*;

verus! {

/// What a filter keeps was there, and is what it asks for.
proof fn lemma_filtered<A>(s: Seq<A>, keep: spec_fn(A) -> bool, i: int)
    requires
        0 <= i < s.filter(keep).len(),
    ensures
        s.contains(s.filter(keep)[i]),
        keep(s.filter(keep)[i]),
    decreases s.len(),
{
    reveal(Seq::filter);
    if s.len() > 0 {
        let front = s.drop_last();
        if i < front.filter(keep).len() {
            lemma_filtered(front, keep, i);
            let k = choose|k: int| 0 <= k < front.len() && front[k] == front.filter(keep)[i];
            assert(s[k] == s.filter(keep)[i]);
        } else {
            assert(s[s.len() - 1] == s.filter(keep)[i]);
        }
    }
}

/// A run that is not forced downloads no release again that the cache lists.
pub proof fn law_cached_releases_are_left_out<T>(
    found: Seq<(String, T)>,
    cached: Seq<String>,
    limit: Option<usize>,
    i: int,
)
    requires
        0 <= i < pending_of(found, cached, false, limit).len(),
    ensures
        !texts(cached).contains(pending_of(found, cached, false, limit)[i].0@),
{
    lemma_filtered(found, |release: (String, T)| is_wanted(release, cached, false), i);
}

/// A run takes on only releases that were found, and no more than its limit.
pub proof fn law_pending_releases_were_found<T>(
    found: Seq<(String, T)>,
    cached: Seq<String>,
    force: bool,
    limit: Option<usize>,
)
    ensures
        limit matches Some(limit) ==> pending_of(found, cached, force, Some(limit)).len() <= limit,
        forall|i: int|
            0 <= i < pending_of(found, cached, force, limit).len() ==> found.contains(
                #[trigger] pending_of(found, cached, force, limit)[i],
            ),
{
    let pending = pending_of(found, cached, force, limit);
    assert forall|i: int| 0 <= i < pending.len() implies found.contains(
        #[trigger] pending[i],
    ) by {
        lemma_filtered(found, |release: (String, T)| is_wanted(release, cached, force), i);
    }
}

/// Filtering by what holds of all keeps all.
proof fn lemma_filter_keeps_all<A>(s: Seq<A>, keep: spec_fn(A) -> bool)
    requires
        forall|i: int| 0 <= i < s.len() ==> keep(#[trigger] s[i]),
    ensures
        s.filter(keep) == s,
    decreases s.len(),
{
    reveal(Seq::filter);
    if s.len() > 0 {
        assert forall|i: int| 0 <= i < s.drop_last().len() implies keep(
            #[trigger] s.drop_last()[i],
        ) by {
            assert(keep(s[i]));
        }
        lemma_filter_keeps_all(s.drop_last(), keep);
        assert(keep(s[s.len() - 1]));
        assert(s.drop_last().push(s.last()) =~= s);
    }
}

/// Filtering by what holds of none keeps none.
proof fn lemma_filter_keeps_none<A>(s: Seq<A>, keep: spec_fn(A) -> bool)
    requires
        forall|i: int| 0 <= i < s.len() ==> !keep(#[trigger] s[i]),
    ensures
        s.filter(keep) == Seq::<A>::empty(),
    decreases s.len(),
{
    reveal(Seq::filter);
    if s.len() > 0 {
        assert forall|i: int| 0 <= i < s.drop_last().len() implies !keep(
            #[trigger] s.drop_last()[i],
        ) by {
            assert(!keep(s[i]));
        }
        lemma_filter_keeps_none(s.drop_last(), keep);
        assert(!keep(s[s.len() - 1]));
    }
}

/// A forced run without a limit takes on every release that was found.
pub proof fn law_forced_run_takes_everything<T>(found: Seq<(String, T)>, cached: Seq<String>)
    ensures
        pending_of(found, cached, true, None) == found,
{
    lemma_filter_keeps_all(found, |release: (String, T)| is_wanted(release, cached, true));
}

/// Once the cache lists every release that is found, nothing is left to do.
pub proof fn law_nothing_left_when_all_is_cached<T>(
    found: Seq<(String, T)>,
    cached: Seq<String>,
    limit: Option<usize>,
)
    requires
        forall|i: int| 0 <= i < found.len() ==> texts(cached).contains((#[trigger] found[i]).0@),
    ensures
        pending_of(found, cached, false, limit).len() == 0,
{
    lemma_filter_keeps_none(found, |release: (String, T)| is_wanted(release, cached, false));
}

/// Whether the cache of a run is dirty after some attempts to add releases.
pub open spec fn dirty_after(added: Seq<Result<bool, String>>) -> bool
    decreases added.len(),
{
    added.len() > 0 && dirty_after_entry(dirty_after(added.drop_last()), added.last())
}

/// The cache of a run is dirty, and so uploaded, if and only if some release
/// was added to it: neither one that it listed before nor a failure counts.
pub proof fn law_cache_is_dirty_once_something_was_added(added: Seq<Result<bool, String>>)
    ensures
        dirty_after(added) <==> added.contains(Ok::<bool, String>(true)),
    decreases added.len(),
{
    if added.len() > 0 {
        let earlier = added.drop_last();
        law_cache_is_dirty_once_something_was_added(earlier);
        assert(added[added.len() - 1] == added.last());
        if earlier.contains(Ok::<bool, String>(true)) {
            let i = choose|i: int| 0 <= i < earlier.len() && earlier[i] == Ok::<bool, String>(true);
            assert(added[i] == Ok::<bool, String>(true));
        }
        if added.contains(Ok::<bool, String>(true)) {
            let i = choose|i: int| 0 <= i < added.len() && added[i] == Ok::<bool, String>(true);
            if i < earlier.len() {
                assert(earlier[i] == added[i]);
            }
        }
    }
}

/// A job after some outcomes.
pub open spec fn job_after<L, P>(job: JobView<L, P>, outcomes: Seq<OutcomeView<P>>) -> JobView<L, P>
    decreases outcomes.len(),
{
    if outcomes.len() == 0 {
        job
    } else {
        next_job(job_after(job, outcomes.drop_last()), outcomes.last())
    }
}

/// The job before the outcome at `i`.
pub open spec fn job_before<L, P>(
    job: JobView<L, P>,
    outcomes: Seq<OutcomeView<P>>,
    i: int,
) -> JobView<L, P> {
    job_after(job, outcomes.take(i))
}

/// The outcome at `i` answers the given stage, and is no failure.
pub open spec fn went_well<L, P>(
    job: JobView<L, P>,
    outcomes: Seq<OutcomeView<P>>,
    i: int,
    stage: Stage,
) -> bool {
    &&& 0 <= i < outcomes.len()
    &&& job_before(job, outcomes, i).stage == stage
    &&& !(outcomes[i] is Failed)
}

/// A job keeps what it was started with.
proof fn lemma_job_keeps<L, P>(job: JobView<L, P>, outcomes: Seq<OutcomeView<P>>)
    ensures
        job_after(job, outcomes).id == job.id,
        job_after(job, outcomes).link == job.link,
        job_after(job, outcomes).settings == job.settings,
    decreases outcomes.len(),
{
    if outcomes.len() > 0 {
        lemma_job_keeps(job, outcomes.drop_last());
    }
}

/// What went well early on did so for all that follows.
proof fn lemma_went_well_extends<L, P>(
    job: JobView<L, P>,
    outcomes: Seq<OutcomeView<P>>,
    n: int,
    i: int,
    stage: Stage,
)
    requires
        0 <= n <= outcomes.len(),
        went_well(job, outcomes.take(n), i, stage),
    ensures
        went_well(job, outcomes, i, stage),
{
    assert(outcomes.take(n).take(i) =~= outcomes.take(i));
}

/// At every stage a job has what its action speaks of.
pub proof fn law_jobs_stay_jobs<L, P>(
    id: Seq<char>,
    link: L,
    settings: SettingsView,
    outcomes: Seq<OutcomeView<P>>,
)
    ensures
        is_job(job_after(new_job(id, link, settings), outcomes)),
    decreases outcomes.len(),
{
    if outcomes.len() > 0 {
        law_jobs_stay_jobs(id, link, settings, outcomes.drop_last());
    }
}

/// The outcome at `i` is that the folder of the job was created.
pub open spec fn created_at<L, P>(
    job: JobView<L, P>,
    outcomes: Seq<OutcomeView<P>>,
    i: int,
    folder: P,
) -> bool {
    &&& 0 <= i < outcomes.len()
    &&& job_before(job, outcomes, i).stage is Prepare
    &&& outcomes[i] == OutcomeView::Created(folder)
}

/// The folder was created for the job.
pub open spec fn was_created<L, P>(
    job: JobView<L, P>,
    outcomes: Seq<OutcomeView<P>>,
    folder: P,
) -> bool {
    exists|k: int| #[trigger] created_at(job, outcomes, k, folder)
}

/// The folder that a job has is one that was created for it.
proof fn lemma_folder_was_created<L, P>(job: JobView<L, P>, outcomes: Seq<OutcomeView<P>>)
    requires
        job.folder is None,
    ensures
        job_after(job, outcomes).folder matches Some(folder) ==> was_created(job, outcomes, folder),
    decreases outcomes.len(),
{
    if outcomes.len() > 0 {
        let n = outcomes.len() - 1;
        let earlier = outcomes.drop_last();
        assert(outcomes.take(n) =~= earlier);
        lemma_folder_was_created(job, earlier);
        if let Some(folder) = job_after(job, outcomes).folder {
            if job_after(job, earlier).folder == Some(folder) {
                let k = choose|k: int| #[trigger] created_at(job, earlier, k, folder);
                assert(earlier.take(k) =~= outcomes.take(k));
                assert(created_at(job, outcomes, k, folder));
            } else {
                assert(created_at(job, outcomes, n, folder));
            }
        }
    }
}

/// Whatever a job does, it does for its own release and as the run is set: it
/// looks up the release's own link with the debug flag of the run, creates
/// folders below the root of the target or for its own id, downloads in the
/// audio format of the run into the folder that was created, uploads that
/// folder below the prefix of the target, and caches its own id.
pub proof fn law_jobs_keep_to_their_settings<L, P>(
    id: Seq<char>,
    link: L,
    settings: SettingsView,
    outcomes: Seq<OutcomeView<P>>,
)
    ensures
        action_of(job_after(new_job::<L, P>(id, link, settings), outcomes)) matches
            ActionView::Fetch { link: asked, debug } ==> asked == link && debug == settings.debug,
        action_of(job_after(new_job::<L, P>(id, link, settings), outcomes)) matches
            ActionView::CreateFolder { root } ==> settings.place == (PlaceView::Local { root }),
        action_of(job_after(new_job::<L, P>(id, link, settings), outcomes)) matches
            ActionView::CreateStagingFolder { id: named } ==> named == id && is_remote(settings),
        action_of(job_after(new_job::<L, P>(id, link, settings), outcomes)) matches
            ActionView::Download { folder, audio_format } ==> audio_format == settings.audio_format
            && was_created(new_job::<L, P>(id, link, settings), outcomes, folder),
        action_of(job_after(new_job::<L, P>(id, link, settings), outcomes)) matches
            ActionView::Upload { folder, prefix } ==> settings.place == (PlaceView::Bucket {
            prefix,
        }) && was_created(new_job::<L, P>(id, link, settings), outcomes, folder),
        action_of(job_after(new_job::<L, P>(id, link, settings), outcomes)) matches
            ActionView::RemoveStagingFolder { folder } ==> was_created(
            new_job::<L, P>(id, link, settings),
            outcomes,
            folder,
        ),
        action_of(job_after(new_job::<L, P>(id, link, settings), outcomes)) matches
            ActionView::AddToCache { id: named, .. } ==> named == id,
{
    let job = new_job::<L, P>(id, link, settings);
    law_jobs_stay_jobs(id, link, settings, outcomes);
    lemma_job_keeps(job, outcomes);
    lemma_folder_was_created(job, outcomes);
}

/// A dry run looks a release up, reports it or warns, and does nothing else.
pub proof fn law_dry_run_changes_nothing<L, P>(
    id: Seq<char>,
    link: L,
    settings: SettingsView,
    outcomes: Seq<OutcomeView<P>>,
)
    requires
        settings.dry_run,
    ensures
        ({
            let action = action_of(job_after(new_job(id, link, settings), outcomes));
            action is Fetch || action is Report || action is Warn || action is Finish
        }),
        ({
            let stage = job_after(new_job(id, link, settings), outcomes).stage;
            stage is Fetch || stage is Report || stage is WarnAndStop || stage is Finished
        }),
    decreases outcomes.len(),
{
    lemma_job_keeps(new_job(id, link, settings), outcomes);
    if outcomes.len() > 0 {
        law_dry_run_changes_nothing(id, link, settings, outcomes.drop_last());
        lemma_job_keeps(new_job(id, link, settings), outcomes.drop_last());
    }
}

/// A release for a local folder is neither staged nor uploaded.
pub proof fn law_local_releases_stay_local<L, P>(
    id: Seq<char>,
    link: L,
    settings: SettingsView,
    outcomes: Seq<OutcomeView<P>>,
)
    requires
        !is_remote(settings),
    ensures
        ({
            let action = action_of(job_after(new_job(id, link, settings), outcomes));
            !(action is CreateStagingFolder) && !(action is Upload)
                && !(action is RemoveStagingFolder)
        }),
        ({
            let stage = job_after(new_job(id, link, settings), outcomes).stage;
            !(stage is Upload) && !(stage is WarnAndClean) && !(stage is CleanAfterFailure)
                && !(stage is CleanAfterSuccess)
        }),
    decreases outcomes.len(),
{
    lemma_job_keeps(new_job(id, link, settings), outcomes);
    if outcomes.len() > 0 {
        law_local_releases_stay_local(id, link, settings, outcomes.drop_last());
        lemma_job_keeps(new_job(id, link, settings), outcomes.drop_last());
    }
}

/// Some download went well.
pub open spec fn was_downloaded<L, P>(job: JobView<L, P>, outcomes: Seq<OutcomeView<P>>) -> bool {
    exists|i: int| #[trigger] went_well(job, outcomes, i, Stage::Download)
}

/// Some upload went well.
pub open spec fn was_uploaded<L, P>(job: JobView<L, P>, outcomes: Seq<OutcomeView<P>>) -> bool {
    exists|i: int| #[trigger] went_well(job, outcomes, i, Stage::Upload)
}

/// What a job has behind it at its later stages.
proof fn lemma_behind_a_job<L, P>(job: JobView<L, P>, outcomes: Seq<OutcomeView<P>>)
    requires
        job.stage == Stage::Fetch,
    ensures
        ({
            let stage = job_after(job, outcomes).stage;
            &&& stage is Upload || stage is CleanAfterSuccess || stage is Record ==> was_downloaded(
                job,
                outcomes,
            )
            &&& stage is CleanAfterSuccess ==> was_uploaded(job, outcomes)
            &&& stage is Record && is_remote(job.settings) ==> was_uploaded(job, outcomes)
        }),
    decreases outcomes.len(),
{
    if outcomes.len() > 0 {
        let n = outcomes.len() - 1;
        let earlier = outcomes.drop_last();
        assert(outcomes.take(n) =~= earlier);
        lemma_behind_a_job(job, earlier);
        lemma_job_keeps(job, earlier);
        let before = job_after(job, earlier).stage;
        assert(before is Download && !(outcomes[n] is Failed) ==> went_well(
            job,
            outcomes,
            n,
            Stage::Download,
        ));
        assert(before is Upload && !(outcomes[n] is Failed) ==> went_well(
            job,
            outcomes,
            n,
            Stage::Upload,
        ));
        if was_downloaded(job, earlier) {
            let i = choose|i: int| #[trigger] went_well(job, earlier, i, Stage::Download);
            lemma_went_well_extends(job, outcomes, n, i, Stage::Download);
        }
        if was_uploaded(job, earlier) {
            let i = choose|i: int| #[trigger] went_well(job, earlier, i, Stage::Upload);
            lemma_went_well_extends(job, outcomes, n, i, Stage::Upload);
        }
    }
}

/// The cache takes a release in only after its download went well and, for a
/// bucket, its upload too.
pub proof fn law_only_kept_releases_are_cached<L, P>(
    id: Seq<char>,
    link: L,
    settings: SettingsView,
    outcomes: Seq<OutcomeView<P>>,
)
    requires
        action_of(job_after(new_job(id, link, settings), outcomes)) is AddToCache,
    ensures
        was_downloaded(new_job(id, link, settings), outcomes),
        is_remote(settings) ==> was_uploaded(new_job(id, link, settings), outcomes),
{
    lemma_behind_a_job(new_job(id, link, settings), outcomes);
}

/// A staging folder is removed at `i`.
pub open spec fn cleaned_at<L, P>(
    job: JobView<L, P>,
    outcomes: Seq<OutcomeView<P>>,
    i: int,
) -> bool {
    0 <= i < outcomes.len() && action_of(job_before(job, outcomes, i)) is RemoveStagingFolder
}

/// The job before an outcome comes of the one before it.
proof fn lemma_job_before<L, P>(job: JobView<L, P>, outcomes: Seq<OutcomeView<P>>, i: int)
    requires
        0 < i <= outcomes.len(),
    ensures
        job_before(job, outcomes, i) == next_job(
            job_before(job, outcomes, i - 1),
            outcomes[i - 1],
        ),
{
    assert(outcomes.take(i).drop_last() =~= outcomes.take(i - 1));
}

/// From the creation of the staging folder on, a job keeps that folder and is
/// at a stage that leads to its removal, or the folder was removed.
proof fn lemma_staged_job<L, P>(
    job: JobView<L, P>,
    outcomes: Seq<OutcomeView<P>>,
    k: int,
    folder: P,
    n: int,
)
    requires
        is_remote(job.settings),
        created_at(job, outcomes, k, folder),
        k < n <= outcomes.len(),
    ensures
        job_before(job, outcomes, n).folder == Some(folder),
        ({
            let stage = job_before(job, outcomes, n).stage;
            ||| stage is Download
            ||| n > k + 1 && (stage is Upload || stage is WarnAndClean || stage is CleanAfterFailure
                || stage is CleanAfterSuccess)
            ||| (stage is Record || stage is Finished) && exists|i: int|
                k + 1 < i < n && #[trigger] cleaned_at(job, outcomes, i)
        }),
    decreases n,
{
    lemma_job_before(job, outcomes, n);
    lemma_job_keeps(job, outcomes.take(n - 1));
    if k < n - 1 {
        lemma_staged_job(job, outcomes, k, folder, n - 1);
        if action_of(job_before(job, outcomes, n - 1)) is RemoveStagingFolder {
            assert(cleaned_at(job, outcomes, n - 1));
        }
    }
}

/// After a staging folder went, only the cache is left; after one that went
/// for a failure, nothing.
proof fn lemma_after_cleaning<L, P>(
    job: JobView<L, P>,
    outcomes: Seq<OutcomeView<P>>,
    i: int,
    j: int,
)
    requires
        cleaned_at(job, outcomes, i),
        i < j <= outcomes.len(),
    ensures
        job_before(job, outcomes, j).stage is Record || job_before(
            job,
            outcomes,
            j,
        ).stage is Finished,
        job_before(job, outcomes, i).stage is CleanAfterFailure ==> job_before(
            job,
            outcomes,
            j,
        ).stage is Finished,
    decreases j,
{
    lemma_job_before(job, outcomes, j);
    if i < j - 1 {
        lemma_after_cleaning(job, outcomes, i, j - 1);
    }
}

/// Once the cache takes the release in, no staging folder goes.
proof fn lemma_after_record<L, P>(
    job: JobView<L, P>,
    outcomes: Seq<OutcomeView<P>>,
    j: int,
    i: int,
)
    requires
        0 <= j <= i <= outcomes.len(),
        job_before(job, outcomes, j).stage is Record,
    ensures
        job_before(job, outcomes, i).stage is Record || job_before(
            job,
            outcomes,
            i,
        ).stage is Finished,
    decreases i,
{
    if j < i {
        lemma_job_before(job, outcomes, i);
        lemma_after_record(job, outcomes, j, i - 1);
    }
}

/// Whatever goes wrong, the staging folder that was created is removed before
/// the job ends: that very folder, exactly once, after a download into it was
/// tried, and with no download or upload to follow. It goes after an upload
/// that went well, or else the release is not cached.
pub proof fn law_staging_folders_are_removed<L, P>(
    id: Seq<char>,
    link: L,
    settings: SettingsView,
    outcomes: Seq<OutcomeView<P>>,
    k: int,
    folder: P,
)
    requires
        is_remote(settings),
        created_at(new_job(id, link, settings), outcomes, k, folder),
        job_after(new_job(id, link, settings), outcomes).stage is Finished,
    ensures
        action_of(job_before(new_job(id, link, settings), outcomes, k + 1)) == (
        ActionView::<L, P>::Download { folder, audio_format: settings.audio_format }),
        ({
            let job = new_job::<L, P>(id, link, settings);
            exists|i: int|
                {
                    &&& #[trigger] cleaned_at(job, outcomes, i)
                    &&& k + 1 < i
                    &&& action_of(job_before(job, outcomes, i)) == (
                    ActionView::<L, P>::RemoveStagingFolder { folder })
                    &&& forall|j: int| #[trigger] cleaned_at(job, outcomes, j) ==> j == i
                    &&& forall|j: int|
                        i < j <= outcomes.len() ==> {
                            let action = action_of(#[trigger] job_before(job, outcomes, j));
                            action is AddToCache || action is Finish
                        }
                    &&& was_uploaded(job, outcomes.take(i)) || forall|j: int|
                        0 <= j <= outcomes.len() ==> !(action_of(
                            #[trigger] job_before(job, outcomes, j),
                        ) is AddToCache)
                }
        }),
{
    let job = new_job::<L, P>(id, link, settings);
    assert(outcomes.take(outcomes.len() as int) =~= outcomes);
    lemma_staged_job(job, outcomes, k, folder, outcomes.len() as int);
    lemma_staged_job(job, outcomes, k, folder, k + 1);
    lemma_job_keeps(job, outcomes.take(k + 1));
    let i = choose|i: int|
        k + 1 < i < outcomes.len() && #[trigger] cleaned_at(job, outcomes, i);
    lemma_staged_job(job, outcomes, k, folder, i);
    assert forall|j: int| #[trigger] cleaned_at(job, outcomes, j) implies j == i by {
        if i < j {
            lemma_after_cleaning(job, outcomes, i, j);
        } else if j < i {
            lemma_after_cleaning(job, outcomes, j, i);
        }
    }
    assert forall|j: int| i < j <= outcomes.len() implies ({
        let action = action_of(#[trigger] job_before(job, outcomes, j));
        action is AddToCache || action is Finish
    }) by {
        lemma_after_cleaning(job, outcomes, i, j);
    }
    lemma_behind_a_job(job, outcomes.take(i));
    if !was_uploaded(job, outcomes.take(i)) {
        assert forall|j: int| 0 <= j <= outcomes.len() implies !(action_of(
            #[trigger] job_before(job, outcomes, j),
        ) is AddToCache) by {
            if i < j {
                lemma_after_cleaning(job, outcomes, i, j);
            } else if job_before(job, outcomes, j).stage is Record {
                lemma_after_record(job, outcomes, j, i);
            }
        }
    }
}

/// How many steps a job has left at most.
pub open spec fn steps_left(stage: Stage) -> nat {
    match stage {
        Stage::Fetch => 7,
        Stage::Announce => 6,
        Stage::Prepare => 5,
        Stage::Download => 4,
        Stage::Upload => 3,
        Stage::WarnAndClean => 2,
        Stage::CleanAfterSuccess => 2,
        Stage::CleanAfterFailure => 1,
        Stage::Record => 1,
        Stage::Report => 1,
        Stage::WarnAndStop => 1,
        Stage::Finished => 0,
    }
}

/// Every outcome brings a job nearer to its end, and a job ends after seven
/// outcomes at the latest.
pub proof fn law_jobs_end<L, P>(job: JobView<L, P>, outcomes: Seq<OutcomeView<P>>)
    ensures
        job.stage is Finished || forall|outcome: OutcomeView<P>|
            steps_left((#[trigger] next_job(job, outcome)).stage) < steps_left(job.stage),
        steps_left(job_after(job, outcomes).stage) + outcomes.len() <= steps_left(job.stage)
            || job_after(job, outcomes).stage is Finished,
        outcomes.len() >= 7 ==> job_after(job, outcomes).stage is Finished,
    decreases outcomes.len(),
{
    if outcomes.len() > 0 {
        law_jobs_end(job, outcomes.drop_last());
    }
}

/// A release that was found, and where to look it up.
pub type Release<L> = (String, L);

/// Something that was done for a release.
pub type Deed<L, P> = (Release<L>, ActionView<L, P>);

/// What is outside of a run: how each thing goes that a job for a release does.
pub type World<L, P> = spec_fn(Release<L>, JobView<L, P>) -> OutcomeView<P>;

/// All that a job for a release has left to do.
pub open spec fn deeds<L, P>(
    release: Release<L>,
    job: JobView<L, P>,
    world: World<L, P>,
) -> Multiset<Deed<L, P>>
    decreases steps_left(job.stage),
{
    if job.stage is Finished {
        Multiset::empty()
    } else {
        deeds(release, next_job(job, world(release, job)), world).insert((release, action_of(job)))
    }
}

/// What a worker of a run is at.
pub enum RunWorker<L, P> {
    /// It takes up the next release next.
    Idle,
    /// It works on a release.
    Busy(Release<L>, JobView<L, P>),
    /// It has nothing more to do.
    Stopped,
}

/// A run under way.
pub struct Run<L, P> {
    pub pending: Seq<Release<L>>,
    pub workers: Seq<RunWorker<L, P>>,
    /// What was done so far.
    pub done: Multiset<Deed<L, P>>,
}

/// A run at its start, with a number of workers.
pub open spec fn new_run<L, P>(pending: Seq<Release<L>>, workers: nat) -> Run<L, P> {
    Run {
        pending,
        workers: Seq::new(workers, |i: int| RunWorker::Idle),
        done: Multiset::empty(),
    }
}

/// The job for a release at its start.
pub open spec fn job_for<L, P>(release: Release<L>, settings: SettingsView) -> JobView<L, P> {
    new_job(release.0@, release.1, settings)
}

/// The run after worker `w` did the next thing. A worker works on a release
/// until its job is finished, and stops once no release is left.
pub open spec fn run_step<L, P>(
    run: Run<L, P>,
    w: int,
    settings: SettingsView,
    world: World<L, P>,
) -> Run<L, P> {
    if !(0 <= w < run.workers.len()) {
        run
    } else {
        match run.workers[w] {
            RunWorker::Idle => if run.pending.len() == 0 {
                Run { workers: run.workers.update(w, RunWorker::Stopped), ..run }
            } else {
                let release = run.pending[0];
                Run {
                    pending: run.pending.drop_first(),
                    workers: run.workers.update(
                        w,
                        RunWorker::Busy(release, job_for(release, settings)),
                    ),
                    ..run
                }
            },
            RunWorker::Busy(release, job) => if job.stage is Finished {
                Run { workers: run.workers.update(w, RunWorker::Idle), ..run }
            } else {
                Run {
                    workers: run.workers.update(
                        w,
                        RunWorker::Busy(release, next_job(job, world(release, job))),
                    ),
                    done: run.done.insert((release, action_of(job))),
                    ..run
                }
            },
            RunWorker::Stopped => run,
        }
    }
}

/// The run after the workers took their turns in some order.
pub open spec fn run_after<L, P>(
    run: Run<L, P>,
    turns: Seq<int>,
    settings: SettingsView,
    world: World<L, P>,
) -> Run<L, P>
    decreases turns.len(),
{
    if turns.len() == 0 {
        run
    } else {
        run_step(
            run_after(run, turns.drop_last(), settings, world),
            turns.last(),
            settings,
            world,
        )
    }
}

/// Every worker has stopped.
pub open spec fn run_is_over<L, P>(run: Run<L, P>) -> bool {
    forall|w: int| 0 <= w < run.workers.len() ==> (#[trigger] run.workers[w]) is Stopped
}

/// All that some releases take.
pub open spec fn all_deeds<L, P>(
    releases: Seq<Release<L>>,
    settings: SettingsView,
    world: World<L, P>,
) -> Multiset<Deed<L, P>> {
    gathered(
        releases,
        |release: Release<L>| deeds(release, job_for(release, settings), world),
    )
}

/// All that a worker has left to do for the release that it is at.
pub open spec fn deeds_left<L, P>(
    worker: RunWorker<L, P>,
    world: World<L, P>,
) -> Multiset<Deed<L, P>> {
    match worker {
        RunWorker::Busy(release, job) => deeds(release, job, world),
        _ => Multiset::empty(),
    }
}

/// What was done, what the workers are at and what is pending make up all that
/// the releases take. Workers stop only at the end of the queue.
spec fn is_sound_run<L, P>(
    run: Run<L, P>,
    releases: Seq<Release<L>>,
    settings: SettingsView,
    world: World<L, P>,
) -> bool {
    &&& all_deeds(releases, settings, world) == run.done.add(
        gathered(run.workers, |worker: RunWorker<L, P>| deeds_left(worker, world)),
    ).add(all_deeds(run.pending, settings, world))
    &&& forall|w: int|
        0 <= w < run.workers.len() && (#[trigger] run.workers[w]) is Stopped ==> run.pending.len()
            == 0
}

proof fn lemma_sound_run_step<L, P>(
    run: Run<L, P>,
    w: int,
    releases: Seq<Release<L>>,
    settings: SettingsView,
    world: World<L, P>,
)
    requires
        is_sound_run(run, releases, settings, world),
    ensures
        is_sound_run(
            run_step(run, w, settings, world),
            releases,
            settings,
            world,
        ),
{
    broadcast use group_multiset_axioms;

    let held = |worker: RunWorker<L, P>| deeds_left(worker, world);
    let needed = |release: Release<L>| deeds(release, job_for(release, settings), world);
    let next = run_step(run, w, settings, world);
    if 0 <= w < run.workers.len() && !(run.workers[w] is Stopped) {
        lemma_gathered_update(run.workers, held, w, next.workers[w]);
        let before = gathered(run.workers, held);
        let after = gathered(next.workers, held);
        let pending = gathered(run.pending, needed);
        let still_pending = gathered(next.pending, needed);
        if run.workers[w] is Idle && run.pending.len() > 0 {
            lemma_gathered_front(run.pending, needed);
        }
        let all = all_deeds(releases, settings, world);
        assert forall|deed: Deed<L, P>| #[trigger]
            all.count(deed) == next.done.add(after).add(still_pending).count(deed) by {
            assert(after.add(held(run.workers[w])).count(deed) == before.add(
                held(next.workers[w]),
            ).count(deed));
            assert(all.count(deed) == run.done.add(before).add(pending).count(deed));
        }
        assert(all =~= next.done.add(after).add(still_pending));
    }
}

proof fn lemma_sound_run<L, P>(
    releases: Seq<Release<L>>,
    workers: nat,
    turns: Seq<int>,
    settings: SettingsView,
    world: World<L, P>,
)
    ensures
        is_sound_run(
            run_after(new_run(releases, workers), turns, settings, world),
            releases,
            settings,
            world,
        ),
        run_after(new_run(releases, workers), turns, settings, world).workers.len()
            == workers,
    decreases turns.len(),
{
    broadcast use group_multiset_axioms;

    if turns.len() == 0 {
        let run = new_run(releases, workers);
        let held = |worker: RunWorker<L, P>| deeds_left(worker, world);
        lemma_gathered_nothing(run.workers, held);
        assert(all_deeds(releases, settings, world) =~= run.done.add(
            gathered(run.workers, held),
        ).add(all_deeds(releases, settings, world)));
    } else {
        lemma_sound_run(releases, workers, turns.drop_last(), settings, world);
        let before = run_after(new_run(releases, workers), turns.drop_last(), settings, world);
        lemma_sound_run_step(before, turns.last(), releases, settings, world);
    }
}

/// Whatever turns its workers take, a run that is over has done for each of its
/// releases exactly what that release's job asks for, once.
pub proof fn law_run_does_each_job_once<L, P>(
    releases: Seq<Release<L>>,
    workers: nat,
    turns: Seq<int>,
    settings: SettingsView,
    world: World<L, P>,
)
    requires
        workers >= 1,
        run_is_over(run_after(new_run(releases, workers), turns, settings, world)),
    ensures
        run_after(new_run(releases, workers), turns, settings, world).done == all_deeds(
            releases,
            settings,
            world,
        ),
{
    broadcast use group_multiset_axioms;

    let run = run_after(new_run(releases, workers), turns, settings, world);
    let held = |worker: RunWorker<L, P>| deeds_left(worker, world);
    lemma_sound_run(releases, workers, turns, settings, world);
    lemma_gathered_nothing(run.workers, held);
    assert(run.workers[0] is Stopped);
    assert(run.done =~= all_deeds(releases, settings, world));
}

/// The number of download jobs that is set makes no difference to what a run
/// does: with any two, and the same answers from outside, the same downloads,
/// uploads, cache entries, reports and warnings come of it. There are never
/// more releases in work than workers, and none set is as good as one.
pub proof fn law_download_jobs_do_not_matter<L, P>(
    found: Seq<Release<L>>,
    cached: Seq<String>,
    force: bool,
    limit: Option<usize>,
    settings: SettingsView,
    world: World<L, P>,
    a_jobs: u8,
    a_turns: Seq<int>,
    b_jobs: u8,
    b_turns: Seq<int>,
)
    requires
        ({
            let releases = pending_of(found, cached, force, limit);
            let a = new_run(releases, at_least_one(a_jobs) as nat);
            let b = new_run(releases, at_least_one(b_jobs) as nat);
            &&& run_is_over(run_after(a, a_turns, settings, world))
            &&& run_is_over(run_after(b, b_turns, settings, world))
        }),
    ensures
        ({
            let releases = pending_of(found, cached, force, limit);
            let a = new_run(releases, at_least_one(a_jobs) as nat);
            let b = new_run(releases, at_least_one(b_jobs) as nat);
            &&& run_after(a, a_turns, settings, world).done == run_after(
                b,
                b_turns,
                settings,
                world,
            ).done
            &&& forall|turns: Seq<int>|
                (#[trigger] run_after(a, turns, settings, world)).workers.len()
                    == at_least_one(a_jobs)
        }),
        at_least_one(0) == at_least_one(1),
{
    let releases = pending_of(found, cached, force, limit);
    let a = at_least_one(a_jobs) as nat;
    let b = at_least_one(b_jobs) as nat;
    law_run_does_each_job_once(releases, a, a_turns, settings, world);
    law_run_does_each_job_once(releases, b, b_turns, settings, world);
    assert forall|turns: Seq<int>|
        (#[trigger] run_after(new_run(releases, a), turns, settings, world)).workers.len()
            == a by {
        lemma_sound_run(releases, a, turns, settings, world);
    }
}

/// How many turns a worker may take at most before it takes up another release.
pub open spec fn worker_turns<L, P>(worker: RunWorker<L, P>) -> nat {
    match worker {
        RunWorker::Idle => 1,
        RunWorker::Busy(_, job) => 2 + steps_left(job.stage),
        RunWorker::Stopped => 0,
    }
}

/// The turns that a run has left at most.
pub open spec fn run_turns<L, P>(run: Run<L, P>) -> nat {
    9 * run.pending.len() + total(run.workers, |worker: RunWorker<L, P>| worker_turns(worker))
}

/// Every turn of a worker that has not stopped brings a run nearer to its end.
pub proof fn law_runs_end<L, P>(
    run: Run<L, P>,
    w: int,
    settings: SettingsView,
    world: World<L, P>,
)
    requires
        0 <= w < run.workers.len(),
        !(run.workers[w] is Stopped),
    ensures
        run_turns(run_step(run, w, settings, world)) < run_turns(run),
{
    let next = run_step(run, w, settings, world);
    let turns = |worker: RunWorker<L, P>| worker_turns(worker);
    lemma_total_update(run.workers, turns, w, next.workers[w]);
}

} // verus!
