//! The work on one release, from its start to its end.

use crate::job::{
    action_of, new_job, next_job, Action, ActionView, ItemView, JobSettings, JobView, Outcome,
    OutcomeView, Place, PlaceView, ReleaseJob, SettingsView, Stage,
};
use vstd::prelude::*;

verus! {

/// A job starts as one for its release and link, set as its settings say, and
/// knows nothing else yet.
pub proof fn law_jobs_start_with_their_settings<L, P>(
    id: &str,
    link: L,
    settings: JobSettings,
    job: ReleaseJob<L, P>,
)
    requires
        call_ensures(ReleaseJob::<L, P>::new, (id, link, &settings), job),
    ensures
        job@ == new_job::<L, P>(id@, link, settings@),
        job@.id == id@,
        job@.link == link,
        job@.settings.dry_run == settings.dry_run,
        job@.settings.debug == settings.debug,
        job@.settings.audio_format == settings.audio_format@,
        settings.place matches Place::Local { root } ==> job@.settings.place == (PlaceView::Local {
            root: root@,
        }),
        settings.place matches Place::Bucket { prefix } ==> job@.settings.place == (
        PlaceView::Bucket { prefix: prefix@ }),
        job@.item is None,
        job@.folder is None,
        job@.warning is None,
{
}

/// A job moves on by the outcome that it is told.
pub proof fn law_jobs_move_on_by_their_outcome<L, P>(
    job: &mut ReleaseJob<L, P>,
    outcome: Outcome<P>,
)
    requires
        call_ensures(ReleaseJob::<L, P>::step, (job, outcome), ()),
    ensures
        outcome is Done ==> final(job)@ == next_job(old(job)@, OutcomeView::<P>::Done),
        outcome is NoItem ==> final(job)@ == next_job(old(job)@, OutcomeView::<P>::NoItem),
        outcome matches Outcome::Failed(error) ==> final(job)@ == next_job(
            old(job)@,
            OutcomeView::<P>::Failed(error@),
        ),
        outcome matches Outcome::Created(folder) ==> final(job)@ == next_job(
            old(job)@,
            OutcomeView::<P>::Created(folder),
        ),
        outcome matches Outcome::Item(item) ==> final(job)@ == next_job(
            old(job)@,
            OutcomeView::<P>::Item(
                (ItemView {
                    title: item.title@,
                    artist: item.artist@,
                    release_year: item.release_year@,
                    single: item.single@,
                    downloadable: item.downloadable,
                }),
            ),
        ),
{
}

/// A job asks for what comes next, in the words and with the values that it
/// has.
pub proof fn law_jobs_ask_for_what_comes_next<'a, L, P>(
    job: ReleaseJob<L, P>,
    action: Action<'a, L, P>,
)
    requires
        call_ensures(ReleaseJob::<L, P>::action, (&job,), action),
    ensures
        action matches Action::Fetch { link, debug } ==> action_of(job@) == (ActionView::Fetch::<
            L,
            P,
        > { link: *link, debug }),
        action matches Action::Report(line) ==> action_of(job@) == ActionView::<L, P>::Report(line@),
        action matches Action::Announce(line) ==> action_of(job@) == ActionView::<L, P>::Announce(
            line@,
        ),
        action matches Action::CreateFolder { root } ==> action_of(job@) == (
        ActionView::CreateFolder::<L, P> { root: root@ }),
        action matches Action::CreateStagingFolder { id } ==> action_of(job@) == (
        ActionView::CreateStagingFolder::<L, P> { id: id@ }),
        action matches Action::Download { folder, audio_format } ==> action_of(job@) == (
        ActionView::Download::<L, P> { folder: *folder, audio_format: audio_format@ }),
        action matches Action::Upload { folder, prefix } ==> action_of(job@) == (
        ActionView::Upload::<L, P> { folder: *folder, prefix: prefix@ }),
        action matches Action::RemoveStagingFolder { folder } ==> action_of(job@) == (
        ActionView::RemoveStagingFolder::<L, P> { folder: *folder }),
        action matches Action::AddToCache { id, description } ==> action_of(job@) == (
        ActionView::AddToCache::<L, P> { id: id@, description: description@ }),
        action matches Action::Warn(text) ==> action_of(job@) == ActionView::<L, P>::Warn(text@),
        action is Finish ==> action_of(job@) == ActionView::<L, P>::Finish,
{
}

/// A job that has come to its end: nothing is asked for any more.
pub open spec fn is_over<L, P>(job: JobView<L, P>) -> bool {
    &&& action_of(job) is Finish
    &&& forall|outcome: OutcomeView<P>| (action_of(#[trigger] next_job(job, outcome))) is Finish
}

/// A job warns, and comes to its end with that.
pub open spec fn warns_and_ends<L, P>(job: JobView<L, P>, warning: Seq<char>) -> bool {
    &&& action_of(job) == ActionView::<L, P>::Warn(warning)
    &&& forall|outcome: OutcomeView<P>| is_over(#[trigger] next_job(job, outcome))
}

/// A job removes a staging folder, and comes to its end with that.
pub open spec fn removes_and_ends<L, P>(job: JobView<L, P>, folder: P) -> bool {
    &&& action_of(job) == (ActionView::RemoveStagingFolder::<L, P> { folder })
    &&& forall|outcome: OutcomeView<P>| is_over(#[trigger] next_job(job, outcome))
}

/// A job warns, then removes a staging folder, and comes to its end with that.
pub open spec fn warns_removes_and_ends<L, P>(
    job: JobView<L, P>,
    warning: Seq<char>,
    folder: P,
) -> bool {
    &&& action_of(job) == ActionView::<L, P>::Warn(warning)
    &&& forall|outcome: OutcomeView<P>| removes_and_ends(#[trigger] next_job(job, outcome), folder)
}

/// A job adds its release to the cache, and comes to its end with that.
pub open spec fn caches_and_ends<L, P>(
    job: JobView<L, P>,
    id: Seq<char>,
    description: Seq<char>,
) -> bool {
    &&& action_of(job) == (ActionView::AddToCache::<L, P> { id, description })
    &&& forall|outcome: OutcomeView<P>| is_over(#[trigger] next_job(job, outcome))
}

/// A job removes a staging folder, then adds its release to the cache, and
/// comes to its end with that.
pub open spec fn removes_caches_and_ends<L, P>(
    job: JobView<L, P>,
    folder: P,
    id: Seq<char>,
    description: Seq<char>,
) -> bool {
    &&& action_of(job) == (ActionView::RemoveStagingFolder::<L, P> { folder })
    &&& forall|outcome: OutcomeView<P>|
        caches_and_ends(#[trigger] next_job(job, outcome), id, description)
}

/// The words for something that failed.
pub open spec fn skipped(error: Seq<char>) -> Seq<char> {
    "An error: "@ + error + "; skipped."@
}

/// First of all a job looks its release up. A dry run then reports any release
/// that has downloads, wherever releases go, and any other run announces it. A
/// release without downloads, or one that is not found, gets a warning that
/// names it, and where the lookup fails the job is over.
pub proof fn law_lookups_come_first<L, P>(
    id: Seq<char>,
    link: L,
    settings: SettingsView,
    outcome: OutcomeView<P>,
)
    ensures
        ({
            let job = new_job::<L, P>(id, link, settings);
            let next = next_job(job, outcome);
            &&& action_of(job) == (ActionView::Fetch::<L, P> { link, debug: settings.debug })
            &&& outcome matches OutcomeView::Item(item) ==> {
                &&& !item.downloadable ==> warns_and_ends(
                    next,
                    "No downloads available for "@ + id + "; nothing to download."@,
                )
                &&& item.downloadable && settings.dry_run ==> {
                    &&& action_of(next) == ActionView::<L, P>::Report(
                        id + ", "@ + item.title + " - "@ + item.artist,
                    )
                    &&& forall|o: OutcomeView<P>| is_over(#[trigger] next_job(next, o))
                }
                &&& item.downloadable && !settings.dry_run ==> action_of(next) == ActionView::<
                    L,
                    P,
                >::Announce(
                    "Trying "@ + id + ", "@ + item.title + " - "@ + item.artist + " ("@
                        + item.single + ")"@,
                )
            }
            &&& outcome is NoItem ==> warns_and_ends(next, "Could not find digital item for "@ + id)
            &&& outcome is Failed || outcome is Done || outcome is Created ==> is_over(next)
        }),
{
    if let OutcomeView::Item(item) = outcome {
        assert("Trying "@ + (id + ", "@ + item.title + " - "@ + item.artist) + " ("@ + item.single
            + ")"@ =~= "Trying "@ + id + ", "@ + item.title + " - "@ + item.artist + " ("@
            + item.single + ")"@);
    }
}

/// The job for a release that was found, has downloads, was announced, and is
/// not part of a dry run.
pub open spec fn announced<L, P>(
    id: Seq<char>,
    link: L,
    settings: SettingsView,
    item: ItemView,
    outcome: OutcomeView<P>,
) -> JobView<L, P> {
    next_job(
        next_job(new_job::<L, P>(id, link, settings), OutcomeView::Item(item)),
        outcome,
    )
}

/// After the announcement a job creates a folder: below the root for a local
/// target, else a staging folder for its release. It then downloads into the
/// folder that was created, in the format that is set. Where the folder cannot
/// be created it warns, and is over.
pub proof fn law_downloads_follow_the_announcement<L, P>(
    id: Seq<char>,
    link: L,
    settings: SettingsView,
    item: ItemView,
    announcing: OutcomeView<P>,
    creating: OutcomeView<P>,
)
    requires
        item.downloadable,
        !settings.dry_run,
    ensures
        ({
            let job = announced(id, link, settings, item, announcing);
            let next = next_job(job, creating);
            &&& settings.place matches PlaceView::Local { root } ==> action_of(job) == (
            ActionView::CreateFolder::<L, P> { root })
            &&& settings.place is Bucket ==> action_of(job) == (
            ActionView::CreateStagingFolder::<L, P> { id })
            &&& creating matches OutcomeView::Created(folder) ==> action_of(next) == (
            ActionView::Download::<L, P> { folder, audio_format: settings.audio_format })
            &&& creating matches OutcomeView::Failed(error) ==> warns_and_ends(
                next,
                skipped(error),
            )
            &&& !(creating is Created) && !(creating is Failed) ==> is_over(next)
        }),
{
}

/// After the download into a local folder the release is added to the cache,
/// described by its title, its year and its artist. A failure is warned of, and
/// ends the job.
pub proof fn law_local_downloads_are_cached<L, P>(
    id: Seq<char>,
    link: L,
    settings: SettingsView,
    item: ItemView,
    announcing: OutcomeView<P>,
    folder: P,
    downloading: OutcomeView<P>,
)
    requires
        item.downloadable,
        !settings.dry_run,
        settings.place is Local,
    ensures
        ({
            let job = announced(id, link, settings, item, announcing);
            let next = next_job(next_job(job, OutcomeView::Created(folder)), downloading);
            &&& downloading matches OutcomeView::Failed(error) ==> warns_and_ends(
                next,
                skipped(error),
            )
            &&& !(downloading is Failed) ==> caches_and_ends(
                next,
                id,
                item.title + " ("@ + item.release_year + ") by "@ + item.artist,
            )
        }),
{
}

/// After the download into a staging folder that folder is uploaded below the
/// prefix of the bucket, then removed, and only then is the release added to
/// the cache. A download or an upload that fails is warned of, the staging
/// folder is removed, and the job is over.
pub proof fn law_staged_downloads_are_uploaded_and_cached<L, P>(
    id: Seq<char>,
    link: L,
    settings: SettingsView,
    item: ItemView,
    announcing: OutcomeView<P>,
    folder: P,
    downloading: OutcomeView<P>,
    uploading: OutcomeView<P>,
)
    requires
        item.downloadable,
        !settings.dry_run,
        settings.place is Bucket,
    ensures
        ({
            let job = announced(id, link, settings, item, announcing);
            let next = next_job(next_job(job, OutcomeView::Created(folder)), downloading);
            let last = next_job(next, uploading);
            &&& downloading matches OutcomeView::Failed(error) ==> warns_removes_and_ends(
                next,
                skipped(error),
                folder,
            )
            &&& !(downloading is Failed) ==> {
                &&& action_of(next) == (ActionView::Upload::<L, P> {
                    folder,
                    prefix: settings.place->prefix,
                })
                &&& uploading matches OutcomeView::Failed(error) ==> warns_removes_and_ends(
                    last,
                    skipped(error),
                    folder,
                )
                &&& !(uploading is Failed) ==> removes_caches_and_ends(
                    last,
                    folder,
                    id,
                    item.title + " ("@ + item.release_year + ") by "@ + item.artist,
                )
            }
        }),
{
    let job = announced(id, link, settings, item, announcing);
    let next = next_job(next_job(job, OutcomeView::Created(folder)), downloading);
    let last = next_job(next, uploading);
    if downloading is Failed {
        assert forall|o: OutcomeView<P>| removes_and_ends(#[trigger] next_job(next, o), folder) by {
            let removing = next_job(next, o);
            assert forall|p: OutcomeView<P>| is_over(#[trigger] next_job(removing, p)) by {}
        }
    } else if uploading is Failed {
        assert forall|o: OutcomeView<P>| removes_and_ends(#[trigger] next_job(last, o), folder) by {
            let removing = next_job(last, o);
            assert forall|p: OutcomeView<P>| is_over(#[trigger] next_job(removing, p)) by {}
        }
    } else {
        let description = item.title + " ("@ + item.release_year + ") by "@ + item.artist;
        assert forall|o: OutcomeView<P>|
            caches_and_ends(#[trigger] next_job(last, o), id, description) by {
            let caching = next_job(last, o);
            assert forall|p: OutcomeView<P>| is_over(#[trigger] next_job(caching, p)) by {}
        }
    }
}

/// A job that is told to be finished is finished.
pub proof fn law_finished_jobs_are_over<L, P>(job: ReleaseJob<L, P>, stage: Stage)
    requires
        call_ensures(ReleaseJob::<L, P>::stage, (&job,), stage),
    ensures
        stage is Finished <==> action_of(job@) is Finish,
        stage is Finished ==> is_over(job@),
{
}

} // verus!
