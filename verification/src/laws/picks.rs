//! Which releases a run picks, and what it prints.

use crate::error::StorageError;
use crate::laws::texts::{as_text, law_decimals_spell_their_number, lemma_joined_lines, spells};
use crate::run::{
    add_cache_entry, announcement, closing, is_wanted, pending_releases, skip_warning,
};
use crate::text::{decimal_of, texts};
use vstd::prelude::*;

verus! {

/// A run asks for a release: for any if it is forced, else for one whose id the
/// cache does not list.
pub open spec fn is_asked_for<T>(release: (String, T), cached: Seq<String>, force: bool) -> bool {
    force || forall|j: int| 0 <= j < cached.len() ==> (#[trigger] cached[j])@ != release.0@
}

/// `picks` are places of releases that are asked for, from front to back.
pub open spec fn are_picks<T>(
    picks: Seq<int>,
    found: Seq<(String, T)>,
    cached: Seq<String>,
    force: bool,
) -> bool {
    &&& forall|k: int|
        0 <= k < picks.len() ==> 0 <= #[trigger] picks[k] < found.len() && is_asked_for(
            found[picks[k]],
            cached,
            force,
        )
    &&& forall|k: int, l: int|
        0 <= k < l < picks.len() ==> #[trigger] picks[k] < #[trigger] picks[l]
}

/// The releases at some places.
pub open spec fn are_at<T>(
    releases: Seq<(String, T)>,
    found: Seq<(String, T)>,
    picks: Seq<int>,
) -> bool {
    &&& releases.len() == picks.len()
    &&& forall|k: int| 0 <= k < picks.len() ==> #[trigger] releases[k] == found[picks[k]]
}

proof fn lemma_asked_for<T>(release: (String, T), cached: Seq<String>, force: bool)
    ensures
        is_asked_for(release, cached, force) == is_wanted(release, cached, force),
{
    if texts(cached).contains(release.0@) {
        let j = choose|j: int| 0 <= j < texts(cached).len() && texts(cached)[j] == release.0@;
        assert(cached[j]@ == release.0@);
    } else {
        assert forall|j: int| 0 <= j < cached.len() implies (#[trigger] cached[j])@
            != release.0@ by {
            assert(texts(cached)[j] == cached[j]@);
        }
    }
}

/// What is filtered out of the found releases are picks, and all of them.
proof fn lemma_picks<T>(found: Seq<(String, T)>, cached: Seq<String>, force: bool) -> (picks: Seq<
    int,
>)
    ensures
        are_picks(picks, found, cached, force),
        are_at(
            found.filter(|release: (String, T)| is_wanted(release, cached, force)),
            found,
            picks,
        ),
        forall|i: int|
            0 <= i < found.len() && is_asked_for(#[trigger] found[i], cached, force)
                ==> picks.contains(i),
    decreases found.len(),
{
    reveal(Seq::filter);
    let keep = |release: (String, T)| is_wanted(release, cached, force);
    if found.len() == 0 {
        assert(found.filter(keep) =~= seq![]);
        seq![]
    } else {
        let front = found.drop_last();
        let n = front.len() as int;
        let earlier = lemma_picks(front, cached, force);
        lemma_asked_for(found.last(), cached, force);
        assert forall|k: int| 0 <= k < earlier.len() implies 0 <= #[trigger] earlier[k] < n
            && found[earlier[k]] == front[earlier[k]] by {}
        let picks = if keep(found.last()) {
            earlier.push(n)
        } else {
            earlier
        };
        assert(found[n] == found.last());
        assert forall|i: int|
            0 <= i < found.len() && is_asked_for(
                #[trigger] found[i],
                cached,
                force,
            ) implies picks.contains(i) by {
            if i < n {
                assert(front[i] == found[i]);
                let k = choose|k: int| 0 <= k < earlier.len() && earlier[k] == i;
                assert(picks[k] == i);
            } else {
                assert(picks[picks.len() - 1] == i);
            }
        }
        picks
    }
}

/// A run picks releases that were found and are asked for, in the order in
/// which they were found. It leaves one out only where the limit is reached by
/// those before it, and never goes over the limit. So without a limit it picks
/// every release that the cache does not list.
pub proof fn law_runs_pick_what_is_asked_for<T>(
    found: Vec<(String, T)>,
    cached: Vec<String>,
    force: bool,
    limit: Option<usize>,
    pending: Vec<(String, T)>,
)
    requires
        call_ensures(pending_releases::<T>, (found, &cached, force, limit), pending),
    ensures
        exists|picks: Seq<int>|
            {
                &&& #[trigger] are_picks(picks, found@, cached@, force)
                &&& are_at(pending@, found@, picks)
                &&& limit matches Some(n) ==> picks.len() <= n
                &&& forall|i: int|
                    0 <= i < found@.len() && is_asked_for(#[trigger] found@[i], cached@, force) ==> {
                        ||| picks.contains(i)
                        ||| limit is Some && picks.len() == limit->0 && forall|k: int|
                            0 <= k < picks.len() ==> #[trigger] picks[k] < i
                    }
            },
        limit is None ==> forall|i: int|
            0 <= i < found@.len() && is_asked_for(#[trigger] found@[i], cached@, force)
                ==> pending@.contains(found@[i]),
{
    let all = lemma_picks(found@, cached@, force);
    let wanted = found@.filter(
        |release: (String, T)| is_wanted(release, cached@, force),
    );
    let picks = if limit is Some && limit->0 < all.len() {
        all.take(limit->0 as int)
    } else {
        all
    };
    assert(are_picks(picks, found@, cached@, force)) by {
        assert forall|k: int| 0 <= k < picks.len() implies 0 <= #[trigger] picks[k] < found@.len()
            && is_asked_for(found@[picks[k]], cached@, force) by {
            assert(picks[k] == all[k]);
        }
        assert forall|k: int, l: int| 0 <= k < l < picks.len() implies #[trigger] picks[k]
            < #[trigger] picks[l] by {
            assert(picks[k] == all[k] && picks[l] == all[l]);
        }
    }
    assert forall|k: int| 0 <= k < picks.len() implies #[trigger] pending@[k]
        == found@[picks[k]] by {
        assert(pending@[k] == wanted[k]);
        assert(picks[k] == all[k]);
    }
    assert forall|i: int|
        0 <= i < found@.len() && is_asked_for(#[trigger] found@[i], cached@, force) implies {
        ||| picks.contains(i)
        ||| limit is Some && picks.len() == limit->0 && forall|k: int|
            0 <= k < picks.len() ==> #[trigger] picks[k] < i
    } by {
        let k = choose|k: int| 0 <= k < all.len() && all[k] == i;
        if k < picks.len() {
            assert(picks[k] == i);
        } else {
            assert forall|l: int| 0 <= l < picks.len() implies #[trigger] picks[l] < i by {
                assert(all[l] < all[k]);
            }
        }
    }
    if limit is None {
        assert forall|i: int|
            0 <= i < found@.len() && is_asked_for(
                #[trigger] found@[i],
                cached@,
                force,
            ) implies pending@.contains(found@[i]) by {
            let k = choose|k: int| 0 <= k < picks.len() && picks[k] == i;
            assert(pending@[k] == found@[i]);
        }
    }
}

/// A run says at its start how many releases it takes on, and what for.
pub proof fn law_runs_announce_their_number(dry_run: bool, releases: usize, line: String)
    requires
        call_ensures(announcement, (dry_run, releases), line),
    ensures
        exists|digits: Seq<char>| #[trigger]
            spells(digits, releases as nat) && line@ == if dry_run {
                "Fetching information for "@ + digits + " found releases"@
            } else {
                "Trying to download "@ + digits + " releases"@
            },
{
    law_decimals_spell_their_number(releases as nat);
    assert(spells(decimal_of(releases as nat), releases as nat));
}

/// A dry run that found releases closes with the lines of its report, in order;
/// any other run says that it has finished.
pub proof fn law_runs_close_with_their_report(
    dry_run: bool,
    releases: usize,
    report: Vec<String>,
    text: String,
)
    requires
        call_ensures(closing, (dry_run, releases, &report), text),
    ensures
        !dry_run || releases == 0 ==> text@ == "Finished!"@,
        dry_run && releases > 0 && report@.len() == 0 ==> text@.len() == 0,
        dry_run && releases > 0 && report@.len() > 0 ==> text@ == as_text(
            Seq::new(report@.len(), |i: int| report@[i]@),
        ),
{
    let lines = Seq::new(report@.len(), |i: int| report@[i]@);
    assert(texts(report@) =~= lines);
    if report@.len() > 0 {
        lemma_joined_lines(lines);
    }
}

/// A warning for a step that was skipped holds the error.
pub proof fn law_skip_warnings_hold_the_error(error: &str, text: String)
    requires
        call_ensures(skip_warning, (error,), text),
    ensures
        text@ == "An error: "@ + error@ + "; skipped."@,
{
}

/// The cache turns dirty with an entry that was added, and only so; a failure
/// to add one gives a warning that holds the error, and nothing else does.
pub proof fn law_added_entries_make_the_cache_dirty(
    added: Result<bool, String>,
    cache_dirty: &mut bool,
    warning: Option<String>,
)
    requires
        call_ensures(add_cache_entry, (added, cache_dirty), warning),
    ensures
        *final(cache_dirty) <==> *old(cache_dirty) || added == Ok::<bool, String>(true),
        warning is Some <==> added is Err,
        added matches Err(error) ==> (warning matches Some(text) && text@ == "An error: "@ + error@
            + "; skipped."@),
{
}

/// Each error is told in words that hold what it is about; a URL that does not
/// parse is left to the parser's own words.
pub proof fn law_errors_are_told_in_words(error: StorageError, text: Option<String>)
    requires
        call_ensures(StorageError::message, (&error,), text),
    ensures
        text is None <==> error is InvalidUrl,
        error is NotS3Url ==> (text->0)@ == "expected an `s3://bucket/prefix` output folder"@,
        error matches StorageError::MissingBucket { output_folder } ==> (text->0)@
            == "missing S3 bucket in `"@ + output_folder@ + "`"@,
        error is MissingAccessKey ==> (text->0)@
            == "missing S3 access key id (`--s3-access-key-id` or `BS_S3_ACCESS_KEY_ID`)"@,
        error is MissingSecretKey ==> (text->0)@
            == "missing S3 secret access key (`--s3-secret-access-key` or `BS_S3_SECRET_ACCESS_KEY`)"@,
        error is NotAFolder ==> (text->0)@
            == "Cannot use `output-folder`, as it is not a folder. Please delete it and create as a directory, or try a different path."@,
        error matches StorageError::UploadFailed { key, status } ==> (text->0)@
            == "S3 upload failed for `"@ + key@ + "` with status "@ + status@,
        error matches StorageError::CacheDownloadFailed { key, status } ==> (text->0)@
            == "S3 cache download failed for `"@ + key@ + "` with status "@ + status@,
{
}

} // verus!
