//! What holds of every search for a seed.
use vstd::prelude::*;

use crate::datasource;
use crate::datasource::{DsMode, ProbeView, Race, Seed, SeedView, Wait};
use crate::text;
use crate::text_laws;

verus! {

/// What a place says of a seed: that it has one, that it has none, or that
/// something is wrong.
pub type Answer = Result<Option<SeedView>, Seq<char>>;

/// Whether a place says that it has no seed.
pub open spec fn has_none(a: Answer) -> bool {
    a matches Ok(None)
}

/// Where a seed is looked for: in an explicit directory alone; otherwise first
/// below the state directory, unless the metadata service is asked for, then on
/// devices, with as long a wait as the mode has, then on both at once.
pub proof fn where_a_seed_is_looked_for(dir: Seq<char>, state_dir: Seq<char>, mode: DsMode)
    ensures
        ({
            let local = ProbeView::LocalDir(text::path_join(state_dir, "seed"@));
            &&& datasource::search_order(Some(dir), state_dir, mode) == seq![
                ProbeView::SeedDir(dir),
            ]
            &&& datasource::search_order(None, state_dir, DsMode::NoCloud) == seq![
                local,
                ProbeView::Devices(10),
            ]
            &&& datasource::search_order(None, state_dir, DsMode::Ec2) == seq![ProbeView::Imds(30)]
            &&& datasource::search_order(None, state_dir, DsMode::Auto) == seq![
                local,
                ProbeView::Devices(0),
                ProbeView::Race(10),
            ]
        }),
{
}

/// The first place that has a seed, or where something is wrong, decides a
/// search, however many places have none before it and whatever comes behind it.
pub proof fn the_first_that_has_one_decides(answers: Seq<Answer>, k: int)
    requires
        0 <= k <= answers.len(),
        forall|i: int| 0 <= i < k ==> has_none(#[trigger] answers[i]),
        k < answers.len() ==> !has_none(answers[k]),
    ensures
        k < answers.len() ==> datasource::search_result(answers) == answers[k],
        k == answers.len() ==> datasource::search_result(answers) == Ok::<
            Option<SeedView>,
            Seq<char>,
        >(None),
    decreases k,
{
    if k > 0 {
        let rest = answers.drop_first();
        assert(has_none(answers[0]));
        assert forall|i: int| 0 <= i < k - 1 implies has_none(#[trigger] rest[i]) by {
            assert(rest[i] == answers[i + 1]);
        }
        if k < answers.len() {
            assert(rest[k - 1] == answers[k]);
        }
        the_first_that_has_one_decides(rest, k - 1);
    }
}

/// The first seed wins a race, whatever came before it and whatever comes later.
pub proof fn the_first_seed_wins(answers: Seq<Answer>, k: int, seed: SeedView)
    requires
        0 <= k < answers.len(),
        answers[k] == Ok::<Option<SeedView>, Seq<char>>(Some(seed)),
        forall|i: int| 0 <= i < k ==> !(#[trigger] answers[i] matches Ok(Some(_))),
    ensures
        datasource::race_result(answers) == Ok::<Option<SeedView>, Seq<char>>(Some(seed)),
    decreases k,
{
    if k > 0 {
        let rest = answers.drop_first();
        assert forall|i: int| 0 <= i < k - 1 implies !(#[trigger] rest[i] matches Ok(Some(_))) by {
            assert(rest[i] == answers[i + 1]);
        }
        assert(rest[k - 1] == answers[k]);
        assert(!(answers[0] matches Ok(Some(_))));
        the_first_seed_wins(rest, k - 1, seed);
    }
}

/// A race without a seed comes to its first error, and to nothing without one.
pub proof fn without_a_seed_the_first_error_counts(answers: Seq<Answer>, k: int)
    requires
        0 <= k <= answers.len(),
        forall|i: int| 0 <= i < answers.len() ==> !(#[trigger] answers[i] matches Ok(Some(_))),
        forall|i: int| 0 <= i < k ==> has_none(#[trigger] answers[i]),
        k < answers.len() ==> answers[k] is Err,
    ensures
        k < answers.len() ==> datasource::race_result(answers) == answers[k],
        k == answers.len() ==> datasource::race_result(answers) == Ok::<
            Option<SeedView>,
            Seq<char>,
        >(None),
    decreases answers.len(),
{
    if answers.len() > 0 {
        let rest = answers.drop_first();
        assert forall|i: int|
            0 <= i < rest.len() implies !(#[trigger] rest[i] matches Ok(Some(_))) by {
            assert(rest[i] == answers[i + 1]);
        }
        if k > 0 {
            assert(has_none(answers[0]));
            assert forall|i: int| 0 <= i < k - 1 implies has_none(#[trigger] rest[i]) by {
                assert(rest[i] == answers[i + 1]);
            }
            if k < answers.len() {
                assert(rest[k - 1] == answers[k]);
            }
            without_a_seed_the_first_error_counts(rest, k - 1);
        } else {
            lemma_no_seed(rest);
        }
    }
}

proof fn lemma_no_seed(answers: Seq<Answer>)
    requires
        forall|i: int| 0 <= i < answers.len() ==> !(#[trigger] answers[i] matches Ok(Some(_))),
    ensures
        !(datasource::race_result(answers) matches Ok(Some(_))),
    decreases answers.len(),
{
    if answers.len() > 0 {
        let rest = answers.drop_first();
        assert forall|i: int|
            0 <= i < rest.len() implies !(#[trigger] rest[i] matches Ok(Some(_))) by {
            assert(rest[i] == answers[i + 1]);
        }
        assert(!(answers[0] matches Ok(Some(_))));
        lemma_no_seed(rest);
    }
}

/// A directory holds a seed exactly if it has user-data, be it empty, or
/// meta-data that is not; what its files hold is what the seed has, whatever it
/// is, and missing meta-data is empty.
pub proof fn what_the_seed_of_a_directory_is(
    dir: Seq<char>,
    meta: Seq<char>,
    user: Seq<char>,
    user_data: Option<Seq<char>>,
)
    ensures
        datasource::dir_seed(dir, Some(meta), Some(user)) == Ok::<SeedView, Seq<char>>(
            SeedView { source: dir, meta_data: meta, user_data: Some(user) },
        ),
        datasource::dir_seed(dir, None, user_data) == datasource::dir_seed(
            dir,
            Some(Seq::<char>::empty()),
            user_data,
        ),
        meta.len() > 0 ==> datasource::dir_seed(dir, Some(meta), None) == Ok::<
            SeedView,
            Seq<char>,
        >(SeedView { source: dir, meta_data: meta, user_data: None }),
        datasource::dir_seed(dir, None, None) == Err::<SeedView, Seq<char>>(
            "seed directory "@ + dir + " has neither meta-data nor user-data"@,
        ),
{
}

/// The seed of a device is that of its files, and is named after the device and
/// its file system; without either file there is none.
pub proof fn what_the_seed_of_a_device_is(
    dev: Seq<char>,
    fstype: Seq<char>,
    dir: Seq<char>,
    meta_data: Option<Seq<char>>,
    user_data: Option<Seq<char>>,
)
    ensures
        datasource::device_seed(dev, fstype, false, meta_data, user_data) is None,
        match datasource::dir_seed(dir, meta_data, user_data) {
            Err(_) => datasource::device_seed(dev, fstype, true, meta_data, user_data) is None,
            Ok(seed) => datasource::device_seed(dev, fstype, true, meta_data, user_data) == Some(
                SeedView { source: dev + " ("@ + fstype + ")"@, ..seed },
            ),
        },
{
}

/// A seed is taken, even when the time is up; without one the search goes on
/// after a pause unless it was cancelled or the time is up.
pub proof fn how_long_is_waited(seed: Seed, cancelled: bool, expired: bool, pause: u64)
    ensures
        datasource::waits(Some(seed), cancelled, expired, pause) == Wait::Found(seed),
        datasource::waits(None, true, expired, pause) is GiveUp,
        datasource::waits(None, cancelled, true, pause) is GiveUp,
        datasource::waits(None, false, false, pause) == Wait::Sleep(pause),
{
}

/// The devices to try are those of the list that are neither loop, memory nor
/// mapper devices and that have a size other than zero, in their order.
pub proof fn which_devices_are_tried(
    entries: Seq<(Seq<char>, Seq<char>)>,
    name: Seq<char>,
    size: Seq<char>,
)
    ensures
        ({
            let before = datasource::candidates(entries);
            let after = datasource::candidates(entries.push((name, size)));
            let passed = "loop"@.is_prefix_of(name) || "ram"@.is_prefix_of(name)
                || "zram"@.is_prefix_of(name) || "dm-"@.is_prefix_of(name) || size.len() == 0
                || text::trim(size) == "0"@;
            &&& datasource::candidates(Seq::<(Seq<char>, Seq<char>)>::empty()).len() == 0
            &&& passed ==> after == before
            &&& !passed ==> after == before.push("/dev/"@ + name)
        }),
        datasource::labelled() == seq!["/dev/disk/by-label/cidata"@, "/dev/disk/by-label/CIDATA"@],
        datasource::seed_filesystems() == seq!["iso9660"@, "vfat"@],
        datasource::mount_dir() == "/run/tinycloudinit/mnt"@,
{
    assert(entries.push((name, size)).drop_last() =~= entries);
    reveal_strlit("/dev");
    reveal_strlit("/dev/");
    text_laws::one_separator_is_enough("/dev"@, name);
    assert("/dev"@.push('/') =~= "/dev/"@);
}

/// The first error of a race is kept, whatever comes later, and is what the race
/// ends in without a seed.
pub proof fn the_first_error_is_kept(race: Race, answer: Answer, e: Seq<char>)
    ensures
        race.error matches Some(first) ==> race.error_after(answer) == Some(first@),
        race.error is None ==> race.error_after(Err(e)) == Some(e),
        race.error is None && answer is Ok ==> race.error_after(answer) is None,
        datasource::no_winner(Some(e)) == Err::<Option<SeedView>, Seq<char>>(e),
        datasource::no_winner(None) == Ok::<Option<SeedView>, Seq<char>>(None),
{
}

} // verus!
