//! Where the seed of an instance comes from.
use vstd::prelude::*;
use vstd::string::*;

use crate::text;
use crate::text::{begins_with, joined_path, same, trimmed};

verus! {

/// What an instance is configured from.
#[derive(Debug)]
pub struct Seed {
    /// Where it was found.
    pub source: String,
    pub meta_data: String,
    pub user_data: Option<String>,
}

/// The contents of a [`Seed`].
pub struct SeedView {
    pub source: Seq<char>,
    pub meta_data: Seq<char>,
    pub user_data: Option<Seq<char>>,
}

impl View for Seed {
    type V = SeedView;

    open spec fn view(&self) -> SeedView {
        SeedView {
            source: self.source@,
            meta_data: self.meta_data@,
            user_data: text::opt_text(self.user_data),
        }
    }
}

/// The contents of a seed, if there is one.
pub open spec fn opt_seed(s: Option<Seed>) -> Option<SeedView> {
    match s {
        Some(x) => Some(x@),
        None => None,
    }
}

/// What looking for a seed came to, by its contents.
pub open spec fn answer_view(r: Result<Option<Seed>, String>) -> Result<
    Option<SeedView>,
    Seq<char>,
> {
    match r {
        Ok(s) => Ok(opt_seed(s)),
        Err(e) => Err(e@),
    }
}

/// What reading a seed came to, by its contents.
pub open spec fn seed_result(r: Result<Seed, String>) -> Result<SeedView, Seq<char>> {
    match r {
        Ok(s) => Ok(s@),
        Err(e) => Err(e@),
    }
}

/// Which datasources are looked at.
#[derive(Debug, Clone, Copy, PartialEq, Eq, Structural)]
pub enum DsMode {
    Auto,
    NoCloud,
    Ec2,
}

/// How long the parallel probes race in Auto mode, in seconds.
pub const PARALLEL_WAIT: u64 = 10;

/// How long the NoCloud mode waits for a device, in seconds.
pub const DEVICE_WAIT: u64 = 10;

/// How long the Ec2 mode waits for the metadata service, in seconds.
pub const IMDS_WAIT: u64 = 30;

/// Where block devices are mounted to look at them.
pub open spec fn mount_dir() -> Seq<char> {
    "/run/tinycloudinit/mnt"@
}

/// Where block devices are mounted to look at them.
pub fn mount_point() -> (r: &'static str)
    ensures
        r@ == mount_dir(),
{
    "/run/tinycloudinit/mnt"
}

/// One place to look for a seed.
#[derive(Debug)]
pub enum Probe {
    /// A directory that has to hold a seed.
    SeedDir(String),
    /// A directory that may hold a seed.
    LocalDir(String),
    /// Block devices, waiting so many seconds for them.
    Devices(u64),
    /// The EC2 metadata service, waiting so many seconds for it.
    Imds(u64),
    /// Block devices and the metadata service at once, for so many seconds.
    Race(u64),
}

/// The contents of a [`Probe`].
pub enum ProbeView {
    SeedDir(Seq<char>),
    LocalDir(Seq<char>),
    Devices(u64),
    Imds(u64),
    Race(u64),
}

impl View for Probe {
    type V = ProbeView;

    open spec fn view(&self) -> ProbeView {
        match *self {
            Probe::SeedDir(d) => ProbeView::SeedDir(d@),
            Probe::LocalDir(d) => ProbeView::LocalDir(d@),
            Probe::Devices(w) => ProbeView::Devices(w),
            Probe::Imds(w) => ProbeView::Imds(w),
            Probe::Race(w) => ProbeView::Race(w),
        }
    }
}

/// The contents of each probe of a list.
pub open spec fn probes(list: Seq<Probe>) -> Seq<ProbeView> {
    Seq::new(list.len(), |i: int| list[i]@)
}

/// Where a seed is looked for, in order.
pub open spec fn search_order(
    seed_dir: Option<Seq<char>>,
    state_dir: Seq<char>,
    mode: DsMode,
) -> Seq<ProbeView> {
    let local = ProbeView::LocalDir(text::path_join(state_dir, "seed"@));
    match (seed_dir, mode) {
        (Some(dir), _) => seq![ProbeView::SeedDir(dir)],
        (None, DsMode::NoCloud) => seq![local, ProbeView::Devices(DEVICE_WAIT)],
        (None, DsMode::Ec2) => seq![ProbeView::Imds(IMDS_WAIT)],
        (None, DsMode::Auto) => seq![
            local,
            ProbeView::Devices(0),
            ProbeView::Race(PARALLEL_WAIT),
        ],
    }
}

/// Says where to look for a seed, in order:
/// an explicit directory alone; or, in mode Auto, `<state-dir>/seed`, one
/// immediate pass over the block devices, then the devices and the metadata
/// service in parallel. The first probe that finds a seed, or fails, decides.
pub fn find(seed_dir: Option<&str>, state_dir: &str, mode: DsMode) -> (r: Vec<Probe>)
    ensures
        probes(r@) == search_order(text::opt_str(seed_dir), state_dir@, mode),
{
    let mut list: Vec<Probe> = Vec::new();
    if let Some(dir) = seed_dir {
        list.push(Probe::SeedDir(dir.to_owned()));
    } else {
        if mode != DsMode::Ec2 {
            list.push(Probe::LocalDir(joined_path(state_dir, "seed")));
        }
        match mode {
            DsMode::NoCloud => {
                list.push(Probe::Devices(DEVICE_WAIT));
            },
            DsMode::Ec2 => {
                list.push(Probe::Imds(IMDS_WAIT));
            },
            DsMode::Auto => {
                list.push(Probe::Devices(0));
                list.push(Probe::Race(PARALLEL_WAIT));
            },
        }
    }
    assert(probes(list@) =~= search_order(text::opt_str(seed_dir), state_dir@, mode));
    list
}

/// What a search comes to, given the answer of each place it looks at: the
/// first seed or error.
pub open spec fn search_result(answers: Seq<Result<Option<SeedView>, Seq<char>>>) -> Result<
    Option<SeedView>,
    Seq<char>,
>
    decreases answers.len(),
{
    if answers.len() == 0 {
        Ok(None)
    } else {
        match answers[0] {
            Ok(None) => search_result(answers.drop_first()),
            decided => decided,
        }
    }
}

/// A search under way.
#[derive(Debug)]
pub struct Search {
    /// The places that are left to look at, the next one last.
    left: Vec<Probe>,
}

/// What to do next in a search.
#[derive(Debug)]
pub enum SearchStep {
    /// Look there, and give the answer to the search.
    Look(Probe, Search),
    /// The search is over.
    Over(Result<Option<Seed>, String>),
}

impl Search {
    /// The places that are left to look at, in order.
    pub closed spec fn places(self) -> Seq<ProbeView> {
        probes(self.left@).reverse()
    }

    /// Begins a search.
    pub fn begin(seed_dir: Option<&str>, state_dir: &str, mode: DsMode) -> (r: SearchStep)
        ensures
            r matches SearchStep::Look(p, s) && seq![p@] + s.places() == search_order(
                text::opt_str(seed_dir),
                state_dir@,
                mode,
            ),
    {
        let mut list = find(seed_dir, state_dir, mode);
        let ghost order = probes(list@);
        assert(order.len() >= 1);
        let mut left: Vec<Probe> = Vec::new();
        assert(probes(left@).reverse() =~= Seq::<ProbeView>::empty());
        while list.len() > 1
            invariant
                list@.len() >= 1,
                order =~= probes(list@) + probes(left@).reverse(),
            decreases list@.len(),
        {
            let ghost before = list@;
            match list.pop() {
                Some(p) => {
                    let ghost done = left@;
                    left.push(p);
                    assert(probes(left@) =~= probes(done).push(p@));
                    assert(probes(before) =~= probes(list@).push(p@));
                },
                None => {},
            }
        }
        match list.pop() {
            Some(p) => SearchStep::Look(p, Search { left }),
            None => SearchStep::Over(Ok(None)),
        }
    }

    /// Takes the answer of the place that was looked at.
    pub fn answer(self, found: Result<Option<Seed>, String>) -> (r: SearchStep)
        ensures
            match (answer_view(found), r) {
                (Ok(None), SearchStep::Look(p, s)) => self.places() == seq![p@] + s.places(),
                (Ok(None), SearchStep::Over(end)) => self.places().len() == 0 && answer_view(end)
                    == Ok::<Option<SeedView>, Seq<char>>(None),
                (decided, SearchStep::Look(_, _)) => false,
                (decided, SearchStep::Over(end)) => answer_view(end) == decided,
            },
    {
        match found {
            Ok(None) => {
                let mut left = self.left;
                let ghost before = left@;
                match left.pop() {
                    Some(p) => {
                        assert(probes(before) =~= probes(left@).push(p@));
                        let rest = Search { left };
                        assert(self.places() =~= seq![p@] + rest.places());
                        SearchStep::Look(p, rest)
                    },
                    None => SearchStep::Over(Ok(None)),
                }
            },
            decided => SearchStep::Over(decided),
        }
    }
}

/// What a search that still has to look at `places` comes to, where
/// `world` gives the answer of every place: the steps that [`Search::answer`]
/// takes.
pub open spec fn searched(
    places: Seq<ProbeView>,
    world: spec_fn(ProbeView) -> Result<Option<SeedView>, Seq<char>>,
) -> Result<Option<SeedView>, Seq<char>>
    decreases places.len(),
{
    if places.len() == 0 {
        Ok(None)
    } else {
        match world(places[0]) {
            Ok(None) => searched(places.drop_first(), world),
            decided => decided,
        }
    }
}

/// A search gives the first seed or error among the answers of the places in
/// its order.
pub proof fn first_answer_decides(
    places: Seq<ProbeView>,
    world: spec_fn(ProbeView) -> Result<Option<SeedView>, Seq<char>>,
)
    ensures
        searched(places, world) == search_result(
            Seq::new(places.len(), |i: int| world(places[i])),
        ),
    decreases places.len(),
{
    if places.len() > 0 {
        let answers = Seq::new(places.len(), |i: int| world(places[i]));
        let rest = places.drop_first();
        first_answer_decides(rest, world);
        assert(answers.drop_first() =~= Seq::new(rest.len(), |i: int| world(rest[i])));
        assert(answers[0] == world(places[0]));
    }
}

/// With an explicit seed directory no other place is looked at.
pub proof fn explicit_seed_is_the_only_place(
    dir: Seq<char>,
    state_dir: Seq<char>,
    mode: DsMode,
    world: spec_fn(ProbeView) -> Result<Option<SeedView>, Seq<char>>,
)
    ensures
        searched(search_order(Some(dir), state_dir, mode), world) == world(
            ProbeView::SeedDir(dir),
        ),
{
    let order = search_order(Some(dir), state_dir, mode);
    assert(order.drop_first() =~= Seq::<ProbeView>::empty());
    reveal_with_fuel(searched, 2);
}

/// In mode Auto a local seed comes before a device, and a device that is there
/// at once before the race.
pub proof fn auto_prefers_what_is_near(
    state_dir: Seq<char>,
    world: spec_fn(ProbeView) -> Result<Option<SeedView>, Seq<char>>,
)
    ensures
        ({
            let near = world(ProbeView::LocalDir(text::path_join(state_dir, "seed"@)));
            let device = world(ProbeView::Devices(0));
            let race = world(ProbeView::Race(PARALLEL_WAIT));
            let none = Ok::<Option<SeedView>, Seq<char>>(None);
            searched(search_order(None, state_dir, DsMode::Auto), world) == if near != none {
                near
            } else if device != none {
                device
            } else {
                race
            }
        }),
{
    let order = search_order(None, state_dir, DsMode::Auto);
    assert(order.drop_first().drop_first().drop_first() =~= Seq::<ProbeView>::empty());
    reveal_with_fuel(searched, 4);
}

/// What the answers of the two probes of a race come to, in the order in which
/// they arrive: the first seed, else the first error, else nothing.
pub open spec fn race_result(answers: Seq<Result<Option<SeedView>, Seq<char>>>) -> Result<
    Option<SeedView>,
    Seq<char>,
>
    decreases answers.len(),
{
    if answers.len() == 0 {
        Ok(None)
    } else {
        match (answers[0], race_result(answers.drop_first())) {
            (Ok(Some(seed)), _) => Ok(Some(seed)),
            (_, Ok(Some(seed))) => Ok(Some(seed)),
            (Err(e), _) => Err(e),
            (Ok(None), later) => later,
        }
    }
}

/// A race under way.
#[derive(Debug)]
pub struct Race {
    /// The probes that have not answered yet.
    pub left: u8,
    /// The first error.
    pub error: Option<String>,
}

/// What to do next in a race.
#[derive(Debug)]
pub enum RaceStep {
    /// Wait for the next answer.
    Wait(Race),
    /// A seed was found: the other probe is to be cancelled.
    Won(Seed),
    /// No probe is left, and none found a seed.
    Over(Result<Option<Seed>, String>),
}

/// What an error that came earlier makes of what comes later.
pub open spec fn after_error(
    error: Option<Seq<char>>,
    later: Result<Option<SeedView>, Seq<char>>,
) -> Result<Option<SeedView>, Seq<char>> {
    match (error, later) {
        (_, Ok(Some(seed))) => Ok(Some(seed)),
        (Some(e), _) => Err(e),
        (None, other) => other,
    }
}

/// The end of a race in which no seed was found.
pub open spec fn no_winner(error: Option<Seq<char>>) -> Result<Option<SeedView>, Seq<char>> {
    match error {
        Some(e) => Err(e),
        None => Ok(None),
    }
}

/// Begins a race between a wait for a device and the metadata service.
pub fn race_datasources() -> (r: Race)
    ensures
        r.left == 2,
        r.error is None,
{
    Race { left: 2, error: None }
}

impl Race {
    /// The first error, once an answer has come in.
    pub open spec fn error_after(self, answer: Result<Option<SeedView>, Seq<char>>) -> Option<
        Seq<char>,
    > {
        match (text::opt_text(self.error), answer) {
            (Some(e), _) => Some(e),
            (None, Err(e)) => Some(e),
            (None, Ok(_)) => None,
        }
    }

    /// Takes the next answer; `None` says that none will come any more.
    pub fn answer(self, found: Option<Result<Option<Seed>, String>>) -> (r: RaceStep)
        ensures
            match found {
                None => r matches RaceStep::Over(end) && answer_view(end) == no_winner(
                    text::opt_text(self.error),
                ),
                Some(Ok(Some(seed))) => r == RaceStep::Won(seed),
                Some(other) => match r {
                    RaceStep::Wait(race) => self.left > 1 && race.left == self.left - 1
                        && text::opt_text(race.error) == self.error_after(answer_view(other)),
                    RaceStep::Won(_) => false,
                    RaceStep::Over(end) => self.left <= 1 && answer_view(end) == no_winner(
                        self.error_after(answer_view(other)),
                    ),
                },
            },
    {
        let mut error = self.error;
        let mut open = false;
        match found {
            None => {},
            Some(Ok(Some(seed))) => return RaceStep::Won(seed),
            Some(Ok(None)) => {
                open = self.left > 1;
            },
            Some(Err(e)) => {
                if error.is_none() {
                    error = Some(e);
                }
                open = self.left > 1;
            },
        }
        if open {
            return RaceStep::Wait(Race { left: self.left - 1, error });
        }
        match error {
            Some(e) => RaceStep::Over(Err(e)),
            None => RaceStep::Over(Ok(None)),
        }
    }
}

/// What a race comes to that has `left` answers to wait for: the steps that
/// [`Race::answer`] takes.
pub open spec fn raced(
    left: int,
    error: Option<Seq<char>>,
    answers: Seq<Result<Option<SeedView>, Seq<char>>>,
) -> Result<Option<SeedView>, Seq<char>>
    decreases left,
{
    if left <= 0 || answers.len() == 0 {
        no_winner(error)
    } else {
        match answers[0] {
            Ok(Some(seed)) => Ok(Some(seed)),
            Ok(None) => raced(left - 1, error, answers.drop_first()),
            Err(e) => raced(
                left - 1,
                (if error is Some {
                    error
                } else {
                    Some(e)
                }),
                answers.drop_first(),
            ),
        }
    }
}

proof fn lemma_raced(
    left: int,
    error: Option<Seq<char>>,
    answers: Seq<Result<Option<SeedView>, Seq<char>>>,
)
    requires
        answers.len() <= left,
    ensures
        raced(left, error, answers) == after_error(error, race_result(answers)),
    decreases answers.len(),
{
    if answers.len() > 0 {
        let rest = answers.drop_first();
        match answers[0] {
            Ok(_) => {
                lemma_raced(left - 1, error, rest);
            },
            Err(e) => {
                lemma_raced(
                    left - 1,
                    if error is Some {
                        error
                    } else {
                        Some(e)
                    },
                    rest,
                );
            },
        }
    }
}

/// The first seed wins a race, even over an error that came before it; without
/// a seed the first error counts.
pub proof fn first_seed_wins(answers: Seq<Result<Option<SeedView>, Seq<char>>>)
    requires
        answers.len() <= 2,
    ensures
        raced(2, None, answers) == race_result(answers),
{
    lemma_raced(2, None, answers);
}

/// If only one of the two probes finds a seed, the race gives that seed, in
/// whichever order they answer and whatever the other one says.
pub proof fn the_only_seed_wins(
    seed: SeedView,
    other: Result<Option<SeedView>, Seq<char>>,
)
    requires
        !(other matches Ok(Some(_))),
    ensures
        race_result(seq![Ok(Some(seed)), other]) == Ok::<Option<SeedView>, Seq<char>>(Some(seed)),
        race_result(seq![other, Ok(Some(seed))]) == Ok::<Option<SeedView>, Seq<char>>(Some(seed)),
{
    let found = Ok::<Option<SeedView>, Seq<char>>(Some(seed));
    assert(seq![other, found].drop_first() =~= seq![found]);
    assert(seq![found, other].drop_first() =~= seq![other]);
    reveal_with_fuel(race_result, 3);
}

/// The seed in a directory, given what its two files hold if they can be read.
pub open spec fn dir_seed(
    dir: Seq<char>,
    meta_data: Option<Seq<char>>,
    user_data: Option<Seq<char>>,
) -> Result<SeedView, Seq<char>> {
    let meta = match meta_data {
        Some(m) => m,
        None => Seq::<char>::empty(),
    };
    if meta.len() == 0 && user_data is None {
        Err("seed directory "@ + dir + " has neither meta-data nor user-data"@)
    } else {
        Ok(SeedView { source: dir, meta_data: meta, user_data })
    }
}

/// Makes a seed of the files `meta-data` and `user-data` of a directory, as far
/// as they can be read.
pub fn read_seed_dir(dir: &str, meta_data: Option<String>, user_data: Option<String>) -> (r: Result<
    Seed,
    String,
>)
    ensures
        seed_result(r) == dir_seed(dir@, text::opt_text(meta_data), text::opt_text(user_data)),
{
    let meta = match meta_data {
        Some(m) => m,
        None => String::new(),
    };
    assert(meta_data is None ==> meta@ =~= Seq::<char>::empty());
    if meta.as_str().is_empty() && user_data.is_none() {
        let mut m = "seed directory ".to_owned();
        m.append(dir);
        m.append(" has neither meta-data nor user-data");
        return Err(m);
    }
    Ok(Seed { source: dir.to_owned(), meta_data: meta, user_data })
}

/// The answer of a directory that may hold a seed; `present` says whether one
/// of its two files exists.
pub fn local_seed(
    dir: &str,
    present: bool,
    meta_data: Option<String>,
    user_data: Option<String>,
) -> (r: Result<Option<Seed>, String>)
    ensures
        answer_view(r) == if !present {
            Ok(None)
        } else {
            match dir_seed(dir@, text::opt_text(meta_data), text::opt_text(user_data)) {
                Ok(seed) => Ok(Some(seed)),
                Err(e) => Err(e),
            }
        },
        present && user_data is Some ==> (r matches Ok(Some(seed)) && seed@.user_data
            == text::opt_text(user_data)),
        !present ==> r matches Ok(None),
{
    if !present {
        return Ok(None);
    }
    match read_seed_dir(dir, meta_data, user_data) {
        Ok(seed) => Ok(Some(seed)),
        Err(e) => Err(e),
    }
}

/// What to do after an attempt to find a seed.
#[derive(Debug)]
pub enum Wait {
    /// A seed was found.
    Found(Seed),
    /// Time is up, or the seed was found elsewhere.
    GiveUp,
    /// Try again after so many milliseconds.
    Sleep(u64),
}

/// What to do after an attempt that may be repeated.
pub open spec fn waits(
    found: Option<Seed>,
    cancelled: bool,
    expired: bool,
    pause: u64,
) -> Wait {
    match found {
        Some(seed) => Wait::Found(seed),
        None => if cancelled || expired {
            Wait::GiveUp
        } else {
            Wait::Sleep(pause)
        },
    }
}

/// Decides after a pass over the block devices. A seed counts even when the
/// time is up.
pub fn find_block_device(found: Option<Seed>, cancelled: bool, expired: bool) -> (r: Wait)
    ensures
        r == waits(found, cancelled, expired, 500),
        r is Found <==> found is Some,
        r is GiveUp <==> found is None && (cancelled || expired),
{
    match found {
        Some(seed) => Wait::Found(seed),
        None => {
            if cancelled || expired {
                Wait::GiveUp
            } else {
                Wait::Sleep(500)
            }
        },
    }
}

/// The devices that carry a label of a seed.
pub open spec fn labelled() -> Seq<Seq<char>> {
    seq!["/dev/disk/by-label/cidata"@, "/dev/disk/by-label/CIDATA"@]
}

/// The devices that carry a label of a seed; they are tried first.
pub fn labelled_devices() -> (r: Vec<String>)
    ensures
        text::texts(r@) == labelled(),
{
    let mut r: Vec<String> = Vec::new();
    r.push("/dev/disk/by-label/cidata".to_owned());
    r.push("/dev/disk/by-label/CIDATA".to_owned());
    assert(text::texts(r@) =~= labelled());
    r
}

/// Whether a block device is worth a try, by its name and by the text that
/// gives its size: not a loop, memory or mapper device, and not without a size.
pub open spec fn worth_a_try(name: Seq<char>, size: Seq<char>) -> bool {
    &&& !"loop"@.is_prefix_of(name)
    &&& !"ram"@.is_prefix_of(name)
    &&& !"zram"@.is_prefix_of(name)
    &&& !"dm-"@.is_prefix_of(name)
    &&& text::trim(size) != "0"@
    &&& size.len() > 0
}

/// A block device: its name, and the text that gives its size, empty if that
/// cannot be read.
#[derive(Debug)]
pub struct BlockEntry {
    pub name: String,
    pub size: String,
}

/// The names and sizes of block devices.
pub open spec fn block_entries(list: Seq<BlockEntry>) -> Seq<(Seq<char>, Seq<char>)> {
    Seq::new(list.len(), |i: int| (list[i].name@, list[i].size@))
}

/// The paths of the block devices that are worth a try, in their order.
pub open spec fn candidates(entries: Seq<(Seq<char>, Seq<char>)>) -> Seq<Seq<char>>
    decreases entries.len(),
{
    if entries.len() == 0 {
        Seq::<Seq<char>>::empty()
    } else {
        let before = candidates(entries.drop_last());
        let (name, size) = entries.last();
        if worth_a_try(name, size) {
            before.push(text::path_join("/dev"@, name))
        } else {
            before
        }
    }
}

fn is_worth_a_try(name: &str, size: &str) -> (r: bool)
    ensures
        r == worth_a_try(name@, size@),
{
    if begins_with(name, "loop") || begins_with(name, "ram") || begins_with(name, "zram")
        || begins_with(name, "dm-") {
        return false;
    }
    !same(trimmed(size).as_str(), "0") && !size.is_empty()
}

/// Says which block devices to try, in their order, once none of the devices
/// that carry a label has a seed.
pub fn scan_block_devices(entries: &Vec<BlockEntry>) -> (r: Vec<String>)
    ensures
        text::texts(r@) == candidates(block_entries(entries@)),
{
    let mut r: Vec<String> = Vec::new();
    let ghost all = block_entries(entries@);
    let n: usize = entries.len();
    let mut i: usize = 0;
    assert(text::texts(r@) =~= candidates(all.take(0)));
    while i < n
        invariant
            n == entries@.len(),
            all == block_entries(entries@),
            0 <= i <= n,
            text::texts(r@) == candidates(all.take(i as int)),
        decreases n - i,
    {
        proof {
            assert(all.take(i + 1).drop_last() =~= all.take(i as int));
            assert(all.take(i + 1).last() == all[i as int]);
        }
        let name = entries[i].name.as_str();
        if is_worth_a_try(name, entries[i].size.as_str()) {
            let ghost before = text::texts(r@);
            let path = joined_path("/dev", name);
            r.push(path);
            assert(text::texts(r@) =~= before.push(path@));
        }
        i = i + 1;
    }
    assert(all.take(n as int) =~= all);
    r
}

/// The file systems that a seed device may have.
pub open spec fn seed_filesystems() -> Seq<Seq<char>> {
    seq!["iso9660"@, "vfat"@]
}

/// The file systems that a seed device may have, in the order in which they
/// are tried.
pub fn filesystem_types() -> (r: Vec<String>)
    ensures
        text::texts(r@) == seed_filesystems(),
{
    let mut r: Vec<String> = Vec::new();
    r.push("iso9660".to_owned());
    r.push("vfat".to_owned());
    assert(text::texts(r@) =~= seed_filesystems());
    r
}

/// The seed on a device that is mounted.
pub open spec fn device_seed(
    dev: Seq<char>,
    fstype: Seq<char>,
    present: bool,
    meta_data: Option<Seq<char>>,
    user_data: Option<Seq<char>>,
) -> Option<SeedView> {
    if !present {
        None
    } else {
        match dir_seed(mount_dir(), meta_data, user_data) {
            Ok(seed) => Some(
                SeedView {
                    source: dev + " ("@ + fstype + ")"@,
                    meta_data: seed.meta_data,
                    user_data: seed.user_data,
                },
            ),
            Err(_) => None,
        }
    }
}

/// Makes a seed of what a mounted device holds; `present` says whether one of
/// the two files of a seed exists on it.
pub fn try_device(
    dev: &str,
    fstype: &str,
    present: bool,
    meta_data: Option<String>,
    user_data: Option<String>,
) -> (r: Option<Seed>)
    ensures
        opt_seed(r) == device_seed(
            dev@,
            fstype@,
            present,
            text::opt_text(meta_data),
            text::opt_text(user_data),
        ),
{
    if !present {
        return None;
    }
    match read_seed_dir(mount_point(), meta_data, user_data) {
        Ok(mut seed) => {
            let mut source = dev.to_owned();
            source.append(" (");
            source.append(fstype);
            source.append(")");
            seed.source = source;
            Some(seed)
        },
        Err(_) => None,
    }
}

} // verus!
