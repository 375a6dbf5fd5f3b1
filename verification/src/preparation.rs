//! The preparation of an attempt, step by step: it is told what the outside world answers, and
//! says what it needs to know next.

use std::sync::Arc;
use vstd::prelude::*;
use vstd::string::*;

use crate::config::{usable, CfgEntry, CfgView};
use crate::files::{ReadFile, ReadFileView};
use crate::json::list_view;
use crate::mime::{can_tell, mime_fits, tellable};
use crate::preflight::{
    law_one_usable_configuration_is_enough, law_positions_are_the_usable_ones, rotation, rotation_order, usable_positions, valid_positions, Preflight, PreflightError,
    PreflightErrorView, PreflightView,
};
use crate::reading::{
    about_file, check_file_size, data_view, file_of, file_paths, mime_of, parse_file_paths,
    read_file, sound_file, stat_message, too_large_message, total_message,
    MAX_FILE_BYTES, MAX_TOTAL_FILE_BYTES,
};
use crate::text::{decimal, join3, to_decimal};

verus! {

/// What is known of a file without reading it: its length, and the second of its last
/// change, where it is known.
#[derive(Debug, PartialEq, Eq)]
pub struct FileStat {
    pub len: u64,
    pub modified: Option<u64>,
}

/// Where the preparation stands, which also says what it waits for.
#[derive(Debug, PartialEq, Eq)]
pub enum PreflightRun {
    /// The sizes are added up: waits for the metadata of `paths[next]`.
    Sizing { paths: Vec<String>, next: usize, total_bytes: u64 },
    /// The files are read: waits for the metadata of the next one.
    Checking { paths: Vec<String>, read_files: Vec<ReadFile> },
    /// The files are read: waits for the bytes of the next one.
    Reading { paths: Vec<String>, read_files: Vec<ReadFile>, modified: u64 },
    /// Waits for a snapshot of the configurations.
    Snapshot { read_files: Vec<ReadFile> },
    /// Waits to hear whether there is a network.
    Probing { read_files: Vec<ReadFile>, cfg_snapshot: Arc<Vec<CfgEntry>>, valid: Vec<usize> },
    /// Waits to hear where the rotation stands.
    Rotating { read_files: Vec<ReadFile>, cfg_snapshot: Arc<Vec<CfgEntry>>, valid: Vec<usize> },
}

/// A `PreflightRun` over sequences.
pub enum PreflightRunView {
    Sizing { paths: Seq<Seq<char>>, next: nat, total_bytes: nat },
    Checking { paths: Seq<Seq<char>>, files: Seq<ReadFileView> },
    Reading { paths: Seq<Seq<char>>, files: Seq<ReadFileView>, modified: u64 },
    Snapshot { files: Seq<ReadFileView> },
    Probing { files: Seq<ReadFileView>, cfgs: Seq<CfgView>, valid: Seq<usize> },
    Rotating { files: Seq<ReadFileView>, cfgs: Seq<CfgView>, valid: Seq<usize> },
}

impl View for PreflightRun {
    type V = PreflightRunView;

    open spec fn view(&self) -> PreflightRunView {
        match *self {
            PreflightRun::Sizing { paths, next, total_bytes } => PreflightRunView::Sizing {
                paths: paths.deep_view(),
                next: next as nat,
                total_bytes: total_bytes as nat,
            },
            PreflightRun::Checking { paths, read_files } => PreflightRunView::Checking {
                paths: paths.deep_view(),
                files: read_files.deep_view(),
            },
            PreflightRun::Reading { paths, read_files, modified } => PreflightRunView::Reading {
                paths: paths.deep_view(),
                files: read_files.deep_view(),
                modified,
            },
            PreflightRun::Snapshot { read_files } => PreflightRunView::Snapshot {
                files: read_files.deep_view(),
            },
            PreflightRun::Probing { read_files, cfg_snapshot, valid } => {
                PreflightRunView::Probing {
                    files: read_files.deep_view(),
                    cfgs: cfg_snapshot.deep_view(),
                    valid: valid@,
                }
            },
            PreflightRun::Rotating { read_files, cfg_snapshot, valid } => {
                PreflightRunView::Rotating {
                    files: read_files.deep_view(),
                    cfgs: cfg_snapshot.deep_view(),
                    valid: valid@,
                }
            },
        }
    }
}

/// What the preparation is told.
#[derive(Debug, PartialEq, Eq)]
pub enum PreflightEvent {
    /// The metadata of a file, or why there is none.
    Stat(Result<FileStat, String>),
    /// The bytes of a file, or why there are none.
    Data(Result<Vec<u8>, String>),
    /// The configurations; `None` where they cannot be had.
    Configs(Option<Arc<Vec<CfgEntry>>>),
    /// Whether there is a network.
    Network(bool),
    /// Where the rotation stands.
    Rotation(usize),
}

/// A `PreflightEvent` over sequences.
pub enum PreflightEventView {
    Stat(Result<FileStat, Seq<char>>),
    Data(Result<Seq<u8>, Seq<char>>),
    Configs(Option<Seq<CfgView>>),
    Network(bool),
    Rotation(nat),
}

impl View for PreflightEvent {
    type V = PreflightEventView;

    open spec fn view(&self) -> PreflightEventView {
        match *self {
            PreflightEvent::Stat(Ok(stat)) => PreflightEventView::Stat(Ok(stat)),
            PreflightEvent::Stat(Err(why)) => PreflightEventView::Stat(Err(why@)),
            PreflightEvent::Data(data) => PreflightEventView::Data(data_view(data)),
            PreflightEvent::Configs(Some(cfgs)) => PreflightEventView::Configs(
                Some(cfgs.deep_view()),
            ),
            PreflightEvent::Configs(None) => PreflightEventView::Configs(None),
            PreflightEvent::Network(up) => PreflightEventView::Network(up),
            PreflightEvent::Rotation(pointer) => PreflightEventView::Rotation(pointer as nat),
        }
    }
}

/// How the preparation goes on.
#[derive(Debug, PartialEq, Eq)]
pub enum PreflightStep {
    Next(PreflightRun),
    Ready(Preflight),
    Failed(PreflightError),
}

/// A `PreflightStep` over sequences.
pub enum PreflightStepView {
    Next(PreflightRunView),
    Ready(PreflightView),
    Failed(PreflightErrorView),
}

impl View for PreflightStep {
    type V = PreflightStepView;

    open spec fn view(&self) -> PreflightStepView {
        match *self {
            PreflightStep::Next(run) => PreflightStepView::Next(run@),
            PreflightStep::Ready(preflight) => PreflightStepView::Ready(preflight@),
            PreflightStep::Failed(error) => PreflightStepView::Failed(error@),
        }
    }
}

/// The files read so far are sound, and they are the first of those asked for.
pub open spec fn files_so_far(paths: Seq<Seq<char>>, files: Seq<ReadFileView>) -> bool {
    &&& files.len() <= paths.len()
    &&& forall|i: int|
        0 <= i < files.len() ==> (#[trigger] files[i]).path == paths[i] && sound_file(files[i])
}

/// All files are sound.
pub open spec fn sound_files(files: Seq<ReadFileView>) -> bool {
    forall|i: int| 0 <= i < files.len() ==> sound_file(#[trigger] files[i])
}

/// There are configurations to try, at the positions of those that can be used.
pub open spec fn keys_to_try(cfgs: Seq<CfgView>, valid: Seq<usize>) -> bool {
    cfgs.len() <= usize::MAX && valid == usable_positions(cfgs) && valid.len() > 0
}

impl PreflightRunView {
    /// What holds wherever the preparation stands.
    pub open spec fn wf(self) -> bool {
        match self {
            PreflightRunView::Sizing { paths, next, total_bytes } => next < paths.len(),
            PreflightRunView::Checking { paths, files } => {
                files.len() < paths.len() && files_so_far(paths, files)
            },
            PreflightRunView::Reading { paths, files, modified } => {
                files.len() < paths.len() && files_so_far(paths, files)
            },
            PreflightRunView::Snapshot { files } => sound_files(files),
            PreflightRunView::Probing { files, cfgs, valid } => {
                sound_files(files) && keys_to_try(cfgs, valid)
            },
            PreflightRunView::Rotating { files, cfgs, valid } => {
                sound_files(files) && keys_to_try(cfgs, valid)
            },
        }
    }

    /// The event is the one waited for.
    pub open spec fn awaits(self, event: PreflightEventView) -> bool {
        match self {
            PreflightRunView::Sizing { .. } => event is Stat,
            PreflightRunView::Checking { .. } => event is Stat,
            PreflightRunView::Reading { .. } => event is Data,
            PreflightRunView::Snapshot { .. } => event is Configs,
            PreflightRunView::Probing { .. } => event is Network,
            PreflightRunView::Rotating { .. } => event is Rotation,
        }
    }

    /// The sizes can be added up.
    pub open spec fn can_add(self, event: PreflightEventView) -> bool {
        self matches PreflightRunView::Sizing { total_bytes, .. } ==> event
            matches PreflightEventView::Stat(Ok(stat)) ==> total_bytes + stat.len <= u64::MAX
    }
}

/// The paths of the files.
pub open spec fn paths_of(files: Seq<ReadFileView>) -> Seq<Seq<char>> {
    files.map_values(|file: ReadFileView| file.path)
}

/// Nothing is tried, for this reason.
pub open spec fn refused(status: Seq<char>, message: Seq<char>) -> PreflightStepView {
    PreflightStepView::Failed(PreflightErrorView { status, message })
}

/// The files are read next, if there are any.
pub open spec fn reading_on(paths: Seq<Seq<char>>, files: Seq<ReadFileView>) -> PreflightStepView {
    PreflightStepView::Next(
        if files.len() < paths.len() {
            PreflightRunView::Checking { paths, files }
        } else {
            PreflightRunView::Snapshot { files }
        },
    )
}

/// The sizes are added up to `total` over the first `next` paths.
pub open spec fn sizing_on(paths: Seq<Seq<char>>, next: nat, total: nat) -> PreflightStepView {
    if next < paths.len() {
        PreflightStepView::Next(PreflightRunView::Sizing { paths, next, total_bytes: total })
    } else if total > MAX_TOTAL_FILE_BYTES {
        refused("TOTAL_FILE_SIZE_EXCEEDED"@, total_message(total))
    } else {
        reading_on(paths, Seq::empty())
    }
}

/// How the preparation begins for a list of files.
pub open spec fn preflight_start(paths: Result<Seq<Seq<char>>, Seq<char>>) -> PreflightStepView {
    match paths {
        Err(message) => refused("BAD_FILE_PATH_JSON"@, message),
        Ok(paths) => sizing_on(paths, 0, 0),
    }
}

/// How the preparation goes on. `mime` is the type of the file whose bytes came.
pub open spec fn preflight_next(
    run: PreflightRunView,
    event: PreflightEventView,
    mime: Seq<char>,
) -> PreflightStepView
    recommends
        run.wf(),
        run.awaits(event),
{
    match (run, event) {
        (
            PreflightRunView::Sizing { paths, next, total_bytes },
            PreflightEventView::Stat(stat),
        ) => match stat {
            Err(why) => refused("FILE_READ_ERROR"@, stat_message(paths[next as int], why)),
            Ok(stat) => sizing_on(paths, next + 1, total_bytes + stat.len as nat),
        },
        (PreflightRunView::Checking { paths, files }, PreflightEventView::Stat(stat)) => {
            let path = paths[files.len() as int];
            match stat {
                Err(why) => refused("FILE_READ_ERROR"@, stat_message(path, why)),
                Ok(stat) => if stat.len > MAX_FILE_BYTES {
                    refused("FILE_READ_ERROR"@, too_large_message(path))
                } else {
                    PreflightStepView::Next(
                        PreflightRunView::Reading {
                            paths,
                            files,
                            modified: match stat.modified {
                                Some(second) => second,
                                None => 0,
                            },
                        },
                    )
                },
            }
        },
        (PreflightRunView::Reading { paths, files, modified }, PreflightEventView::Data(data)) => {
            match file_of(paths[files.len() as int], data, modified, mime) {
                Err(message) => refused("FILE_READ_ERROR"@, message),
                Ok(file) => reading_on(paths, files.push(file)),
            }
        },
        (PreflightRunView::Snapshot { files }, PreflightEventView::Configs(cfgs)) => match cfgs {
            None => refused("LOCK_POISONED"@, "configuration lock is poisoned"@),
            Some(cfgs) => if usable_positions(cfgs).len() == 0 {
                refused("NO_VALID_CONFIG"@, "no valid configuration found"@)
            } else {
                PreflightStepView::Next(
                    PreflightRunView::Probing { files, cfgs, valid: usable_positions(cfgs) },
                )
            },
        },
        (PreflightRunView::Probing { files, cfgs, valid }, PreflightEventView::Network(up)) => if up {
            PreflightStepView::Next(PreflightRunView::Rotating { files, cfgs, valid })
        } else {
            refused(
                "NETWORK_UNAVAILABLE"@,
                "no network connection, aborting before trying api keys"@,
            )
        },
        (PreflightRunView::Rotating { files, cfgs, valid }, PreflightEventView::Rotation(pointer)) =>
        PreflightStepView::Ready(
            PreflightView { files, cfgs, valid, order: rotation(valid.len(), pointer) },
        ),
        _ => arbitrary(),
    }
}

/// What holds of a step: where the preparation goes on, it stands well, and what it settles
/// can be relied on.
pub open spec fn step_wf(step: PreflightStepView) -> bool {
    match step {
        PreflightStepView::Next(run) => run.wf(),
        PreflightStepView::Ready(preflight) => preflight.wf(),
        PreflightStepView::Failed(_) => true,
    }
}

/// The type that the file gets whose bytes have come fits its path and its bytes; a file
/// without bytes gets none.
pub open spec fn event_mime_fits(
    run: PreflightRunView,
    event: PreflightEventView,
    mime: Seq<char>,
) -> bool {
    run matches PreflightRunView::Reading { paths, files, .. } ==> event
        matches PreflightEventView::Data(Ok(data)) ==> data.len() > 0 ==> mime_fits(
        paths[files.len() as int],
        data,
        mime,
    )
}

/// The type of the file whose bytes have come can be told.
pub open spec fn file_tellable(run: PreflightRunView, event: PreflightEventView) -> bool {
    run matches PreflightRunView::Reading { paths, files, .. } ==> event
        matches PreflightEventView::Data(Ok(data)) ==> tellable(paths[files.len() as int], data)
}

/// Nothing is tried, for this reason.
fn refuse(status: &'static str, message: String) -> (step: PreflightStep)
    ensures
        step@ == refused(status@, message@),
{
    PreflightStep::Failed(PreflightError::new(status, message))
}

/// The files are read next, if there are any.
fn read_on(paths: Vec<String>, read_files: Vec<ReadFile>) -> (step: PreflightStep)
    ensures
        step@ == reading_on(paths.deep_view(), read_files.deep_view()),
{
    if read_files.len() < paths.len() {
        PreflightStep::Next(PreflightRun::Checking { paths, read_files })
    } else {
        PreflightStep::Next(PreflightRun::Snapshot { read_files })
    }
}

/// The sizes are added up.
fn size_on(paths: Vec<String>, next: usize, total_bytes: u64) -> (step: PreflightStep)
    ensures
        step@ == sizing_on(paths.deep_view(), next as nat, total_bytes as nat),
{
    if next < paths.len() {
        return PreflightStep::Next(PreflightRun::Sizing { paths, next, total_bytes });
    }
    if total_bytes > MAX_TOTAL_FILE_BYTES {
        let total = to_decimal(total_bytes);
        let limit = to_decimal(MAX_TOTAL_FILE_BYTES);
        let mut message = join3(
            "combined size of all files (",
            total.as_str(),
            " bytes) exceeds max total upload size of ",
        );
        message.append(limit.as_str());
        message.append(" bytes");
        return refuse("TOTAL_FILE_SIZE_EXCEEDED", message);
    }
    let none: Vec<ReadFile> = Vec::new();
    assert(none.deep_view() == Seq::<ReadFileView>::empty());
    read_on(paths, none)
}

/// Begins the preparation with the paths of the files, or with the message that there are
/// none.
pub fn begin_preflight(paths: Result<Vec<String>, String>) -> (step: PreflightStep)
    ensures
        step@ == preflight_start(list_view(paths)),
        step_wf(step@),
{
    match paths {
        Err(message) => refuse("BAD_FILE_PATH_JSON", message),
        Ok(paths) => size_on(paths, 0, 0),
    }
}

/// Begins the preparation for a list of files.
pub fn start_preflight(fp: &str) -> (step: PreflightStep)
    ensures
        step@ == preflight_start(file_paths(fp@)),
        step_wf(step@),
{
    begin_preflight(parse_file_paths(fp))
}

/// Goes on with the preparation: takes what it waited for, and says what it waits for next,
/// what is settled, or why nothing is tried.
pub fn run_preflight(run: PreflightRun, event: PreflightEvent) -> (step: PreflightStep)
    requires
        run@.wf(),
        run@.awaits(event@),
        run@.can_add(event@),
        file_tellable(run@, event@),
    ensures
        exists|mime: Seq<char>|
            event_mime_fits(run@, event@, mime) && step@ == #[trigger] preflight_next(
                run@,
                event@,
                mime,
            ),
        !(event is Data) ==> step@ == preflight_next(run@, event@, Seq::empty()),
        step_wf(step@),
{
    let ghost mut mime: Seq<char> = Seq::empty();
    let step = match (run, event) {
        (PreflightRun::Sizing { paths, next, total_bytes }, PreflightEvent::Stat(stat)) => {
            assert(paths.deep_view().len() == paths.len());
            assert(paths.deep_view()[next as int] == paths@[next as int]@);
            match stat {
                Err(why) => {
                    let mut message = about_file("cannot stat ", paths[next].as_str(), ": ");
                    message.append(why.as_str());
                    refuse("FILE_READ_ERROR", message)
                },
                Ok(stat) => size_on(paths, next + 1, total_bytes + stat.len),
            }
        },
        (PreflightRun::Checking { paths, read_files }, PreflightEvent::Stat(stat)) => {
            let index = read_files.len();
            assert(paths.deep_view()[index as int] == paths@[index as int]@);
            match stat {
                Err(why) => {
                    let mut message = about_file("cannot stat ", paths[index].as_str(), ": ");
                    message.append(why.as_str());
                    refuse("FILE_READ_ERROR", message)
                },
                Ok(stat) => match check_file_size(paths[index].as_str(), stat.len) {
                    Err(message) => refuse("FILE_READ_ERROR", message),
                    Ok(()) => {
                        let modified = match stat.modified {
                            Some(second) => second,
                            None => 0,
                        };
                        PreflightStep::Next(PreflightRun::Reading { paths, read_files, modified })
                    },
                },
            }
        },
        (PreflightRun::Reading { paths, read_files, modified }, PreflightEvent::Data(data)) => {
            let index = read_files.len();
            let ghost path = paths.deep_view()[index as int];
            assert(path == paths@[index as int]@);
            let file = read_file(paths[index].as_str(), data, modified);
            proof {
                mime = mime_of(file);
            }
            match file {
                Err(message) => refuse("FILE_READ_ERROR", message),
                Ok(read) => {
                    let ghost before = read_files.deep_view();
                    let mut read_files = read_files;
                    read_files.push(read);
                    assert(read_files.deep_view() == before.push(read@));
                    read_on(paths, read_files)
                },
            }
        },
        (PreflightRun::Snapshot { read_files }, PreflightEvent::Configs(cfgs)) => match cfgs {
            None => refuse("LOCK_POISONED", "configuration lock is poisoned".to_owned()),
            Some(cfg_snapshot) => {
                let valid = valid_positions(&cfg_snapshot);
                assert(cfg_snapshot.deep_view().len() == (*cfg_snapshot).len());
                if valid.len() == 0 {
                    refuse("NO_VALID_CONFIG", "no valid configuration found".to_owned())
                } else {
                    PreflightStep::Next(PreflightRun::Probing { read_files, cfg_snapshot, valid })
                }
            },
        },
        (
            PreflightRun::Probing { read_files, cfg_snapshot, valid },
            PreflightEvent::Network(up),
        ) => {
            if up {
                PreflightStep::Next(PreflightRun::Rotating { read_files, cfg_snapshot, valid })
            } else {
                refuse(
                    "NETWORK_UNAVAILABLE",
                    "no network connection, aborting before trying api keys".to_owned(),
                )
            }
        },
        (
            PreflightRun::Rotating { read_files, cfg_snapshot, valid },
            PreflightEvent::Rotation(pointer),
        ) => {
            let order = rotation_order(valid.len(), pointer);
            PreflightStep::Ready(Preflight { read_files, cfg_snapshot, valid, order })
        },
        _ => {
            assert(false);
            refuse("", String::new())
        },
    };
    assert(step@ == preflight_next(run@, event@, mime));
    step
}

/// Goes on with the preparation, unless it is told the bytes of a file whose type cannot be
/// told on this platform.
pub fn try_preflight(run: PreflightRun, event: PreflightEvent) -> (step: Option<PreflightStep>)
    requires
        run@.wf(),
        run@.awaits(event@),
        run@.can_add(event@),
    ensures
        step is Some <==> file_tellable(run@, event@),
        step matches Some(next) ==> {
            &&& exists|mime: Seq<char>|
                event_mime_fits(run@, event@, mime) && next@ == #[trigger] preflight_next(
                    run@,
                    event@,
                    mime,
                )
            &&& !(event is Data) ==> next@ == preflight_next(run@, event@, Seq::empty())
            &&& step_wf(next@)
        },
{
    if let PreflightRun::Reading { paths, read_files, .. } = &run {
        if let PreflightEvent::Data(Ok(data)) = &event {
            let index = read_files.len();
            assert(paths.deep_view()[index as int] == paths@[index as int]@);
            if !can_tell(paths[index].as_str(), data) {
                return None;
            }
        }
    }
    Some(run_preflight(run, event))
}

/// The preparation as it stands after it was told these events, each with the type of the
/// file whose bytes it brought; what comes after its end changes nothing.
pub open spec fn preflight_after(
    start: PreflightStepView,
    told: Seq<(PreflightEventView, Seq<char>)>,
) -> PreflightStepView
    decreases told.len(),
{
    if told.len() == 0 {
        start
    } else {
        match preflight_after(start, told.drop_last()) {
            PreflightStepView::Next(run) => preflight_next(run, told.last().0, told.last().1),
            over => over,
        }
    }
}

/// Each event is the one that the preparation waits for when it comes, and there are no more
/// bytes in a file and no more configurations than a machine can hold.
pub open spec fn told_in_turn(
    start: PreflightStepView,
    told: Seq<(PreflightEventView, Seq<char>)>,
) -> bool
    decreases told.len(),
{
    told.len() > 0 ==> {
        &&& told_in_turn(start, told.drop_last())
        &&& preflight_after(start, told.drop_last()) matches PreflightStepView::Next(run)
            && run.awaits(told.last().0)
        &&& told.last().0 matches PreflightEventView::Data(Ok(data)) ==> data.len() <= usize::MAX
        &&& told.last().0 matches PreflightEventView::Configs(Some(cfgs)) ==> cfgs.len()
            <= usize::MAX
    }
}

/// The sum of the lengths in the first `n` events.
pub open spec fn told_bytes(told: Seq<(PreflightEventView, Seq<char>)>, n: nat) -> nat
    decreases n,
{
    if n == 0 {
        0
    } else {
        told_bytes(told, (n - 1) as nat) + match told[n - 1].0 {
            PreflightEventView::Stat(Ok(stat)) => stat.len as nat,
            _ => 0,
        }
    }
}

/// File `i` is what the events say of it: it was found to be small enough, and these are its
/// path, its time of change, its bytes and its type.
pub open spec fn file_as_told(
    paths: Seq<Seq<char>>,
    told: Seq<(PreflightEventView, Seq<char>)>,
    file: ReadFileView,
    i: int,
) -> bool {
    let at = paths.len() + 2 * i;
    &&& told[at].0 matches PreflightEventView::Stat(Ok(stat)) && stat.len <= MAX_FILE_BYTES
        && file.modified == (match stat.modified {
        Some(second) => second,
        None => 0,
    })
    &&& told[at + 1].0 == PreflightEventView::Data(Ok(file.data))
    &&& file.path == paths[i]
    &&& file.mime == told[at + 1].1
    &&& sound_file(file)
}

/// The files are what the events say of the first of them, and all sizes were added up before
/// the first was read.
pub open spec fn files_as_told(
    paths: Seq<Seq<char>>,
    told: Seq<(PreflightEventView, Seq<char>)>,
    files: Seq<ReadFileView>,
) -> bool {
    &&& told_bytes(told, paths.len()) <= MAX_TOTAL_FILE_BYTES
    &&& forall|i: int| 0 <= i < files.len() ==> file_as_told(paths, told, #[trigger] files[i], i)
}

/// Where the preparation stands is what the events say.
spec fn step_as_told(
    paths: Seq<Seq<char>>,
    told: Seq<(PreflightEventView, Seq<char>)>,
    step: PreflightStepView,
) -> bool {
    let n = paths.len();
    match step {
        PreflightStepView::Failed(_) => true,
        PreflightStepView::Next(run) => run.wf() && match run {
            PreflightRunView::Sizing { paths: p, next, total_bytes } => {
                p == paths && told.len() == next && total_bytes == told_bytes(told, next)
            },
            PreflightRunView::Checking { paths: p, files } => {
                p == paths && told.len() == n + 2 * files.len() && files_as_told(paths, told, files)
            },
            PreflightRunView::Reading { paths: p, files, modified } => {
                &&& p == paths
                &&& told.len() == n + 2 * files.len() + 1
                &&& files_as_told(paths, told, files)
                &&& told.last().0 matches PreflightEventView::Stat(Ok(stat)) && stat.len
                    <= MAX_FILE_BYTES && modified == (match stat.modified {
                    Some(second) => second,
                    None => 0,
                })
            },
            PreflightRunView::Snapshot { files } => {
                told.len() == 3 * n && files.len() == n && files_as_told(paths, told, files)
            },
            PreflightRunView::Probing { files, cfgs, valid } => {
                &&& told.len() == 3 * n + 1
                &&& files.len() == n
                &&& files_as_told(paths, told, files)
                &&& told[3 * n as int].0 == PreflightEventView::Configs(Some(cfgs))
            },
            PreflightRunView::Rotating { files, cfgs, valid } => {
                &&& told.len() == 3 * n + 2
                &&& files.len() == n
                &&& files_as_told(paths, told, files)
                &&& told[3 * n as int].0 == PreflightEventView::Configs(Some(cfgs))
                &&& told[3 * n as int + 1].0 == PreflightEventView::Network(true)
            },
        },
        PreflightStepView::Ready(preflight) => settled_as_told(paths, told, preflight),
    }
}

/// What is settled is what the events say, no more and no less.
pub open spec fn settled_as_told(
    paths: Seq<Seq<char>>,
    told: Seq<(PreflightEventView, Seq<char>)>,
    preflight: PreflightView,
) -> bool {
    let n = paths.len();
    &&& told.len() == 3 * n + 3
    &&& preflight.files.len() == n
    &&& files_as_told(paths, told, preflight.files)
    &&& told[3 * n as int].0 == PreflightEventView::Configs(Some(preflight.cfgs))
    &&& preflight.valid == usable_positions(preflight.cfgs)
    &&& preflight.valid.len() > 0
    &&& told[3 * n as int + 1].0 == PreflightEventView::Network(true)
    &&& told[3 * n as int + 2].0 matches PreflightEventView::Rotation(pointer) && preflight.order
        == rotation(preflight.valid.len(), pointer)
}

/// The first lengths add up to the same, whatever is told later.
proof fn lemma_told_bytes(told: Seq<(PreflightEventView, Seq<char>)>, n: nat)
    requires
        n < told.len(),
    ensures
        told_bytes(told, n) == told_bytes(told.drop_last(), n),
    decreases n,
{
    if n > 0 {
        lemma_told_bytes(told, (n - 1) as nat);
    }
}

/// Files that are as told stay so, whatever is told later.
proof fn lemma_files_as_told(
    paths: Seq<Seq<char>>,
    told: Seq<(PreflightEventView, Seq<char>)>,
    files: Seq<ReadFileView>,
)
    requires
        told.len() > paths.len() + 2 * files.len(),
        files_as_told(paths, told.drop_last(), files),
    ensures
        files_as_told(paths, told, files),
{
    lemma_told_bytes(told, paths.len());
    assert forall|i: int| 0 <= i < files.len() implies file_as_told(
        paths,
        told,
        #[trigger] files[i],
        i,
    ) by {
        assert(file_as_told(paths, told.drop_last(), files[i], i));
    }
}

/// The preparation always stands where the events say.
proof fn lemma_step_as_told(paths: Seq<Seq<char>>, told: Seq<(PreflightEventView, Seq<char>)>)
    requires
        told_in_turn(preflight_start(Ok(paths)), told),
    ensures
        step_as_told(paths, told, preflight_after(preflight_start(Ok(paths)), told)),
    decreases told.len(),
{
    let start = preflight_start(Ok(paths));
    if told.len() > 0 {
        let before = told.drop_last();
        lemma_step_as_told(paths, before);
        let run = preflight_after(start, before)->Next_0;
        let step = preflight_after(start, told);
        match run {
            PreflightRunView::Sizing { paths: p, next, total_bytes } => {
                lemma_told_bytes(told, next);
            },
            PreflightRunView::Checking { paths: p, files } => {
                lemma_files_as_told(paths, told, files);
            },
            PreflightRunView::Reading { paths: p, files, modified } => {
                lemma_files_as_told(paths, told, files);
                if let PreflightStepView::Next(next) = step {
                    let all = match next {
                        PreflightRunView::Checking { files, .. } => files,
                        PreflightRunView::Snapshot { files } => files,
                        _ => files,
                    };
                    let file = all.last();
                    assert(all == files.push(file));
                    assert(file_as_told(paths, told, file, files.len() as int));
                    assert(files_as_told(paths, told, all));
                }
            },
            PreflightRunView::Snapshot { files } => {
                lemma_files_as_told(paths, told, files);
            },
            PreflightRunView::Probing { files, cfgs, valid } => {
                lemma_files_as_told(paths, told, files);
            },
            PreflightRunView::Rotating { files, cfgs, valid } => {
                lemma_files_as_told(paths, told, files);
            },
        }
    }
}

/// What the preparation settles is what it was told: the metadata of all files first, whose
/// sizes together keep the limit; then the metadata and the bytes of each file, none of them
/// empty or found to be too large, in the order in which they were asked for; then the
/// configurations, of which some can be used; that there is a network; and where the
/// rotation stands.
pub proof fn law_what_is_settled_was_told(
    paths: Seq<Seq<char>>,
    told: Seq<(PreflightEventView, Seq<char>)>,
)
    requires
        told_in_turn(preflight_start(Ok(paths)), told),
    ensures
        preflight_after(preflight_start(Ok(paths)), told) matches PreflightStepView::Ready(preflight)
            ==> settled_as_told(paths, told, preflight) && preflight.wf(),
        preflight_after(preflight_start(Ok(paths)), told) matches PreflightStepView::Ready(preflight)
            ==> paths_of(preflight.files) == paths,
{
    lemma_step_as_told(paths, told);
    if let PreflightStepView::Ready(preflight) = preflight_after(preflight_start(Ok(paths)), told) {
        let files = preflight.files;
        assert forall|i: int| 0 <= i < files.len() implies sound_file(#[trigger] files[i])
            && files[i].path == paths[i] by {
            assert(file_as_told(paths, told, files[i], i));
        }
        assert(paths_of(files) =~= paths);
        let before = told.drop_last();
        lemma_step_as_told(paths, before);
        assert(preflight_after(preflight_start(Ok(paths)), before) is Next);
    }
}

/// The preparation ends: it is told no more than three things for each file and three more.
pub proof fn law_preparation_ends(
    paths: Seq<Seq<char>>,
    told: Seq<(PreflightEventView, Seq<char>)>,
)
    requires
        told_in_turn(preflight_start(Ok(paths)), told),
    ensures
        told.len() <= 3 * paths.len() + 3,
        told.len() == 3 * paths.len() + 3 ==> !(preflight_after(
            preflight_start(Ok(paths)),
            told,
        ) is Next),
{
    lemma_step_as_told(paths, told);
    if told.len() > 0 {
        lemma_step_as_told(paths, told.drop_last());
    }
}

/// Nothing stands in the way: the metadata of every file comes, twice, with a sum of at most
/// 500 MiB at first and at most 200 MiB each then; the bytes of every file come, and are not
/// empty; some configuration names a key and a model; and there is a network.
pub open spec fn nothing_in_the_way(
    paths: Seq<Seq<char>>,
    told: Seq<(PreflightEventView, Seq<char>)>,
) -> bool {
    let n = paths.len();
    &&& told.len() == 3 * n + 3
    &&& forall|i: int|
        0 <= i < n ==> ((#[trigger] told[i]).0 matches PreflightEventView::Stat(stat) && stat is Ok)
    &&& told_bytes(told, n) <= 500 * 1024 * 1024
    &&& forall|i: int| 0 <= i < n ==> #[trigger] file_comes(told, n, i)
    &&& told[3 * n as int].0 matches PreflightEventView::Configs(Some(cfgs)) && {
        &&& cfgs.len() <= usize::MAX
        &&& exists|k: int|
            0 <= k < cfgs.len() && (#[trigger] cfgs[k]).api_key.len() > 0 && cfgs[k].model.len() > 0
    }
    &&& told[3 * n as int + 1].0 == PreflightEventView::Network(true)
    &&& told[3 * n as int + 2].0 is Rotation
}

/// After the first metadata of `n` files, that of file `i` is of one that is not too large, and
/// its bytes come next.
pub open spec fn file_comes(
    told: Seq<(PreflightEventView, Seq<char>)>,
    n: nat,
    i: int,
) -> bool {
    let at = n + 2 * i;
    &&& told[at].0 matches PreflightEventView::Stat(Ok(stat)) && stat.len <= 200 * 1024 * 1024
    &&& told[at + 1].0 matches PreflightEventView::Data(Ok(data)) && 0 < data.len() <= usize::MAX
}

/// The sum of the first lengths does not shrink, and is that of any beginning that holds them.
proof fn lemma_bytes_of_beginning(
    told: Seq<(PreflightEventView, Seq<char>)>,
    m: nat,
    n: nat,
    k: nat,
)
    requires
        n <= m <= told.len(),
        n <= k,
    ensures
        told_bytes(told.take(m as int), n) == told_bytes(told, n),
        told_bytes(told, n) <= told_bytes(told, k),
    decreases n + k,
{
    if n > 0 {
        lemma_bytes_of_beginning(told, m, (n - 1) as nat, n);
    }
    if k > n {
        lemma_bytes_of_beginning(told, m, n, (k - 1) as nat);
    }
}

/// Where nothing stands in the way, the preparation goes on with every event up to its end.
proof fn lemma_goes_on(paths: Seq<Seq<char>>, told: Seq<(PreflightEventView, Seq<char>)>, m: nat)
    requires
        nothing_in_the_way(paths, told),
        m <= told.len(),
    ensures
        told_in_turn(preflight_start(Ok(paths)), told.take(m as int)),
        m < told.len() ==> preflight_after(
            preflight_start(Ok(paths)),
            told.take(m as int),
        ) is Next,
        m == told.len() ==> preflight_after(
            preflight_start(Ok(paths)),
            told.take(m as int),
        ) is Ready,
    decreases m,
{
    let start = preflight_start(Ok(paths));
    let n = paths.len();
    let now = told.take(m as int);
    if m > 0 {
        let before = told.take(m - 1);
        lemma_goes_on(paths, told, (m - 1) as nat);
        assert(now.drop_last() =~= before);
        assert(now.last() == told[m - 1]);
        lemma_step_as_told(paths, before);
        let run = preflight_after(start, before)->Next_0;
        match run {
            PreflightRunView::Sizing { paths: p, next, total_bytes } => {
                assert(told[next as int].0 is Stat);
                lemma_bytes_of_beginning(told, (m - 1) as nat, next, n);
                if next + 1 == n {
                    lemma_bytes_of_beginning(told, m, n, n);
                }
            },
            PreflightRunView::Checking { paths: p, files } => {
                assert(file_comes(told, n, files.len() as int));
            },
            PreflightRunView::Reading { paths: p, files, modified } => {
                assert(file_comes(told, n, files.len() as int));
            },
            PreflightRunView::Snapshot { files } => {
                let cfgs = told[3 * n as int].0->Configs_0->Some_0;
                let k = choose|k: int|
                    0 <= k < cfgs.len() && (#[trigger] cfgs[k]).api_key.len() > 0
                        && cfgs[k].model.len() > 0;
                law_one_usable_configuration_is_enough(cfgs, k);
            },
            PreflightRunView::Probing { files, cfgs, valid } => {},
            PreflightRunView::Rotating { files, cfgs, valid } => {},
        }
    } else {
        assert(now =~= Seq::empty());
    }
}

/// Where nothing stands in the way, the preparation never fails: after three events for each file
/// and three more it is ready, with all the files that were asked for.
pub proof fn law_preparation_succeeds(
    paths: Seq<Seq<char>>,
    told: Seq<(PreflightEventView, Seq<char>)>,
)
    requires
        nothing_in_the_way(paths, told),
    ensures
        forall|m: nat|
            m < told.len() ==> #[trigger] preflight_after(
                preflight_start(Ok(paths)),
                told.take(m as int),
            ) is Next,
        preflight_after(preflight_start(Ok(paths)), told) matches PreflightStepView::Ready(
            preflight,
        ) && {
            &&& preflight.files.len() == paths.len()
            &&& forall|i: int|
                0 <= i < paths.len() ==> (#[trigger] preflight.files[i]).path == paths[i]
                    && told[paths.len() + 2 * i + 1].0 == PreflightEventView::Data(
                    Ok(preflight.files[i].data),
                )
        },
{
    assert forall|m: nat| m < told.len() implies #[trigger] preflight_after(
        preflight_start(Ok(paths)),
        told.take(m as int),
    ) is Next by {
        lemma_goes_on(paths, told, m);
    }
    lemma_goes_on(paths, told, told.len());
    assert(told.take(told.len() as int) =~= told);
    law_what_is_settled_was_told(paths, told);
    let preflight = preflight_after(preflight_start(Ok(paths)), told)->Ready_0;
    assert forall|i: int| 0 <= i < paths.len() implies (#[trigger] preflight.files[i]).path
        == paths[i] && told[paths.len() + 2 * i + 1].0 == PreflightEventView::Data(
        Ok(preflight.files[i].data),
    ) by {
        assert(file_as_told(paths, told, preflight.files[i], i));
    }
}

/// The preparation is refused with this status and this message.
pub open spec fn is_refused(
    step: PreflightStepView,
    status: Seq<char>,
    message: Seq<char>,
) -> bool {
    step matches PreflightStepView::Failed(error) && error.status == status && error.message
        == message
}

/// Metadata or bytes that do not come are refused with the reason and the path of the file that
/// was waited for, whatever came before.
pub proof fn law_missing_file_is_refused(run: PreflightRunView, why: Seq<char>, mime: Seq<char>)
    requires
        run.wf(),
    ensures
        run matches PreflightRunView::Sizing { paths, next, .. } ==> is_refused(
            preflight_next(run, PreflightEventView::Stat(Err(why)), mime),
            "FILE_READ_ERROR"@,
            "cannot stat "@ + ("'"@ + paths[next as int] + "'"@) + ": "@ + why,
        ),
        run matches PreflightRunView::Checking { paths, files } ==> is_refused(
            preflight_next(run, PreflightEventView::Stat(Err(why)), mime),
            "FILE_READ_ERROR"@,
            "cannot stat "@ + ("'"@ + paths[files.len() as int] + "'"@) + ": "@ + why,
        ),
        run matches PreflightRunView::Reading { paths, files, .. } ==> is_refused(
            preflight_next(run, PreflightEventView::Data(Err(why)), mime),
            "FILE_READ_ERROR"@,
            "cannot read "@ + ("'"@ + paths[files.len() as int] + "'"@) + ": "@ + why,
        ),
{
}

/// A file is refused for its size if and only if it has more than 200 MiB, and else its bytes are
/// waited for; one without bytes is refused. The message names the file.
pub proof fn law_size_of_a_file_decides(
    paths: Seq<Seq<char>>,
    files: Seq<ReadFileView>,
    stat: FileStat,
    modified: u64,
    mime: Seq<char>,
)
    requires
        files.len() < paths.len(),
    ensures
        ({
            let path = "'"@ + paths[files.len() as int] + "'"@;
            let step = preflight_next(
                PreflightRunView::Checking { paths, files },
                PreflightEventView::Stat(Ok(stat)),
                mime,
            );
            &&& stat.len <= 200 * 1024 * 1024 ==> step == PreflightStepView::Next(
                PreflightRunView::Reading {
                    paths,
                    files,
                    modified: match stat.modified {
                        Some(second) => second,
                        None => 0,
                    },
                },
            )
            &&& stat.len > 200 * 1024 * 1024 ==> is_refused(
                step,
                "FILE_READ_ERROR"@,
                path + " exceeds max upload size of "@ + decimal(209715200) + " bytes"@,
            )
            &&& is_refused(
                preflight_next(
                    PreflightRunView::Reading { paths, files, modified },
                    PreflightEventView::Data(Ok(Seq::empty())),
                    mime,
                ),
                "FILE_READ_ERROR"@,
                path + " is empty"@,
            )
        }),
{
}

/// The files are refused for their sizes together if and only if these have more than 500 MiB,
/// once all are known.
pub proof fn law_sum_of_sizes_decides(
    paths: Seq<Seq<char>>,
    next: nat,
    total_bytes: nat,
    stat: FileStat,
    mime: Seq<char>,
)
    requires
        next < paths.len(),
    ensures
        ({
            let total = total_bytes + stat.len as nat;
            let step = preflight_next(
                PreflightRunView::Sizing { paths, next, total_bytes },
                PreflightEventView::Stat(Ok(stat)),
                mime,
            );
            &&& next + 1 < paths.len() ==> step == PreflightStepView::Next(
                PreflightRunView::Sizing { paths, next: next + 1, total_bytes: total },
            )
            &&& next + 1 == paths.len() && total <= 500 * 1024 * 1024 ==> step
                == PreflightStepView::Next(
                PreflightRunView::Checking { paths, files: Seq::empty() },
            )
            &&& next + 1 == paths.len() && total > 500 * 1024 * 1024 ==> is_refused(
                step,
                "TOTAL_FILE_SIZE_EXCEEDED"@,
                "combined size of all files ("@ + decimal(total)
                    + " bytes) exceeds max total upload size of "@ + decimal(524288000)
                    + " bytes"@,
            )
        }),
{
}

/// A list that cannot be read is refused with the message. Without files, the configurations are
/// waited for first.
pub proof fn law_preparation_begins_with_the_files(message: Seq<char>, paths: Seq<Seq<char>>)
    ensures
        is_refused(preflight_start(Err(message)), "BAD_FILE_PATH_JSON"@, message),
        paths.len() > 0 ==> preflight_start(Ok(paths)) == PreflightStepView::Next(
            PreflightRunView::Sizing { paths, next: 0, total_bytes: 0 },
        ),
        paths.len() == 0 ==> preflight_start(Ok(paths)) == PreflightStepView::Next(
            PreflightRunView::Snapshot { files: Seq::empty() },
        ),
{
}

/// Without configurations, without one that names a key and a model, or without a network,
/// nothing is tried; and only then, once the files are read.
pub proof fn law_keys_and_network_decide(
    files: Seq<ReadFileView>,
    cfgs: Seq<CfgView>,
    valid: Seq<usize>,
    mime: Seq<char>,
)
    requires
        cfgs.len() <= usize::MAX,
    ensures
        ({
            let waiting = PreflightRunView::Snapshot { files };
            let step = preflight_next(waiting, PreflightEventView::Configs(Some(cfgs)), mime);
            let probing = PreflightRunView::Probing { files, cfgs, valid };
            &&& is_refused(
                preflight_next(waiting, PreflightEventView::Configs(None), mime),
                "LOCK_POISONED"@,
                "configuration lock is poisoned"@,
            )
            &&& (forall|k: int|
                0 <= k < cfgs.len() ==> (#[trigger] cfgs[k]).api_key.len() == 0
                    || cfgs[k].model.len() == 0) ==> is_refused(
                step,
                "NO_VALID_CONFIG"@,
                "no valid configuration found"@,
            )
            &&& (exists|k: int|
                0 <= k < cfgs.len() && (#[trigger] cfgs[k]).api_key.len() > 0
                    && cfgs[k].model.len() > 0) ==> step == PreflightStepView::Next(
                PreflightRunView::Probing { files, cfgs, valid: usable_positions(cfgs) },
            )
            &&& is_refused(
                preflight_next(probing, PreflightEventView::Network(false), mime),
                "NETWORK_UNAVAILABLE"@,
                "no network connection, aborting before trying api keys"@,
            )
            &&& preflight_next(probing, PreflightEventView::Network(true), mime)
                == PreflightStepView::Next(PreflightRunView::Rotating { files, cfgs, valid })
        }),
{
    law_positions_are_the_usable_ones(cfgs);
    let found = usable_positions(cfgs);
    if found.len() > 0 {
        assert(usable(cfgs[found[0] as int]));
    }
    assert forall|k: int|
        0 <= k < cfgs.len() && (#[trigger] cfgs[k]).api_key.len() > 0 && cfgs[k].model.len()
            > 0 implies found.len() > 0 by {
        law_one_usable_configuration_is_enough(cfgs, k);
    }
}

/// What is said of these values is said of all that they hold.
pub proof fn law_preparation_views_leave_nothing_out(
    paths: Vec<String>,
    read_files: Vec<ReadFile>,
    cfg_snapshot: Arc<Vec<CfgEntry>>,
    valid: Vec<usize>,
    next: usize,
    number: u64,
    why: String,
    stat: FileStat,
    data: Vec<u8>,
    up: bool,
    run: PreflightRun,
    pre: Preflight,
    error: PreflightError,
)
    ensures
        (PreflightRun::Sizing { paths, next, total_bytes: number })@ == (PreflightRunView::Sizing {
            paths: paths.deep_view(),
            next: next as nat,
            total_bytes: number as nat,
        }),
        (PreflightRun::Checking { paths, read_files })@ == (PreflightRunView::Checking {
            paths: paths.deep_view(),
            files: read_files.deep_view(),
        }),
        (PreflightRun::Reading { paths, read_files, modified: number })@ == (
        PreflightRunView::Reading {
            paths: paths.deep_view(),
            files: read_files.deep_view(),
            modified: number,
        }),
        (PreflightRun::Snapshot { read_files })@ == (PreflightRunView::Snapshot {
            files: read_files.deep_view(),
        }),
        (PreflightRun::Probing { read_files, cfg_snapshot, valid })@ == (
        PreflightRunView::Probing {
            files: read_files.deep_view(),
            cfgs: cfg_snapshot.deep_view(),
            valid: valid@,
        }),
        (PreflightRun::Rotating { read_files, cfg_snapshot, valid })@ == (
        PreflightRunView::Rotating {
            files: read_files.deep_view(),
            cfgs: cfg_snapshot.deep_view(),
            valid: valid@,
        }),
        PreflightEvent::Stat(Ok(stat))@ == PreflightEventView::Stat(Ok(stat)),
        PreflightEvent::Stat(Err(why))@ == PreflightEventView::Stat(Err(why@)),
        PreflightEvent::Data(Ok(data))@ == PreflightEventView::Data(Ok(data@)),
        PreflightEvent::Data(Err(why))@ == PreflightEventView::Data(Err(why@)),
        PreflightEvent::Configs(Some(cfg_snapshot))@ == PreflightEventView::Configs(
            Some(cfg_snapshot.deep_view()),
        ),
        PreflightEvent::Configs(None)@ == PreflightEventView::Configs(None),
        PreflightEvent::Network(up)@ == PreflightEventView::Network(up),
        PreflightEvent::Rotation(next)@ == PreflightEventView::Rotation(next as nat),
        PreflightStep::Next(run)@ == PreflightStepView::Next(run@),
        PreflightStep::Ready(pre)@ == PreflightStepView::Ready(pre@),
        PreflightStep::Failed(error)@ == PreflightStepView::Failed(error@),
{
}

} // verus!
