//! Stopping every process of a set of images, unless a forbidden one runs.
//!
//! Processes are asked to close themselves first. A process without a top-level window cannot be
//! asked, so only those that own one are counted and waited for; whatever survives is force-killed
//! in rounds. Every inspection of the process table checks for forbidden processes again, and a
//! table that cannot be read is never taken for an empty one. [`StopRun`] decides what to do next;
//! the caller does it and reports what came of it.

use vstd::prelude::*;

use super::process::{
    any_named, count_top_level_windows, lemma_filter_push, matches_any, named, pids_of,
    process_models, reached, retain_named, roots, table_view, texts, unique_images, unique_of,
    ProcessModel, ProcessRef, SnapshotError, Table, WindowRef,
};
use crate::text::{eq_ignore_ascii_case, same_folded, views};

verus! {

/// How a stop goes about it. The times are nanoseconds.
#[derive(Clone, Copy, Debug, PartialEq, Eq)]
pub struct StopOptions {
    /// How long to wait for processes that were asked to close themselves.
    pub grace: u128,
    /// How long to wait after a force kill before re-checking.
    pub force_wait: u128,
    /// Force-kill rounds before giving up.
    pub max_force_rounds: u32,
}

impl Default for StopOptions {
    fn default() -> (options: Self)
        ensures
            options == (StopOptions {
                grace: 1_500_000_000,
                force_wait: 2_000_000_000,
                max_force_rounds: 2,
            }),
    {
        StopOptions { grace: 1_500_000_000, force_wait: 2_000_000_000, max_force_rounds: 2 }
    }
}

/// Why a stop did not succeed.
#[derive(Debug, PartialEq, Eq)]
pub enum StopError {
    /// A forbidden process is running; nothing may be terminated.
    ForbiddenPresent,
    /// Images that survived every force-kill round.
    StillRunning(Vec<String>),
    /// The process table could not be read, so neither the safety check nor the target list can
    /// be trusted. Nothing was taken for granted and nothing is reported as stopped.
    EnumerationFailed(SnapshotError),
}

/// Why a stop did not succeed, as a mathematical value.
pub enum StopErrorModel {
    ForbiddenPresent,
    StillRunning(Seq<Seq<char>>),
    EnumerationFailed(SnapshotError),
}

impl View for StopError {
    type V = StopErrorModel;

    open spec fn view(&self) -> StopErrorModel {
        match *self {
            StopError::ForbiddenPresent => StopErrorModel::ForbiddenPresent,
            StopError::StillRunning(images) => StopErrorModel::StillRunning(texts(images@)),
            StopError::EnumerationFailed(error) => StopErrorModel::EnumerationFailed(error),
        }
    }
}

/// What a stop did. The times are nanoseconds.
#[derive(Debug, PartialEq, Eq)]
pub struct StopReport {
    /// Unique images that were found running.
    pub images: Vec<String>,
    pub pids: usize,
    /// How many processes actually received a graceful close request.
    pub graceful_delivered: usize,
    pub graceful_time: u128,
    pub force_time: u128,
    pub total_time: u128,
    pub force_rounds: u32,
}

/// What a stop did, as a mathematical value.
pub struct ReportModel {
    pub images: Seq<Seq<char>>,
    pub pids: nat,
    pub graceful_delivered: nat,
    pub graceful_time: u128,
    pub force_time: u128,
    pub total_time: u128,
    pub force_rounds: u32,
}

impl View for StopReport {
    type V = ReportModel;

    open spec fn view(&self) -> ReportModel {
        ReportModel {
            images: texts(self.images@),
            pids: self.pids as nat,
            graceful_delivered: self.graceful_delivered as nat,
            graceful_time: self.graceful_time,
            force_time: self.force_time,
            total_time: self.total_time,
            force_rounds: self.force_rounds,
        }
    }
}

/// The report of a stop that did nothing.
pub open spec fn nothing_done() -> ReportModel {
    ReportModel {
        images: Seq::empty(),
        pids: 0,
        graceful_delivered: 0,
        graceful_time: 0,
        force_time: 0,
        total_time: 0,
        force_rounds: 0,
    }
}

impl Default for StopReport {
    fn default() -> (report: Self)
        ensures
            report@ == nothing_done(),
    {
        let report = StopReport {
            images: Vec::new(),
            pids: 0,
            graceful_delivered: 0,
            graceful_time: 0,
            force_time: 0,
            total_time: 0,
            force_rounds: 0,
        };
        assert(texts(report.images@) == Seq::<Seq<char>>::empty());
        report
    }
}

/// How far a stop has come. The times are nanoseconds since the stop began.
pub enum StopState {
    /// The processes are to be looked at for the first time.
    Starting,
    /// The processes of the image number `image` are to be asked to close themselves.
    Closing { processes: Vec<ProcessRef>, image: usize, delivered: Vec<u32> },
    /// Those that were asked are to be waited for.
    Grace { delivered: Vec<u32>, since: u128 },
    /// The processes are to be looked at again.
    Checking { rounds: u32, since: u128 },
    /// The processes that are left are to be force-killed and waited for.
    Killing { processes: Vec<ProcessRef>, rounds: u32, since: u128 },
    Stopped,
    Refused(StopError),
}

/// How far a stop has come, as a mathematical value.
pub enum StopStateModel {
    Starting,
    Closing { processes: Seq<ProcessModel>, image: int, delivered: Seq<u32> },
    Grace { delivered: Seq<u32>, since: u128 },
    Checking { rounds: u32, since: u128 },
    Killing { processes: Seq<ProcessModel>, rounds: u32, since: u128 },
    Stopped,
    Refused(StopErrorModel),
}

impl View for StopState {
    type V = StopStateModel;

    open spec fn view(&self) -> StopStateModel {
        match *self {
            StopState::Starting => StopStateModel::Starting,
            StopState::Closing { processes, image, delivered } => StopStateModel::Closing {
                processes: process_models(processes@),
                image: image as int,
                delivered: delivered@,
            },
            StopState::Grace { delivered, since } => StopStateModel::Grace {
                delivered: delivered@,
                since,
            },
            StopState::Checking { rounds, since } => StopStateModel::Checking { rounds, since },
            StopState::Killing { processes, rounds, since } => StopStateModel::Killing {
                processes: process_models(processes@),
                rounds,
                since,
            },
            StopState::Stopped => StopStateModel::Stopped,
            StopState::Refused(error) => StopStateModel::Refused(error@),
        }
    }
}

/// What the caller is to do next.
#[derive(Debug, PartialEq, Eq)]
pub enum StopAction<'a> {
    /// Read the process table.
    Inspect,
    /// Ask every top-level window of the processes to close.
    RequestClose(Vec<u32>),
    /// Wait until the processes have exited, for so many nanoseconds.
    AwaitExit { delivered: &'a [u32], nanos: u128 },
    /// Kill the images, then wait until the processes have exited, for so many nanoseconds.
    ForceKill { images: Vec<String>, pids: Vec<u32>, nanos: u128 },
    /// The stop is over.
    Finish(Result<&'a StopReport, &'a StopError>),
}

/// What the caller is to do next, as a mathematical value.
#[verifier::ext_equal]
pub enum StopActionModel {
    Inspect,
    RequestClose(Seq<u32>),
    AwaitExit { delivered: Seq<u32>, nanos: u128 },
    ForceKill { images: Seq<Seq<char>>, pids: Seq<u32>, nanos: u128 },
    Finish(Result<ReportModel, StopErrorModel>),
}

impl<'a> View for StopAction<'a> {
    type V = StopActionModel;

    open spec fn view(&self) -> StopActionModel {
        match *self {
            StopAction::Inspect => StopActionModel::Inspect,
            StopAction::RequestClose(pids) => StopActionModel::RequestClose(pids@),
            StopAction::AwaitExit { delivered, nanos } => StopActionModel::AwaitExit {
                delivered: delivered@,
                nanos,
            },
            StopAction::ForceKill { images, pids, nanos } => StopActionModel::ForceKill {
                images: texts(images@),
                pids: pids@,
                nanos,
            },
            StopAction::Finish(Ok(report)) => StopActionModel::Finish(Ok(report@)),
            StopAction::Finish(Err(error)) => StopActionModel::Finish(Err(error@)),
        }
    }
}

/// What came of an action.
pub enum StopEvent {
    Table(Table),
    /// The top-level windows of the desktop. The root windows of the processes among them were
    /// asked to close.
    Reached(Vec<WindowRef>),
    /// The wait for the processes is over, whether or not they have exited.
    Waited,
}

/// What came of an action, as a mathematical value.
pub enum StopEventModel {
    Table(Result<Seq<ProcessModel>, SnapshotError>),
    Reached(Seq<WindowRef>),
    Waited,
}

impl View for StopEvent {
    type V = StopEventModel;

    open spec fn view(&self) -> StopEventModel {
        match *self {
            StopEvent::Table(table) => StopEventModel::Table(table_view(table)),
            StopEvent::Reached(windows) => StopEventModel::Reached(windows@),
            StopEvent::Waited => StopEventModel::Waited,
        }
    }
}

/// A stop in progress.
pub struct StopRun<'a> {
    pub targets: &'a [&'a str],
    pub forbidden: &'a [&'a str],
    pub options: StopOptions,
    pub report: StopReport,
    pub state: StopState,
}

/// A stop in progress, as a mathematical value.
#[verifier::ext_equal]
pub struct StopModel {
    pub targets: Seq<Seq<char>>,
    pub forbidden: Seq<Seq<char>>,
    pub options: StopOptions,
    pub report: ReportModel,
    pub state: StopStateModel,
}

impl<'a> View for StopRun<'a> {
    type V = StopModel;

    open spec fn view(&self) -> StopModel {
        StopModel {
            targets: views(self.targets@),
            forbidden: views(self.forbidden@),
            options: self.options,
            report: self.report@,
            state: self.state@,
        }
    }
}

/// The pids of the processes of one image.
pub open spec fn pids_of_image(processes: Seq<ProcessModel>, image: Seq<char>) -> Seq<u32> {
    pids_of(processes.filter(|p: ProcessModel| same_folded(p.image, image)))
}

/// The pids that a request to close reaches: those that own a root window.
pub open spec fn with_window(pids: Seq<u32>, windows: Seq<WindowRef>) -> Seq<u32> {
    pids.filter(|pid: u32| roots(windows, pid) > 0)
}

/// The time from `since` to `at`.
pub open spec fn elapsed(since: u128, at: u128) -> u128 {
    if at >= since {
        (at - since) as u128
    } else {
        0
    }
}

/// A stop as it begins.
pub open spec fn stop_begun(
    targets: Seq<Seq<char>>,
    forbidden: Seq<Seq<char>>,
    options: StopOptions,
) -> StopModel {
    StopModel {
        targets,
        forbidden,
        options,
        report: nothing_done(),
        state: StopStateModel::Starting,
    }
}

impl StopModel {
    /// What the caller is to do next.
    pub open spec fn action(self) -> StopActionModel {
        match self.state {
            StopStateModel::Starting => StopActionModel::Inspect,
            StopStateModel::Closing { processes, image, .. } => StopActionModel::RequestClose(
                pids_of_image(processes, self.report.images[image]),
            ),
            StopStateModel::Grace { delivered, .. } => StopActionModel::AwaitExit {
                delivered,
                nanos: self.options.grace,
            },
            StopStateModel::Checking { .. } => StopActionModel::Inspect,
            StopStateModel::Killing { processes, .. } => StopActionModel::ForceKill {
                images: unique_of(processes),
                pids: pids_of(processes),
                nanos: self.options.force_wait,
            },
            StopStateModel::Stopped => StopActionModel::Finish(Ok(self.report)),
            StopStateModel::Refused(error) => StopActionModel::Finish(Err(error)),
        }
    }

    /// What an inspection allows: the targets that are running, or the refusal.
    pub open spec fn inspected(
        self,
        table: Result<Seq<ProcessModel>, SnapshotError>,
    ) -> Result<Seq<ProcessModel>, StopErrorModel> {
        match table {
            Err(error) => Err(StopErrorModel::EnumerationFailed(error)),
            Ok(processes) => if any_named(processes, self.forbidden) {
                Err(StopErrorModel::ForbiddenPresent)
            } else {
                Ok(named(processes, self.targets))
            },
        }
    }

    /// The stop after the first inspection.
    pub open spec fn started(
        self,
        table: Result<Seq<ProcessModel>, SnapshotError>,
        at: u128,
    ) -> StopModel {
        match self.inspected(table) {
            Err(error) => StopModel { state: StopStateModel::Refused(error), ..self },
            Ok(processes) => if processes.len() == 0 {
                StopModel {
                    report: ReportModel { total_time: at, ..self.report },
                    state: StopStateModel::Stopped,
                    ..self
                }
            } else {
                StopModel {
                    report: ReportModel {
                        images: unique_of(processes),
                        pids: processes.len(),
                        ..self.report
                    },
                    state: StopStateModel::Closing { processes, image: 0, delivered: Seq::empty() },
                    ..self
                }
            },
        }
    }

    /// The stop after the processes of an image were asked to close, with these windows on the
    /// desktop: only processes that own a root window received the request, and only those are
    /// counted and waited for.
    pub open spec fn requested(
        self,
        processes: Seq<ProcessModel>,
        image: int,
        delivered: Seq<u32>,
        windows: Seq<WindowRef>,
        at: u128,
    ) -> StopModel {
        let delivered = delivered + with_window(
            pids_of_image(processes, self.report.images[image]),
            windows,
        );
        if image + 1 < self.report.images.len() {
            StopModel {
                state: StopStateModel::Closing { processes, image: image + 1, delivered },
                ..self
            }
        } else {
            StopModel {
                report: ReportModel { graceful_delivered: delivered.len(), ..self.report },
                state: if delivered.len() > 0 {
                    StopStateModel::Grace { delivered, since: at }
                } else {
                    StopStateModel::Checking { rounds: 0, since: at }
                },
                ..self
            }
        }
    }

    /// The stop after a later inspection, with `rounds` force-kill rounds behind it.
    pub open spec fn checked(
        self,
        table: Result<Seq<ProcessModel>, SnapshotError>,
        rounds: u32,
        since: u128,
        at: u128,
    ) -> StopModel {
        let report = ReportModel {
            force_time: elapsed(since, at),
            force_rounds: rounds,
            total_time: at,
            ..self.report
        };
        match self.inspected(table) {
            Err(error) => StopModel { state: StopStateModel::Refused(error), ..self },
            Ok(processes) => if processes.len() == 0 {
                StopModel { report, state: StopStateModel::Stopped, ..self }
            } else if rounds >= self.options.max_force_rounds {
                StopModel {
                    report,
                    state: StopStateModel::Refused(
                        StopErrorModel::StillRunning(unique_of(processes)),
                    ),
                    ..self
                }
            } else {
                StopModel {
                    state: StopStateModel::Killing { processes, rounds: (rounds + 1) as u32, since },
                    ..self
                }
            },
        }
    }

    /// The stop after an event at the time `at`. An event that was not asked for changes
    /// nothing.
    pub open spec fn after(self, event: StopEventModel, at: u128) -> StopModel {
        match (self.state, event) {
            (StopStateModel::Starting, StopEventModel::Table(table)) => self.started(table, at),
            (
                StopStateModel::Closing { processes, image, delivered },
                StopEventModel::Reached(windows),
            ) => self.requested(processes, image, delivered, windows, at),
            (StopStateModel::Grace { since, .. }, StopEventModel::Waited) => StopModel {
                report: ReportModel { graceful_time: elapsed(since, at), ..self.report },
                state: StopStateModel::Checking { rounds: 0, since: at },
                ..self
            },
            (StopStateModel::Checking { rounds, since }, StopEventModel::Table(table)) => {
                self.checked(table, rounds, since, at)
            },
            (StopStateModel::Killing { rounds, since, .. }, StopEventModel::Waited) => StopModel {
                state: StopStateModel::Checking { rounds, since },
                ..self
            },
            _ => self,
        }
    }

    /// The stop after a whole sequence of events, each with its time.
    pub open spec fn run(self, events: Seq<(StopEventModel, u128)>) -> StopModel
        decreases events.len(),
    {
        if events.len() == 0 {
            self
        } else {
            self.run(events.drop_last()).after(events.last().0, events.last().1)
        }
    }

    /// Whether each of the events is what the stop asked for when it came.
    pub open spec fn answered(self, events: Seq<(StopEventModel, u128)>) -> bool
        decreases events.len(),
    {
        events.len() == 0 || {
            &&& self.answered(events.drop_last())
            &&& answers(events.last().0, self.run(events.drop_last()).action())
        }
    }

    /// What every stop keeps.
    pub open spec fn wf(self) -> bool {
        match self.state {
            StopStateModel::Closing { image, .. } => 0 <= image < self.report.images.len(),
            StopStateModel::Checking { rounds, .. } => rounds <= self.options.max_force_rounds,
            StopStateModel::Killing { rounds, .. } => rounds <= self.options.max_force_rounds,
            _ => true,
        }
    }
}

proof fn lemma_unique_nonempty(processes: Seq<ProcessModel>)
    requires
        processes.len() > 0,
    ensures
        unique_of(processes).len() > 0,
    decreases processes.len(),
{
    super::process::unique_images_cover(processes, 0);
}

/// Every event keeps a stop well-formed.
pub proof fn stop_stays_well_formed(stop: StopModel, event: StopEventModel, at: u128)
    requires
        stop.wf(),
    ensures
        stop.after(event, at).wf(),
{
    match (stop.state, event) {
        (StopStateModel::Starting, StopEventModel::Table(table)) => {
            if let Ok(processes) = stop.inspected(table) {
                if processes.len() > 0 {
                    lemma_unique_nonempty(processes);
                }
            }
        },
        _ => {},
    }
}

/// A forbidden process that shows up in any inspection ends the stop, and an inspection that
/// fails ends it too; nothing is closed or killed after either.
pub proof fn refused_inspection_ends_the_stop(
    stop: StopModel,
    table: Result<Seq<ProcessModel>, SnapshotError>,
    at: u128,
)
    requires
        stop.action() == StopActionModel::Inspect,
        match table {
            Ok(processes) => any_named(processes, stop.forbidden),
            Err(_) => true,
        },
    ensures
        stop.after(StopEventModel::Table(table), at).action() == StopActionModel::Finish(
            Err(
                match table {
                    Ok(_) => StopErrorModel::ForbiddenPresent,
                    Err(error) => StopErrorModel::EnumerationFailed(error),
                },
            ),
        ),
{
}

/// A stop that is over stays as it is.
pub proof fn finished_stop_stays(stop: StopModel, event: StopEventModel, at: u128)
    requires
        stop.action() is Finish,
    ensures
        stop.after(event, at) == stop,
{
}

/// Processes are killed only directly after an inspection that showed them running and no
/// forbidden process beside them, and only images among the targets are killed.
pub proof fn kill_follows_a_clean_inspection(stop: StopModel, event: StopEventModel, at: u128)
    requires
        stop.action() !is ForceKill,
        stop.after(event, at).action() is ForceKill,
    ensures
        stop.action() == StopActionModel::Inspect,
        event matches StopEventModel::Table(Ok(processes)) && !any_named(
            processes,
            stop.forbidden,
        ) && stop.after(event, at).action() == (StopActionModel::ForceKill {
            images: unique_of(named(processes, stop.targets)),
            pids: pids_of(named(processes, stop.targets)),
            nanos: stop.options.force_wait,
        }),
{
}

/// A stop succeeds only on an inspection that shows neither a target nor a forbidden process.
pub proof fn success_means_no_target_runs(stop: StopModel, event: StopEventModel, at: u128)
    requires
        stop.action() !is Finish,
        stop.after(event, at).action() matches StopActionModel::Finish(Ok(_)),
    ensures
        event matches StopEventModel::Table(Ok(processes)) && !any_named(
            processes,
            stop.targets,
        ) && !any_named(processes, stop.forbidden),
{
    if let StopEventModel::Table(Ok(processes)) = event {
        super::process::lemma_named_empty(processes, stop.targets);
    }
}

/// The processes that were asked to close so far.
pub open spec fn asked(stop: StopModel) -> Seq<u32> {
    match stop.state {
        StopStateModel::Closing { delivered, .. } => delivered,
        StopStateModel::Grace { delivered, .. } => delivered,
        _ => Seq::empty(),
    }
}

/// A process without a root window never costs a grace wait: it is neither counted among those
/// that were asked nor waited for.
pub proof fn windowless_process_is_not_awaited(
    stop: StopModel,
    windows: Seq<WindowRef>,
    at: u128,
    pid: u32,
)
    requires
        stop.state is Closing,
        !asked(stop).contains(pid),
        roots(windows, pid) == 0,
    ensures
        !asked(stop.after(StopEventModel::Reached(windows), at)).contains(pid),
{
    if let StopStateModel::Closing { processes, image, delivered } = stop.state {
        let pids = pids_of_image(processes, stop.report.images[image]);
        let keep = |pid: u32| roots(windows, pid) > 0;
        lemma_filter_keeps(pids, keep, pid);
        let more = with_window(pids, windows);
        let all = delivered + more;
        assert forall|k: int| 0 <= k < all.len() implies all[k] != pid by {
            if k < delivered.len() {
                assert(delivered.contains(delivered[k]));
            } else {
                assert(more.contains(more[k - delivered.len()]));
            }
        }
    }
}

/// Where no window is reached, the graceful phase is skipped: nobody is waited for.
pub proof fn no_window_means_no_grace(windows: Seq<WindowRef>, pids: Seq<u32>)
    ensures
        reached(windows, pids) == 0 <==> with_window(pids, windows).len() == 0,
    decreases pids.len(),
{
    reveal(Seq::filter);
    if pids.len() > 0 {
        no_window_means_no_grace(windows, pids.drop_last());
        lemma_filter_push(pids.drop_last(), |pid: u32| roots(windows, pid) > 0, pids.last());
        assert(pids == pids.drop_last().push(pids.last()));
    }
}

proof fn lemma_filter_keeps(pids: Seq<u32>, keep: spec_fn(u32) -> bool, pid: u32)
    requires
        !keep(pid),
    ensures
        !pids.filter(keep).contains(pid),
    decreases pids.len(),
{
    reveal(Seq::filter);
    if pids.len() > 0 {
        let front = pids.drop_last();
        lemma_filter_keeps(front, keep, pid);
        lemma_filter_push(front, keep, pids.last());
        assert(pids == front.push(pids.last()));
        let kept = front.filter(keep);
        assert forall|k: int| 0 <= k < kept.push(pids.last()).len() && keep(pids.last()) implies
            kept.push(pids.last())[k] != pid by {
            if k < kept.len() {
                assert(kept.contains(kept[k]));
            }
        }
    }
}

/// Whether the last event of a stop that began with `targets` and `forbidden` was an inspection
/// that showed no forbidden process, and these are the targets that it showed.
pub open spec fn just_seen(
    events: Seq<(StopEventModel, u128)>,
    targets: Seq<Seq<char>>,
    forbidden: Seq<Seq<char>>,
    seen: Seq<ProcessModel>,
) -> bool {
    events.len() > 0 && (events.last().0 matches StopEventModel::Table(Ok(processes)) && {
        &&& !any_named(processes, forbidden)
        &&& seen == named(processes, targets)
    })
}

/// At every moment of a stop: what is killed is what the inspection just before showed, and what
/// is asked to close is what the first one showed; neither showed a forbidden process.
pub proof fn stop_acts_on_clean_inspections(
    targets: Seq<Seq<char>>,
    forbidden: Seq<Seq<char>>,
    options: StopOptions,
    events: Seq<(StopEventModel, u128)>,
)
    requires
        stop_begun(targets, forbidden, options).answered(events),
    ensures
        ({
            let stop = stop_begun(targets, forbidden, options).run(events);
            &&& stop.targets == targets
            &&& stop.forbidden == forbidden
            &&& stop.options == options
            &&& stop.state is Starting <==> events.len() == 0
            &&& stop.state matches StopStateModel::Killing { processes, .. } ==> just_seen(
                events,
                targets,
                forbidden,
                processes,
            )
            &&& stop.state matches StopStateModel::Closing { processes, .. } ==> just_seen(
                events.take(1),
                targets,
                forbidden,
                processes,
            )
        }),
    decreases events.len(),
{
    if events.len() > 0 {
        stop_acts_on_clean_inspections(targets, forbidden, options, events.drop_last());
        if events.len() > 1 {
            assert(events.take(1) == events.drop_last().take(1));
        } else {
            assert(events.take(1) == events);
        }
    }
}

/// How many steps a stop can still take.
pub open spec fn steps_left(stop: StopModel) -> (int, int) {
    match stop.state {
        StopStateModel::Starting => (stop.options.max_force_rounds + 3, 0),
        StopStateModel::Closing { image, .. } => (
            stop.options.max_force_rounds + 2,
            stop.report.images.len() - image + 1,
        ),
        StopStateModel::Grace { .. } => (stop.options.max_force_rounds + 2, 0),
        StopStateModel::Checking { rounds, .. } => (stop.options.max_force_rounds - rounds + 1, 0),
        StopStateModel::Killing { rounds, .. } => (stop.options.max_force_rounds - rounds + 1, 1),
        _ => (0, 0),
    }
}

/// Whether the event is what the action asks for.
pub open spec fn answers(event: StopEventModel, action: StopActionModel) -> bool {
    match action {
        StopActionModel::Inspect => event is Table,
        StopActionModel::RequestClose(_) => event is Reached,
        StopActionModel::AwaitExit { .. } => event is Waited,
        StopActionModel::ForceKill { .. } => event is Waited,
        StopActionModel::Finish(_) => false,
    }
}

/// A stop comes to an end: every answer brings it closer.
pub proof fn every_answer_brings_the_end_closer(stop: StopModel, event: StopEventModel, at: u128)
    requires
        stop.wf(),
        answers(event, stop.action()),
    ensures
        ({
            let (rounds, rest) = steps_left(stop);
            let (next_rounds, next_rest) = steps_left(stop.after(event, at));
            &&& 0 <= next_rounds
            &&& 0 <= next_rest
            &&& next_rounds < rounds || next_rounds == rounds && next_rest < rest
        }),
{
    stop_stays_well_formed(stop, event, at);
}

/// Whether the process table allows a stop to go on.
pub fn ensure_forbidden_absent(processes: &Vec<ProcessRef>, forbidden: &[&str]) -> (result: Result<
    (),
    StopError,
>)
    ensures
        match result {
            Ok(_) => !any_named(process_models(processes@), views(forbidden@)),
            Err(error) => error@ == StopErrorModel::ForbiddenPresent && any_named(
                process_models(processes@),
                views(forbidden@),
            ),
        },
{
    let n: usize = processes.len();
    let ghost all = process_models(processes@);
    let mut i: usize = 0;
    while i < n
        invariant
            n == processes@.len(),
            all == process_models(processes@),
            i <= n,
            forall|k: int| 0 <= k < i ==> !super::process::is_named(
                #[trigger] all[k].image,
                views(forbidden@),
            ),
        decreases n - i,
    {
        assert(all[i as int] == processes@[i as int]@);
        if matches_any(processes[i].image.as_str(), forbidden) {
            assert(super::process::is_named(all[i as int].image, views(forbidden@)));
            return Err(StopError::ForbiddenPresent);
        }
        i = i + 1;
    }
    Ok(())
}

fn image_pids(processes: &Vec<ProcessRef>, image: &str) -> (pids: Vec<u32>)
    ensures
        pids@ == pids_of_image(process_models(processes@), image@),
{
    let n: usize = processes.len();
    let ghost all = process_models(processes@);
    let ghost keep = |p: ProcessModel| same_folded(p.image, image@);
    let mut pids: Vec<u32> = Vec::new();
    let mut i: usize = 0;
    proof {
        reveal(Seq::filter);
        assert(pids@ == pids_of(all.take(0).filter(keep)));
    }
    while i < n
        invariant
            n == processes@.len(),
            i <= n,
            all == process_models(processes@),
            keep == |p: ProcessModel| same_folded(p.image, image@),
            pids@ == pids_of(all.take(i as int).filter(keep)),
        decreases n - i,
    {
        let process = &processes[i];
        let ghost before = all.take(i as int).filter(keep);
        assert(all[i as int] == process@);
        proof {
            lemma_filter_push(all.take(i as int), keep, process@);
            assert(all.take(i + 1) == all.take(i as int).push(process@));
        }
        if eq_ignore_ascii_case(process.image.as_str(), image) {
            pids.push(process.pid);
            assert(pids@ == pids_of(before.push(process@)));
        }
        i = i + 1;
    }
    assert(all.take(n as int) == all);
    pids
}

fn reached_pids(pids: &Vec<u32>, windows: &Vec<WindowRef>) -> (kept: Vec<u32>)
    ensures
        kept@ == with_window(pids@, windows@),
{
    let ghost keep = |pid: u32| roots(windows@, pid) > 0;
    let mut kept: Vec<u32> = Vec::new();
    let mut i: usize = 0;
    proof {
        reveal(Seq::filter);
        assert(kept@ == pids@.take(0).filter(keep));
    }
    while i < pids.len()
        invariant
            i <= pids@.len(),
            keep == |pid: u32| roots(windows@, pid) > 0,
            kept@ == pids@.take(i as int).filter(keep),
        decreases pids@.len() - i,
    {
        proof {
            lemma_filter_push(pids@.take(i as int), keep, pids@[i as int]);
            assert(pids@.take(i + 1) == pids@.take(i as int).push(pids@[i as int]));
        }
        if count_top_level_windows(windows.as_slice(), pids[i]) > 0 {
            kept.push(pids[i]);
        }
        i = i + 1;
    }
    assert(pids@.take(i as int) == pids@);
    kept
}

fn all_pids(processes: &Vec<ProcessRef>) -> (pids: Vec<u32>)
    ensures
        pids@ == pids_of(process_models(processes@)),
{
    let mut pids: Vec<u32> = Vec::new();
    let mut i: usize = 0;
    while i < processes.len()
        invariant
            i <= processes@.len(),
            pids@.len() == i,
            forall|k: int| 0 <= k < i ==> pids@[k] == processes@[k].pid,
        decreases processes@.len() - i,
    {
        pids.push(processes[i].pid);
        i = i + 1;
    }
    assert(pids@ == pids_of(process_models(processes@)));
    pids
}

fn elapsed_time(since: u128, at: u128) -> (time: u128)
    ensures
        time == elapsed(since, at),
{
    if at >= since {
        at - since
    } else {
        0
    }
}

/// Begins to stop every process matching `targets`, refusing to go on if anything in
/// `forbidden` is alive.
pub fn stop_images<'a>(
    targets: &'a [&'a str],
    forbidden: &'a [&'a str],
    options: StopOptions,
) -> (run: StopRun<'a>)
    ensures
        run@ == stop_begun(views(targets@), views(forbidden@), options),
        run@.wf(),
{
    StopRun {
        targets,
        forbidden,
        options,
        report: StopReport::default(),
        state: StopState::Starting,
    }
}

impl<'a> StopRun<'a> {
    /// What the caller is to do next.
    pub fn action(&self) -> (action: StopAction<'_>)
        requires
            self@.wf(),
        ensures
            action@ == self@.action(),
    {
        match &self.state {
            StopState::Starting => StopAction::Inspect,
            StopState::Closing { processes, image, .. } => {
                assert(self@.report.images[*image as int]
                    == self.report.images@[*image as int]@);
                StopAction::RequestClose(image_pids(processes, self.report.images[*image].as_str()))
            },
            StopState::Grace { delivered, .. } => StopAction::AwaitExit {
                delivered: delivered.as_slice(),
                nanos: self.options.grace,
            },
            StopState::Checking { .. } => StopAction::Inspect,
            StopState::Killing { processes, .. } => StopAction::ForceKill {
                images: unique_images(processes.as_slice()),
                pids: all_pids(processes),
                nanos: self.options.force_wait,
            },
            StopState::Stopped => StopAction::Finish(Ok(&self.report)),
            StopState::Refused(error) => StopAction::Finish(Err(error)),
        }
    }

    fn inspect(&self, table: Table) -> (result: Result<Vec<ProcessRef>, StopError>)
        ensures
            match (result, self@.inspected(table_view(table))) {
                (Ok(processes), Ok(expected)) => process_models(processes@) == expected,
                (Err(error), Err(expected)) => error@ == expected,
                _ => false,
            },
    {
        match table {
            Err(error) => Err(StopError::EnumerationFailed(error)),
            Ok(processes) => {
                match ensure_forbidden_absent(&processes, self.forbidden) {
                    Err(error) => Err(error),
                    Ok(_) => Ok(retain_named(processes, self.targets)),
                }
            },
        }
    }

    fn start(&mut self, table: Table, at: u128)
        ensures
            final(self)@ == old(self)@.started(table_view(table), at),
    {
        match self.inspect(table) {
            Err(error) => {
                self.state = StopState::Refused(error);
            },
            Ok(processes) => {
                assert(process_models(processes@).len() == processes@.len());
                if processes.len() == 0 {
                    self.report.total_time = at;
                    self.state = StopState::Stopped;
                } else {
                    self.report.images = unique_images(processes.as_slice());
                    self.report.pids = processes.len();
                    self.state = StopState::Closing { processes, image: 0, delivered: Vec::new() };
                }
            },
        }
    }

    fn request(
        &mut self,
        processes: Vec<ProcessRef>,
        image: usize,
        delivered: Vec<u32>,
        windows: &Vec<WindowRef>,
        at: u128,
    )
        requires
            image < old(self)@.report.images.len(),
        ensures
            final(self)@ == old(self)@.requested(
                process_models(processes@),
                image as int,
                delivered@,
                windows@,
                at,
            ),
    {
        let mut delivered = delivered;
        assert(self@.report.images[image as int] == self.report.images@[image as int]@);
        let pids = image_pids(&processes, self.report.images[image].as_str());
        let mut kept = reached_pids(&pids, windows);
        delivered.append(&mut kept);
        assert(self.report.images@.len() == self@.report.images.len());
        if image < self.report.images.len() - 1 {
            self.state = StopState::Closing { processes, image: image + 1, delivered };
        } else {
            self.report.graceful_delivered = delivered.len();
            self.state = if delivered.len() > 0 {
                StopState::Grace { delivered, since: at }
            } else {
                StopState::Checking { rounds: 0, since: at }
            };
        }
    }

    fn check(&mut self, table: Table, rounds: u32, since: u128, at: u128)
        ensures
            final(self)@ == old(self)@.checked(table_view(table), rounds, since, at),
    {
        match self.inspect(table) {
            Err(error) => {
                self.state = StopState::Refused(error);
            },
            Ok(processes) => {
                assert(process_models(processes@).len() == processes@.len());
                if processes.len() == 0 || rounds >= self.options.max_force_rounds {
                    self.report.force_time = elapsed_time(since, at);
                    self.report.force_rounds = rounds;
                    self.report.total_time = at;
                    self.state = if processes.len() == 0 {
                        StopState::Stopped
                    } else {
                        StopState::Refused(
                            StopError::StillRunning(unique_images(processes.as_slice())),
                        )
                    };
                } else {
                    self.state = StopState::Killing { processes, rounds: rounds + 1, since };
                }
            },
        }
    }

    /// Takes note of what came of the action at the time `at`, in nanoseconds since the stop
    /// began. An event that was not asked for changes nothing.
    pub fn handle(&mut self, event: StopEvent, at: u128)
        requires
            old(self)@.wf(),
        ensures
            final(self)@ == old(self)@.after(event@, at),
            final(self)@.wf(),
    {
        proof {
            stop_stays_well_formed(self@, event@, at);
        }
        let mut state = StopState::Stopped;
        std::mem::swap(&mut state, &mut self.state);
        match (state, event) {
            (StopState::Starting, StopEvent::Table(table)) => {
                self.start(table, at);
            },
            (StopState::Closing { processes, image, delivered }, StopEvent::Reached(windows)) => {
                self.request(processes, image, delivered, &windows, at);
            },
            (StopState::Grace { since, .. }, StopEvent::Waited) => {
                self.report.graceful_time = elapsed_time(since, at);
                self.state = StopState::Checking { rounds: 0, since: at };
            },
            (StopState::Checking { rounds, since }, StopEvent::Table(table)) => {
                self.check(table, rounds, since, at);
            },
            (StopState::Killing { rounds, since, .. }, StopEvent::Waited) => {
                self.state = StopState::Checking { rounds, since };
            },
            (state, _) => {
                self.state = state;
            },
        }
    }
}

/// A stop succeeds as soon as an inspection shows neither a target nor a forbidden process.
pub proof fn stop_succeeds_when_the_targets_are_gone(
    stop: StopModel,
    processes: Seq<ProcessModel>,
    at: u128,
)
    requires
        stop.action() == StopActionModel::Inspect,
        forall|k: int, i: int|
            0 <= k < processes.len() && 0 <= i < stop.targets.len() ==> !#[trigger] same_folded(
                processes[k].image,
                stop.targets[i],
            ),
        forall|k: int, i: int|
            0 <= k < processes.len() && 0 <= i < stop.forbidden.len() ==> !#[trigger] same_folded(
                processes[k].image,
                stop.forbidden[i],
            ),
    ensures
        stop.after(StopEventModel::Table(Ok(processes)), at).action() matches StopActionModel::Finish(
            Ok(report),
        ) && report.total_time == at && report.images == stop.report.images && report.pids
            == stop.report.pids && report.graceful_delivered == stop.report.graceful_delivered
            && report.graceful_time == stop.report.graceful_time,
{
    super::process::lemma_named_empty(processes, stop.targets);
    super::process::lemma_named_empty(processes, stop.forbidden);
}

/// How often a stop killed in the course of these events.
pub open spec fn kills(stop: StopModel, events: Seq<(StopEventModel, u128)>) -> nat
    decreases events.len(),
{
    if events.len() == 0 {
        0
    } else {
        kills(stop, events.drop_last()) + if stop.run(events.drop_last()).action() is ForceKill {
            1nat
        } else {
            0
        }
    }
}

/// Targets that will not go are killed as often as the options allow, no more and no less, before
/// a stop gives up; what it then names are targets that still run. A stop that succeeds reports how
/// often it killed.
pub proof fn stop_gives_up_after_its_rounds(
    targets: Seq<Seq<char>>,
    forbidden: Seq<Seq<char>>,
    options: StopOptions,
    events: Seq<(StopEventModel, u128)>,
)
    requires
        stop_begun(targets, forbidden, options).answered(events),
    ensures
        ({
            let begun = stop_begun(targets, forbidden, options);
            let count = kills(begun, events);
            &&& count <= options.max_force_rounds
            &&& match begun.run(events).action() {
                StopActionModel::Finish(Err(StopErrorModel::StillRunning(images))) => {
                    &&& count == options.max_force_rounds
                    &&& exists|seen: Seq<ProcessModel>| #[trigger]
                        just_seen(events, targets, forbidden, seen) && images == unique_of(seen)
                        && seen.len() > 0
                },
                StopActionModel::Finish(Ok(report)) => report.force_rounds == count,
                StopActionModel::ForceKill { .. } => count < options.max_force_rounds,
                StopActionModel::RequestClose(_) => count == 0,
                StopActionModel::AwaitExit { .. } => count == 0,
                _ => true,
            }
        }),
{
    lemma_kills(targets, forbidden, options, events);
}

proof fn lemma_kills(
    targets: Seq<Seq<char>>,
    forbidden: Seq<Seq<char>>,
    options: StopOptions,
    events: Seq<(StopEventModel, u128)>,
)
    requires
        stop_begun(targets, forbidden, options).answered(events),
    ensures
        ({
            let begun = stop_begun(targets, forbidden, options);
            let stop = begun.run(events);
            let count = kills(begun, events);
            &&& count <= options.max_force_rounds
            &&& stop.targets == targets && stop.forbidden == forbidden && stop.options == options
            &&& match stop.state {
                StopStateModel::Starting => count == 0 && stop.report.force_rounds == 0,
                StopStateModel::Closing { .. } => count == 0 && stop.report.force_rounds == 0,
                StopStateModel::Grace { .. } => count == 0 && stop.report.force_rounds == 0,
                StopStateModel::Checking { rounds, .. } => count == rounds,
                StopStateModel::Killing { rounds, .. } => count + 1 == rounds && rounds
                    <= options.max_force_rounds,
                StopStateModel::Stopped => stop.report.force_rounds == count,
                StopStateModel::Refused(StopErrorModel::StillRunning(images)) => {
                    &&& count == options.max_force_rounds
                    &&& exists|seen: Seq<ProcessModel>| #[trigger]
                        just_seen(events, targets, forbidden, seen) && images == unique_of(seen)
                        && seen.len() > 0
                },
                _ => true,
            }
        }),
    decreases events.len(),
{
    if events.len() > 0 {
        let front = events.drop_last();
        let begun = stop_begun(targets, forbidden, options);
        lemma_kills(targets, forbidden, options, front);
        let before = begun.run(front);
        if let StopEventModel::Table(Ok(processes)) = events.last().0 {
            if before.action() is Inspect && !any_named(processes, forbidden) {
                assert(just_seen(events, targets, forbidden, named(processes, targets)));
            }
        }
    }
}

/// Whether the processes were asked to close when the event `k` came.
pub open spec fn asked_at(
    stop: StopModel,
    events: Seq<(StopEventModel, u128)>,
    k: int,
    pids: Seq<u32>,
) -> bool {
    stop.run(events.take(k)).action() == StopActionModel::RequestClose(pids)
}

proof fn lemma_asked_longer(
    stop: StopModel,
    events: Seq<(StopEventModel, u128)>,
    k: int,
    pids: Seq<u32>,
)
    requires
        events.len() > 0,
        0 <= k <= events.len() - 1,
        asked_at(stop, events.drop_last(), k, pids),
    ensures
        asked_at(stop, events, k, pids),
{
    assert(events.drop_last().take(k) =~= events.take(k));
}

spec fn was_asked(
    stop: StopModel,
    events: Seq<(StopEventModel, u128)>,
    pids: Seq<u32>,
) -> bool {
    exists|k: int| 0 <= k < events.len() && #[trigger] asked_at(stop, events, k, pids)
}

spec fn all_asked(
    stop: StopModel,
    events: Seq<(StopEventModel, u128)>,
    processes: Seq<ProcessModel>,
    count: int,
) -> bool {
    forall|i: int|
        0 <= i < count ==> was_asked(
            stop,
            events,
            #[trigger] pids_of_image(processes, unique_of(processes)[i]),
        )
}

proof fn lemma_all_asked(
    stop: StopModel,
    events: Seq<(StopEventModel, u128)>,
    processes: Seq<ProcessModel>,
    count: int,
)
    requires
        events.len() > 0,
        all_asked(stop, events.drop_last(), processes, count),
    ensures
        all_asked(stop, events, processes, count),
{
    let front = events.drop_last();
    assert forall|i: int| 0 <= i < count implies was_asked(
        stop,
        events,
        #[trigger] pids_of_image(processes, unique_of(processes)[i]),
    ) by {
        let pids = pids_of_image(processes, unique_of(processes)[i]);
        assert(was_asked(stop, front, pids));
        let k = choose|k: int| 0 <= k < front.len() && #[trigger] asked_at(stop, front, k, pids);
        lemma_asked_longer(stop, events, k, pids);
    }
}

proof fn lemma_images_asked(
    targets: Seq<Seq<char>>,
    forbidden: Seq<Seq<char>>,
    options: StopOptions,
    events: Seq<(StopEventModel, u128)>,
    processes: Seq<ProcessModel>,
)
    requires
        stop_begun(targets, forbidden, options).answered(events),
        events.len() > 0,
        just_seen(events.take(1), targets, forbidden, processes),
        processes.len() > 0,
    ensures
        ({
            let begun = stop_begun(targets, forbidden, options);
            let stop = begun.run(events);
            &&& stop.report.images == unique_of(processes)
            &&& stop.report.pids == processes.len()
            &&& match stop.state {
                StopStateModel::Starting => false,
                StopStateModel::Closing { processes: these, image, .. } => these == processes
                    && 0 <= image < unique_of(processes).len() && all_asked(
                    begun,
                    events,
                    processes,
                    image,
                ),
                _ => all_asked(begun, events, processes, unique_of(processes).len() as int),
            }
        }),
    decreases events.len(),
{
    let begun = stop_begun(targets, forbidden, options);
    lemma_unique_nonempty(processes);
    stop_acts_on_clean_inspections(targets, forbidden, options, events);
    if events.len() == 1 {
        assert(events.take(1) =~= events);
        assert(begun.run(events.drop_last()) == begun);
    } else {
        let front = events.drop_last();
        assert(front.take(1) =~= events.take(1));
        lemma_images_asked(targets, forbidden, options, front, processes);
        stop_acts_on_clean_inspections(targets, forbidden, options, front);
        let before = begun.run(front);
        match before.state {
            StopStateModel::Closing { image, .. } => {
                let pids = pids_of_image(processes, unique_of(processes)[image]);
                assert(events.take(front.len() as int) =~= front);
                assert(asked_at(begun, events, front.len() as int, pids));
                assert(was_asked(begun, events, pids));
                lemma_all_asked(begun, events, processes, image);
                assert(all_asked(begun, events, processes, image + 1));
            },
            _ => {
                lemma_all_asked(begun, events, processes, unique_of(processes).len() as int);
            },
        }
    }
}

/// Every target that the first inspection showed was asked to close before the first is killed and
/// before the stop gives up, and the report counts them all.
pub proof fn every_target_is_asked_first(
    targets: Seq<Seq<char>>,
    forbidden: Seq<Seq<char>>,
    options: StopOptions,
    events: Seq<(StopEventModel, u128)>,
    processes: Seq<ProcessModel>,
    j: int,
)
    requires
        stop_begun(targets, forbidden, options).answered(events),
        events.len() > 0,
        just_seen(events.take(1), targets, forbidden, processes),
        0 <= j < processes.len(),
        stop_begun(targets, forbidden, options).run(events).action() !is RequestClose,
    ensures
        exists|k: int, pids: Seq<u32>|
            0 <= k < events.len() && #[trigger] asked_at(
                stop_begun(targets, forbidden, options),
                events,
                k,
                pids,
            ) && pids.contains(processes[j].pid),
        stop_begun(targets, forbidden, options).run(events).report.pids == processes.len(),
{
    let begun = stop_begun(targets, forbidden, options);
    lemma_images_asked(targets, forbidden, options, events, processes);
    super::process::unique_images_cover(processes, j);
    let image = processes[j].image;
    let images = unique_of(processes);
    let i = choose|i: int| 0 <= i < images.len() && same_folded(image, #[trigger] images[i]);
    let pids = pids_of_image(processes, images[i]);
    assert(was_asked(begun, events, pids));
    let k = choose|k: int| 0 <= k < events.len() && #[trigger] asked_at(begun, events, k, pids);
    let keep = |p: ProcessModel| same_folded(p.image, images[i]);
    lemma_filter_holds(processes, keep, j);
    let kept = processes.filter(keep);
    let n = choose|n: int| 0 <= n < kept.len() && kept[n] == processes[j];
    assert(pids[n] == processes[j].pid);
    assert(asked_at(begun, events, k, pids));
}

proof fn lemma_filter_holds<A>(s: Seq<A>, keep: spec_fn(A) -> bool, j: int)
    requires
        0 <= j < s.len(),
        keep(s[j]),
    ensures
        s.filter(keep).contains(s[j]),
    decreases s.len(),
{
    let front = s.drop_last();
    lemma_filter_push(front, keep, s.last());
    assert(s == front.push(s.last()));
    if j < front.len() {
        assert(front[j] == s[j]);
        lemma_filter_holds(front, keep, j);
        let kept = front.filter(keep);
        let n = choose|n: int| 0 <= n < kept.len() && kept[n] == s[j];
        assert(s.filter(keep)[n] == s[j]);
    } else {
        assert(s.filter(keep).last() == s[j]);
    }
}

/// A process that owns a window which can be asked is counted as asked and waited for.
pub proof fn windowed_process_is_awaited(
    stop: StopModel,
    windows: Seq<WindowRef>,
    at: u128,
    pid: u32,
    k: int,
)
    requires
        stop.action() matches StopActionModel::RequestClose(pids) && pids.contains(pid),
        pid != 0,
        0 <= k < windows.len(),
        windows[k].pid == pid,
        !windows[k].owned,
    ensures
        asked(stop.after(StopEventModel::Reached(windows), at)).contains(pid),
{
    super::process::root_windows_can_be_asked(windows, pid);
    if let StopStateModel::Closing { processes, image, delivered } = stop.state {
        let pids = pids_of_image(processes, stop.report.images[image]);
        let more = with_window(pids, windows);
        let j = choose|j: int| 0 <= j < pids.len() && pids[j] == pid;
        lemma_filter_holds(pids, |pid: u32| roots(windows, pid) > 0, j);
        let n = choose|n: int| 0 <= n < more.len() && more[n] == pid;
        assert((delivered + more)[delivered.len() + n] == pid);
    }
}

/// Those that were asked have just the grace of the options, and what is killed has just their wait.
pub proof fn stop_waits_as_its_options_say(stop: StopModel)
    ensures
        stop.action() matches StopActionModel::AwaitExit { delivered, nanos } ==> nanos
            == stop.options.grace && delivered == asked(stop),
        stop.action() matches StopActionModel::ForceKill { nanos, .. } ==> nanos
            == stop.options.force_wait,
        stop.action() is AwaitExit ==> stop.after(StopEventModel::Waited, 0).action() is Inspect,
        stop.action() is ForceKill ==> stop.after(StopEventModel::Waited, 0).action() is Inspect,
{
}

/// The times of a report are measured: the graceful time from when the last process was asked until
/// the wait for them was over, the force time from then until the end, and the total from the start.
pub proof fn times_are_measured_from_their_start(stop: StopModel, event: StopEventModel, at: u128)
    ensures
        ({
            let next = stop.after(event, at);
            match (stop.state, event) {
                (StopStateModel::Closing { .. }, StopEventModel::Reached(_)) => {
                    &&& next.state matches StopStateModel::Grace { since, .. } ==> since == at
                    &&& next.state matches StopStateModel::Checking { since, rounds } ==> since == at
                        && rounds == 0
                },
                (StopStateModel::Grace { since, .. }, StopEventModel::Waited) => {
                    &&& next.state == (StopStateModel::Checking { rounds: 0, since: at })
                    &&& at >= since ==> next.report.graceful_time + since == at
                },
                (StopStateModel::Checking { since, rounds }, StopEventModel::Table(_)) => {
                    &&& next.state matches StopStateModel::Killing { since: kept, .. } ==> kept
                        == since
                    &&& next.state is Stopped ==> {
                        &&& at >= since ==> next.report.force_time + since == at
                        &&& next.report.total_time == at
                        &&& next.report.force_rounds == rounds
                    }
                },
                (StopStateModel::Killing { since, rounds, .. }, StopEventModel::Waited) => {
                    next.state == (StopStateModel::Checking { rounds, since })
                },
                _ => true,
            }
        }),
{
}

} // verus!
