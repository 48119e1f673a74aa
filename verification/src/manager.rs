//! The transfer queue manager: an ordered, deduplicated queue of outbound
//! transfers, a single-worker drain discipline, and the events both
//! publish.
//!
//! The manager is a pure state machine.  Locks, threads and the clock
//! belong to the embedding program: it wraps the manager in its own mutual
//! exclusion, runs the worker loop, performs the reachability test for
//! `set_ftp_ip`, reads file contents, and forwards the returned events to
//! its event sink.

use vstd::prelude::*;
use vstd::string::StringExecFns;

use crate::errors::FtpError;
use crate::transfer::UploadError;

verus! {

/// One transferable file found by the scanner.  Identity is `file_path`;
/// records are never mutated after creation.
#[derive(Debug)]
pub struct GameFile {
    pub game_id: u32,
    pub game_title: String,
    pub file_path: String,
    pub file_name: String,
    pub file_size: u64,
}

/// Abstract value of a `GameFile`.
#[verifier::ext_equal]
pub ghost struct GameFileView {
    pub game_id: int,
    pub game_title: Seq<char>,
    pub file_path: Seq<char>,
    pub file_name: Seq<char>,
    pub file_size: int,
}

impl View for GameFile {
    type V = GameFileView;

    open spec fn view(&self) -> GameFileView {
        GameFileView {
            game_id: self.game_id as int,
            game_title: self.game_title@,
            file_path: self.file_path@,
            file_name: self.file_name@,
            file_size: self.file_size as int,
        }
    }
}

impl DeepView for GameFile {
    type V = GameFileView;

    open spec fn deep_view(&self) -> GameFileView {
        self.view()
    }
}

impl Clone for GameFile {
    fn clone(&self) -> (r: Self)
        ensures
            r@ == self@,
    {
        GameFile {
            game_id: self.game_id,
            game_title: self.game_title.clone(),
            file_path: self.file_path.clone(),
            file_name: self.file_name.clone(),
            file_size: self.file_size,
        }
    }
}

/// Lifecycle of a transfer task.
#[derive(Clone, Copy, Debug, PartialEq, Eq, Structural)]
pub enum TransferStatus {
    Queued,
    Transferring,
    Completed,
    Failed,
    Cancelled,
}

/// Snapshot of the currently active transfer, replaced wholesale on each
/// update.  The upload is all-or-nothing, so the observable percentage is
/// 0 while transferring and 100 on completion; `eta_seconds` is always 0
/// and `transfer_speed` (bytes per second) is only computed post-hoc for
/// the completion record.
#[derive(Debug)]
pub struct TransferProgress {
    pub game_id: u32,
    pub file_name: String,
    pub bytes_transferred: u64,
    pub total_bytes: u64,
    pub progress_percent: u8,
    pub transfer_speed: u64,
    pub eta_seconds: u64,
    pub status: TransferStatus,
}

/// Abstract value of a `TransferProgress`.
#[verifier::ext_equal]
pub ghost struct TransferProgressView {
    pub game_id: int,
    pub file_name: Seq<char>,
    pub bytes_transferred: int,
    pub total_bytes: int,
    pub progress_percent: int,
    pub transfer_speed: int,
    pub eta_seconds: int,
    pub status: TransferStatus,
}

impl View for TransferProgress {
    type V = TransferProgressView;

    open spec fn view(&self) -> TransferProgressView {
        TransferProgressView {
            game_id: self.game_id as int,
            file_name: self.file_name@,
            bytes_transferred: self.bytes_transferred as int,
            total_bytes: self.total_bytes as int,
            progress_percent: self.progress_percent as int,
            transfer_speed: self.transfer_speed as int,
            eta_seconds: self.eta_seconds as int,
            status: self.status,
        }
    }
}

/// One queued transfer.
#[derive(Debug)]
pub struct TransferTask {
    pub game_file: GameFile,
    pub status: TransferStatus,
}

/// Abstract value of a queued transfer.
#[verifier::ext_equal]
pub ghost struct TaskView {
    pub file: GameFileView,
    pub status: TransferStatus,
}

impl View for TransferTask {
    type V = TaskView;

    open spec fn view(&self) -> TaskView {
        TaskView { file: self.game_file@, status: self.status }
    }
}

/// An event published to the embedding program's event sink.
#[derive(Debug)]
pub enum ManagerEvent {
    /// The queue length changed.
    QueueUpdated { queue_length: usize },
    /// The active transfer's progress record was replaced.
    TransferProgress { progress: TransferProgress },
    /// A transfer finished successfully.
    TransferComplete { game_id: u32, file_name: String },
    /// A transfer failed; `error` carries the failure text.
    TransferError { game_id: u32, file_name: String, error: String },
}

/// Abstract value of a `ManagerEvent`.
#[verifier::ext_equal]
pub ghost enum EventView {
    QueueUpdated { queue_length: int },
    TransferProgress { progress: TransferProgressView },
    TransferComplete { game_id: int, file_name: Seq<char> },
    TransferError { game_id: int, file_name: Seq<char>, error: Seq<char> },
}

impl View for ManagerEvent {
    type V = EventView;

    open spec fn view(&self) -> EventView {
        match self {
            ManagerEvent::QueueUpdated { queue_length } => EventView::QueueUpdated {
                queue_length: *queue_length as int,
            },
            ManagerEvent::TransferProgress { progress } => EventView::TransferProgress {
                progress: progress@,
            },
            ManagerEvent::TransferComplete { game_id, file_name } => EventView::TransferComplete {
                game_id: *game_id as int,
                file_name: file_name@,
            },
            ManagerEvent::TransferError { game_id, file_name, error } => EventView::TransferError {
                game_id: *game_id as int,
                file_name: file_name@,
                error: error@,
            },
        }
    }
}

/// The views of a published event list.
pub open spec fn event_views(events: Seq<ManagerEvent>) -> Seq<EventView> {
    events.map_values(|e: ManagerEvent| e@)
}

/// Abstract state of the manager.
#[verifier::ext_equal]
pub ghost struct ManagerView {
    /// The single target host transfers go to; absent until set.
    pub ftp_ip: Option<Seq<char>>,
    /// Pending tasks, front first.  The active task is not in the queue.
    pub queue: Seq<TaskView>,
    /// Whether a worker currently runs (or must be started).
    pub is_transferring: bool,
    /// The file currently being uploaded, if any.
    pub active: Option<GameFileView>,
}

/// The file paths of the queued tasks, front first.
pub open spec fn queue_paths(q: Seq<TaskView>) -> Seq<Seq<char>> {
    q.map_values(|t: TaskView| t.file.file_path)
}

impl ManagerView {
    /// Internal invariant: queued paths are unique, every queued task is
    /// still `Queued`, and a task is only active while a worker runs.
    pub open spec fn wf(self) -> bool {
        &&& forall|i: int, j: int|
            0 <= i < j < self.queue.len() ==> #[trigger] self.queue[i].file.file_path != (
            #[trigger] self.queue[j].file.file_path)
        &&& forall|i: int|
            0 <= i < self.queue.len() ==> #[trigger] self.queue[i].status
                == TransferStatus::Queued
        &&& self.active is Some ==> self.is_transferring
    }

    /// The state of a freshly constructed manager.
    pub open spec fn init() -> ManagerView {
        ManagerView {
            ftp_ip: None,
            queue: Seq::empty(),
            is_transferring: false,
            active: None,
        }
    }
}

/// What `set_ftp_ip` does: reject a malformed address, reject an
/// unreachable one leaving the target unset, otherwise commit the target.
pub open spec fn spec_set_target(m: ManagerView, ip: Seq<char>, reachable: bool) -> (ManagerView,
    Result<(), FtpError>) {
    if !crate::discovery::is_dotted_quad(ip) {
        (m, Err(FtpError::InvalidAddress))
    } else if !reachable {
        (m, Err(FtpError::Unreachable))
    } else {
        (ManagerView { ftp_ip: Some(ip), ..m }, Ok(()))
    }
}

/// What `queue_file` does: reject a path already queued, otherwise append
/// the task with status `Queued`; a worker must be started exactly when
/// none was running.
pub open spec fn spec_enqueue(m: ManagerView, f: GameFileView) -> (ManagerView, Result<
    bool,
    FtpError,
>) {
    if queue_paths(m.queue).contains(f.file_path) {
        (m, Err(FtpError::DuplicateEntry))
    } else {
        (
            ManagerView {
                queue: m.queue.push(TaskView { file: f, status: TransferStatus::Queued }),
                is_transferring: true,
                ..m
            },
            Ok(!m.is_transferring),
        )
    }
}

/// What `clear_queue` does: fail while a transfer is in progress, leaving
/// everything unchanged, otherwise empty the queue.
pub open spec fn spec_clear(m: ManagerView) -> (ManagerView, Result<(), FtpError>) {
    if m.is_transferring {
        (m, Err(FtpError::Busy))
    } else {
        (ManagerView { queue: Seq::empty(), ..m }, Ok(()))
    }
}

/// What `remove_from_queue` does: fail for the path currently
/// transferring, remove a queued path, and report an unknown path.
pub open spec fn spec_remove(m: ManagerView, path: Seq<char>) -> (ManagerView, Result<
    (),
    FtpError,
>) {
    if m.active matches Some(f) && f.file_path == path {
        (m, Err(FtpError::InUse))
    } else if queue_paths(m.queue).contains(path) {
        (
            ManagerView { queue: m.queue.filter(|t: TaskView| t.file.file_path != path), ..m },
            Ok(()),
        )
    } else {
        (m, Err(FtpError::NotFound))
    }
}

/// The progress record published when a transfer starts: nothing sent
/// yet, status `Transferring`.
pub open spec fn initial_progress(f: GameFileView) -> TransferProgressView {
    TransferProgressView {
        game_id: f.game_id,
        file_name: f.file_name,
        bytes_transferred: 0,
        total_bytes: f.file_size,
        progress_percent: 0,
        transfer_speed: 0,
        eta_seconds: 0,
        status: TransferStatus::Transferring,
    }
}

/// The progress record published when a transfer completed: everything
/// sent, status `Completed`, speed computed post-hoc.
pub open spec fn complete_progress(f: GameFileView, elapsed_seconds: int) -> TransferProgressView {
    TransferProgressView {
        game_id: f.game_id,
        file_name: f.file_name,
        bytes_transferred: f.file_size,
        total_bytes: f.file_size,
        progress_percent: 100,
        transfer_speed: spec_speed(f.file_size, elapsed_seconds),
        eta_seconds: 0,
        status: TransferStatus::Completed,
    }
}

/// Transfer speed in bytes per second, computed post-hoc as size divided
/// by elapsed time; 0 when no time was measured.
pub open spec fn spec_speed(size: int, elapsed_seconds: int) -> int {
    if elapsed_seconds <= 0 {
        0
    } else {
        size / elapsed_seconds
    }
}

/// The failure text published when a task is popped with no target set.
pub open spec fn no_target_message() -> Seq<char> {
    "no target configured"@
}

/// What the worker must do next, decided by `FTPManager::worker_next`.
#[derive(Debug)]
pub enum WorkerStep {
    /// The queue is empty: the worker terminates (a new one is started on
    /// the next enqueue).
    Stop,
    /// The popped task failed for want of a target; move on to the next.
    NoTarget,
    /// Upload `file`'s contents to `ftp_ip`, then call `worker_finish`
    /// with the outcome.
    Upload { file: GameFile, ftp_ip: String },
}

impl Clone for TransferTask {
    fn clone(&self) -> (r: Self)
        ensures
            r@ == self@,
    {
        TransferTask { game_file: self.game_file.clone(), status: self.status }
    }
}

impl DeepView for TransferTask {
    type V = TaskView;

    open spec fn deep_view(&self) -> TaskView {
        self.view()
    }
}

/// Whether some queued task carries `path`.
fn queue_contains_path(queue: &Vec<TransferTask>, path: &String) -> (r: bool)
    ensures
        r == queue_paths(queue.deep_view()).contains(path@),
{
    let mut i: usize = 0;
    while i < queue.len()
        invariant
            0 <= i <= queue.len(),
            queue.deep_view().len() == queue@.len(),
            forall|j: int| 0 <= j < i ==> #[trigger] queue.deep_view()[j].file.file_path != path@,
        decreases queue.len() - i,
    {
        proof {
            assert(queue.deep_view()[i as int] == queue@[i as int]@);
        }
        if queue[i].game_file.file_path.eq(path) {
            proof {
                assert(queue_paths(queue.deep_view())[i as int] == path@);
            }
            return true;
        }
        i = i + 1;
    }
    proof {
        assert forall|j: int| 0 <= j < queue_paths(queue.deep_view()).len() implies #[trigger]
        queue_paths(queue.deep_view())[j] != path@ by {
            assert(queue.deep_view()[j].file.file_path != path@);
        }
    }
    false
}

/// The transfer queue manager.  All decisions — admission, clearing,
/// cancellation, worker scheduling and event contents — are made here;
/// the embedding program supplies mutual exclusion, the worker thread and
/// the upload outcome.
pub struct FTPManager {
    ftp_ip: Option<String>,
    transfer_queue: Vec<TransferTask>,
    is_transferring: bool,
    active: Option<GameFile>,
}

impl View for FTPManager {
    type V = ManagerView;

    closed spec fn view(&self) -> ManagerView {
        ManagerView {
            ftp_ip: match self.ftp_ip {
                Some(ref s) => Some(s@),
                None => None,
            },
            queue: self.transfer_queue.deep_view(),
            is_transferring: self.is_transferring,
            active: match self.active {
                Some(ref f) => Some(f@),
                None => None,
            },
        }
    }
}

impl FTPManager {
    /// A manager with no target, an empty queue and no worker.
    pub fn new() -> (r: Self)
        ensures
            r@ == ManagerView::init(),
    {
        let r = FTPManager {
            ftp_ip: None,
            transfer_queue: Vec::new(),
            is_transferring: false,
            active: None,
        };
        proof {
            assert(r@ =~= ManagerView::init());
        }
        r
    }

    /// Commits `ip` as the transfer target, as `spec_set_target`
    /// describes.  `reachable` is the outcome of the caller's bounded
    /// connect test against `ip`; on any failure the previous target (or
    /// its absence) is kept.
    pub fn set_ftp_ip(&mut self, ip: String, reachable: bool) -> (r: Result<(), FtpError>)
        ensures
            (final (self)@, r) == spec_set_target(old(self)@, ip@, reachable),
    {
        if !crate::discovery::check_dotted_quad(ip.as_str()) {
            return Err(FtpError::InvalidAddress);
        }
        if !reachable {
            return Err(FtpError::Unreachable);
        }
        self.ftp_ip = Some(ip);
        proof {
            assert(final (self)@ =~= spec_set_target(old(self)@, ip@, reachable).0);
        }
        Ok(())
    }

    /// The current target, if one has been set.
    pub fn get_ftp_ip(&self) -> (r: Option<String>)
        ensures
            (r is Some) == (self@.ftp_ip is Some),
            r matches Some(s) ==> self@.ftp_ip == Some(s@),
    {
        match &self.ftp_ip {
            Some(ip) => Some(ip.clone()),
            None => None,
        }
    }

    /// Admits `game_file` to the queue, as `spec_enqueue` describes.  On
    /// success a queue-length event is appended and the result says
    /// whether the caller must start a worker; a duplicate path changes
    /// nothing.
    pub fn queue_file(&mut self, game_file: GameFile, events: &mut Vec<ManagerEvent>) -> (r: Result<
        bool,
        FtpError,
    >)
        ensures
            (final (self)@, r) == spec_enqueue(old(self)@, game_file@),
            r is Ok ==> event_views(final (events)@) == event_views(old(events)@).push(
                EventView::QueueUpdated { queue_length: old(self)@.queue.len() as int + 1 },
            ),
            r is Err ==> final (events)@ == old(events)@,
    {
        if queue_contains_path(&self.transfer_queue, &game_file.file_path) {
            return Err(FtpError::DuplicateEntry);
        }
        self.transfer_queue.push(TransferTask { game_file, status: TransferStatus::Queued });
        let ghost prev_events = events@;
        events.push(ManagerEvent::QueueUpdated { queue_length: self.transfer_queue.len() });
        let start = !self.is_transferring;
        self.is_transferring = true;
        proof {
            assert(final (self)@.queue =~= spec_enqueue(old(self)@, game_file@).0.queue);
            assert(final (self)@ =~= spec_enqueue(old(self)@, game_file@).0);
            assert(event_views(final (events)@) =~= event_views(prev_events).push(
                EventView::QueueUpdated { queue_length: old(self)@.queue.len() as int + 1 },
            ));
        }
        Ok(start)
    }

    /// A snapshot of the queued files, front first.
    pub fn get_queue(&self) -> (r: Vec<GameFile>)
        ensures
            r.deep_view() == self@.queue.map_values(|t: TaskView| t.file),
    {
        let mut r: Vec<GameFile> = Vec::new();
        let mut i: usize = 0;
        proof {
            assert(r.deep_view() =~= self@.queue.map_values(|t: TaskView| t.file).take(0));
        }
        while i < self.transfer_queue.len()
            invariant
                0 <= i <= self.transfer_queue.len(),
                self.transfer_queue.deep_view().len() == self.transfer_queue@.len(),
                self@.queue == self.transfer_queue.deep_view(),
                r.deep_view() == self@.queue.map_values(|t: TaskView| t.file).take(i as int),
            decreases self.transfer_queue.len() - i,
        {
            let ghost prev = r.deep_view();
            r.push(self.transfer_queue[i].game_file.clone());
            proof {
                assert(self.transfer_queue.deep_view()[i as int] == self.transfer_queue@[i as int]@);
                assert(r.deep_view() =~= prev.push(self@.queue[i as int].file));
                assert(self@.queue.map_values(|t: TaskView| t.file).take(i + 1) =~= self@.queue
                    .map_values(|t: TaskView| t.file).take(i as int).push(
                    self@.queue[i as int].file,
                ));
            }
            i = i + 1;
        }
        proof {
            assert(self@.queue.map_values(|t: TaskView| t.file).take(self.transfer_queue@.len() as int)
                =~= self@.queue.map_values(|t: TaskView| t.file));
        }
        r
    }

    /// Empties the queue, as `spec_clear` describes: refused with `Busy`
    /// while a transfer is in progress, else a zero-length queue event is
    /// appended.
    pub fn clear_queue(&mut self, events: &mut Vec<ManagerEvent>) -> (r: Result<(), FtpError>)
        ensures
            (final (self)@, r) == spec_clear(old(self)@),
            r is Ok ==> event_views(final (events)@) == event_views(old(events)@).push(
                EventView::QueueUpdated { queue_length: 0 },
            ),
            r is Err ==> final (events)@ == old(events)@,
    {
        if self.is_transferring {
            return Err(FtpError::Busy);
        }
        self.transfer_queue = Vec::new();
        let ghost prev_events = events@;
        events.push(ManagerEvent::QueueUpdated { queue_length: 0 });
        proof {
            assert(final (self)@.queue =~= Seq::<TaskView>::empty());
            assert(final (self)@ =~= spec_clear(old(self)@).0);
            assert(event_views(final (events)@) =~= event_views(prev_events).push(
                EventView::QueueUpdated { queue_length: 0 },
            ));
        }
        Ok(())
    }

    /// Cancels the queued task carrying `file_path`, as `spec_remove`
    /// describes: the task currently transferring is refused with
    /// `InUse` (it runs to completion or failure), an unknown path with
    /// `NotFound`; on success a queue-length event is appended.
    pub fn remove_from_queue(&mut self, file_path: &String, events: &mut Vec<ManagerEvent>) -> (r:
        Result<(), FtpError>)
        ensures
            (final (self)@, r) == spec_remove(old(self)@, file_path@),
            r is Ok ==> event_views(final (events)@) == event_views(old(events)@).push(
                EventView::QueueUpdated { queue_length: final (self)@.queue.len() as int },
            ),
            r is Err ==> final (events)@ == old(events)@,
    {
        match &self.active {
            Some(f) => {
                if f.file_path.eq(file_path) {
                    return Err(FtpError::InUse);
                }
            },
            None => {},
        }
        if !queue_contains_path(&self.transfer_queue, file_path) {
            return Err(FtpError::NotFound);
        }
        let ghost pred = |t: TaskView| t.file.file_path != file_path@;
        let mut kept: Vec<TransferTask> = Vec::new();
        let mut i: usize = 0;
        proof {
            assert(kept.deep_view() =~= self.transfer_queue.deep_view().take(0).filter(pred));
        }
        while i < self.transfer_queue.len()
            invariant
                0 <= i <= self.transfer_queue.len(),
                self.transfer_queue.deep_view().len() == self.transfer_queue@.len(),
                pred == (|t: TaskView| t.file.file_path != file_path@),
                kept.deep_view() == self.transfer_queue.deep_view().take(i as int).filter(pred),
            decreases self.transfer_queue.len() - i,
        {
            proof {
                assert(self.transfer_queue.deep_view()[i as int] == self.transfer_queue@[i as int]@);
                assert(self.transfer_queue.deep_view().take(i + 1) =~= self.transfer_queue
                    .deep_view().take(i as int).push(self.transfer_queue.deep_view()[i as int]));
                self.transfer_queue.deep_view().take(i as int).lemma_filter_push(
                    self.transfer_queue.deep_view()[i as int],
                    pred,
                );
            }
            if !self.transfer_queue[i].game_file.file_path.eq(file_path) {
                let ghost prev = kept.deep_view();
                kept.push(self.transfer_queue[i].clone());
                proof {
                    assert(kept.deep_view() =~= prev.push(
                        self.transfer_queue.deep_view()[i as int],
                    ));
                }
            }
            i = i + 1;
        }
        proof {
            assert(self.transfer_queue.deep_view().take(self.transfer_queue@.len() as int)
                =~= self.transfer_queue.deep_view());
        }
        self.transfer_queue = kept;
        let ghost prev_events = events@;
        events.push(ManagerEvent::QueueUpdated { queue_length: self.transfer_queue.len() });
        proof {
            assert(final (self)@ =~= spec_remove(old(self)@, file_path@).0);
            assert(event_views(final (events)@) =~= event_views(prev_events).push(
                EventView::QueueUpdated { queue_length: final (self)@.queue.len() as int },
            ));
        }
        Ok(())
    }

    /// The progress record of the active transfer, if one is running.
    pub fn get_current_transfer(&self) -> (r: Option<TransferProgress>)
        ensures
            match self@.active {
                Some(f) => r matches Some(p) && p@ == initial_progress(f),
                None => r is None,
            },
    {
        match &self.active {
            Some(f) => Some(
                TransferProgress {
                    game_id: f.game_id,
                    file_name: f.file_name.clone(),
                    bytes_transferred: 0,
                    total_bytes: f.file_size,
                    progress_percent: 0,
                    transfer_speed: 0,
                    eta_seconds: 0,
                    status: TransferStatus::Transferring,
                },
            ),
            None => None,
        }
    }

    /// Whether a worker currently runs.
    pub fn is_transferring(&self) -> (r: bool)
        ensures
            r == self@.is_transferring,
    {
        self.is_transferring
    }

    /// The worker's next step.  Called by the worker loop between tasks:
    /// pops the front task and decides.  An empty queue terminates the
    /// worker; a task popped with no target set fails at once with a
    /// transfer-error event whose reason is `no_target_message`; otherwise
    /// the task becomes the active transfer, an initial progress event is
    /// appended, and the caller must perform the upload and report back
    /// through `worker_finish`.
    pub fn worker_next(&mut self, events: &mut Vec<ManagerEvent>) -> (step: WorkerStep)
        requires
            old(self)@.is_transferring,
            old(self)@.active is None,
        ensures
            old(self)@.queue.len() == 0 ==> (step is Stop && final (self)@ == (ManagerView {
                is_transferring: false,
                ..old(self)@
            }) && final (events)@ == old(events)@),
            old(self)@.queue.len() > 0 && old(self)@.ftp_ip is None ==> (step is NoTarget && final (
            self)@ == (ManagerView { queue: old(self)@.queue.drop_first(), ..old(self)@ })
                && event_views(final (events)@) == event_views(old(events)@).push(
                EventView::TransferError {
                    game_id: old(self)@.queue[0].file.game_id,
                    file_name: old(self)@.queue[0].file.file_name,
                    error: no_target_message(),
                },
            )),
            old(self)@.queue.len() > 0 && old(self)@.ftp_ip is Some ==> (step matches
                WorkerStep::Upload { file, ftp_ip } && file@ == old(self)@.queue[0].file && ftp_ip@
                == old(self)@.ftp_ip->Some_0 && final (self)@ == (ManagerView {
                queue: old(self)@.queue.drop_first(),
                active: Some(old(self)@.queue[0].file),
                ..old(self)@
            }) && event_views(final (events)@) == event_views(old(events)@).push(
                EventView::TransferProgress {
                    progress: initial_progress(old(self)@.queue[0].file),
                },
            )),
    {
        if self.transfer_queue.len() == 0 {
            self.is_transferring = false;
            proof {
                assert(final (self)@ =~= (ManagerView {
                    is_transferring: false,
                    ..old(self)@
                }));
            }
            return WorkerStep::Stop;
        }
        let task = self.transfer_queue.remove(0);
        proof {
            assert(self.transfer_queue.deep_view() =~= old(self)@.queue.drop_first());
            assert(task@ == old(self)@.queue[0]);
        }
        match &self.ftp_ip {
            None => {
                let ghost prev_events = events@;
                events.push(
                    ManagerEvent::TransferError {
                        game_id: task.game_file.game_id,
                        file_name: task.game_file.file_name,
                        error: "no target configured".to_owned(),
                    },
                );
                proof {
                    assert(final (self)@ =~= (ManagerView {
                        queue: old(self)@.queue.drop_first(),
                        ..old(self)@
                    }));
                    assert(event_views(events@) =~= event_views(prev_events).push(
                        EventView::TransferError {
                            game_id: old(self)@.queue[0].file.game_id,
                            file_name: old(self)@.queue[0].file.file_name,
                            error: no_target_message(),
                        },
                    ));
                }
                WorkerStep::NoTarget
            },
            Some(ip) => {
                let file = task.game_file;
                let ftp_ip = ip.clone();
                let progress = TransferProgress {
                    game_id: file.game_id,
                    file_name: file.file_name.clone(),
                    bytes_transferred: 0,
                    total_bytes: file.file_size,
                    progress_percent: 0,
                    transfer_speed: 0,
                    eta_seconds: 0,
                    status: TransferStatus::Transferring,
                };
                let ghost prev_events = events@;
                events.push(ManagerEvent::TransferProgress { progress });
                self.active = Some(file.clone());
                proof {
                    assert(final (self)@ =~= (ManagerView {
                        queue: old(self)@.queue.drop_first(),
                        active: Some(old(self)@.queue[0].file),
                        ..old(self)@
                    }));
                    assert(event_views(events@) =~= event_views(prev_events).push(
                        EventView::TransferProgress {
                            progress: initial_progress(old(self)@.queue[0].file),
                        },
                    ));
                }
                WorkerStep::Upload { file, ftp_ip }
            },
        }
    }

    /// Settles the active transfer with the upload's outcome and how many
    /// seconds it took.  On success a completed progress event (speed
    /// computed post-hoc) and a completion event are appended; on failure
    /// a transfer-error event carrying the failure text.  Either way the
    /// active slot is cleared and a queue-length event follows, and the
    /// worker goes on to `worker_next`.
    pub fn worker_finish(
        &mut self,
        outcome: Result<(), UploadError>,
        elapsed_seconds: u64,
        events: &mut Vec<ManagerEvent>,
    )
        requires
            old(self)@.is_transferring,
            old(self)@.active matches Some(f),
        ensures
            final (self)@ == (ManagerView { active: None, ..old(self)@ }),
            outcome matches Ok(()) ==> event_views(final (events)@) == event_views(old(events)@)
                .push(
                EventView::TransferProgress {
                    progress: complete_progress(
                        old(self)@.active->Some_0,
                        elapsed_seconds as int,
                    ),
                },
            ).push(
                EventView::TransferComplete {
                    game_id: old(self)@.active->Some_0.game_id,
                    file_name: old(self)@.active->Some_0.file_name,
                },
            ).push(EventView::QueueUpdated { queue_length: old(self)@.queue.len() as int }),
            outcome matches Err(e) ==> event_views(final (events)@) == event_views(old(events)@)
                .push(
                EventView::TransferError {
                    game_id: old(self)@.active->Some_0.game_id,
                    file_name: old(self)@.active->Some_0.file_name,
                    error: e@.message_spec(),
                },
            ).push(EventView::QueueUpdated { queue_length: old(self)@.queue.len() as int }),
    {
        let file = match &self.active {
            Some(f) => f.clone(),
            None => vstd::pervasive::unreached(),
        };
        let ghost prev_events = events@;
        match outcome {
            Ok(()) => {
                let speed = compute_speed(file.file_size, elapsed_seconds);
                let progress = TransferProgress {
                    game_id: file.game_id,
                    file_name: file.file_name.clone(),
                    bytes_transferred: file.file_size,
                    total_bytes: file.file_size,
                    progress_percent: 100,
                    transfer_speed: speed,
                    eta_seconds: 0,
                    status: TransferStatus::Completed,
                };
                events.push(ManagerEvent::TransferProgress { progress });
                events.push(
                    ManagerEvent::TransferComplete {
                        game_id: file.game_id,
                        file_name: file.file_name,
                    },
                );
            },
            Err(e) => {
                events.push(
                    ManagerEvent::TransferError {
                        game_id: file.game_id,
                        file_name: file.file_name,
                        error: e.message(),
                    },
                );
            },
        }
        self.active = None;
        events.push(ManagerEvent::QueueUpdated { queue_length: self.transfer_queue.len() });
        proof {
            assert(final (self)@ =~= (ManagerView { active: None, ..old(self)@ }));
            if outcome is Ok {
                assert(event_views(events@) =~= event_views(prev_events).push(
                    EventView::TransferProgress {
                        progress: complete_progress(
                            old(self)@.active->Some_0,
                            elapsed_seconds as int,
                        ),
                    },
                ).push(
                    EventView::TransferComplete {
                        game_id: old(self)@.active->Some_0.game_id,
                        file_name: old(self)@.active->Some_0.file_name,
                    },
                ).push(EventView::QueueUpdated { queue_length: old(self)@.queue.len() as int }));
            } else {
                assert(event_views(events@) =~= event_views(prev_events).push(
                    EventView::TransferError {
                        game_id: old(self)@.active->Some_0.game_id,
                        file_name: old(self)@.active->Some_0.file_name,
                        error: outcome->Err_0@.message_spec(),
                    },
                ).push(EventView::QueueUpdated { queue_length: old(self)@.queue.len() as int }));
            }
        }
    }
}

/// Bytes per second of a finished transfer, as `spec_speed` describes.
pub fn compute_speed(size: u64, elapsed_seconds: u64) -> (r: u64)
    ensures
        r == spec_speed(size as int, elapsed_seconds as int),
{
    if elapsed_seconds == 0 {
        0
    } else {
        size / elapsed_seconds
    }
}

} // verus!
