//! The run of the builder: which shards are fetched, what is counted, and how
//! the run ends.
//!
//! The scheduler takes each shard of the range in turn, asks the state store
//! for its record, and fetches the shard where it is due. The coordinator
//! counts what the scheduler and the filter builder report, tells the state
//! store of every shard that was built, and closes the pipeline when all
//! shards are through or an interrupt arrives.

use vstd::prelude::*;
use crate::downloader::DownloadResult;
use crate::filter_builder::{BuildEnd, FilterResult, HashList};
use crate::misc::{
    ascii_text, is_shard_id, padded_hex, shard_hex, shard_prefix, DownloadError, DownloadStatus,
    MAX_COUNT,
};
use crate::statedb::{is_outdated, last_update_time, outdated, parse_last_update, State, Timestamp};

verus! {

/// The run ended well.
pub const EXIT_OK: u8 = 0;

/// The state store could not be opened, or cannot be written.
pub const EXIT_STATE_STORE: u8 = 1;

/// The pipeline broke under the coordinator, or the filter is full.
pub const EXIT_PIPELINE: u8 = 2;

/// The state store could not be closed.
pub const EXIT_STATE_CLOSE: u8 = 3;

/// The range of shards is not one.
pub const EXIT_BAD_RANGE: u8 = 255;

/// Whether `start` and `end` name a range of shards: both inclusive, not
/// empty, within the shards that there are.
pub open spec fn is_shard_range(start: u32, end: u32) -> bool {
    start <= end && end <= MAX_COUNT
}

/// The number of shards from `start` to `end`, or the exit code for a range
/// that is none.
pub fn shard_count(start: u32, end: u32) -> (r: Result<u32, u8>)
    ensures
        is_shard_range(start, end) ==> r == Ok::<u32, u8>((end - start + 1) as u32),
        !is_shard_range(start, end) ==> r == Err::<u32, u8>(EXIT_BAD_RANGE),
{
    if start > end || end > MAX_COUNT {
        Err(EXIT_BAD_RANGE)
    } else {
        Ok(end - start + 1)
    }
}

/// What the run has counted so far.
#[derive(Clone, Copy, Debug, PartialEq, Eq, Structural)]
pub struct Status {
    /// Shards in the range.
    pub total: u32,
    /// Shards that were not fetched, or whose copy had not changed.
    pub skipped: u32,
    /// Shards whose body was fetched.
    pub downloaded: u32,
    /// Bytes of all bodies fetched.
    pub downloaded_bytes: u64,
    /// Hashes in all shards built.
    pub hashes: u32,
    /// Hashes that were newly added to the filter.
    pub hashes_new: u32,
    /// Shards that failed.
    pub error: u32,
    /// Shards that the scheduler is through with.
    pub processed: u32,
}

impl Status {
    /// Whether the counts agree: every shard that the scheduler is through
    /// with was skipped, was fetched or failed, and no more hashes were added
    /// than were seen.
    pub open spec fn wf(self) -> bool {
        &&& self.processed == self.skipped + self.downloaded + self.error
        &&& self.hashes_new <= self.hashes
    }

    /// Whether the scheduler is through with all shards.
    pub open spec fn all_processed(self) -> bool {
        self.processed == self.total
    }

    /// The counts before the run, for `total` shards.
    pub open spec fn fresh(total: u32) -> Status {
        Status {
            total,
            skipped: 0,
            downloaded: 0,
            downloaded_bytes: 0,
            hashes: 0,
            hashes_new: 0,
            error: 0,
            processed: 0,
        }
    }

    /// The counts before the run, for `total` shards.
    pub fn new(total: u32) -> (status: Status)
        ensures
            status == Status::fresh(total),
            status.wf(),
    {
        Status {
            total,
            skipped: 0,
            downloaded: 0,
            downloaded_bytes: 0,
            hashes: 0,
            hashes_new: 0,
            error: 0,
            processed: 0,
        }
    }

    /// The counts after the scheduler reported `result` for one shard.
    pub open spec fn after_download(self, result: Result<usize, DownloadStatus>) -> Status {
        match result {
            Ok(size) => Status {
                processed: (self.processed + 1) as u32,
                downloaded: (self.downloaded + 1) as u32,
                downloaded_bytes: (self.downloaded_bytes + size) as u64,
                ..self
            },
            Err(DownloadStatus::Skipped()) | Err(DownloadStatus::NotOutdated()) => Status {
                processed: (self.processed + 1) as u32,
                skipped: (self.skipped + 1) as u32,
                ..self
            },
            Err(_) => Status {
                processed: (self.processed + 1) as u32,
                error: (self.error + 1) as u32,
                ..self
            },
        }
    }

    /// The counts after the filter builder reported a shard of `total`
    /// hashes, `added` of them newly added.
    pub open spec fn after_result(self, total: u32, added: u32) -> Status {
        Status {
            hashes: (self.hashes + total) as u32,
            hashes_new: (self.hashes_new + added) as u32,
            ..self
        }
    }
}

/// Counts what the scheduler reported for one shard. Returns whether the
/// scheduler is now through with all shards, so that the pipeline is to be
/// closed.
pub fn handle_download_status(result: &Result<usize, DownloadStatus>, status: &mut Status) -> (done:
    bool)
    requires
        old(status).wf(),
        old(status).processed < u32::MAX,
        *result matches Ok(size) ==> old(status).downloaded_bytes + size <= u64::MAX,
    ensures
        *final(status) == old(status).after_download(*result),
        final(status).wf(),
        done == final(status).all_processed(),
{
    status.processed += 1;
    match result {
        Ok(size) => {
            status.downloaded += 1;
            status.downloaded_bytes += *size as u64;
        },
        Err(DownloadStatus::Skipped()) => {
            status.skipped += 1;
        },
        Err(DownloadStatus::NotOutdated()) => {
            status.skipped += 1;
        },
        Err(_) => {
            status.error += 1;
        },
    }
    status.processed == status.total
}

/// Counts what the filter builder reported for one shard.
pub fn handle_result(result: &FilterResult, status: &mut Status)
    requires
        old(status).wf(),
        result.wf(),
        old(status).hashes + result.total <= u32::MAX,
    ensures
        *final(status) == old(status).after_result(result.total, result.added),
        final(status).wf(),
{
    status.hashes += result.total;
    status.hashes_new += result.added;
}

/// What to ask the remote for.
#[derive(Debug)]
pub struct FetchRequest {
    /// The text of the shard identifier, which follows the base address.
    pub prefix: String,
    /// The ETag of the body that was built last, to be sent along.
    pub etag: Option<String>,
}

/// Whether the shard with the record `state` is due, and the ETag that is
/// sent along where it is fetched. A shard without a record is due, and so is
/// one whose record could not be had or whose time of last build cannot be
/// read; any other is due where that time is earlier than `max_age`. The ETag
/// of the record is put into `etag` whether the shard is due or not.
pub fn check_db_state<E>(
    max_age: Timestamp,
    etag: &mut Option<String>,
    state: Result<Option<State>, E>,
) -> (need_update: bool)
    ensures
        match state {
            Ok(Some(record)) => {
                &&& need_update == is_outdated(max_age, last_update_time(record.last_update@))
                &&& *final(etag) == if record.etag is Some {
                    record.etag
                } else {
                    *old(etag)
                }
            },
            _ => need_update && *final(etag) == *old(etag),
        },
{
    match state {
        Ok(Some(record)) => {
            let need_update = outdated(&max_age, parse_last_update(record.last_update.as_str()));
            if record.etag.is_some() {
                *etag = record.etag;
            }
            need_update
        },
        _ => true,
    }
}

/// The first step for one shard: skip it where its record is young enough,
/// else fetch it, with the ETag of its record where it has one.
pub fn schedule_download<E>(
    hash_list_id: u32,
    max_age: Timestamp,
    state: Result<Option<State>, E>,
) -> (r: Result<FetchRequest, DownloadStatus>)
    ensures
        match state {
            Ok(Some(record)) => if is_outdated(max_age, last_update_time(record.last_update@)) {
                r matches Ok(request) && request.etag == record.etag && request.prefix@
                    == ascii_text(padded_hex(hash_list_id))
            } else {
                r == Err::<FetchRequest, DownloadStatus>(DownloadStatus::Skipped())
            },
            _ => r matches Ok(request) && request.etag is None && request.prefix@ == ascii_text(
                padded_hex(hash_list_id),
            ),
        },
        r matches Ok(request) ==> (is_shard_id(hash_list_id) ==> request.prefix@ == ascii_text(
            shard_hex(hash_list_id),
        )),
{
    let mut etag: Option<String> = None;
    let need_update = check_db_state(max_age, &mut etag, state);
    if !need_update {
        return Err(DownloadStatus::Skipped());
    }
    Ok(FetchRequest { prefix: shard_prefix(hash_list_id), etag })
}

/// What a fetch comes to for the scheduler: the body to hand to the parser,
/// or why there is none. The answer that nothing has changed is no failure.
pub fn download_outcome(hash_list_id: u32, result: Result<DownloadResult, DownloadError>) -> (r:
    Result<HashList, DownloadStatus>)
    ensures
        match result {
            Ok(found) => r == Ok::<HashList, DownloadStatus>(
                HashList { id: hash_list_id, data: found.data, etag: found.etag },
            ),
            Err(error) => if error.not_modified() {
                r == Err::<HashList, DownloadStatus>(DownloadStatus::NotOutdated())
            } else {
                r == Err::<HashList, DownloadStatus>(DownloadStatus::HTTPError(error))
            },
        },
{
    match result {
        Ok(found) => Ok(HashList { id: hash_list_id, data: found.data, etag: found.etag }),
        Err(error) => {
            if error.is_not_modified() {
                Err(DownloadStatus::NotOutdated())
            } else {
                Err(DownloadStatus::HTTPError(error))
            }
        },
    }
}

/// What the scheduler reports of a shard whose body of `size` bytes was to
/// be handed to the parser: the size where the queue took it, an internal
/// error where the queue was closed.
pub fn enqueue_outcome(size: usize, sent: bool) -> (r: Result<usize, DownloadStatus>)
    ensures
        sent ==> r == Ok::<usize, DownloadStatus>(size),
        !sent ==> r == Err::<usize, DownloadStatus>(DownloadStatus::InternalError()),
{
    if sent {
        Ok(size)
    } else {
        Err(DownloadStatus::InternalError())
    }
}

/// The exit code for a state store that could not be opened or that cannot be
/// written; `None` where the run can begin.
pub fn store_exit_code(opened: bool, readonly: bool) -> (code: Option<u8>)
    ensures
        code == if opened && !readonly {
            None
        } else {
            Some(EXIT_STATE_STORE)
        },
{
    if opened && !readonly {
        None
    } else {
        Some(EXIT_STATE_STORE)
    }
}

/// Where the run stands.
#[derive(Clone, Copy, Debug, PartialEq, Eq, Structural)]
pub enum RunPhase {
    /// Shards are scheduled and results are taken.
    Running,
    /// An interrupt arrived: no shard is scheduled any more, results are
    /// taken until the filter builder has ended.
    Draining,
    /// The run is over.
    Finished,
}

/// What arrived at the coordinator.
#[derive(Debug)]
pub enum RunEvent {
    /// The scheduler is through with one shard.
    Scheduled(Result<usize, DownloadStatus>),
    /// The filter builder has inserted one shard.
    Built(FilterResult),
    /// The filter builder has ended, or its queue was found closed.
    BuilderEnded(BuildEnd),
    /// An interrupt.
    Interrupt,
    /// The close sentinel could not be handed to the parser.
    CloseFailed,
}

/// What the coordinator asks for.
#[derive(Debug)]
pub enum RunAction {
    /// Nothing but to wait for what arrives next.
    Continue,
    /// Hand the close sentinel to the parser.
    CloseInput,
    /// Tell the state store that the shard `id` was built from the body with
    /// this ETag.
    UpdateState { id: u32, etag: Option<String> },
    /// Leave the loop.
    Stop,
}

/// The coordinator of one run.
#[derive(Clone, Copy, Debug, PartialEq, Eq, Structural)]
pub struct Coordinator {
    pub status: Status,
    pub phase: RunPhase,
    pub exit_code: u8,
}

impl Coordinator {
    /// Whether the counts are such that `event` can be counted.
    pub open spec fn can_count(self, event: RunEvent) -> bool {
        match event {
            RunEvent::Scheduled(result) => self.phase == RunPhase::Running ==> {
                &&& self.status.processed < u32::MAX
                &&& result matches Ok(size) ==> self.status.downloaded_bytes + size <= u64::MAX
            },
            RunEvent::Built(result) => self.phase != RunPhase::Finished ==> {
                &&& result.wf()
                &&& self.status.hashes + result.total <= u32::MAX
            },
            _ => true,
        }
    }

    /// The coordinator after `event`.
    pub open spec fn next(self, event: RunEvent) -> Coordinator {
        match (self.phase, event) {
            (RunPhase::Finished, _) => self,
            (RunPhase::Running, RunEvent::Scheduled(result)) => Coordinator {
                status: self.status.after_download(result),
                ..self
            },
            (_, RunEvent::Scheduled(_)) => self,
            (_, RunEvent::Built(result)) => Coordinator {
                status: self.status.after_result(result.total, result.added),
                ..self
            },
            (_, RunEvent::BuilderEnded(end)) => Coordinator {
                phase: RunPhase::Finished,
                exit_code: if end == BuildEnd::Saturated {
                    EXIT_PIPELINE
                } else {
                    self.exit_code
                },
                ..self
            },
            (RunPhase::Running, RunEvent::Interrupt) => Coordinator {
                phase: RunPhase::Draining,
                ..self
            },
            (_, RunEvent::Interrupt) => self,
            (RunPhase::Running, RunEvent::CloseFailed) => Coordinator {
                phase: RunPhase::Finished,
                exit_code: EXIT_PIPELINE,
                ..self
            },
            (_, RunEvent::CloseFailed) => Coordinator { phase: RunPhase::Finished, ..self },
        }
    }

    /// What the coordinator asks for on `event`.
    pub open spec fn action(self, event: RunEvent) -> RunAction {
        match (self.phase, event) {
            (RunPhase::Finished, _) => RunAction::Stop,
            (RunPhase::Running, RunEvent::Scheduled(result)) => if self.status.after_download(
                result,
            ).all_processed() {
                RunAction::CloseInput
            } else {
                RunAction::Continue
            },
            (_, RunEvent::Scheduled(_)) => RunAction::Continue,
            (_, RunEvent::Built(result)) => RunAction::UpdateState {
                id: result.id,
                etag: result.etag,
            },
            (_, RunEvent::BuilderEnded(_)) => RunAction::Stop,
            (RunPhase::Running, RunEvent::Interrupt) => RunAction::CloseInput,
            (_, RunEvent::Interrupt) => RunAction::Continue,
            (_, RunEvent::CloseFailed) => RunAction::Stop,
        }
    }

    /// The coordinator before the run, for `total` shards.
    pub fn new(total: u32) -> (coordinator: Coordinator)
        ensures
            coordinator == Coordinator::start(total),
            coordinator.status.wf(),
    {
        Coordinator { status: Status::new(total), phase: RunPhase::Running, exit_code: EXIT_OK }
    }

    /// Whether the counts are such that `event` can be counted.
    pub fn fits(&self, event: &RunEvent) -> (r: bool)
        ensures
            r == self.can_count(*event),
    {
        match event {
            RunEvent::Scheduled(result) => {
                match self.phase {
                    RunPhase::Running => {
                        self.status.processed < u32::MAX && match result {
                            Ok(size) => *size as u64 <= u64::MAX - self.status.downloaded_bytes,
                            Err(_) => true,
                        }
                    },
                    _ => true,
                }
            },
            RunEvent::Built(result) => {
                match self.phase {
                    RunPhase::Finished => true,
                    _ => result.added <= result.total && result.total <= u32::MAX
                        - self.status.hashes,
                }
            },
            _ => true,
        }
    }

    /// One step of the coordinator.
    pub fn step(&mut self, event: RunEvent) -> (action: RunAction)
        requires
            old(self).status.wf(),
            old(self).can_count(event),
        ensures
            *final(self) == old(self).next(event),
            action == old(self).action(event),
            final(self).status.wf(),
    {
        match self.phase {
            RunPhase::Finished => {
                return RunAction::Stop;
            },
            _ => {},
        }
        match event {
            RunEvent::Scheduled(result) => {
                match self.phase {
                    RunPhase::Running => {
                        if handle_download_status(&result, &mut self.status) {
                            RunAction::CloseInput
                        } else {
                            RunAction::Continue
                        }
                    },
                    _ => RunAction::Continue,
                }
            },
            RunEvent::Built(result) => {
                handle_result(&result, &mut self.status);
                RunAction::UpdateState { id: result.id, etag: result.etag }
            },
            RunEvent::BuilderEnded(end) => {
                self.phase = RunPhase::Finished;
                match end {
                    BuildEnd::Saturated => {
                        self.exit_code = EXIT_PIPELINE;
                    },
                    _ => {},
                }
                RunAction::Stop
            },
            RunEvent::Interrupt => {
                match self.phase {
                    RunPhase::Running => {
                        self.phase = RunPhase::Draining;
                        RunAction::CloseInput
                    },
                    _ => RunAction::Continue,
                }
            },
            RunEvent::CloseFailed => {
                match self.phase {
                    RunPhase::Running => {
                        self.exit_code = EXIT_PIPELINE;
                    },
                    _ => {},
                }
                self.phase = RunPhase::Finished;
                RunAction::Stop
            },
        }
    }

    /// The exit code of the run, once the state store was asked to close.
    pub fn final_exit_code(&self, store_closed: bool) -> (code: u8)
        ensures
            code == if store_closed {
                self.exit_code
            } else {
                EXIT_STATE_CLOSE
            },
    {
        if store_closed {
            self.exit_code
        } else {
            EXIT_STATE_CLOSE
        }
    }
}

impl Coordinator {
    /// The coordinator before the run, for `total` shards.
    pub open spec fn start(total: u32) -> Coordinator {
        Coordinator {
            status: Status::fresh(total),
            phase: RunPhase::Running,
            exit_code: EXIT_OK,
        }
    }

    /// The coordinator after `events`, one after the other.
    pub open spec fn run(self, events: Seq<RunEvent>) -> Coordinator
        decreases events.len(),
    {
        if events.len() == 0 {
            self
        } else {
            self.run(events.drop_last()).next(events.last())
        }
    }

    /// What the coordinator asks for on the event of index `i`, after those
    /// before it.
    pub open spec fn action_at(self, events: Seq<RunEvent>, i: int) -> RunAction {
        self.run(events.take(i)).action(events[i])
    }
}

/// Whether an event ends the run.
pub open spec fn ends_run(event: RunEvent) -> bool {
    event is BuilderEnded || event is CloseFailed
}

/// Whether an event makes the run fail.
pub open spec fn fails_run(event: RunEvent) -> bool {
    event is CloseFailed || event == RunEvent::BuilderEnded(BuildEnd::Saturated)
}

/// The run goes on until the filter builder has ended or the pipeline could
/// not be closed: no other event, and no interrupt, ends it.
pub proof fn lemma_run_goes_on(from: Coordinator, events: Seq<RunEvent>)
    requires
        from.phase != RunPhase::Finished,
        forall|j: int| 0 <= j < events.len() ==> !ends_run(#[trigger] events[j]),
    ensures
        from.run(events).phase != RunPhase::Finished,
        from.phase == RunPhase::Draining ==> from.run(events).phase == RunPhase::Draining,
        from.run(events).exit_code == from.exit_code,
    decreases events.len(),
{
    if events.len() > 0 {
        let front = events.drop_last();
        assert forall|j: int| 0 <= j < front.len() implies !ends_run(#[trigger] front[j]) by {
            assert(front[j] == events[j]);
        }
        lemma_run_goes_on(from, front);
        assert(!ends_run(events[events.len() - 1]));
    }
}

/// Graceful interrupt: as long as the filter builder has not ended, every
/// shard that it reports is handed to the state store, with its ETag, whether
/// an interrupt has arrived or not. No shard is inserted without its record
/// being asked for.
pub proof fn lemma_results_are_recorded(from: Coordinator, events: Seq<RunEvent>, i: int)
    requires
        from.phase != RunPhase::Finished,
        0 <= i < events.len(),
        forall|j: int| 0 <= j < i ==> !ends_run(#[trigger] events[j]),
        events[i] is Built,
    ensures
        from.action_at(events, i) == (RunAction::UpdateState {
            id: events[i]->Built_0.id,
            etag: events[i]->Built_0.etag,
        }),
{
    let before = events.take(i);
    assert forall|j: int| 0 <= j < before.len() implies !ends_run(#[trigger] before[j]) by {
        assert(before[j] == events[j]);
    }
    lemma_run_goes_on(from, before);
}

/// An interrupt is no failure: the run ends with the exit code 0 unless the
/// pipeline could not be closed or the filter was full.
pub proof fn lemma_exit_code(total: u32, events: Seq<RunEvent>)
    requires
        forall|j: int| 0 <= j < events.len() ==> !fails_run(#[trigger] events[j]),
    ensures
        Coordinator::start(total).run(events).exit_code == EXIT_OK,
    decreases events.len(),
{
    if events.len() > 0 {
        let front = events.drop_last();
        assert forall|j: int| 0 <= j < front.len() implies !fails_run(#[trigger] front[j]) by {
            assert(front[j] == events[j]);
        }
        lemma_exit_code(total, front);
        assert(!fails_run(events[events.len() - 1]));
    }
}

} // verus!
