//! The two workers behind the scheduler: the parser, which turns shard bodies
//! into hashes, and the filter builder, which inserts them and sees to it that
//! a changed filter is written back.
//!
//! Each worker is a function from what arrived to what is to be done. The
//! queues, the threads and the files are the caller's.

use vstd::prelude::*;
use crate::filter::{
    filter_model, insert_all, lemma_insert_all_grows, lemma_no_false_negatives, FilterModel,
};
use crate::misc::{is_shard_id, MAX_COUNT};
use crate::parse::{body_hashes, hashes_view, line_at, parse_file, rest_offset};

verus! {

/// Capacity of each queue between two stages.
pub const CHANNEL_BUFF_SIZE: usize = 50;

/// Largest number of bytes behind the last line of a body that is taken for
/// a line ending.
pub const MAX_RESIDUE: usize = 2;

/// The body of one shard, as fetched.
#[derive(Debug)]
pub struct HashList {
    pub id: u32,
    pub data: Vec<u8>,
    pub etag: Option<String>,
}

/// The hashes of one shard.
#[derive(Debug)]
pub struct ParseResult {
    pub id: u32,
    pub hashes: Vec<Vec<u8>>,
    pub etag: Option<String>,
}

/// What inserting one shard came to: how many hashes it holds and how many of
/// them were newly added to the filter.
#[derive(Debug)]
pub struct FilterResult {
    pub id: u32,
    pub total: u32,
    pub added: u32,
    pub etag: Option<String>,
}

impl FilterResult {
    /// Whether no more hashes count as added than the shard holds.
    pub open spec fn wf(self) -> bool {
        self.added <= self.total
    }
}

/// What the parser is to do with what arrived.
#[derive(Debug)]
pub enum ParseAction {
    /// Hand the hashes on. `unparsed` bytes of the body stand behind its last
    /// line.
    Forward { result: ParseResult, unparsed: usize },
    /// No line could be read, or the identifier names no shard: the shard is
    /// passed over.
    Skip { id: u32 },
    /// The input is closed: hand the close sentinel on and end.
    Finish,
}

/// Whether so many bytes behind the last line are taken for a line ending.
pub fn residue_is_line_ending(unparsed: usize) -> (r: bool)
    ensures
        r == (unparsed <= MAX_RESIDUE),
{
    unparsed <= MAX_RESIDUE
}

/// One step of the parser: `message` is what its input queue gave, `None` for
/// the close sentinel or a closed queue.
pub fn work_parse(message: Option<HashList>) -> (action: ParseAction)
    ensures
        message is None ==> action is Finish,
        message matches Some(list) ==> {
            if is_shard_id(list.id) && line_at(list.data@, 0) {
                &&& action matches ParseAction::Forward { result, unparsed }
                &&& result.id == list.id
                &&& result.etag == list.etag
                &&& hashes_view(result.hashes) == body_hashes(list.id, list.data@)
                &&& unparsed == list.data@.len() - rest_offset(list.data@, 0)
            } else {
                action == (ParseAction::Skip { id: list.id })
            }
        },
{
    let list = match message {
        Some(list) => list,
        None => {
            return ParseAction::Finish;
        },
    };
    if list.id > MAX_COUNT {
        return ParseAction::Skip { id: list.id };
    }
    let (unparsed, hashes) = match parse_file(list.id, list.data.as_slice()) {
        Ok((rest, hashes)) => (rest.len(), hashes),
        Err(_) => {
            return ParseAction::Skip { id: list.id };
        },
    };
    ParseAction::Forward {
        result: ParseResult { id: list.id, hashes, etag: list.etag },
        unparsed,
    }
}

/// Where the filter builder stands.
#[derive(Clone, Copy, Debug, PartialEq, Eq, Structural)]
pub enum BuildPhase {
    /// The filter is made or read; nothing has arrived.
    Loaded,
    /// Hashes are being inserted.
    Accumulating,
    /// The input is closed and the filter has changed: it is being written.
    Persisting,
    /// The filter refused a hash. Nothing is written.
    SaturatedAbort,
    /// The worker has ended.
    Exited,
}

/// How the filter builder ended.
#[derive(Clone, Copy, Debug, PartialEq, Eq, Structural)]
pub enum BuildEnd {
    /// No hash was newly added: the filter file was not touched.
    Unchanged,
    /// The changed filter took the place of the filter file.
    Persisted,
    /// The changed filter could not be written: the filter file is as it was.
    PersistFailed,
    /// The filter refused a hash: the filter file is as it was.
    Saturated,
}

/// The state of the filter builder.
#[derive(Clone, Copy, Debug, PartialEq, Eq, Structural)]
pub struct FilterBuilder {
    pub phase: BuildPhase,
    /// Whether a hash was newly added since the filter was loaded.
    pub dirty: bool,
    /// Whether the temporary file holds the whole filter.
    pub temp_written: bool,
}

/// What happened to the filter builder, as far as its state goes.
pub enum BuildSignal {
    /// A shard was inserted, `added` of its hashes newly.
    Inserted { added: nat },
    /// The filter refused a hash of a shard.
    Refused,
    /// The input is closed, or the output was found closed.
    Closed,
    /// Writing the temporary file ended, well or not.
    TempWritten { done: bool },
    /// Renaming the temporary file ended, well or not.
    Renamed { done: bool },
}

/// What the filter builder asks for, without what it hands over.
#[derive(Clone, Copy, Debug, PartialEq, Eq, Structural)]
pub enum BuildStep {
    /// Hand the result of a shard to the coordinator.
    Emit,
    /// Report that the filter is full and take no further shard.
    Abort,
    /// Write the filter to the temporary file.
    WriteTemp,
    /// Rename the temporary file to the filter file.
    Rename,
    /// Hand the terminal sentinel to the coordinator and end.
    Finish,
    /// Nothing.
    Ignore,
}

impl FilterBuilder {
    /// Whether the state is one that the builder can reach.
    pub open spec fn wf(self) -> bool {
        &&& self.phase == BuildPhase::Loaded ==> !self.dirty
        &&& self.phase == BuildPhase::Persisting ==> self.dirty
        &&& self.temp_written ==> self.phase == BuildPhase::Persisting || self.phase
            == BuildPhase::Exited
    }

    /// Whether shards are taken in this state.
    pub open spec fn accepts(self) -> bool {
        self.phase == BuildPhase::Loaded || self.phase == BuildPhase::Accumulating
    }

    /// The state after `signal`.
    pub open spec fn next(self, signal: BuildSignal) -> FilterBuilder {
        match signal {
            BuildSignal::Inserted { added } => if self.accepts() {
                FilterBuilder {
                    phase: BuildPhase::Accumulating,
                    dirty: self.dirty || added > 0,
                    ..self
                }
            } else {
                self
            },
            BuildSignal::Refused => if self.accepts() {
                FilterBuilder { phase: BuildPhase::SaturatedAbort, ..self }
            } else {
                self
            },
            BuildSignal::Closed => if self.accepts() && self.dirty {
                FilterBuilder { phase: BuildPhase::Persisting, ..self }
            } else if self.accepts() || self.phase == BuildPhase::SaturatedAbort {
                FilterBuilder { phase: BuildPhase::Exited, ..self }
            } else {
                self
            },
            BuildSignal::TempWritten { done } => if self.phase == BuildPhase::Persisting
                && !self.temp_written {
                if done {
                    FilterBuilder { temp_written: true, ..self }
                } else {
                    FilterBuilder { phase: BuildPhase::Exited, ..self }
                }
            } else {
                self
            },
            BuildSignal::Renamed { done } => if self.phase == BuildPhase::Persisting
                && self.temp_written {
                FilterBuilder { phase: BuildPhase::Exited, ..self }
            } else {
                self
            },
        }
    }

    /// What the builder asks for on `signal`.
    pub open spec fn step(self, signal: BuildSignal) -> BuildStep {
        match signal {
            BuildSignal::Inserted { added } => if self.accepts() {
                BuildStep::Emit
            } else {
                BuildStep::Ignore
            },
            BuildSignal::Refused => if self.accepts() {
                BuildStep::Abort
            } else {
                BuildStep::Ignore
            },
            BuildSignal::Closed => if self.accepts() && self.dirty {
                BuildStep::WriteTemp
            } else if self.accepts() || self.phase == BuildPhase::SaturatedAbort {
                BuildStep::Finish
            } else {
                BuildStep::Ignore
            },
            BuildSignal::TempWritten { done } => if self.phase == BuildPhase::Persisting
                && !self.temp_written {
                if done {
                    BuildStep::Rename
                } else {
                    BuildStep::Finish
                }
            } else {
                BuildStep::Ignore
            },
            BuildSignal::Renamed { done } => if self.phase == BuildPhase::Persisting
                && self.temp_written {
                BuildStep::Finish
            } else {
                BuildStep::Ignore
            },
        }
    }

    /// How the builder ends where `step` is `Finish` on `signal`.
    pub open spec fn end(self, signal: BuildSignal) -> BuildEnd {
        match signal {
            BuildSignal::TempWritten { done } => BuildEnd::PersistFailed,
            BuildSignal::Renamed { done } => if done {
                BuildEnd::Persisted
            } else {
                BuildEnd::PersistFailed
            },
            _ => if self.phase == BuildPhase::SaturatedAbort {
                BuildEnd::Saturated
            } else {
                BuildEnd::Unchanged
            },
        }
    }

    /// The builder before anything arrived.
    pub fn new() -> (builder: FilterBuilder)
        ensures
            builder.phase == BuildPhase::Loaded,
            !builder.dirty,
            !builder.temp_written,
            builder.wf(),
    {
        FilterBuilder { phase: BuildPhase::Loaded, dirty: false, temp_written: false }
    }
}

/// What arrived at the filter builder.
#[derive(Debug)]
pub enum BuildEvent {
    /// The hashes of a shard.
    Input(ParseResult),
    /// The close sentinel, a closed input, or an output that was found closed.
    Closed,
    /// The filter was written to the temporary file, or could not be.
    TempWritten(bool),
    /// The temporary file was renamed to the filter file, or could not be.
    Renamed(bool),
}

/// What the filter builder asks for.
#[derive(Debug)]
pub enum BuildAction {
    /// Hand the result of a shard to the coordinator.
    Emit(FilterResult),
    /// The filter refused a hash: report it and take no further shard.
    Abort,
    /// Write the filter to the temporary file beside the filter file.
    WriteTemp,
    /// Rename the temporary file to the filter file.
    Rename,
    /// Hand the terminal sentinel to the coordinator and end.
    Finish(BuildEnd),
    /// Nothing: the event has no place in this state.
    Ignore,
}

impl BuildAction {
    /// The action without what it hands over.
    pub open spec fn step(self) -> BuildStep {
        match self {
            BuildAction::Emit(_) => BuildStep::Emit,
            BuildAction::Abort => BuildStep::Abort,
            BuildAction::WriteTemp => BuildStep::WriteTemp,
            BuildAction::Rename => BuildStep::Rename,
            BuildAction::Finish(_) => BuildStep::Finish,
            BuildAction::Ignore => BuildStep::Ignore,
        }
    }
}

/// What `event` comes to for the state of the builder, given the filter that
/// it meets.
pub open spec fn signal_of(event: BuildEvent, model: FilterModel) -> BuildSignal {
    match event {
        BuildEvent::Input(parsed) => if model.saturates(hashes_view(parsed.hashes)) {
            BuildSignal::Refused
        } else {
            BuildSignal::Inserted { added: model.newly_added(hashes_view(parsed.hashes)) }
        },
        BuildEvent::Closed => BuildSignal::Closed,
        BuildEvent::TempWritten(done) => BuildSignal::TempWritten { done },
        BuildEvent::Renamed(done) => BuildSignal::Renamed { done },
    }
}

/// One step of the filter builder. A shard that arrives while shards are
/// taken is inserted into `filter`, hash by hash, up to the first that the
/// filter refuses; every other event leaves the filter as it is.
pub fn work_build(builder: &mut FilterBuilder, filter: &mut qfilter::Filter, event: BuildEvent) -> (action: BuildAction)
    requires
        event matches BuildEvent::Input(parsed) ==> parsed.hashes@.len() <= u32::MAX,
    ensures
        *final(builder) == old(builder).next(signal_of(event, filter_model(*old(filter)))),
        action.step() == old(builder).step(signal_of(event, filter_model(*old(filter)))),
        old(builder).wf() ==> final(builder).wf(),
        match event {
            BuildEvent::Input(parsed) if old(builder).accepts() => filter_model(*final(filter))
                == filter_model(*old(filter)).insert_all(hashes_view(parsed.hashes)),
            _ => *final(filter) == *old(filter),
        },
        action matches BuildAction::Emit(result) ==> event matches BuildEvent::Input(parsed) && {
            &&& result.id == parsed.id
            &&& result.etag == parsed.etag
            &&& result.total == parsed.hashes@.len()
            &&& result.added == filter_model(*old(filter)).newly_added(hashes_view(parsed.hashes))
            &&& result.wf()
            &&& forall|i: int|
                0 <= i < parsed.hashes@.len() ==> filter_model(*final(filter)).contains(
                    #[trigger] parsed.hashes@[i]@,
                )
            &&& result.added == 0 ==> filter_model(*final(filter)) == filter_model(*old(filter))
        },
        action matches BuildAction::Finish(end) ==> end == old(builder).end(
            signal_of(event, filter_model(*old(filter))),
        ),
{
    let accepts = match builder.phase {
        BuildPhase::Loaded => true,
        BuildPhase::Accumulating => true,
        _ => false,
    };
    match event {
        BuildEvent::Input(parsed) => {
            if !accepts {
                return BuildAction::Ignore;
            }
            proof {
                let model = filter_model(*filter);
                let items = hashes_view(parsed.hashes);
                lemma_insert_all_grows(model, items);
                if !model.saturates(items) {
                    lemma_no_false_negatives(model, items);
                    assert forall|i: int| 0 <= i < parsed.hashes@.len() implies model.insert_all(
                        items,
                    ).contains(#[trigger] parsed.hashes@[i]@) by {
                        assert(items[i] == parsed.hashes@[i]@);
                    }
                }
            }
            match insert_all(filter, &parsed.hashes) {
                Ok(added) => {
                    builder.phase = BuildPhase::Accumulating;
                    if added > 0 {
                        builder.dirty = true;
                    }
                    BuildAction::Emit(
                        FilterResult {
                            id: parsed.id,
                            total: parsed.hashes.len() as u32,
                            added: added as u32,
                            etag: parsed.etag,
                        },
                    )
                },
                Err(_) => {
                    builder.phase = BuildPhase::SaturatedAbort;
                    BuildAction::Abort
                },
            }
        },
        BuildEvent::Closed => {
            if accepts && builder.dirty {
                builder.phase = BuildPhase::Persisting;
                BuildAction::WriteTemp
            } else if accepts {
                builder.phase = BuildPhase::Exited;
                BuildAction::Finish(BuildEnd::Unchanged)
            } else {
                match builder.phase {
                    BuildPhase::SaturatedAbort => {
                        builder.phase = BuildPhase::Exited;
                        BuildAction::Finish(BuildEnd::Saturated)
                    },
                    _ => BuildAction::Ignore,
                }
            }
        },
        BuildEvent::TempWritten(done) => {
            match builder.phase {
                BuildPhase::Persisting => {
                    if builder.temp_written {
                        BuildAction::Ignore
                    } else if done {
                        builder.temp_written = true;
                        BuildAction::Rename
                    } else {
                        builder.phase = BuildPhase::Exited;
                        BuildAction::Finish(BuildEnd::PersistFailed)
                    }
                },
                _ => BuildAction::Ignore,
            }
        },
        BuildEvent::Renamed(done) => {
            match builder.phase {
                BuildPhase::Persisting => {
                    if !builder.temp_written {
                        BuildAction::Ignore
                    } else {
                        builder.phase = BuildPhase::Exited;
                        if done {
                            BuildAction::Finish(BuildEnd::Persisted)
                        } else {
                            BuildAction::Finish(BuildEnd::PersistFailed)
                        }
                    }
                },
                _ => BuildAction::Ignore,
            }
        },
    }
}

impl BuildPhase {
    /// How far a phase is along the way of the builder. No step leads to a
    /// phase of lower rank.
    pub open spec fn rank(self) -> nat {
        match self {
            BuildPhase::Loaded => 0,
            BuildPhase::Accumulating => 1,
            BuildPhase::Persisting => 2,
            BuildPhase::SaturatedAbort => 2,
            BuildPhase::Exited => 3,
        }
    }
}

impl FilterBuilder {
    /// The builder before anything arrived.
    pub open spec fn start() -> FilterBuilder {
        FilterBuilder { phase: BuildPhase::Loaded, dirty: false, temp_written: false }
    }

    /// The state after `signals`, one after the other.
    pub open spec fn run(self, signals: Seq<BuildSignal>) -> FilterBuilder
        decreases signals.len(),
    {
        if signals.len() == 0 {
            self
        } else {
            self.run(signals.drop_last()).next(signals.last())
        }
    }

    /// What the builder asks for on the signal of index `i`, after those
    /// before it.
    pub open spec fn step_at(self, signals: Seq<BuildSignal>, i: int) -> BuildStep {
        self.run(signals.take(i)).step(signals[i])
    }
}

/// Whether a signal reports a shard of which a hash was newly added.
pub open spec fn adds_hashes(signal: BuildSignal) -> bool {
    signal matches BuildSignal::Inserted { added } && added > 0
}

/// A run keeps the state well-formed and never leads back.
pub proof fn lemma_run_advances(from: FilterBuilder, signals: Seq<BuildSignal>, i: int)
    requires
        from.wf(),
        0 <= i <= signals.len(),
    ensures
        from.run(signals).wf(),
        from.run(signals.take(i)).phase.rank() <= from.run(signals).phase.rank(),
        from.run(signals.take(i)).dirty ==> from.run(signals).dirty,
    decreases signals.len(),
{
    if i == signals.len() {
        assert(signals.take(i) =~= signals);
        if signals.len() > 0 {
            lemma_run_advances(from, signals.drop_last(), 0);
        }
    } else {
        assert(signals.drop_last().take(i) =~= signals.take(i));
        lemma_run_advances(from, signals.drop_last(), i);
    }
}

/// The builder is dirty only after a shard of which a hash was newly added.
pub proof fn lemma_dirty_has_cause(signals: Seq<BuildSignal>)
    requires
        FilterBuilder::start().run(signals).dirty,
    ensures
        exists|j: int| 0 <= j < signals.len() && adds_hashes(#[trigger] signals[j]),
    decreases signals.len(),
{
    if signals.len() > 0 {
        let front = signals.drop_last();
        if FilterBuilder::start().run(front).dirty {
            lemma_dirty_has_cause(front);
            let j = choose|j: int| 0 <= j < front.len() && adds_hashes(#[trigger] front[j]);
            assert(adds_hashes(signals[j]));
        } else {
            assert(adds_hashes(signals[signals.len() - 1]));
        }
    }
}

/// Dirty-only write: the builder asks to write the temporary file, or to
/// rename it, only after a shard of which a hash was newly added. Where no
/// insertion adds a hash, no filter file is written.
pub proof fn lemma_writes_only_when_dirty(signals: Seq<BuildSignal>, i: int)
    requires
        0 <= i < signals.len(),
        FilterBuilder::start().step_at(signals, i) == BuildStep::WriteTemp
            || FilterBuilder::start().step_at(signals, i) == BuildStep::Rename,
    ensures
        exists|j: int| 0 <= j < i && adds_hashes(#[trigger] signals[j]),
{
    let before = signals.take(i);
    lemma_run_advances(FilterBuilder::start(), before, 0);
    lemma_dirty_has_cause(before);
    let j = choose|j: int| 0 <= j < before.len() && adds_hashes(#[trigger] before[j]);
    assert(adds_hashes(signals[j]));
}

/// The filter is written once at most: the builder asks for the temporary
/// file at one signal of a run only, and for the rename at one only.
pub proof fn lemma_writes_once(signals: Seq<BuildSignal>, i: int, k: int)
    requires
        0 <= i < k < signals.len(),
    ensures
        !(FilterBuilder::start().step_at(signals, i) == BuildStep::WriteTemp
            && FilterBuilder::start().step_at(signals, k) == BuildStep::WriteTemp),
        !(FilterBuilder::start().step_at(signals, i) == BuildStep::Rename
            && FilterBuilder::start().step_at(signals, k) == BuildStep::Rename),
{
    let start = FilterBuilder::start();
    let upto_i = signals.take(i + 1);
    let upto_k = signals.take(k);
    assert(upto_i.drop_last() =~= signals.take(i));
    assert(upto_i.last() == signals[i]);
    assert(upto_k.take(i + 1) =~= upto_i);
    lemma_run_advances(start, upto_k, i + 1);
    lemma_run_advances(start, signals.take(i), 0);
    lemma_temp_written_stays(start, upto_k, i + 1);
}

/// Once the temporary file is written, it counts as written for the rest of
/// the run.
pub proof fn lemma_temp_written_stays(from: FilterBuilder, signals: Seq<BuildSignal>, i: int)
    requires
        0 <= i <= signals.len(),
    ensures
        from.run(signals.take(i)).temp_written ==> from.run(signals).temp_written,
    decreases signals.len(),
{
    if i == signals.len() {
        assert(signals.take(i) =~= signals);
    } else {
        assert(signals.drop_last().take(i) =~= signals.take(i));
        lemma_temp_written_stays(from, signals.drop_last(), i);
    }
}

/// The filter file is replaced only by a temporary file that was written
/// whole: the builder asks for the rename on nothing but the report that the
/// temporary file was written, and it ends as persisted on nothing but the
/// report that the rename was done.
pub proof fn lemma_rename_follows_write(builder: FilterBuilder, signal: BuildSignal)
    ensures
        builder.step(signal) == BuildStep::Rename ==> builder.phase == BuildPhase::Persisting
            && signal == (BuildSignal::TempWritten { done: true }),
        builder.step(signal) == BuildStep::Finish && builder.end(signal) == BuildEnd::Persisted
            ==> builder.phase == BuildPhase::Persisting && builder.temp_written && signal == (
        BuildSignal::Renamed { done: true }),
{
}

/// After the filter refused a hash, nothing is written and no result is
/// handed on: the filter file stays as it was.
pub proof fn lemma_saturation_writes_nothing(signals: Seq<BuildSignal>, j: int, i: int)
    requires
        0 <= j < i < signals.len(),
        FilterBuilder::start().step_at(signals, j) == BuildStep::Abort,
    ensures
        FilterBuilder::start().step_at(signals, i) == BuildStep::Finish
            || FilterBuilder::start().step_at(signals, i) == BuildStep::Ignore,
        FilterBuilder::start().step_at(signals, i) == BuildStep::Finish
            ==> FilterBuilder::start().run(signals.take(i)).end(signals[i]) == BuildEnd::Saturated,
{
    let start = FilterBuilder::start();
    let upto_j = signals.take(j + 1);
    let upto_i = signals.take(i);
    assert(upto_j.drop_last() =~= signals.take(j));
    assert(upto_j.last() == signals[j]);
    assert(upto_i.take(j + 1) =~= upto_j);
    assert(start.run(upto_j).phase == BuildPhase::SaturatedAbort);
    lemma_run_advances(start, upto_j, 0);
    lemma_abort_stays(start, upto_i, j + 1);
}

/// From the abort after a refusal the builder goes nowhere but to its end,
/// and the temporary file is never written.
pub proof fn lemma_abort_stays(from: FilterBuilder, signals: Seq<BuildSignal>, i: int)
    requires
        0 <= i <= signals.len(),
        from.run(signals.take(i)).phase == BuildPhase::SaturatedAbort,
        !from.run(signals.take(i)).temp_written,
    ensures
        from.run(signals).phase == BuildPhase::SaturatedAbort || from.run(signals).phase
            == BuildPhase::Exited,
        !from.run(signals).temp_written,
        from.run(signals).phase == BuildPhase::SaturatedAbort ==> from.run(signals)
            == from.run(signals.take(i)),
    decreases signals.len(),
{
    if i == signals.len() {
        assert(signals.take(i) =~= signals);
    } else {
        assert(signals.drop_last().take(i) =~= signals.take(i));
        lemma_abort_stays(from, signals.drop_last(), i);
    }
}

/// The name of the temporary file that a changed filter is written to
/// before it takes the place of the filter file `file_name`: that name with
/// `.new` behind it. It lies in the same directory and is never the name of
/// the filter file itself, so writing it leaves the filter file as it was.
pub fn temp_file_name(file_name: &str) -> (name: String)
    ensures
        name@ == file_name@ + ".new"@,
        name@.len() == file_name@.len() + 4,
        name@ != file_name@,
{
    proof {
        reveal_strlit(".new");
    }
    let mut name = String::from_str(file_name);
    name.append(".new");
    name
}

/// The file that a step of the builder writes or replaces, where the filter
/// file is `file_name`.
pub open spec fn touched_file(step: BuildStep, file_name: Seq<char>) -> Option<Seq<char>> {
    match step {
        BuildStep::WriteTemp => Some(file_name + ".new"@),
        BuildStep::Rename => Some(file_name),
        _ => None,
    }
}

/// Until the builder asks for the rename, nothing that it asks for touches
/// the filter file: whatever ends a run before the rename leaves the filter
/// file as it was.
pub proof fn lemma_filter_file_untouched(builder: FilterBuilder, signal: BuildSignal, file_name: Seq<char>)
    requires
        builder.step(signal) != BuildStep::Rename,
    ensures
        touched_file(builder.step(signal), file_name) != Some(file_name),
{
    reveal_strlit(".new");
    assert((file_name + ".new"@).len() == file_name.len() + 4);
}

} // verus!
