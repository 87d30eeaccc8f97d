//! The read cycle of a watched file and the decisions of the watch loop.
//!
//! The caller owns the files: it learns a file's length, asks where to start,
//! reads from there to the end and hands the bytes over. What is decided
//! here is where a read starts, which line of the new bytes is forwarded,
//! which actions it calls for, and what is recorded afterwards.

use vstd::prelude::*;
use vstd::slice::slice_subrange;
use crate::decoder::{decode_log_bytes, decoded_text, lemma_empty_is_utf8};
use crate::lines::{extract_last_line, forwarded_line, lines};
use crate::offsets::{recorded_offset, OffsetStore};
use crate::source::{is_log_file, is_log_name, source_id, source_id_of};
use crate::triggers::{fired_actions, matching_actions, CompiledTrigger};

verus! {

/// The line that a read cycle forwards, with the source it came from. The
/// source is `None` where the file's name gives no number.
pub struct ExtractedLine {
    pub source: Option<u32>,
    pub text: String,
}

/// What a read cycle found: the forwarded line, if any, and the actions to
/// invoke with it, one for each trigger that fired.
pub struct ReadOutcome {
    pub line: Option<ExtractedLine>,
    pub actions: Vec<String>,
}

/// Where a read starts, and whether the file was found shorter than what
/// had been read of it.
pub struct ReadPlan {
    pub start: u64,
    pub truncated: bool,
}

/// What happened to a path of the watched directory.
#[derive(Clone, Copy, Debug, PartialEq, Eq, Structural)]
pub enum ChangeKind {
    Created,
    Modified,
    Removed,
    Other,
}

/// What the watch loop does about a change.
#[derive(Clone, Copy, Debug, PartialEq, Eq, Structural)]
pub enum Command {
    /// Run a read cycle on the file.
    Read,
    /// The file is gone and its offset was dropped.
    Forget,
    /// Nothing to do.
    Skip,
}

/// What went wrong while waiting for a notification.
#[derive(Clone, Copy, Debug, PartialEq, Eq, Structural)]
pub enum WatchFailure {
    /// The watcher reported an error in place of an event.
    Watcher,
    /// The channel to the watcher failed.
    Channel,
}

/// Where the next read of a file starts: at the recorded offset, or at the
/// beginning where the file is now shorter than that (it was truncated or
/// replaced).
pub open spec fn planned_start(last: u64, len: u64) -> u64 {
    if len < last {
        0
    } else {
        last
    }
}

/// The bytes that a read cycle consumes from a file with this content.
pub open spec fn new_bytes(last: u64, content: Seq<u8>) -> Seq<u8> {
    content.skip(planned_start(last, content.len() as u64) as int)
}

/// The line that is forwarded from freshly read bytes.
pub open spec fn line_of_chunk(chunk: Seq<u8>) -> Option<Seq<char>> {
    forwarded_line(decoded_text(chunk))
}

/// The actions to invoke for freshly read bytes of a file.
pub open spec fn actions_of_chunk(
    triggers: Seq<CompiledTrigger>,
    chunk: Seq<u8>,
    file_name: Seq<char>,
) -> Seq<Seq<char>> {
    match line_of_chunk(chunk) {
        Some(line) => fired_actions(triggers, line, source_id_of(file_name)),
        None => Seq::empty(),
    }
}

/// What the watch loop does about a change: files that are not log files
/// are passed over; a created or modified log file is read, a removed one
/// forgotten.
pub open spec fn command_for(kind: ChangeKind, file_name: Seq<char>) -> Command {
    if !is_log_name(file_name) {
        Command::Skip
    } else {
        match kind {
            ChangeKind::Created => Command::Read,
            ChangeKind::Modified => Command::Read,
            ChangeKind::Removed => Command::Forget,
            ChangeKind::Other => Command::Skip,
        }
    }
}

impl ReadOutcome {
    /// This is what a read cycle gives for these triggers and these bytes of
    /// a file of this name.
    pub open spec fn is_outcome_of(
        self,
        triggers: Seq<CompiledTrigger>,
        chunk: Seq<u8>,
        file_name: Seq<char>,
    ) -> bool {
        &&& match self.line {
            Some(line) => line_of_chunk(chunk) == Some(line.text@) && line.source == source_id_of(
                file_name,
            ),
            None => line_of_chunk(chunk) is None,
        }
        &&& self.actions@.len() == actions_of_chunk(triggers, chunk, file_name).len()
        &&& forall|k: int|
            0 <= k < self.actions@.len() ==> self.actions@[k]@ == actions_of_chunk(
                triggers,
                chunk,
                file_name,
            )[k]
    }
}

/// Decodes freshly read bytes, picks the line to forward and matches it
/// against the triggers.
pub fn process_chunk(triggers: &Vec<CompiledTrigger>, chunk: &[u8], file_name: &str) -> (outcome:
    ReadOutcome)
    ensures
        outcome.is_outcome_of(triggers@, chunk@, file_name@),
{
    let text = decode_log_bytes(chunk);
    match extract_last_line(text.as_str()) {
        Some(line) => {
            let source = source_id(file_name);
            let actions = matching_actions(triggers, line.as_str(), source);
            ReadOutcome { line: Some(ExtractedLine { source, text: line }), actions }
        },
        None => ReadOutcome { line: None, actions: Vec::new() },
    }
}

/// How many seconds the watch loop waits after a failure before it goes on.
pub fn backoff_seconds(failure: WatchFailure) -> (seconds: u64)
    ensures
        seconds == (match failure {
            WatchFailure::Watcher => 0u64,
            WatchFailure::Channel => 1u64,
        }),
{
    match failure {
        WatchFailure::Watcher => 0,
        WatchFailure::Channel => 1,
    }
}

/// The state of the watch loop: the offsets of the files it has read, and
/// the triggers, which stay as they were loaded.
pub struct LogWatcher {
    pub offsets: OffsetStore,
    pub triggers: Vec<CompiledTrigger>,
}

impl LogWatcher {
    /// A watcher that has read nothing yet.
    pub fn new(triggers: Vec<CompiledTrigger>) -> (watcher: LogWatcher)
        ensures
            watcher.offsets@ == Map::<Seq<char>, u64>::empty(),
            watcher.triggers == triggers,
    {
        LogWatcher { offsets: OffsetStore::new(), triggers }
    }

    /// Decides what to do about a change. A removed log file loses its
    /// offset here.
    pub fn on_change(&mut self, kind: ChangeKind, path: &str, file_name: &str) -> (command: Command)
        ensures
            command == command_for(kind, file_name@),
            final(self).offsets@ == (if command == Command::Forget {
                old(self).offsets@.remove(path@)
            } else {
                old(self).offsets@
            }),
            final(self).triggers == old(self).triggers,
    {
        if !is_log_file(file_name) {
            return Command::Skip;
        }
        match kind {
            ChangeKind::Created => Command::Read,
            ChangeKind::Modified => Command::Read,
            ChangeKind::Removed => {
                self.offsets.remove(path);
                Command::Forget
            },
            ChangeKind::Other => Command::Skip,
        }
    }

    /// Opens a read cycle on a file of `len` bytes: says where to read from.
    /// A file that is shorter than what was read of it is read from its
    /// beginning, and its offset is reset at once.
    pub fn begin_read(&mut self, path: &str, len: u64) -> (plan: ReadPlan)
        ensures
            plan.start == planned_start(old(self).offsets.offset_of(path@), len),
            plan.truncated == (len < old(self).offsets.offset_of(path@)),
            plan.start <= len,
            final(self).offsets.offset_of(path@) == plan.start,
            final(self).offsets@ == (if plan.truncated {
                old(self).offsets@.insert(path@, 0)
            } else {
                old(self).offsets@
            }),
            final(self).triggers == old(self).triggers,
    {
        let last = self.offsets.offset(path);
        if len < last {
            self.offsets.insert(path, 0);
            ReadPlan { start: 0, truncated: true }
        } else {
            ReadPlan { start: last, truncated: false }
        }
    }

    /// Closes a read cycle: takes the bytes that were read from the planned
    /// start to the end of the file and the position `end` that the read
    /// reached, finds the line to forward and the actions to invoke, and
    /// records `end` as the file's offset.
    pub fn finish_read(&mut self, path: &str, file_name: &str, chunk: &[u8], end: u64) -> (outcome:
        ReadOutcome)
        ensures
            outcome.is_outcome_of(old(self).triggers@, chunk@, file_name@),
            final(self).offsets@ == old(self).offsets@.insert(path@, end),
            final(self).triggers == old(self).triggers,
    {
        let outcome = process_chunk(&self.triggers, chunk, file_name);
        self.offsets.insert(path, end);
        outcome
    }

    /// A whole read cycle on a file whose content is at hand: consumes what
    /// lies behind the planned start and records the content's length.
    pub fn read_new(&mut self, path: &str, file_name: &str, content: &[u8]) -> (outcome: ReadOutcome)
        ensures
            outcome.is_outcome_of(
                old(self).triggers@,
                new_bytes(old(self).offsets.offset_of(path@), content@),
                file_name@,
            ),
            final(self).offsets@ == old(self).offsets@.insert(path@, content@.len() as u64),
            final(self).offsets.offset_of(path@) == content@.len(),
            final(self).triggers == old(self).triggers,
    {
        let len: u64 = content.len() as u64;
        let plan = self.begin_read(path, len);
        let chunk = slice_subrange(content, plan.start as usize, content.len());
        proof {
            assert(chunk@ =~= new_bytes(old(self).offsets.offset_of(path@), content@));
            assert(old(self).offsets@.insert(path@, 0).insert(path@, len) =~= old(
                self,
            ).offsets@.insert(path@, len));
        }
        self.finish_read(path, file_name, chunk, len)
    }
}

/// The first read of a file consumes all of it and records its length.
pub proof fn lemma_first_read(offsets: Map<Seq<char>, u64>, path: Seq<char>, content: Seq<u8>)
    requires
        !offsets.dom().contains(path),
        content.len() <= u64::MAX,
    ensures
        new_bytes(recorded_offset(offsets, path), content) == content,
        recorded_offset(offsets.insert(path, content.len() as u64), path) == content.len(),
{
    assert(content.skip(0) =~= content);
}

/// A read of a file that has not grown since the last one consumes nothing,
/// forwards no line, invokes no action and leaves the offset where it was.
pub proof fn lemma_nothing_new(
    offsets: Map<Seq<char>, u64>,
    path: Seq<char>,
    content: Seq<u8>,
    triggers: Seq<CompiledTrigger>,
    file_name: Seq<char>,
)
    requires
        content.len() <= u64::MAX,
        recorded_offset(offsets, path) == content.len(),
    ensures
        new_bytes(recorded_offset(offsets, path), content).len() == 0,
        line_of_chunk(new_bytes(recorded_offset(offsets, path), content)) is None,
        actions_of_chunk(triggers, new_bytes(recorded_offset(offsets, path), content), file_name).len()
            == 0,
        recorded_offset(offsets.insert(path, content.len() as u64), path) == recorded_offset(
            offsets,
            path,
        ),
{
    let chunk = new_bytes(recorded_offset(offsets, path), content);
    lemma_empty_is_utf8(chunk);
    assert(decoded_text(chunk) =~= Seq::<char>::empty());
    assert(lines(decoded_text(chunk)).len() == 0);
}

/// A file that was replaced by a shorter one is read from its beginning,
/// and its new length is recorded.
pub proof fn lemma_shorter_file(offsets: Map<Seq<char>, u64>, path: Seq<char>, content: Seq<u8>)
    requires
        content.len() < recorded_offset(offsets, path),
    ensures
        planned_start(recorded_offset(offsets, path), content.len() as u64) == 0,
        new_bytes(recorded_offset(offsets, path), content) == content,
        recorded_offset(offsets.insert(path, content.len() as u64), path) == content.len(),
{
    assert(content.skip(0) =~= content);
}

} // verus!
