//! Log events, their on-disk line format, and the size-bounded writer that
//! decides when the live file is rotated.
use vstd::prelude::*;
use vstd::utf8::encode_utf8;
use crate::rotation::{after_append, archive_path, archive_path_spec, seq_range, RetentionPolicy, RotationState};
use crate::text::{decimal, push_decimal};

verus! {

/// Severity of a log event.
#[derive(Debug, Clone, Copy, PartialEq, Eq, Structural)]
pub enum Level {
    Error,
    Warn,
    Info,
    Debug,
    Trace,
}

pub open spec fn level_name(l: Level) -> Seq<char> {
    match l {
        Level::Error => seq!['E', 'R', 'R', 'O', 'R'],
        Level::Warn => seq!['W', 'A', 'R', 'N'],
        Level::Info => seq!['I', 'N', 'F', 'O'],
        Level::Debug => seq!['D', 'E', 'B', 'U', 'G'],
        Level::Trace => seq!['T', 'R', 'A', 'C', 'E'],
    }
}

impl Level {
    /// The level's name in capitals, as it appears in a log line.
    pub fn as_str(&self) -> (r: &'static str)
        ensures
            r@ == level_name(*self),
    {
        match self {
            Level::Error => {
                proof { reveal_strlit("ERROR"); }
                assert("ERROR"@ =~= level_name(*self));
                "ERROR"
            },
            Level::Warn => {
                proof { reveal_strlit("WARN"); }
                assert("WARN"@ =~= level_name(*self));
                "WARN"
            },
            Level::Info => {
                proof { reveal_strlit("INFO"); }
                assert("INFO"@ =~= level_name(*self));
                "INFO"
            },
            Level::Debug => {
                proof { reveal_strlit("DEBUG"); }
                assert("DEBUG"@ =~= level_name(*self));
                "DEBUG"
            },
            Level::Trace => {
                proof { reveal_strlit("TRACE"); }
                assert("TRACE"@ =~= level_name(*self));
                "TRACE"
            },
        }
    }
}

/// One log record sent by an authorised producer.
pub struct LogEvent {
    pub service_name: String,
    pub pid: u32,
    /// Milliseconds since the Unix epoch, UTC.
    pub timestamp_ms: i64,
    pub level: Level,
    pub target: String,
    pub message: String,
}

/// `ms` milliseconds after the Unix epoch, in UTC, written as
/// `dd-mm-yyyy HH:MM:SS.mmm`.
pub uninterp spec fn timestamp_text(ms: i64) -> Seq<char>;

/// Whether `ms` lies within chrono's dates, the years -262143 to 262142:
/// from -262143-01-01 00:00:00.000 to 262142-12-31 23:59:59.999 UTC.
pub open spec fn timestamp_in_range(ms: i64) -> bool {
    -8_334_601_228_800_000 <= ms <= 8_210_266_876_799_999
}

/// Relies on chrono's `DateTime::from_timestamp_millis` and `format`: the
/// text depends on `ms` alone; `None` only where chrono cannot represent the
/// time, which lies outside `timestamp_in_range`.
#[verifier::external_body]
fn format_timestamp(ms: i64) -> (r: Option<String>)
    ensures
        r matches Some(t) ==> t@ == timestamp_text(ms),
        timestamp_in_range(ms) ==> r is Some,
{
    match chrono::DateTime::from_timestamp_millis(ms) {
        Some(t) => Some(t.format("%d-%m-%Y %H:%M:%S%.3f").to_string()),
        None => None,
    }
}

/// The on-disk line of an event whose time is written as `time`:
/// `<time> service#pid [LEVEL] target > message` and a line break.
pub open spec fn line_text(time: Seq<char>, e: LogEvent) -> Seq<char> {
    seq!['<'] + time + seq!['>', ' '] + e.service_name@ + seq!['#'] + decimal(e.pid as nat) + seq![' ', '[']
        + level_name(e.level) + seq![']', ' '] + e.target@ + seq![' ', '>', ' '] + e.message@ + seq!['\n']
}

/// Writes the line of `event` with its time already rendered as `time`.
pub fn compose_line(time: &str, event: &LogEvent) -> (r: String)
    ensures
        r@ == line_text(time@, *event),
{
    proof {
        reveal_strlit("<");
        reveal_strlit("> ");
        reveal_strlit("#");
        reveal_strlit(" [");
        reveal_strlit("] ");
        reveal_strlit(" > ");
        reveal_strlit("\n");
    }
    let mut r = String::from_str("<");
    r.append(time);
    r.append("> ");
    r.append(event.service_name.as_str());
    r.append("#");
    push_decimal(&mut r, event.pid as u64);
    r.append(" [");
    r.append(event.level.as_str());
    r.append("] ");
    r.append(event.target.as_str());
    r.append(" > ");
    r.append(event.message.as_str());
    r.append("\n");
    assert(r@ =~= line_text(time@, *event));
    r
}

/// The line of `event`, with its timestamp rendered by chrono; `None` only
/// when the timestamp lies outside chrono's range.
pub fn format_line(event: &LogEvent) -> (r: Option<String>)
    ensures
        timestamp_in_range(event.timestamp_ms) ==> r is Some,
        r matches Some(l) ==> l@ == line_text(timestamp_text(event.timestamp_ms), *event),
{
    match format_timestamp(event.timestamp_ms) {
        Some(t) => Some(compose_line(t.as_str(), event)),
        None => None,
    }
}

/// Number of bytes a line takes on disk: the length of its UTF-8 encoding,
/// as `str::len` reports it.
pub open spec fn byte_len(s: Seq<char>) -> int {
    (encode_utf8(s).len() as usize) as int
}

/// What the caller does on disk after one event was accepted: append `line`
/// to the live file, then, if `rotation` is set, close the file, move it to
/// the archive path, delete the pruned archives and reopen the live path.
pub struct LogStep {
    pub line: String,
    pub rotation: Option<Rotation>,
}

/// The files that one rotation touches.
pub struct Rotation {
    pub archived_path: String,
    pub deleted_paths: Vec<String>,
}

/// How accepting `event` relates the writer `before` to the writer `after`,
/// given the step `r` handed to the caller.
pub open spec fn after_append_step(before: Writer, after: Writer, event: LogEvent, r: Option<LogStep>) -> bool {
    &&& r is None ==> after == before
    &&& r matches Some(step) ==> {
            &&& step.line@ == line_text(timestamp_text(event.timestamp_ms), event)
            &&& (after.rotation_state().count(), step.rotation is Some) == after_append(
                before.rotation_state().count(),
                before.rotation_state().limit(),
                byte_len(step.line@),
            )
            &&& step.rotation is None ==> after.retention() == before.retention()
            &&& step.rotation matches Some(rot) ==> {
                &&& after.retention().rotations() == before.retention().rotations() + 1
                &&& rot.archived_path@ != before.location()
                &&& rot.archived_path@ == archive_path_spec(
                    before.location(),
                    before.retention().rotations() as u64,
                )
                &&& rot.deleted_paths@.len() + after.retention().retained().len()
                    == before.retention().retained().len() + 1
                &&& forall|k: int| 0 <= k < rot.deleted_paths@.len() ==> #[trigger] rot.deleted_paths@[k]@
                    == archive_path_spec(
                    before.location(),
                    before.retention().retained().push(before.retention().rotations() as u64)[k],
                )
            }
        }
}

/// Size-bounded append storage: formats events, counts the bytes written to
/// the live file and decides when it is rotated and which archives go.
pub struct Writer {
    log_location: String,
    state: RotationState,
    policy: RetentionPolicy,
}

impl Writer {
    pub closed spec fn location(&self) -> Seq<char> {
        self.log_location@
    }

    pub closed spec fn rotation_state(&self) -> RotationState {
        self.state
    }

    pub closed spec fn retention(&self) -> RetentionPolicy {
        self.policy
    }

    pub open spec fn wf(&self) -> bool {
        self.rotation_state().wf() && self.retention().wf()
    }

    /// A writer for the log at `log_location` that rotates once a file
    /// reaches `num_bytes_rotate` bytes and keeps `keep_num_files` archives.
    pub fn new(log_location: String, num_bytes_rotate: u64, keep_num_files: u64) -> (r: Self)
        ensures
            r.wf(),
            r.location() == log_location@,
            r.rotation_state().count() == 0,
            r.rotation_state().limit() == num_bytes_rotate,
            r.retention().keep_count() == keep_num_files,
            r.retention().rotations() == 0,
    {
        Writer {
            log_location,
            state: RotationState::new(num_bytes_rotate),
            policy: RetentionPolicy::new(keep_num_files),
        }
    }

    /// After any number of rotations, at most `keep_num_files` archives are
    /// retained, and they are those of the most recent rotations.
    pub proof fn lemma_archives_bounded(&self)
        requires
            self.wf(),
        ensures
            self.retention().retained().len() <= self.retention().keep_count(),
            self.retention().retained() == seq_range(
                self.retention().rotations() - self.retention().retained().len(),
                self.retention().rotations(),
            ),
            forall|i: int| 0 <= i < self.retention().retained().len() ==> self.retention().rotations()
                - self.retention().keep_count() <= #[trigger] self.retention().retained()[i]
                < self.retention().rotations(),
    {
        self.retention().lemma_retention_bound();
    }

    /// Whether another rotation can still be numbered.
    pub fn can_rotate(&self) -> (r: bool)
        ensures
            r == (self.retention().rotations() < u64::MAX),
    {
        self.policy.can_rotate()
    }

    /// Accepts `event`: its line goes to the live file, and the bytes of that
    /// line are counted. When the count reaches the threshold the file is
    /// rotated: the counter restarts at zero and the step names the archive
    /// path and the archives to delete. `None` when the event's timestamp
    /// cannot be rendered; nothing changes then.
    pub fn log_message(&mut self, event: &LogEvent) -> (r: Option<LogStep>)
        requires
            old(self).wf(),
            old(self).retention().rotations() < u64::MAX,
        ensures
            final(self).wf(),
            final(self).location() == old(self).location(),
            final(self).rotation_state().limit() == old(self).rotation_state().limit(),
            final(self).retention().keep_count() == old(self).retention().keep_count(),
            timestamp_in_range(event.timestamp_ms) ==> r is Some,
            after_append_step(*old(self), *final(self), *event, r),
    {
        let line = match format_line(event) {
            Some(l) => l,
            None => { return None; },
        };
        let len = line.as_str().len();
        let rotate = self.state.record_append(len as u64);
        if !rotate {
            return Some(LogStep { line, rotation: None });
        }
        let plan = self.policy.rotate();
        let archived_path = archive_path(&self.log_location, plan.archive_seq);
        assert(archived_path@.len() > self.log_location@.len());
        let mut deleted_paths: Vec<String> = Vec::new();
        let mut i: usize = 0;
        while i < plan.pruned.len()
            invariant
                i <= plan.pruned@.len(),
                deleted_paths@.len() == i,
                forall|k: int| 0 <= k < i ==> #[trigger] deleted_paths@[k]@ == archive_path_spec(
                    self.log_location@,
                    plan.pruned@[k],
                ),
            decreases plan.pruned@.len() - i,
        {
            deleted_paths.push(archive_path(&self.log_location, plan.pruned[i]));
            i = i + 1;
        }
        proof {
            let all = old(self).retention().retained().push(plan.archive_seq);
            assert(all.len() == plan.pruned@.len() + self.retention().retained().len());
            assert forall|k: int| 0 <= k < deleted_paths@.len() implies #[trigger] deleted_paths@[k]@
                == archive_path_spec(old(self).location(), all[k]) by {
                assert(all == plan.pruned@ + self.retention().retained());
                assert((plan.pruned@ + self.retention().retained())[k] == plan.pruned@[k]);
            }
        }
        Some(LogStep { line, rotation: Some(Rotation { archived_path, deleted_paths }) })
    }
}

} // verus!
