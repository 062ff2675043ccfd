//! The decisions of the loop that follows a running engine process: what a
//! line of output changes, when the progress message is edited, when the
//! loop stops and what the finished run reports. The loop itself (reading
//! the pipe, the clock, the Telegram edits) runs in the application.

use vstd::prelude::*;
use crate::nitro::types::RunResult;
use crate::telecode::bot::{
    judge_run, output_tail, run_outcome, running_html, running_text, stderr_note,
    truncate_for_telegram, truncated_text, trimmed_or,
};
use crate::telecode::stream::{
    keep_last_chars, opt_view, parse_stream_line, stream_line_event, RollingBuffer, StreamEvent,
};
use crate::text::str_eq;

verus! {

/// What the bridge keeps while it follows a running engine process: the
/// tail of its output, the session id reported last (or the one the run
/// resumed), and the progress message shown last.
pub struct StreamRun {
    pub run_id: i64,
    pub rolling: RollingBuffer,
    pub session_id: Option<String>,
    pub last_payload: String,
}

/// What the loop does next, once it has looked at the clock and the cancel
/// flag.
#[derive(Debug, Clone, Copy, PartialEq, Eq)]
pub enum StreamStep {
    /// Read the next line of output.
    Read,
    /// Kill the process and stop: the run has exceeded its maximum runtime.
    StopTimedOut,
    /// Kill the process and stop: the user asked to cancel.
    StopCancelled,
}

/// The step taken for the given clock and cancel flag: a timeout is checked
/// before a cancellation.
pub open spec fn step_for(timed_out: bool, cancelled: bool) -> StreamStep {
    if timed_out {
        StreamStep::StopTimedOut
    } else if cancelled {
        StreamStep::StopCancelled
    } else {
        StreamStep::Read
    }
}

/// The next step of the loop (see [`step_for`]).
pub fn next_step(timed_out: bool, cancelled: bool) -> (s: StreamStep)
    ensures
        s == step_for(timed_out, cancelled),
{
    if timed_out {
        StreamStep::StopTimedOut
    } else if cancelled {
        StreamStep::StopCancelled
    } else {
        StreamStep::Read
    }
}

/// The rolling output after the text of one event.
pub open spec fn after_text(rolling: Seq<char>, capacity: nat, text: Seq<char>) -> Seq<char> {
    if text.len() > 0 {
        keep_last_chars(rolling + text, capacity)
    } else {
        rolling
    }
}

/// The session id after an event: the one it reports, else the one before.
pub open spec fn after_session(before: Option<Seq<char>>, reported: Option<Seq<char>>) -> Option<
    Seq<char>,
> {
    match reported {
        Some(s) => Some(s),
        None => before,
    }
}

/// The session id after a sequence of events, each reporting a session id
/// or not, starting from `start`.
pub open spec fn session_after_all(start: Option<Seq<char>>, reported: Seq<Option<Seq<char>>>) -> Option<
    Seq<char>,
>
    decreases reported.len(),
{
    if reported.len() == 0 {
        start
    } else {
        after_session(session_after_all(start, reported.drop_last()), reported.last())
    }
}

/// A run ends with the session id the engine reported last; when it
/// reported none, with the session the run resumed. (`k` is the last event
/// that reports one, or -1.)
pub proof fn law_last_reported_session(
    start: Option<Seq<char>>,
    reported: Seq<Option<Seq<char>>>,
    k: int,
)
    requires
        -1 <= k < reported.len(),
        k >= 0 ==> reported[k] is Some,
        forall|j: int| k < j < reported.len() ==> (#[trigger] reported[j]) is None,
    ensures
        k >= 0 ==> session_after_all(start, reported) == reported[k],
        k == -1 ==> session_after_all(start, reported) == start,
    decreases reported.len(),
{
    if reported.len() > 0 {
        let init = reported.drop_last();
        if k < reported.len() - 1 {
            assert(reported[reported.len() - 1] is None);
            assert forall|j: int| k < j < init.len() implies (#[trigger] init[j]) is None by {
                assert(init[j] == reported[j]);
            }
            if 0 <= k {
                assert(init[k] == reported[k]);
            }
            law_last_reported_session(start, init, k);
        }
    }
}

/// The output a finished run reports before trimming: the rolling output,
/// then the captured stderr (when there is any), then the note of its
/// outcome (when there is one), each kept to the buffer's capacity.
pub open spec fn final_output(
    rolling: Seq<char>,
    capacity: nat,
    stderr_text: Seq<char>,
    timed_out: bool,
    cancelled: bool,
    exit_code: int,
) -> Seq<char> {
    let with_stderr = if stderr_text.len() > 0 {
        keep_last_chars(rolling + "\n[stderr] "@ + stderr_text + "\n"@, capacity)
    } else {
        rolling
    };
    after_text(with_stderr, capacity, run_outcome(timed_out, cancelled, exit_code).1)
}

impl StreamRun {
    /// Starts following run `run_id`, keeping at most `max_output` characters of
    /// output; `session_id` is the session the run resumes, if any.
    pub fn new(run_id: i64, max_output: usize, session_id: Option<&str>) -> (r: Self)
        ensures
            r.run_id == run_id,
            r.rolling@ == Seq::<char>::empty(),
            r.rolling.capacity() == max_output,
            opt_view(r.session_id) == match session_id {
                Some(s) => Some(s@),
                None => None,
            },
            r.last_payload@ == Seq::<char>::empty(),
    {
        let sid = match session_id {
            Some(s) => Some(s.to_string()),
            None => None,
        };
        StreamRun {
            run_id,
            rolling: RollingBuffer::new(max_output),
            session_id: sid,
            last_payload: String::new(),
        }
    }

    /// Takes one decoded event: remembers the session id it reports and
    /// appends its text to the rolling output.
    pub fn on_event(&mut self, event: StreamEvent)
        ensures
            opt_view(final(self).session_id) == after_session(
                opt_view(old(self).session_id),
                opt_view(event.session_id),
            ),
            final(self).rolling@ == after_text(
                old(self).rolling@,
                old(self).rolling.capacity(),
                event.text@,
            ),
            final(self).rolling.capacity() == old(self).rolling.capacity(),
            final(self).last_payload == old(self).last_payload,
            final(self).run_id == old(self).run_id,
    {
        let StreamEvent { text, session_id } = event;
        match session_id {
            Some(s) => {
                self.session_id = Some(s);
            },
            None => {},
        }
        if !text.as_str().is_empty() {
            self.rolling.append(text.as_str());
        }
    }

    /// Takes one line of the engine's stdout (see [`parse_stream_line`]).
    pub fn on_line(&mut self, line: &str)
        ensures
            opt_view(final(self).session_id) == after_session(
                opt_view(old(self).session_id),
                stream_line_event(line@).1,
            ),
            final(self).rolling@ == after_text(
                old(self).rolling@,
                old(self).rolling.capacity(),
                stream_line_event(line@).0,
            ),
            final(self).rolling.capacity() == old(self).rolling.capacity(),
            final(self).last_payload == old(self).last_payload,
            final(self).run_id == old(self).run_id,
    {
        let event = parse_stream_line(line);
        self.on_event(event);
    }

    /// The progress message due after `elapsed_secs` seconds, or `None` when
    /// it is the message shown last.
    pub fn progress_update(&self, elapsed_secs: u64) -> (r: Option<String>)
        ensures
            match r {
                Some(p) => p@ == truncated_text(
                    running_text(self.run_id as int, elapsed_secs as nat, self.rolling@),
                ) && p@ != self.last_payload@,
                None => truncated_text(
                    running_text(self.run_id as int, elapsed_secs as nat, self.rolling@),
                ) == self.last_payload@,
            },
    {
        let payload = running_html(self.run_id, elapsed_secs, self.rolling.value());
        let truncated = truncate_for_telegram(payload.as_str());
        if str_eq(truncated.as_str(), self.last_payload.as_str()) {
            None
        } else {
            Some(truncated)
        }
    }

    /// Records that `payload` is now the progress message shown.
    pub fn progress_shown(&mut self, payload: String)
        ensures
            final(self).last_payload == payload,
            final(self).rolling == old(self).rolling,
            final(self).session_id == old(self).session_id,
            final(self).run_id == old(self).run_id,
    {
        self.last_payload = payload;
    }

    /// Ends the run once the process has exited with `exit_code` after
    /// `elapsed_secs` seconds: adds the captured stderr and the note of the
    /// outcome to the output, judges the run and reports it.
    pub fn finish(
        self,
        stderr_text: &str,
        timed_out: bool,
        cancelled: bool,
        exit_code: i32,
        elapsed_secs: u64,
    ) -> (r: RunResult)
        ensures
            r.status == run_outcome(timed_out, cancelled, exit_code as int).0,
            r.output_tail@ == trimmed_or(
                final_output(
                    self.rolling@,
                    self.rolling.capacity(),
                    stderr_text@,
                    timed_out,
                    cancelled,
                    exit_code as int,
                ),
                "(no output)"@,
            ),
            opt_view(r.session_id) == opt_view(self.session_id),
            r.exit_code == exit_code,
            r.elapsed_secs == elapsed_secs,
    {
        let StreamRun { run_id, mut rolling, session_id, last_payload } = self;
        if !stderr_text.is_empty() {
            let note = stderr_note(stderr_text);
            rolling.append(note.as_str());
            assert(rolling@ == keep_last_chars(self.rolling@ + "\n[stderr] "@ + stderr_text@ + "\n"@, self.rolling.capacity())) by {
                assert(self.rolling@ + note@ =~= self.rolling@ + "\n[stderr] "@ + stderr_text@ + "\n"@);
            }
        }
        let (status, note) = judge_run(timed_out, cancelled, exit_code);
        if !note.as_str().is_empty() {
            rolling.append(note.as_str());
        }
        let tail = output_tail(rolling.value());
        RunResult { status, output_tail: tail, session_id, exit_code, elapsed_secs }
    }
}

} // verus!
