//! From console lines to records, with continuation lines held back.

use std::sync::Arc;

use vstd::prelude::*;
use vstd::string::*;

use crate::log::clock::{Moment, Reading};
use crate::log::frame;
use crate::log::frame::{bound_frame, strip_ansi, FrameView, Pending, PendingView};
use crate::log::line::{ParsedLine, ParsedView};
use crate::log::mihomo;
use crate::log::other;
use crate::metadata::kind::ClashCoreKind;
use crate::metadata::log;
use crate::metadata::log::{LogField, LogFrame, LogLevel, LogStream};
use crate::text;
use crate::text::starts_with;

verus! {

/// Frames queued for a subscriber before it lags behind.
pub const LOG_CHANNEL_CAPACITY: usize = 256;

/// Turns the lines of one epoch of a core into records. An error record is held
/// back, one per stream, so that the lines after it can join it.
#[derive(Debug)]
pub struct LogParser {
    kind: ClashCoreKind,
    epoch: u64,
    premium_clock: Option<Reading>,
    stdout: Option<Pending>,
    stderr: Option<Pending>,
    newest_pending: Option<LogStream>,
}

pub struct ParserView {
    pub kind: ClashCoreKind,
    pub epoch: u64,
    pub clock: Option<Reading>,
    pub stdout: Option<PendingView>,
    pub stderr: Option<PendingView>,
    pub newest: Option<LogStream>,
}

pub open spec fn pending_view(p: Option<Pending>) -> Option<PendingView> {
    match p {
        Some(p) => Some(p@),
        None => None,
    }
}

pub open spec fn frame_view(f: Option<LogFrame>) -> Option<FrameView> {
    match f {
        Some(f) => Some(f@),
        None => None,
    }
}

impl ParserView {
    pub open spec fn held(self, stream: LogStream) -> Option<PendingView> {
        match stream {
            LogStream::Stdout => self.stdout,
            LogStream::Stderr => self.stderr,
        }
    }

    pub open spec fn holding(self, stream: LogStream, p: Option<PendingView>) -> ParserView {
        match stream {
            LogStream::Stdout => ParserView { stdout: p, ..self },
            LogStream::Stderr => ParserView { stderr: p, ..self },
        }
    }

    /// Held records are within their limits.
    pub open spec fn wf(self) -> bool {
        forall|stream: LogStream|
            (#[trigger] self.held(stream)) is Some ==> frame::within_limits(
                self.held(stream)->0.frame,
            ) && self.held(stream)->0.continuations <= frame::MAX_CONTINUATION_LINES
    }
}

/// What a header line says, by the format of the core family, and the clock
/// reading after it.
pub open spec fn header_line(
    kind: ClashCoreKind,
    line: Seq<char>,
    at: Moment,
    clock: Option<Reading>,
) -> (Option<ParsedView>, Option<Reading>) {
    match kind {
        ClashCoreKind::Mihomo => (mihomo::mihomo_line(line), clock),
        ClashCoreKind::Meow => (other::meow_line(line), clock),
        ClashCoreKind::ClashRust => (other::clash_rs_line(line, at.offset as int), clock),
        ClashCoreKind::ClashPremium => other::premium_line(line, at, clock),
    }
}

/// The record of a header line.
pub open spec fn header_frame(
    p: ParserView,
    stream: LogStream,
    line: Seq<char>,
    at: Moment,
    parsed: ParsedView,
) -> FrameView {
    FrameView {
        at: at.unix_ms,
        epoch: p.epoch,
        kind: p.kind,
        stream,
        level: parsed.level,
        timestamp: parsed.timestamp,
        target: parsed.target,
        message: parsed.message,
        fields: parsed.fields,
        raw: line,
        truncated: false,
    }
}

/// The record of a line that is no header.
pub open spec fn raw_frame(
    p: ParserView,
    stream: LogStream,
    line: Seq<char>,
    at: Moment,
    level: LogLevel,
) -> FrameView {
    FrameView {
        at: at.unix_ms,
        epoch: p.epoch,
        kind: p.kind,
        stream,
        level,
        timestamp: None,
        target: None,
        message: line,
        fields: Seq::empty(),
        raw: line,
        truncated: false,
    }
}

/// A new record: what was held on its stream comes out, then the record itself,
/// unless it is held.
pub open spec fn emitted(p: ParserView, stream: LogStream, frame: FrameView, hold: bool) -> (
    ParserView,
    Option<FrameView>,
    Option<FrameView>,
) {
    let flushed = match p.held(stream) {
        Some(held) => Some(held.frame),
        None => None,
    };
    if hold {
        (
            ParserView { newest: Some(stream), ..p }.holding(
                stream,
                Some(PendingView { frame, continuations: 0 }),
            ),
            flushed,
            None,
        )
    } else {
        (p.holding(stream, None), flushed, Some(frame))
    }
}

/// The level of a line that is no header: by its first word, else by its stream.
pub open spec fn raw_level(line: Seq<char>, stream: LogStream) -> LogLevel {
    if text::has_prefix(line, "Error:"@) {
        LogLevel::Error
    } else if text::has_prefix(line, "warning:"@) {
        LogLevel::Warning
    } else {
        match stream {
            LogStream::Stdout => LogLevel::Info,
            LogStream::Stderr => LogLevel::Warning,
        }
    }
}

/// A line that is neither header nor the start of a plain record joins what is
/// held on its stream.
pub open spec fn joins(p: ParserView, stream: LogStream, line: Seq<char>) -> bool {
    !text::has_prefix(line, "Error:"@) && !text::has_prefix(line, "warning:"@) && p.held(
        stream,
    ) is Some
}

/// One more line: the state after it, and the records that come out, in order.
pub open spec fn pushed(p: ParserView, stream: LogStream, raw_line: Seq<char>, at: Moment) -> (
    ParserView,
    Option<FrameView>,
    Option<FrameView>,
) {
    let line = frame::stripped(raw_line);
    let (parsed, clock) = header_line(p.kind, line, at, p.clock);
    let q = ParserView { clock, ..p };
    match parsed {
        Some(header) => emitted(
            q,
            stream,
            frame::bounded(header_frame(p, stream, line, at, header)),
            log::severity(header.level) >= log::severity(LogLevel::Error),
        ),
        None => if joins(q, stream, line) {
            (
                q.holding(stream, Some(frame::continued(q.held(stream)->0, line))),
                None,
                None,
            )
        } else {
            emitted(
                q,
                stream,
                frame::bounded(raw_frame(p, stream, line, at, raw_level(line, stream))),
                text::has_prefix(line, "Error:"@) && stream == LogStream::Stderr,
            )
        },
    }
}

/// Everything held comes out, the newest last.
pub open spec fn finished(p: ParserView) -> (ParserView, Option<FrameView>, Option<FrameView>) {
    let out = match p.stdout {
        Some(held) => Some(held.frame),
        None => None,
    };
    let err = match p.stderr {
        Some(held) => Some(held.frame),
        None => None,
    };
    let q = ParserView { stdout: None, stderr: None, newest: None, ..p };
    if p.newest == Some(LogStream::Stdout) {
        (q, err, out)
    } else {
        (q, out, err)
    }
}

impl LogParser {
    pub closed spec fn view(&self) -> ParserView {
        ParserView {
            kind: self.kind,
            epoch: self.epoch,
            clock: self.premium_clock,
            stdout: pending_view(self.stdout),
            stderr: pending_view(self.stderr),
            newest: self.newest_pending,
        }
    }

    pub fn new(kind: ClashCoreKind, epoch: u64) -> (r: LogParser)
        ensures
            r@ == (ParserView {
                kind,
                epoch,
                clock: None,
                stdout: None,
                stderr: None,
                newest: None,
            }),
            r@.wf(),
    {
        LogParser {
            kind,
            epoch,
            premium_clock: None,
            stdout: None,
            stderr: None,
            newest_pending: None,
        }
    }

    /// Takes one line that was observed at a given moment.
    pub fn push_at(
        &mut self,
        stream: LogStream,
        line: String,
        observed_at: Moment,
    ) -> (r: [Option<LogFrame>; 2])
        requires
            old(self)@.wf(),
        ensures
            (final(self)@, frame_view(r@[0]), frame_view(r@[1])) == pushed(
                old(self)@,
                stream,
                line@,
                observed_at,
            ),
            final(self)@.wf(),
    {
        proof {
            law_push_keeps_limits(self@, stream, line@, observed_at);
        }
        let line = strip_ansi(line);
        let parsed = self.parse_header(line.as_str(), observed_at);
        if let Some(parsed) = parsed {
            let hold = parsed.level.severity() >= LogLevel::Error.severity();
            let mut frame = LogFrame {
                at: observed_at.unix_ms,
                epoch: self.epoch,
                kind: self.kind,
                stream,
                level: parsed.level,
                timestamp: parsed.timestamp,
                target: parsed.target,
                message: parsed.message,
                fields: parsed.fields,
                raw: line,
                truncated: false,
            };
            bound_frame(&mut frame);
            return self.emit(stream, frame, hold);
        }
        let error_root = starts_with(line.as_str(), "Error:");
        let warning_root = starts_with(line.as_str(), "warning:");
        if !error_root && !warning_root {
            let held = match stream {
                LogStream::Stdout => self.stdout.take(),
                LogStream::Stderr => self.stderr.take(),
            };
            if let Some(mut pending) = held {
                pending.append(line.as_str());
                match stream {
                    LogStream::Stdout => {
                        self.stdout = Some(pending);
                    },
                    LogStream::Stderr => {
                        self.stderr = Some(pending);
                    },
                }
                return [None, None];
            }
        }
        let level = if error_root {
            LogLevel::Error
        } else if warning_root {
            LogLevel::Warning
        } else {
            match stream {
                LogStream::Stdout => LogLevel::Info,
                LogStream::Stderr => LogLevel::Warning,
            }
        };
        let mut frame = raw_frame_at(self.kind, self.epoch, stream, line, level, observed_at);
        bound_frame(&mut frame);
        self.emit(stream, frame, error_root && stream == LogStream::Stderr)
    }

    /// Hands out everything that is held.
    pub fn finish(&mut self) -> (r: [Option<LogFrame>; 2])
        ensures
            (final(self)@, frame_view(r@[0]), frame_view(r@[1])) == finished(old(self)@),
            final(self)@.wf(),
    {
        let stdout = match self.stdout.take() {
            Some(pending) => Some(pending.frame),
            None => None,
        };
        let stderr = match self.stderr.take() {
            Some(pending) => Some(pending.frame),
            None => None,
        };
        let stdout_last = match self.newest_pending.take() {
            Some(LogStream::Stdout) => true,
            _ => false,
        };
        if stdout_last {
            [stderr, stdout]
        } else {
            [stdout, stderr]
        }
    }

    fn parse_header(&mut self, line: &str, observed_at: Moment) -> (r: Option<ParsedLine>)
        ensures
            header_line(old(self)@.kind, line@, observed_at, old(self)@.clock) == (
                match r {
                    Some(p) => Some(p@),
                    None => None,
                },
                final(self)@.clock,
            ),
            final(self)@ == (ParserView { clock: final(self)@.clock, ..old(self)@ }),
    {
        match self.kind {
            ClashCoreKind::Mihomo => mihomo::parse(line),
            ClashCoreKind::Meow => other::parse_meow(line),
            ClashCoreKind::ClashRust => other::parse_clash_rs(line, observed_at),
            ClashCoreKind::ClashPremium => other::parse_premium(
                line,
                observed_at,
                &mut self.premium_clock,
            ),
        }
    }

    fn emit(&mut self, stream: LogStream, frame: LogFrame, hold: bool) -> (r: [Option<
        LogFrame,
    >; 2])
        ensures
            (final(self)@, frame_view(r@[0]), frame_view(r@[1])) == emitted(
                old(self)@,
                stream,
                frame@,
                hold,
            ),
    {
        let held = match stream {
            LogStream::Stdout => self.stdout.take(),
            LogStream::Stderr => self.stderr.take(),
        };
        let flushed = match held {
            Some(pending) => Some(pending.frame),
            None => None,
        };
        if hold {
            self.newest_pending = Some(stream);
            let pending = Some(Pending::new(frame));
            match stream {
                LogStream::Stdout => {
                    self.stdout = pending;
                },
                LogStream::Stderr => {
                    self.stderr = pending;
                },
            }
            [flushed, None]
        } else {
            [flushed, Some(frame)]
        }
    }
}

fn raw_frame_at(
    kind: ClashCoreKind,
    epoch: u64,
    stream: LogStream,
    line: String,
    level: LogLevel,
    observed_at: Moment,
) -> (r: LogFrame)
    ensures
        forall|p: ParserView|
            p.kind == kind && p.epoch == epoch ==> r@ == #[trigger] raw_frame(
                p,
                stream,
                line@,
                observed_at,
                level,
            ),
{
    let fields: Vec<LogField> = Vec::new();
    assert(frame::field_views(fields@) =~= Seq::empty());
    LogFrame {
        at: observed_at.unix_ms,
        epoch,
        kind,
        stream,
        level,
        timestamp: None,
        target: None,
        message: line.clone(),
        fields,
        raw: line,
        truncated: false,
    }
}

// ---------------------------------------------------------------------------
// Laws
// ---------------------------------------------------------------------------

/// Every record that comes out, and every record that stays, is within its
/// limits.
pub proof fn law_push_keeps_limits(p: ParserView, stream: LogStream, line: Seq<char>, at: Moment)
    requires
        p.wf(),
    ensures
        ({
            let (q, first, second) = pushed(p, stream, line, at);
            &&& q.wf()
            &&& first is Some ==> frame::within_limits(first->0)
            &&& second is Some ==> frame::within_limits(second->0)
        }),
{
    let stripped = frame::stripped(line);
    let (parsed, clock) = header_line(p.kind, stripped, at, p.clock);
    let q0 = ParserView { clock, ..p };
    assert(p.held(LogStream::Stdout) == q0.held(LogStream::Stdout));
    assert(p.held(LogStream::Stderr) == q0.held(LogStream::Stderr));
    assert(p.held(stream) == q0.held(stream));
    match parsed {
        Some(header) => {
            frame::law_bounded(header_frame(p, stream, stripped, at, header));
        },
        None => {
            frame::law_bounded(raw_frame(p, stream, stripped, at, raw_level(stripped, stream)));
            if joins(q0, stream, stripped) {
                frame::law_continued(q0.held(stream)->0, stripped);
            }
        },
    }
    let (q, first, second) = pushed(p, stream, line, at);
    assert forall|s: LogStream| (#[trigger] q.held(s)) is Some implies frame::within_limits(
        q.held(s)->0.frame,
    ) && q.held(s)->0.continuations <= frame::MAX_CONTINUATION_LINES by {
        if s != stream {
            assert(q.held(s) == p.held(s));
        }
    }
}

/// A line on one stream leaves what is held on the other.
pub proof fn law_streams_are_separate(
    p: ParserView,
    stream: LogStream,
    line: Seq<char>,
    at: Moment,
    other: LogStream,
)
    requires
        other != stream,
    ensures
        pushed(p, stream, line, at).0.held(other) == p.held(other),
{
}

/// After the end of the output nothing is held.
pub proof fn law_finish_holds_nothing(p: ParserView, stream: LogStream)
    ensures
        finished(p).0.held(stream) is None,
{
}

// ---------------------------------------------------------------------------
// Summaries
// ---------------------------------------------------------------------------

/// A record, or something that holds one.
pub trait HoldsFrame {
    spec fn held(&self) -> FrameView;

    fn frame(&self) -> (r: &LogFrame)
        ensures
            r@ == self.held(),
    ;
}

impl HoldsFrame for LogFrame {
    open spec fn held(&self) -> FrameView {
        self@
    }

    fn frame(&self) -> (r: &LogFrame) {
        self
    }
}

impl HoldsFrame for Arc<LogFrame> {
    open spec fn held(&self) -> FrameView {
        (**self)@
    }

    fn frame(&self) -> (r: &LogFrame) {
        self
    }
}

pub open spec fn frame_views<T: HoldsFrame>(frames: Seq<T>) -> Seq<FrameView> {
    Seq::new(frames.len(), |i: int| frames[i].held())
}

/// The highest severity of a list of records, or -1.
pub open spec fn top_severity(frames: Seq<FrameView>) -> int
    decreases frames.len(),
{
    if frames.len() == 0 {
        -1
    } else {
        let rest = top_severity(frames.drop_last());
        let last = log::severity(frames.last().level);
        if last > rest {
            last
        } else {
            rest
        }
    }
}

/// The message of the last record of a given severity.
pub open spec fn last_of_severity(frames: Seq<FrameView>, severity: int) -> Option<Seq<char>>
    decreases frames.len(),
{
    if frames.len() == 0 {
        None
    } else if log::severity(frames.last().level) == severity {
        Some(frames.last().message)
    } else {
        last_of_severity(frames.drop_last(), severity)
    }
}

/// The message of the latest among the most severe records; none where nothing
/// above `Info` was logged.
pub open spec fn summary(frames: Seq<FrameView>) -> Option<Seq<char>> {
    let top = top_severity(frames);
    if top >= log::severity(LogLevel::Warning) {
        last_of_severity(frames, top)
    } else {
        None
    }
}

pub fn error_summary<T: HoldsFrame>(frames: &[T]) -> (r: Option<String>)
    ensures
        match r {
            Some(s) => summary(frame_views(frames@)) == Some(s@),
            None => summary(frame_views(frames@)) is None,
        },
{
    let ghost all = frame_views(frames@);
    let mut found = false;
    let mut best: usize = 0;
    let mut top: u8 = 0;
    let mut i: usize = 0;
    assert(all.take(0) =~= Seq::empty());
    while i < frames.len()
        invariant
            i <= frames@.len(),
            all == frame_views(frames@),
            found == (i > 0),
            found ==> best < i && top == top_severity(all.take(i as int)) && last_of_severity(
                all.take(i as int),
                top as int,
            ) == Some(all[best as int].message),
            !found ==> top_severity(all.take(i as int)) == -1,
        decreases frames@.len() - i,
    {
        let severity = frames[i].frame().level.severity();
        assert(all.take(i + 1).drop_last() =~= all.take(i as int));
        assert(all.take(i + 1).last() == frames@[i as int].held());
        if !found || severity >= top {
            best = i;
            top = severity;
            found = true;
        }
        i += 1;
    }
    assert(all.take(i as int) =~= all);
    if found && top >= LogLevel::Warning.severity() {
        Some(frames[best].frame().message.clone())
    } else {
        None
    }
}

/// The raw lines, one per row.
pub open spec fn tail_text(frames: Seq<FrameView>) -> Seq<char>
    decreases frames.len(),
{
    if frames.len() == 0 {
        Seq::empty()
    } else if frames.len() == 1 {
        frames[0].raw
    } else {
        tail_text(frames.drop_last()).push('\n') + frames.last().raw
    }
}

pub fn format_tail<T: HoldsFrame>(frames: &[T]) -> (r: String)
    ensures
        r@ == tail_text(frame_views(frames@)),
{
    let ghost all = frame_views(frames@);
    let mut out = String::new();
    let mut i: usize = 0;
    assert(all.take(0) =~= Seq::empty());
    while i < frames.len()
        invariant
            i <= frames@.len(),
            all == frame_views(frames@),
            out@ == tail_text(all.take(i as int)),
        decreases frames@.len() - i,
    {
        assert(all.take(i + 1).drop_last() =~= all.take(i as int));
        assert(all.take(i + 1).last() == frames@[i as int].held());
        let ghost before = out@;
        if i > 0 {
            out.push('\n');
        }
        out.append(frames[i].frame().raw.as_str());
        proof {
            if i == 0 {
                assert(all.take(1)[0] == frames@[0].held());
                assert(out@ =~= frames@[0].held().raw);
            }
        }
        i += 1;
    }
    assert(all.take(i as int) =~= all);
    out
}

// ---------------------------------------------------------------------------
// No record is lost
// ---------------------------------------------------------------------------

/// A record, but for the texts that go on growing while it is held.
pub open spec fn stem(f: FrameView) -> FrameView {
    FrameView { message: Seq::empty(), raw: Seq::empty(), truncated: false, ..f }
}

/// What is held on a stream.
pub open spec fn waiting(p: ParserView, stream: LogStream) -> Seq<FrameView> {
    match p.held(stream) {
        Some(held) => seq![held.frame],
        None => seq![],
    }
}

pub open spec fn out_of(first: Option<FrameView>, second: Option<FrameView>) -> Seq<FrameView> {
    (match first {
        Some(f) => seq![f],
        None => seq![],
    }) + (match second {
        Some(f) => seq![f],
        None => seq![],
    })
}

/// A line begins a record: it is a header, or it says itself that it is an error or a
/// warning, or there is nothing that it could go on with.
pub open spec fn begins(p: ParserView, stream: LogStream, line: Seq<char>, at: Moment) -> bool {
    let shown = frame::stripped(line);
    ||| header_line(p.kind, shown, at, p.clock).0 is Some
    ||| text::has_prefix(shown, "Error:"@)
    ||| text::has_prefix(shown, "warning:"@)
    ||| p.held(stream) is None
}

/// A line that begins a record adds exactly that one behind what waited on its stream:
/// what waited comes out first, and the new record comes out or waits itself. Any other
/// line makes nothing come out and nothing go away. A record tells the stream, the
/// epoch, the family and the time of its line.
pub proof fn law_every_record_is_kept(p: ParserView, stream: LogStream, line: Seq<char>, at: Moment)
    ensures
        ({
            let (q, first, second) = pushed(p, stream, line, at);
            let after = out_of(first, second) + waiting(q, stream);
            let before = waiting(p, stream);
            if begins(p, stream, line, at) {
                &&& after.len() == before.len() + 1
                &&& after.drop_last() == before
                &&& after.last().stream == stream
                &&& after.last().epoch == p.epoch
                &&& after.last().kind == p.kind
                &&& after.last().at == at.unix_ms
                &&& text::has_prefix(frame::stripped(line), after.last().raw)
            } else {
                &&& first is None && second is None
                &&& before.len() == 1 && after.len() == 1
                &&& stem(after[0]) == stem(before[0])
            }
        }),
{
    let shown = frame::stripped(line);
    let (parsed, clock) = header_line(p.kind, shown, at, p.clock);
    let q0 = ParserView { clock, ..p };
    assert(q0.held(stream) == p.held(stream));
    let (q, first, second) = pushed(p, stream, line, at);
    let after = out_of(first, second) + waiting(q, stream);
    let before = waiting(p, stream);
    match parsed {
        Some(header) => {
            frame::law_bounding_keeps_the_record(header_frame(p, stream, shown, at, header));
        },
        None => {
            frame::law_bounding_keeps_the_record(
                raw_frame(p, stream, shown, at, raw_level(shown, stream)),
            );
        },
    }
    if begins(p, stream, line, at) {
        assert(after.drop_last() =~= before);
    }
}

/// The records that come out at the end are those that waited, each once: the one that
/// was begun last comes last.
pub proof fn law_finish_hands_out_what_waited(p: ParserView)
    ensures
        ({
            let (q, first, second) = finished(p);
            let out = out_of(first, second);
            &&& p.newest == Some(LogStream::Stdout) ==> out == waiting(p, LogStream::Stderr)
                + waiting(p, LogStream::Stdout)
            &&& p.newest != Some(LogStream::Stdout) ==> out == waiting(p, LogStream::Stdout)
                + waiting(p, LogStream::Stderr)
            &&& waiting(q, LogStream::Stdout).len() == 0 && waiting(q, LogStream::Stderr).len()
                == 0
            &&& q.kind == p.kind && q.epoch == p.epoch
        }),
{
    let (q, first, second) = finished(p);
    let out = out_of(first, second);
    assert(out =~= waiting(p, LogStream::Stderr) + waiting(p, LogStream::Stdout) || out
        =~= waiting(p, LogStream::Stdout) + waiting(p, LogStream::Stderr));
}

/// Error records wait for the lines that may follow them, on their own stream; all
/// others come out at once.
pub proof fn law_errors_wait(p: ParserView, stream: LogStream, line: Seq<char>, at: Moment)
    ensures
        ({
            let shown = frame::stripped(line);
            let header = header_line(p.kind, shown, at, p.clock).0;
            let (q, first, second) = pushed(p, stream, line, at);
            &&& header matches Some(h) ==> if h.level is Error || h.level is Fatal {
                second is None && (q.held(stream) matches Some(w) && w.frame.level == h.level
                    && w.continuations == 0) && q.newest == Some(stream)
            } else {
                q.held(stream) is None && (second matches Some(f) && f.level == h.level)
            }
            &&& header is None && text::has_prefix(shown, "Error:"@) ==> if stream
                == LogStream::Stderr {
                q.held(stream) matches Some(w) && w.frame.level is Error
            } else {
                second matches Some(f) && f.level is Error
            }
            &&& header is None && !text::has_prefix(shown, "Error:"@) && text::has_prefix(
                shown,
                "warning:"@,
            ) ==> q.held(stream) is None && (second matches Some(f) && f.level is Warning)
            &&& header is None && !begins(p, stream, line, at) ==> q.held(stream) is Some
            &&& header is None && !text::has_prefix(shown, "Error:"@) && !text::has_prefix(
                shown,
                "warning:"@,
            ) && p.held(stream) is None ==> q.held(stream) is None && (second matches Some(f)
                && f.level == (if stream == LogStream::Stdout {
                LogLevel::Info
            } else {
                LogLevel::Warning
            }))
        }),
{
}

/// The record of a header tells what the header said; that of any other line tells the
/// line, as a message without fields.
pub proof fn law_records_tell_their_line(
    p: ParserView,
    stream: LogStream,
    line: Seq<char>,
    at: Moment,
)
    requires
        begins(p, stream, line, at),
    ensures
        ({
            let shown = frame::stripped(line);
            let header = header_line(p.kind, shown, at, p.clock).0;
            let (q, first, second) = pushed(p, stream, line, at);
            let record = match second {
                Some(f) => f,
                None => q.held(stream)->0.frame,
            };
            &&& text::utf8_len(shown) <= frame::MAX_LOG_TEXT_BYTES ==> record.raw == shown
            &&& header matches Some(h) ==> record.level == h.level && (record.timestamp is Some
                <==> h.timestamp is Some) && (record.target is Some <==> h.target is Some)
                && text::has_prefix(h.message, record.message) && (!record.truncated
                ==> record.message == h.message && record.fields == h.fields && record.target
                == h.target && record.timestamp == h.timestamp)
            &&& header is None ==> record.timestamp is None && record.target is None
                && record.fields.len() == 0 && (!record.truncated ==> record.message == shown)
        }),
{
    let shown = frame::stripped(line);
    let (parsed, clock) = header_line(p.kind, shown, at, p.clock);
    text::law_clipped(shown, frame::MAX_LOG_TEXT_BYTES as int);
    match parsed {
        Some(header) => {
            frame::law_bounding_keeps_the_record(header_frame(p, stream, shown, at, header));
        },
        None => {
            frame::law_bounding_keeps_the_record(
                raw_frame(p, stream, shown, at, raw_level(shown, stream)),
            );
        },
    }
}

/// What all the lines of a run make of a parser, and the records that come out.
pub open spec fn pushed_all(p: ParserView, lines: Seq<(LogStream, Seq<char>, Moment)>) -> (
    ParserView,
    Seq<FrameView>,
)
    decreases lines.len(),
{
    if lines.len() == 0 {
        (p, seq![])
    } else {
        let (q, out) = pushed_all(p, lines.drop_last());
        let (after, first, second) = pushed(q, lines.last().0, lines.last().1, lines.last().2);
        (after, out + out_of(first, second))
    }
}

/// The stems of the records of a stream.
pub open spec fn stems_on(frames: Seq<FrameView>, stream: LogStream) -> Seq<FrameView>
    decreases frames.len(),
{
    if frames.len() == 0 {
        seq![]
    } else {
        let before = stems_on(frames.drop_last(), stream);
        if frames.last().stream == stream {
            before.push(stem(frames.last()))
        } else {
            before
        }
    }
}

proof fn lemma_stems_add(a: Seq<FrameView>, b: Seq<FrameView>, stream: LogStream)
    ensures
        stems_on(a + b, stream) == stems_on(a, stream) + stems_on(b, stream),
    decreases b.len(),
{
    if b.len() == 0 {
        assert(a + b =~= a);
        assert(stems_on(a, stream) + stems_on(b, stream) =~= stems_on(a, stream));
    } else {
        lemma_stems_add(a, b.drop_last(), stream);
        assert((a + b).drop_last() =~= a + b.drop_last());
        assert((a + b).last() == b.last());
        assert(stems_on(a + b, stream) =~= stems_on(a, stream) + stems_on(b, stream));
    }
}

/// Held records are of the stream that they are held on.
pub open spec fn filed(p: ParserView) -> bool {
    forall|stream: LogStream|
        (#[trigger] p.held(stream)) matches Some(held) ==> held.frame.stream == stream
}

/// The stems of the records that the lines of a run begin on a stream, in order: the
/// time, the epoch and the family of each, and what its header says.
pub open spec fn begun_on(
    p: ParserView,
    lines: Seq<(LogStream, Seq<char>, Moment)>,
    stream: LogStream,
) -> Seq<FrameView>
    decreases lines.len(),
{
    if lines.len() == 0 {
        seq![]
    } else {
        let before = begun_on(p, lines.drop_last(), stream);
        let q = pushed_all(p, lines.drop_last()).0;
        before + begun_by(q, lines.last().0, lines.last().1, lines.last().2, stream)
    }
}

proof fn lemma_waiting_stems(p: ParserView, stream: LogStream)
    requires
        filed(p),
    ensures
        stems_on(waiting(p, stream), stream).len() == waiting(p, stream).len(),
        waiting(p, stream).len() == 1 ==> stems_on(waiting(p, stream), stream) == seq![
            stem(waiting(p, stream)[0]),
        ],
{
    let w = waiting(p, stream);
    if w.len() > 0 {
        assert(p.held(stream) is Some);
        assert(w.drop_last() =~= Seq::<FrameView>::empty());
        reveal_with_fuel(stems_on, 2);
        assert(stems_on(w, stream) =~= seq![stem(w[0])]);
    }
}

proof fn lemma_filed_step(q: ParserView, on: LogStream, line: Seq<char>, at: Moment)
    requires
        filed(q),
    ensures
        filed(pushed(q, on, line, at).0),
{
    let (after, first, second) = pushed(q, on, line, at);
    let whole = out_of(first, second) + waiting(after, on);
    law_every_record_is_kept(q, on, line, at);
    assert forall|s: LogStream| (#[trigger] after.held(s)) matches Some(held)
        ==> held.frame.stream == s by {
        assert(q.held(s) matches Some(held) ==> held.frame.stream == s);
        if s != on {
            law_streams_are_separate(q, on, line, at, s);
        } else if after.held(s) is Some {
            assert(whole.last() == after.held(s)->0.frame);
            if !begins(q, on, line, at) {
                assert(stem(whole[0]).stream == stem(waiting(q, on)[0]).stream);
            }
        }
    }
}

/// What one line adds to the records of a stream.
pub open spec fn begun_by(
    q: ParserView,
    on: LogStream,
    line: Seq<char>,
    at: Moment,
    stream: LogStream,
) -> Seq<FrameView> {
    if on == stream && begins(q, on, line, at) {
        let (after, first, second) = pushed(q, on, line, at);
        seq![stem((out_of(first, second) + waiting(after, on)).last())]
    } else {
        seq![]
    }
}

proof fn lemma_stems_step(
    q: ParserView,
    on: LogStream,
    line: Seq<char>,
    at: Moment,
    stream: LogStream,
)
    requires
        filed(q),
    ensures
        ({
            let (after, first, second) = pushed(q, on, line, at);
            stems_on(out_of(first, second), stream) + stems_on(waiting(after, stream), stream)
                == stems_on(waiting(q, stream), stream) + begun_by(q, on, line, at, stream)
        }),
{
    let (after, first, second) = pushed(q, on, line, at);
    let more = out_of(first, second);
    lemma_filed_step(q, on, line, at);
    law_every_record_is_kept(q, on, line, at);
    law_streams_are_separate(q, on, line, at, if on == LogStream::Stdout { LogStream::Stderr } else { LogStream::Stdout });
    lemma_stems_add(more, waiting(after, stream), stream);
    let full = more + waiting(after, on);
    if on == stream {
        if begins(q, on, line, at) {
            assert(full.drop_last() == waiting(q, stream));
            assert(stems_on(full, stream) =~= stems_on(waiting(q, stream), stream).push(
                stem(full.last()),
            ));
            assert(stems_on(waiting(q, stream), stream) + begun_by(q, on, line, at, stream)
                =~= stems_on(waiting(q, stream), stream).push(stem(full.last())));
        } else {
            assert(more =~= Seq::<FrameView>::empty());
            assert(full =~= waiting(after, stream));
            lemma_waiting_stems(after, stream);
            lemma_waiting_stems(q, stream);
            assert(stem(full[0]) == stem(waiting(q, stream)[0]));
            assert(stems_on(full, stream) =~= stems_on(waiting(q, stream), stream));
            assert(stems_on(waiting(q, stream), stream) + begun_by(q, on, line, at, stream)
                =~= stems_on(waiting(q, stream), stream));
        }
    } else {
        assert(after.held(stream) == q.held(stream));
        assert(waiting(after, stream) == waiting(q, stream));
        assert forall|i: int| 0 <= i < more.len() implies (#[trigger] more[i]).stream != stream by {
            assert(full[i] == more[i]);
            if begins(q, on, line, at) && i < full.len() - 1 {
                assert(full.drop_last()[i] == full[i]);
                assert(q.held(on) is Some);
            }
        }
        lemma_no_stems(more, stream);
        assert(stems_on(more, stream) + stems_on(waiting(after, stream), stream) =~= stems_on(
            waiting(q, stream),
            stream,
        ));
        assert(stems_on(waiting(q, stream), stream) + begun_by(q, on, line, at, stream)
            =~= stems_on(waiting(q, stream), stream));
    }
}

/// Over any run of lines no record is lost, none comes twice and none overtakes
/// another: on each stream the records that came out, with the one that still waits,
/// are the one that waited before and those that the lines began, in that order.
#[verifier::rlimit(40)]
#[verifier::spinoff_prover]
pub proof fn law_no_record_is_lost(
    p: ParserView,
    lines: Seq<(LogStream, Seq<char>, Moment)>,
    stream: LogStream,
)
    requires
        filed(p),
    ensures
        filed(pushed_all(p, lines).0),
        stems_on(pushed_all(p, lines).1, stream) + stems_on(
            waiting(pushed_all(p, lines).0, stream),
            stream,
        ) == stems_on(waiting(p, stream), stream) + begun_on(p, lines, stream),
    decreases lines.len(),
{
    if lines.len() == 0 {
        assert(stems_on(waiting(p, stream), stream) + begun_on(p, lines, stream) =~= stems_on(
            pushed_all(p, lines).1,
            stream,
        ) + stems_on(waiting(p, stream), stream));
    } else {
        let init = lines.drop_last();
        law_no_record_is_lost(p, init, stream);
        let (q, out) = pushed_all(p, init);
        let (on, line, at) = lines.last();
        lemma_filed_step(q, on, line, at);
        lemma_stems_step(q, on, line, at, stream);
        lemma_run_step(p, lines, stream);
        let (after, first, second) = pushed(q, on, line, at);
        let a = stems_on(out, stream);
        let b = stems_on(out_of(first, second), stream);
        let c = stems_on(waiting(after, stream), stream);
        let d = stems_on(waiting(q, stream), stream);
        let e = begun_by(q, on, line, at, stream);
        let f = stems_on(waiting(p, stream), stream);
        let g = begun_on(p, init, stream);
        lemma_regroup(a, b, c, d, e, f, g);
    }
}

proof fn lemma_regroup(
    a: Seq<FrameView>,
    b: Seq<FrameView>,
    c: Seq<FrameView>,
    d: Seq<FrameView>,
    e: Seq<FrameView>,
    f: Seq<FrameView>,
    g: Seq<FrameView>,
)
    requires
        b + c == d + e,
        a + d == f + g,
    ensures
        (a + b) + c == f + (g + e),
{
    assert((a + b) + c =~= a + (b + c));
    assert(a + (d + e) =~= (a + d) + e);
    assert((f + g) + e =~= f + (g + e));
}

proof fn lemma_run_step(
    p: ParserView,
    lines: Seq<(LogStream, Seq<char>, Moment)>,
    stream: LogStream,
)
    requires
        lines.len() > 0,
    ensures
        ({
            let (q, out) = pushed_all(p, lines.drop_last());
            let (on, line, at) = lines.last();
            let (after, first, second) = pushed(q, on, line, at);
            &&& pushed_all(p, lines).0 == after
            &&& stems_on(pushed_all(p, lines).1, stream) == stems_on(out, stream) + stems_on(
                out_of(first, second),
                stream,
            )
            &&& begun_on(p, lines, stream) == begun_on(p, lines.drop_last(), stream) + begun_by(
                q,
                on,
                line,
                at,
                stream,
            )
        }),
{
    let (q, out) = pushed_all(p, lines.drop_last());
    let (on, line, at) = lines.last();
    let (after, first, second) = pushed(q, on, line, at);
    lemma_stems_add(out, out_of(first, second), stream);
}

proof fn lemma_no_stems(frames: Seq<FrameView>, stream: LogStream)
    requires
        forall|i: int| 0 <= i < frames.len() ==> (#[trigger] frames[i]).stream != stream,
    ensures
        stems_on(frames, stream) == Seq::<FrameView>::empty(),
    decreases frames.len(),
{
    if frames.len() > 0 {
        assert(frames[frames.len() - 1] == frames.last());
        assert forall|i: int| 0 <= i < frames.drop_last().len() implies (
        #[trigger] frames.drop_last()[i]).stream != stream by {
            assert(frames.drop_last()[i] == frames[i]);
        }
        lemma_no_stems(frames.drop_last(), stream);
    }
}

} // verus!
