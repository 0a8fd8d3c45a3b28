//! Limits on the text of a record, and records that are still growing.

use vstd::prelude::*;
use vstd::string::*;

use crate::metadata::kind::ClashCoreKind;
use crate::metadata::log::{LogField, LogFrame, LogLevel, LogStream, LogTimestamp};
use crate::text;
use crate::text::{byte_len, chars, clip};

verus! {

pub const MAX_CONTINUATION_LINES: usize = 16;

pub const MAX_LOG_TEXT_BYTES: usize = 16_384;

pub const MAX_LOG_TARGET_BYTES: usize = 2048;

pub const MAX_LOG_TIMESTAMP_RAW_BYTES: usize = 256;

pub const MAX_LOG_FIELDS: usize = 64;

pub const MAX_LOG_FIELD_TEXT_BYTES: usize = 1024;

// ---------------------------------------------------------------------------
// What records say
// ---------------------------------------------------------------------------

pub struct StampView {
    pub raw: Seq<char>,
    pub unix_ms: Option<i64>,
    pub inferred: bool,
}

pub struct FrameView {
    pub at: i64,
    pub epoch: u64,
    pub kind: ClashCoreKind,
    pub stream: LogStream,
    pub level: LogLevel,
    pub timestamp: Option<StampView>,
    pub target: Option<Seq<char>>,
    pub message: Seq<char>,
    pub fields: Seq<(Seq<char>, Seq<char>)>,
    pub raw: Seq<char>,
    pub truncated: bool,
}

impl LogTimestamp {
    pub open spec fn view(&self) -> StampView {
        StampView { raw: self.raw@, unix_ms: self.unix_ms, inferred: self.inferred }
    }
}

pub open spec fn stamp_view(stamp: Option<LogTimestamp>) -> Option<StampView> {
    match stamp {
        Some(s) => Some(s@),
        None => None,
    }
}

pub open spec fn text_view(s: Option<String>) -> Option<Seq<char>> {
    match s {
        Some(t) => Some(t@),
        None => None,
    }
}

pub open spec fn field_views(fields: Seq<LogField>) -> Seq<(Seq<char>, Seq<char>)> {
    Seq::new(fields.len(), |i: int| (fields[i].key@, fields[i].value@))
}

impl LogFrame {
    pub open spec fn view(&self) -> FrameView {
        FrameView {
            at: self.at,
            epoch: self.epoch,
            kind: self.kind,
            stream: self.stream,
            level: self.level,
            timestamp: stamp_view(self.timestamp),
            target: text_view(self.target),
            message: self.message@,
            fields: field_views(self.fields@),
            raw: self.raw@,
            truncated: self.truncated,
        }
    }
}

// ---------------------------------------------------------------------------
// Limits
// ---------------------------------------------------------------------------

pub open spec fn over(s: Seq<char>, max: int) -> bool {
    text::utf8_len(s) > max
}

pub open spec fn bounded_fields(fields: Seq<(Seq<char>, Seq<char>)>) -> Seq<
    (Seq<char>, Seq<char>),
> {
    let n = if fields.len() > MAX_LOG_FIELDS {
        MAX_LOG_FIELDS as nat
    } else {
        fields.len()
    };
    Seq::new(
        n,
        |i: int|
            (
                text::clipped(fields[i].0, MAX_LOG_FIELD_TEXT_BYTES as int),
                text::clipped(fields[i].1, MAX_LOG_FIELD_TEXT_BYTES as int),
            ),
    )
}

/// A field among those that are kept has a text over its limit.
pub open spec fn field_over(fields: Seq<(Seq<char>, Seq<char>)>) -> bool {
    exists|i: int|
        0 <= i < fields.len() && i < MAX_LOG_FIELDS && (over(
            (#[trigger] fields[i]).0,
            MAX_LOG_FIELD_TEXT_BYTES as int,
        ) || over(fields[i].1, MAX_LOG_FIELD_TEXT_BYTES as int))
}

/// The record with every text clipped to its limit; it says so where one was.
pub open spec fn bounded(f: FrameView) -> FrameView {
    FrameView {
        message: text::clipped(f.message, MAX_LOG_TEXT_BYTES as int),
        raw: text::clipped(f.raw, MAX_LOG_TEXT_BYTES as int),
        target: match f.target {
            Some(t) => Some(text::clipped(t, MAX_LOG_TARGET_BYTES as int)),
            None => None,
        },
        timestamp: match f.timestamp {
            Some(s) => Some(
                StampView {
                    raw: text::clipped(s.raw, MAX_LOG_TIMESTAMP_RAW_BYTES as int),
                    ..s
                },
            ),
            None => None,
        },
        fields: bounded_fields(f.fields),
        truncated: f.truncated || over(f.message, MAX_LOG_TEXT_BYTES as int) || over(
            f.raw,
            MAX_LOG_TEXT_BYTES as int,
        ) || (f.target is Some && over(f.target->0, MAX_LOG_TARGET_BYTES as int)) || (
        f.timestamp is Some && over(f.timestamp->0.raw, MAX_LOG_TIMESTAMP_RAW_BYTES as int))
            || f.fields.len() > MAX_LOG_FIELDS || field_over(f.fields),
        ..f
    }
}

/// Every text of a record is within its limit.
pub open spec fn within_limits(f: FrameView) -> bool {
    &&& !over(f.message, MAX_LOG_TEXT_BYTES as int)
    &&& !over(f.raw, MAX_LOG_TEXT_BYTES as int)
    &&& f.target is Some ==> !over(f.target->0, MAX_LOG_TARGET_BYTES as int)
    &&& f.timestamp is Some ==> !over(f.timestamp->0.raw, MAX_LOG_TIMESTAMP_RAW_BYTES as int)
    &&& f.fields.len() <= MAX_LOG_FIELDS
    &&& !field_over(f.fields)
}

/// A bounded record is within its limits, and bounding one that already is
/// changes nothing.
pub proof fn law_bounded(f: FrameView)
    ensures
        within_limits(bounded(f)),
        within_limits(f) ==> bounded(f) == f,
{
    text::law_clipped(f.message, MAX_LOG_TEXT_BYTES as int);
    text::law_clipped(f.raw, MAX_LOG_TEXT_BYTES as int);
    if f.target is Some {
        text::law_clipped(f.target->0, MAX_LOG_TARGET_BYTES as int);
    }
    if f.timestamp is Some {
        text::law_clipped(f.timestamp->0.raw, MAX_LOG_TIMESTAMP_RAW_BYTES as int);
    }
    let b = bounded_fields(f.fields);
    assert forall|i: int| 0 <= i < b.len() implies !over(
        (#[trigger] b[i]).0,
        MAX_LOG_FIELD_TEXT_BYTES as int,
    ) && !over(b[i].1, MAX_LOG_FIELD_TEXT_BYTES as int) by {
        text::law_clipped(f.fields[i].0, MAX_LOG_FIELD_TEXT_BYTES as int);
        text::law_clipped(f.fields[i].1, MAX_LOG_FIELD_TEXT_BYTES as int);
    }
    if within_limits(f) {
        assert forall|i: int| 0 <= i < f.fields.len() implies #[trigger] b[i] == f.fields[i] by {
            assert(!over(f.fields[i].0, MAX_LOG_FIELD_TEXT_BYTES as int));
            text::law_clipped(f.fields[i].0, MAX_LOG_FIELD_TEXT_BYTES as int);
            text::law_clipped(f.fields[i].1, MAX_LOG_FIELD_TEXT_BYTES as int);
        }
        assert(b =~= f.fields);
    }
}

/// Clips `text` to `max` bytes; says whether anything was cut.
pub fn truncate_text(text: &mut String, max_bytes: usize) -> (r: bool)
    ensures
        final(text)@ == text::clipped(old(text)@, max_bytes as int),
        r == over(old(text)@, max_bytes as int),
{
    if byte_len(text.as_str()) <= max_bytes {
        proof {
            text::law_clipped(text@, max_bytes as int);
        }
        return false;
    }
    let clipped = clip(text.as_str(), max_bytes);
    *text = clipped;
    true
}

pub fn bound_frame(frame: &mut LogFrame)
    ensures
        final(frame)@ == bounded(old(frame)@),
{
    let ghost before = frame@;
    let mut cut = truncate_text(&mut frame.message, MAX_LOG_TEXT_BYTES);
    if truncate_text(&mut frame.raw, MAX_LOG_TEXT_BYTES) {
        cut = true;
    }
    let target = frame.target.take();
    frame.target = match target {
        Some(mut t) => {
            if truncate_text(&mut t, MAX_LOG_TARGET_BYTES) {
                cut = true;
            }
            Some(t)
        },
        None => None,
    };
    let timestamp = frame.timestamp.take();
    frame.timestamp = match timestamp {
        Some(mut stamp) => {
            if truncate_text(&mut stamp.raw, MAX_LOG_TIMESTAMP_RAW_BYTES) {
                cut = true;
            }
            Some(stamp)
        },
        None => None,
    };
    let ghost cut_before_fields = cut;
    let (fields, fields_cut) = bound_fields(&frame.fields);
    frame.fields = fields;
    frame.truncated = frame.truncated || cut || fields_cut;
    assert(frame@ == bounded(before));
}

fn bound_fields(fields: &Vec<LogField>) -> (r: (Vec<LogField>, bool))
    ensures
        field_views(r.0@) == bounded_fields(field_views(fields@)),
        r.1 == (fields@.len() > MAX_LOG_FIELDS || field_over(field_views(fields@))),
{
    let mut out: Vec<LogField> = Vec::new();
    let mut cut = fields.len() > MAX_LOG_FIELDS;
    let mut i: usize = 0;
    let ghost all = field_views(fields@);
    while i < fields.len() && i < MAX_LOG_FIELDS
        invariant
            i <= fields@.len(),
            i <= MAX_LOG_FIELDS,
            all == field_views(fields@),
            out@.len() == i,
            forall|j: int|
                0 <= j < i ==> #[trigger] field_views(out@)[j] == (
                    text::clipped(all[j].0, MAX_LOG_FIELD_TEXT_BYTES as int),
                    text::clipped(all[j].1, MAX_LOG_FIELD_TEXT_BYTES as int),
                ),
            cut == (fields@.len() > MAX_LOG_FIELDS || exists|j: int|
                0 <= j < i && (over((#[trigger] all[j]).0, MAX_LOG_FIELD_TEXT_BYTES as int) || over(
                    all[j].1,
                    MAX_LOG_FIELD_TEXT_BYTES as int,
                ))),
        decreases fields@.len() - i,
    {
        let mut key = fields[i].key.clone();
        let mut value = fields[i].value.clone();
        let key_cut = truncate_text(&mut key, MAX_LOG_FIELD_TEXT_BYTES);
        let value_cut = truncate_text(&mut value, MAX_LOG_FIELD_TEXT_BYTES);
        assert(all[i as int] == (fields@[i as int].key@, fields@[i as int].value@));
        if key_cut || value_cut {
            cut = true;
        }
        let ghost before = out@;
        out.push(LogField { key, value });
        assert forall|j: int| 0 <= j < i + 1 implies #[trigger] field_views(out@)[j] == (
            text::clipped(all[j].0, MAX_LOG_FIELD_TEXT_BYTES as int),
            text::clipped(all[j].1, MAX_LOG_FIELD_TEXT_BYTES as int),
        ) by {
            if j < i {
                assert(field_views(out@)[j] == field_views(before)[j]);
            }
        }
        i += 1;
    }
    assert(field_views(out@) =~= bounded_fields(all));
    (out, cut)
}

// ---------------------------------------------------------------------------
// Records that still grow
// ---------------------------------------------------------------------------

/// A text with one more line, as far as it fits into `max` bytes, and whether
/// anything of the line was left out.
pub open spec fn grown(text: Seq<char>, line: Seq<char>, max: int) -> (Seq<char>, bool) {
    let used = text::utf8_len(text);
    if used >= max {
        (text, true)
    } else if line.len() == 0 {
        (text.push('\n'), false)
    } else {
        let kept = text::clipped(line, max - used - 1);
        if kept.len() == 0 {
            (text, true)
        } else {
            (text.push('\n') + kept, kept.len() < line.len())
        }
    }
}

/// Growing a text within its limit keeps it within the limit.
pub proof fn law_grown(text: Seq<char>, line: Seq<char>, max: int)
    requires
        text::utf8_len(text) <= max,
    ensures
        text::utf8_len(grown(text, line, max).0) <= max,
{
    let used = text::utf8_len(text);
    if used < max {
        text::lemma_utf8_len_push(text, '\n');
        text::law_clipped(line, max - used - 1);
        text::lemma_utf8_len_add(text.push('\n'), text::clipped(line, max - used - 1));
    }
}

pub fn append_bounded(text: &mut String, line: &str, max_bytes: usize) -> (r: bool)
    ensures
        (final(text)@, r) == grown(old(text)@, line@, max_bytes as int),
{
    let used = byte_len(text.as_str());
    if used >= max_bytes {
        return true;
    }
    if line.is_empty() {
        text.push('\n');
        return false;
    }
    let kept = clip(line, max_bytes - used - 1);
    proof {
        text::law_clipped(line@, max_bytes - used - 1);
    }
    if kept.as_str().is_empty() {
        return true;
    }
    text.push('\n');
    text.append(kept.as_str());
    let kept_len = chars(kept.as_str()).len();
    let line_len = chars(line).len();
    kept_len < line_len
}

/// A record that may still take continuation lines.
#[derive(Debug)]
pub struct Pending {
    pub frame: LogFrame,
    pub continuations: usize,
}

pub struct PendingView {
    pub frame: FrameView,
    pub continuations: nat,
}

impl Pending {
    pub open spec fn view(&self) -> PendingView {
        PendingView { frame: self.frame@, continuations: self.continuations as nat }
    }

    pub fn new(frame: LogFrame) -> (r: Pending)
        ensures
            r@ == (PendingView { frame: frame@, continuations: 0 }),
    {
        Pending { frame, continuations: 0 }
    }

    /// Adds a continuation line.
    pub fn append(&mut self, line: &str)
        requires
            old(self)@.continuations <= MAX_CONTINUATION_LINES,
        ensures
            final(self)@ == continued(old(self)@, line@),
    {
        if self.continuations == MAX_CONTINUATION_LINES {
            self.frame.truncated = true;
            return;
        }
        let raw_cut = append_bounded(&mut self.frame.raw, line, MAX_LOG_TEXT_BYTES);
        let message_cut = append_bounded(&mut self.frame.message, line, MAX_LOG_TEXT_BYTES);
        if raw_cut || message_cut {
            self.frame.truncated = true;
            self.continuations = MAX_CONTINUATION_LINES;
        } else {
            self.continuations += 1;
        }
    }
}

/// A pending record with one more line: it takes at most so many lines, and none
/// after the first that did not fit whole.
pub open spec fn continued(p: PendingView, line: Seq<char>) -> PendingView {
    if p.continuations == MAX_CONTINUATION_LINES {
        PendingView { frame: FrameView { truncated: true, ..p.frame }, ..p }
    } else {
        let raw = grown(p.frame.raw, line, MAX_LOG_TEXT_BYTES as int);
        let message = grown(p.frame.message, line, MAX_LOG_TEXT_BYTES as int);
        let cut = raw.1 || message.1;
        PendingView {
            frame: FrameView {
                raw: raw.0,
                message: message.0,
                truncated: p.frame.truncated || cut,
                ..p.frame
            },
            continuations: if cut {
                MAX_CONTINUATION_LINES as nat
            } else {
                p.continuations + 1
            },
        }
    }
}

/// Continuation lines keep a record within its limits.
pub proof fn law_continued(p: PendingView, line: Seq<char>)
    requires
        within_limits(p.frame),
        p.continuations <= MAX_CONTINUATION_LINES,
    ensures
        within_limits(continued(p, line).frame),
        continued(p, line).continuations <= MAX_CONTINUATION_LINES,
{
    law_grown(p.frame.raw, line, MAX_LOG_TEXT_BYTES as int);
    law_grown(p.frame.message, line, MAX_LOG_TEXT_BYTES as int);
}

pub fn stream_index(stream: LogStream) -> (r: usize)
    ensures
        r == (match stream {
            LogStream::Stdout => 0usize,
            LogStream::Stderr => 1usize,
        }),
{
    match stream {
        LogStream::Stdout => 0,
        LogStream::Stderr => 1,
    }
}

// ---------------------------------------------------------------------------
// Terminal escapes
// ---------------------------------------------------------------------------

/// The escape character.
pub const ESC: char = '\u{1b}';

/// A character that ends a control sequence.
pub open spec fn final_char() -> spec_fn(char) -> bool {
    |c: char| '@' <= c <= '~'
}

/// The end of a control sequence whose parameters start at `from`.
pub open spec fn sequence_end(s: Seq<char>, from: int) -> int {
    let at = text::first_where(s, from, final_char());
    if at < s.len() {
        at + 1
    } else {
        s.len() as int
    }
}

/// The text without terminal control sequences and lone escape characters.
pub open spec fn stripped(s: Seq<char>) -> Seq<char>
    decreases s.len(),
{
    if s.len() == 0 {
        s
    } else if s[0] != ESC {
        seq![s[0]] + stripped(s.drop_first())
    } else if s.len() == 1 || s[1] != '[' {
        stripped(s.drop_first())
    } else {
        proof {
            text::lemma_first_where_bounds(s, 2, final_char());
        }
        stripped(s.skip(sequence_end(s, 2)))
    }
}

pub fn strip_ansi(line: String) -> (r: String)
    ensures
        r@ == stripped(line@),
{
    let cs = chars(line.as_str());
    let mut out = String::new();
    let mut i: usize = 0;
    let ghost s = line@;
    assert(s.skip(0) =~= s);
    assert(out@ + stripped(s) =~= stripped(s));
    while i < cs.len()
        invariant
            cs@ == s,
            i <= cs@.len(),
            out@ + stripped(s.skip(i as int)) == stripped(s),
        decreases cs@.len() - i,
    {
        let ghost rest = s.skip(i as int);
        assert(rest[0] == s[i as int]);
        if cs[i] != ESC {
            let ghost before = out@;
            out.push(cs[i]);
            assert(rest.drop_first() =~= s.skip(i + 1));
            assert(before + stripped(rest) =~= out@ + stripped(s.skip(i + 1)));
            i += 1;
        } else if i + 1 >= cs.len() || cs[i + 1] != '[' {
            assert(rest.drop_first() =~= s.skip(i + 1));
            assert(rest.len() > 1 ==> rest[1] == s[i + 1]);
            i += 1;
        } else {
            assert(rest[1] == s[i + 1]);
            let end = control_end(&cs, i + 2);
            proof {
                lemma_sequence_end_shift(s, i as int);
                assert(rest.skip(sequence_end(rest, 2)) =~= s.skip(end as int));
            }
            i = end;
        }
    }
    assert(s.skip(i as int) =~= Seq::<char>::empty());
    assert(out@ =~= stripped(s));
    out
}

fn control_end(cs: &[char], from: usize) -> (r: usize)
    requires
        from <= cs@.len(),
    ensures
        r == sequence_end(cs@, from as int),
        from <= r <= cs@.len(),
{
    let mut i: usize = from;
    while i < cs.len()
        invariant
            from <= i <= cs@.len(),
            forall|j: int| from <= j < i ==> !('@' <= #[trigger] cs@[j] <= '~'),
        decreases cs@.len() - i,
    {
        if '@' <= cs[i] && cs[i] <= '~' {
            proof {
                text::lemma_first_where(cs@, from as int, final_char(), i as int);
            }
            return i + 1;
        }
        i += 1;
    }
    proof {
        text::lemma_first_where(cs@, from as int, final_char(), i as int);
    }
    i
}

proof fn lemma_sequence_end_shift(s: Seq<char>, i: int)
    requires
        0 <= i,
        i + 2 <= s.len(),
    ensures
        sequence_end(s.skip(i), 2) + i == sequence_end(s, i + 2),
        2 <= sequence_end(s.skip(i), 2) <= s.len() - i,
{
    let rest = s.skip(i);
    text::lemma_first_where_bounds(rest, 2, final_char());
    let k = text::first_where(rest, 2, final_char());
    assert forall|j: int| i + 2 <= j < k + i implies !final_char()(#[trigger] s[j]) by {
        assert(rest[j - i] == s[j]);
    }
    if k < rest.len() {
        assert(rest[k] == s[k + i]);
    }
    text::lemma_first_where(s, i + 2, final_char(), k + i);
}

/// No escape character is left after stripping.
pub proof fn law_stripped_has_no_escape(s: Seq<char>)
    ensures
        !stripped(s).contains(ESC),
    decreases s.len(),
{
    if s.len() == 0 {
    } else if s[0] != ESC {
        law_stripped_has_no_escape(s.drop_first());
        let rest = stripped(s.drop_first());
        let out = stripped(s);
        assert forall|i: int| 0 <= i < out.len() implies #[trigger] out[i] != ESC by {
            if i > 0 {
                assert(out[i] == rest[i - 1]);
                assert(rest.contains(rest[i - 1]));
            }
        }
    } else if s.len() == 1 || s[1] != '[' {
        law_stripped_has_no_escape(s.drop_first());
    } else {
        text::lemma_first_where_bounds(s, 2, final_char());
        law_stripped_has_no_escape(s.skip(sequence_end(s, 2)));
    }
}

/// A text without escape characters is left as it is; so stripping twice is
/// stripping once.
pub proof fn law_stripped_fixed(s: Seq<char>)
    requires
        !s.contains(ESC),
    ensures
        stripped(s) == s,
    decreases s.len(),
{
    if s.len() > 0 {
        assert(s.contains(s[0]));
        assert(!s.drop_first().contains(ESC)) by {
            if s.drop_first().contains(ESC) {
                let i = choose|i: int|
                    0 <= i < s.drop_first().len() && s.drop_first()[i] == ESC;
                assert(s[i + 1] == ESC);
            }
        }
        law_stripped_fixed(s.drop_first());
        assert(stripped(s) =~= s);
    }
}

/// Bounding a record touches nothing but its texts: each is kept, or a beginning of it
/// is, and the record says so wherever anything is missing.
pub proof fn law_bounding_keeps_the_record(f: FrameView)
    ensures
        bounded(f).at == f.at,
        bounded(f).epoch == f.epoch,
        bounded(f).kind == f.kind,
        bounded(f).stream == f.stream,
        bounded(f).level == f.level,
        bounded(f).target is Some <==> f.target is Some,
        bounded(f).timestamp is Some <==> f.timestamp is Some,
        f.timestamp is Some ==> bounded(f).timestamp->0.unix_ms == f.timestamp->0.unix_ms
            && bounded(f).timestamp->0.inferred == f.timestamp->0.inferred,
        text::has_prefix(f.message, bounded(f).message),
        text::has_prefix(f.raw, bounded(f).raw),
        bounded(f).truncated <==> f.truncated || bounded(f) != (FrameView {
            truncated: bounded(f).truncated,
            ..f
        }),
{
    law_bounded(f);
    text::law_clipped(f.message, MAX_LOG_TEXT_BYTES as int);
    text::law_clipped(f.raw, MAX_LOG_TEXT_BYTES as int);
    assert(f.message.subrange(0, bounded(f).message.len() as int) =~= bounded(f).message);
    assert(f.raw.subrange(0, bounded(f).raw.len() as int) =~= bounded(f).raw);
    let b = bounded(f);
    let same = FrameView { truncated: b.truncated, ..f };
    if b == same {
        assert(within_limits(b));
        assert(within_limits(f)) by {
            assert(b.message == f.message && b.raw == f.raw && b.fields == f.fields);
            assert(b.target == f.target && b.timestamp == f.timestamp);
        }
        assert(b == f);
    } else if !f.truncated && !b.truncated {
        assert(within_limits(f));
        assert(b == f);
    }
}

/// A line that fits is added whole, behind a line break; nothing is left out unsaid.
pub proof fn law_lines_that_fit_are_added_whole(text: Seq<char>, line: Seq<char>, max: int)
    requires
        text::utf8_len(text) <= max,
    ensures
        text::utf8_len(text) + 1 + text::utf8_len(line) <= max ==> grown(text, line, max) == (
            text.push('\n') + line,
            false,
        ),
        !grown(text, line, max).1 ==> grown(text, line, max).0 == text.push('\n') + line,
        text::has_prefix(grown(text, line, max).0, text),
{
    let used = text::utf8_len(text);
    assert(text.push('\n') + Seq::<char>::empty() =~= text.push('\n'));
    if used < max && line.len() > 0 {
        let kept = text::clipped(line, max - used - 1);
        text::law_clipped(line, max - used - 1);
        if kept.len() == line.len() {
            assert(kept =~= line);
        }
        assert((text.push('\n') + kept).subrange(0, text.len() as int) =~= text);
    }
    if line.len() == 0 {
        assert(line =~= Seq::<char>::empty());
        assert(text.push('\n') + line =~= text.push('\n'));
        assert(text.push('\n').subrange(0, text.len() as int) =~= text);
    }
    assert(text.subrange(0, text.len() as int) =~= text);
    assert(text::utf8_len(line) >= 0);
}

/// A continuation line changes nothing of a record but its texts, which go on where
/// they ended. While there is room the whole line is added to both; from the first line
/// on that was not, the record says that it is cut.
pub proof fn law_continuation_lines_extend_the_record(p: PendingView, line: Seq<char>)
    requires
        within_limits(p.frame),
        p.continuations <= MAX_CONTINUATION_LINES,
    ensures
        ({
            let q = continued(p, line);
            &&& q.frame == (FrameView {
                message: q.frame.message,
                raw: q.frame.raw,
                truncated: q.frame.truncated,
                ..p.frame
            })
            &&& text::has_prefix(q.frame.message, p.frame.message)
            &&& text::has_prefix(q.frame.raw, p.frame.raw)
            &&& p.frame.truncated ==> q.frame.truncated
            &&& !q.frame.truncated ==> q.frame.message == p.frame.message.push('\n') + line
                && q.frame.raw == p.frame.raw.push('\n') + line && q.continuations
                == p.continuations + 1
            &&& p.continuations < MAX_CONTINUATION_LINES && text::utf8_len(p.frame.message) + 1
                + text::utf8_len(line) <= MAX_LOG_TEXT_BYTES && text::utf8_len(p.frame.raw) + 1
                + text::utf8_len(line) <= MAX_LOG_TEXT_BYTES ==> q.frame.truncated
                == p.frame.truncated && q.frame.message == p.frame.message.push('\n') + line
                && q.frame.raw == p.frame.raw.push('\n') + line && q.continuations
                == p.continuations + 1
            &&& p.continuations == MAX_CONTINUATION_LINES ==> q.frame.message == p.frame.message
                && q.frame.raw == p.frame.raw && q.frame.truncated && q.continuations
                == p.continuations
        }),
{
    law_lines_that_fit_are_added_whole(p.frame.raw, line, MAX_LOG_TEXT_BYTES as int);
    law_lines_that_fit_are_added_whole(p.frame.message, line, MAX_LOG_TEXT_BYTES as int);
    assert(p.frame.raw.subrange(0, p.frame.raw.len() as int) =~= p.frame.raw);
    assert(p.frame.message.subrange(0, p.frame.message.len() as int) =~= p.frame.message);
}

/// A control sequence is taken out of a text, and what stands before and behind it is
/// kept.
pub proof fn law_sequences_are_taken_out(
    before: Seq<char>,
    parameters: Seq<char>,
    last: char,
    behind: Seq<char>,
)
    requires
        !before.contains(ESC),
        forall|i: int| 0 <= i < parameters.len() ==> !('@' <= #[trigger] parameters[i] <= '~'),
        '@' <= last <= '~',
    ensures
        stripped(before + (seq![ESC, '['] + parameters + seq![last] + behind)) == before
            + stripped(behind),
    decreases before.len(),
{
    let marked = seq![ESC, '['] + parameters + seq![last] + behind;
    let s = before + marked;
    if before.len() == 0 {
        assert(s =~= marked);
        let n = 2 + parameters.len() as int;
        assert forall|j: int| 2 <= j < n implies !final_char()(#[trigger] s[j]) by {
            assert(s[j] == parameters[j - 2]);
        }
        assert(s[n] == last);
        text::lemma_first_where(s, 2, final_char(), n);
        assert(s[0] == ESC && s[1] == '[');
        assert(s.skip(n + 1) =~= behind);
        assert(before + stripped(behind) =~= stripped(behind));
    } else {
        let rest = before.drop_first();
        assert(s[0] == before[0]);
        assert(before.contains(before[0]));
        assert forall|c: char| rest.contains(c) implies before.contains(c) by {
            let i = choose|i: int| 0 <= i < rest.len() && rest[i] == c;
            assert(before[i + 1] == c);
        }
        assert(s.drop_first() =~= rest + marked);
        law_sequences_are_taken_out(rest, parameters, last, behind);
        assert(seq![s[0]] + (rest + stripped(behind)) =~= before + stripped(behind));
    }
}

} // verus!
