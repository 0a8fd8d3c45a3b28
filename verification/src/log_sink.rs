//! The archive of what cores print: one JSON record per line, in files that are
//! rotated.

use std::sync::Arc;

use vstd::prelude::*;
use vstd::string::*;

use crate::error::Error;
use crate::io::error::IoError;
use crate::log::frame;
use crate::metadata::kind;
use crate::metadata::log::{LogField, LogFrame, LogLevel, LogStream, LogTimestamp};
use crate::path;
use crate::path::{join, same_path};
use crate::text;
use crate::text::{i64_to_string, parse_u64, strip_prefix, strip_suffix, u64_to_string};

verus! {

/// The name of the directory of the archive.
pub const LOG_DIR_NAME: &'static str = "logs";

/// The most records that are written at once.
pub const MAX_BATCH_RECORDS: usize = 256;

// ---------------------------------------------------------------------------
// Records
// ---------------------------------------------------------------------------

/// What is archived: a record, or how many records were lost.
#[derive(Debug)]
pub enum Entry {
    Log(Arc<LogFrame>),
    Gap(u64),
}

/// One character as it stands between the quotes of a JSON text: quotes,
/// backslashes and control characters are escaped.
pub open spec fn json_char(c: char) -> Seq<char> {
    if c == '"' || c == '\\' {
        seq!['\\', c]
    } else if c == '\n' {
        seq!['\\', 'n']
    } else if c == '\r' {
        seq!['\\', 'r']
    } else if c == '\t' {
        seq!['\\', 't']
    } else if c == '\u{8}' {
        seq!['\\', 'b']
    } else if c == '\u{c}' {
        seq!['\\', 'f']
    } else if (c as int) < 32 {
        seq![
            '\\',
            'u',
            '0',
            '0',
            text::hex_digit(c as int / 16),
            text::hex_digit(c as int % 16),
        ]
    } else {
        seq![c]
    }
}

/// What stands between the quotes.
pub open spec fn json_body(s: Seq<char>) -> Seq<char>
    decreases s.len(),
{
    if s.len() == 0 {
        seq![]
    } else {
        json_char(s[0]) + json_body(s.drop_first())
    }
}

/// A text as JSON has it.
pub open spec fn json_text(s: Seq<char>) -> Seq<char> {
    seq!['"'] + json_body(s) + seq!['"']
}

/// `serde_json::to_string` of a text, which does not fail: the text in quotes,
/// with escapes for what cannot stand between them.
#[verifier::external_body]
fn json_string(s: &str) -> (r: String)
    ensures
        r@ == json_text(s@),
{
    serde_json::to_string(s).unwrap_or_default()
}

/// The two digits of a control character stand for it.
proof fn lemma_control_digits(c: char)
    requires
        (c as int) < 32,
    ensures
        text::is_hex(text::hex_digit(c as int / 16)),
        text::is_hex(text::hex_digit(c as int % 16)),
        c as int == 16 * text::hex_value(text::hex_digit(c as int / 16)) + text::hex_value(
            text::hex_digit(c as int % 16),
        ),
{
    let high = c as int / 16;
    let low = c as int % 16;
    assert(0 <= high < 2 && 0 <= low < 16 && c as int == 16 * high + low);
    assert(text::hex_digit(high) as int == high + 48);
    assert(low < 10 ==> text::hex_digit(low) as int == low + 48);
    assert(low >= 10 ==> text::hex_digit(low) as int == low + 87);
}

proof fn lemma_json_is_one_line(s: Seq<char>)
    ensures
        one_line(json_body(s)),
    decreases s.len(),
{
    if s.len() > 0 {
        lemma_json_is_one_line(s.drop_first());
        let c = s[0];
        assert(one_line(json_char(c))) by {
            if (c as int) < 32 {
                lemma_control_digits(c);
            }
        }
        let head = json_char(c);
        let rest = json_body(s.drop_first());
        assert forall|i: int| 0 <= i < json_body(s).len() implies #[trigger] json_body(s)[i]
            != '\n' by {
            if i < head.len() {
                assert(json_body(s)[i] == head[i]);
            } else {
                assert(json_body(s)[i] == rest[i - head.len()]);
            }
        }
    }
}

/// There is no line feed in the text.
pub open spec fn one_line(s: Seq<char>) -> bool {
    forall|i: int| 0 <= i < s.len() ==> #[trigger] s[i] != '\n'
}

pub open spec fn level_name(level: LogLevel) -> Seq<char> {
    match level {
        LogLevel::Trace => "\"trace\""@,
        LogLevel::Debug => "\"debug\""@,
        LogLevel::Info => "\"info\""@,
        LogLevel::Warning => "\"warning\""@,
        LogLevel::Error => "\"error\""@,
        LogLevel::Fatal => "\"fatal\""@,
    }
}

pub open spec fn stream_name(stream: LogStream) -> Seq<char> {
    match stream {
        LogStream::Stdout => "\"stdout\""@,
        LogStream::Stderr => "\"stderr\""@,
    }
}

pub open spec fn flag_name(b: bool) -> Seq<char> {
    if b {
        "true"@
    } else {
        "false"@
    }
}

pub open spec fn number_or_null(n: Option<i64>) -> Seq<char> {
    match n {
        Some(n) => text::signed(n as int),
        None => "null"@,
    }
}

pub open spec fn text_or_null(s: Option<Seq<char>>) -> Seq<char> {
    match s {
        Some(s) => json_text(s),
        None => "null"@,
    }
}

pub open spec fn stamp_json(stamp: Option<frame::StampView>) -> Seq<char> {
    match stamp {
        None => "null"@,
        Some(s) => "{\"raw\":"@ + json_text(s.raw) + ",\"unix_ms\":"@ + number_or_null(s.unix_ms)
            + ",\"inferred\":"@ + flag_name(s.inferred) + "}"@,
    }
}

/// The fields of a record, with commas between them.
pub open spec fn fields_json(fields: Seq<(Seq<char>, Seq<char>)>) -> Seq<char>
    decreases fields.len(),
{
    if fields.len() == 0 {
        seq![]
    } else {
        let before = fields_json(fields.drop_last());
        let comma = if fields.len() == 1 {
            before
        } else {
            before + ","@
        };
        comma + "{\"key\":"@ + json_text(fields.last().0) + ",\"value\":"@ + json_text(
            fields.last().1,
        ) + "}"@
    }
}

/// A record as it is archived.
pub open spec fn frame_json(f: frame::FrameView) -> Seq<char> {
    "{\"t\":\"log\",\"at\":"@ + text::signed(f.at as int) + ",\"epoch\":"@ + text::decimal(
        f.epoch as nat,
    ) + ",\"kind\":\""@ + kind::kind_name(f.kind) + "\",\"stream\":"@ + stream_name(f.stream)
        + ",\"level\":"@ + level_name(f.level) + ",\"timestamp\":"@ + stamp_json(f.timestamp)
        + ",\"target\":"@ + text_or_null(f.target) + ",\"message\":"@ + json_text(f.message)
        + ",\"fields\":["@ + fields_json(f.fields) + "],\"raw\":"@ + json_text(f.raw)
        + ",\"truncated\":"@ + flag_name(f.truncated) + "}"@
}

/// A gap as it is archived.
pub open spec fn gap_json(at: i64, dropped: u64) -> Seq<char> {
    "{\"t\":\"gap\",\"at\":"@ + text::signed(at as int) + ",\"dropped\":"@ + text::decimal(
        dropped as nat,
    ) + "}"@
}

/// An entry as it is archived, at the given time.
pub open spec fn entry_json(entry: Entry, now_ms: i64) -> Seq<char> {
    match entry {
        Entry::Log(f) => frame_json(f@),
        Entry::Gap(dropped) => gap_json(now_ms, dropped),
    }
}

fn put(out: &mut String, piece: &str)
    requires
        one_line(old(out)@),
        one_line(piece@),
    ensures
        final(out)@ == old(out)@ + piece@,
        one_line(final(out)@),
{
    let ghost before = out@;
    out.append(piece);
    assert forall|i: int| 0 <= i < out@.len() implies #[trigger] out@[i] != '\n' by {
        if i < before.len() {
            assert(out@[i] == before[i]);
        } else {
            assert(out@[i] == piece@[i - before.len()]);
        }
    }
}

fn put_unsigned(out: &mut String, n: u64)
    requires
        one_line(old(out)@),
    ensures
        final(out)@ == old(out)@ + text::decimal(n as nat),
        one_line(final(out)@),
{
    proof {
        text::law_decimal_round_trip(n as nat);
        assert forall|i: int| 0 <= i < text::decimal(n as nat).len() implies #[trigger]
            text::decimal(n as nat)[i] != '\n' by {
            assert(text::is_digit(text::decimal(n as nat)[i]));
        }
    }
    put(out, u64_to_string(n).as_str());
}

fn put_signed(out: &mut String, n: i64)
    requires
        one_line(old(out)@),
    ensures
        final(out)@ == old(out)@ + text::signed(n as int),
        one_line(final(out)@),
{
    proof {
        let size = if n < 0 {
            -(n as int)
        } else {
            n as int
        };
        text::law_decimal_round_trip(size as nat);
        assert forall|i: int| 0 <= i < text::signed(n as int).len() implies #[trigger]
            text::signed(n as int)[i] != '\n' by {
            if n < 0 {
                if i > 0 {
                    assert(text::is_digit(text::decimal(size as nat)[i - 1]));
                }
            } else {
                assert(text::is_digit(text::decimal(size as nat)[i]));
            }
        }
    }
    put(out, i64_to_string(n).as_str());
}

fn put_json(out: &mut String, s: &str)
    requires
        one_line(old(out)@),
    ensures
        final(out)@ == old(out)@ + json_text(s@),
        one_line(final(out)@),
{
    let quoted = json_string(s);
    proof {
        lemma_json_is_one_line(s@);
        let body = json_body(s@);
        assert forall|i: int| 0 <= i < quoted@.len() implies #[trigger] quoted@[i] != '\n' by {
            if 0 < i < quoted@.len() - 1 {
                assert(quoted@[i] == body[i - 1]);
            }
        }
    }
    put(out, quoted.as_str());
}

fn put_flag(out: &mut String, b: bool)
    requires
        one_line(old(out)@),
    ensures
        final(out)@ == old(out)@ + flag_name(b),
        one_line(final(out)@),
{
    proof {
        reveal_strlit("true");
        reveal_strlit("false");
    }
    if b {
        put(out, "true");
    } else {
        put(out, "false");
    }
}

fn put_level(out: &mut String, level: LogLevel)
    requires
        one_line(old(out)@),
    ensures
        final(out)@ == old(out)@ + level_name(level),
        one_line(final(out)@),
{
    proof {
        reveal_strlit("\"trace\"");
        reveal_strlit("\"debug\"");
        reveal_strlit("\"info\"");
        reveal_strlit("\"warning\"");
        reveal_strlit("\"error\"");
        reveal_strlit("\"fatal\"");
    }
    match level {
        LogLevel::Trace => put(out, "\"trace\""),
        LogLevel::Debug => put(out, "\"debug\""),
        LogLevel::Info => put(out, "\"info\""),
        LogLevel::Warning => put(out, "\"warning\""),
        LogLevel::Error => put(out, "\"error\""),
        LogLevel::Fatal => put(out, "\"fatal\""),
    }
}

fn put_kind(out: &mut String, k: kind::ClashCoreKind)
    requires
        one_line(old(out)@),
    ensures
        final(out)@ == old(out)@ + kind::kind_name(k),
        one_line(final(out)@),
{
    proof {
        reveal_strlit("mihomo");
        reveal_strlit("clash-rs");
        reveal_strlit("clash");
        reveal_strlit("meow");
    }
    put(out, k.as_str());
}

fn put_stamp(out: &mut String, stamp: &Option<LogTimestamp>)
    requires
        one_line(old(out)@),
    ensures
        final(out)@ == old(out)@ + stamp_json(frame::stamp_view(*stamp)),
        one_line(final(out)@),
{
    proof {
        reveal_strlit("null");
        reveal_strlit("{\"raw\":");
        reveal_strlit(",\"unix_ms\":");
        reveal_strlit(",\"inferred\":");
        reveal_strlit("}");
    }
    match stamp {
        None => put(out, "null"),
        Some(s) => {
            let ghost before = out@;
            let mut part = String::new();
            put(&mut part, "{\"raw\":");
            assert(part@ =~= "{\"raw\":"@);
            put_json(&mut part, s.raw.as_str());
            put(&mut part, ",\"unix_ms\":");
            match s.unix_ms {
                Some(n) => put_signed(&mut part, n),
                None => put(&mut part, "null"),
            }
            put(&mut part, ",\"inferred\":");
            put_flag(&mut part, s.inferred);
            put(&mut part, "}");
            put(out, part.as_str());
        },
    }
}

fn fields_text(fields: &Vec<LogField>) -> (r: String)
    ensures
        r@ == fields_json(frame::field_views(fields@)),
        one_line(r@),
{
    let ghost all = frame::field_views(fields@);
    let n: usize = fields.len();
    let mut out = String::new();
    let mut i: usize = 0;
    assert(all.take(0) =~= Seq::empty());
    proof {
        reveal_strlit(",");
        reveal_strlit("{\"key\":");
        reveal_strlit(",\"value\":");
        reveal_strlit("}");
    }
    while i < n
        invariant
            n == fields@.len(),
            all == frame::field_views(fields@),
            i <= n,
            out@ == fields_json(all.take(i as int)),
            one_line(out@),
            one_line(","@),
            one_line("{\"key\":"@),
            one_line(",\"value\":"@),
            one_line("}"@),
        decreases n - i,
    {
        proof {
            assert(all.take(i + 1).drop_last() =~= all.take(i as int));
            assert(all.take(i + 1).last() == all[i as int]);
        }
        if i > 0 {
            put(&mut out, ",");
        }
        put(&mut out, "{\"key\":");
        put_json(&mut out, fields[i].key.as_str());
        put(&mut out, ",\"value\":");
        put_json(&mut out, fields[i].value.as_str());
        put(&mut out, "}");
        i += 1;
    }
    assert(all.take(n as int) =~= all);
    out
}

fn frame_text(f: &LogFrame) -> (r: String)
    ensures
        r@ == frame_json(f@),
        one_line(r@),
{
    proof {
        reveal_strlit("{\"t\":\"log\",\"at\":");
        reveal_strlit(",\"epoch\":");
        reveal_strlit(",\"kind\":\"");
        reveal_strlit("\",\"stream\":");
        reveal_strlit("\"stdout\"");
        reveal_strlit("\"stderr\"");
        reveal_strlit(",\"level\":");
        reveal_strlit(",\"timestamp\":");
        reveal_strlit(",\"target\":");
        reveal_strlit("null");
        reveal_strlit(",\"message\":");
        reveal_strlit(",\"fields\":[");
        reveal_strlit("],\"raw\":");
        reveal_strlit(",\"truncated\":");
        reveal_strlit("}");
    }
    let mut out = String::new();
    put(&mut out, "{\"t\":\"log\",\"at\":");
    assert(out@ =~= "{\"t\":\"log\",\"at\":"@);
    put_signed(&mut out, f.at);
    put(&mut out, ",\"epoch\":");
    put_unsigned(&mut out, f.epoch);
    put(&mut out, ",\"kind\":\"");
    put_kind(&mut out, f.kind);
    put(&mut out, "\",\"stream\":");
    match f.stream {
        LogStream::Stdout => put(&mut out, "\"stdout\""),
        LogStream::Stderr => put(&mut out, "\"stderr\""),
    }
    put(&mut out, ",\"level\":");
    put_level(&mut out, f.level);
    put(&mut out, ",\"timestamp\":");
    put_stamp(&mut out, &f.timestamp);
    put(&mut out, ",\"target\":");
    match &f.target {
        Some(target) => put_json(&mut out, target.as_str()),
        None => put(&mut out, "null"),
    }
    put(&mut out, ",\"message\":");
    put_json(&mut out, f.message.as_str());
    put(&mut out, ",\"fields\":[");
    put(&mut out, fields_text(&f.fields).as_str());
    put(&mut out, "],\"raw\":");
    put_json(&mut out, f.raw.as_str());
    put(&mut out, ",\"truncated\":");
    put_flag(&mut out, f.truncated);
    put(&mut out, "}");
    out
}

/// An entry as a line of the archive: whatever a core printed, it is one line.
pub fn encode_entry(entry: &Entry, now_ms: i64) -> (r: String)
    ensures
        r@ == entry_json(*entry, now_ms).push('\n'),
        one_line(r@.drop_last()),
{
    let mut out = match entry {
        Entry::Log(f) => frame_text(f),
        Entry::Gap(dropped) => {
            proof {
                reveal_strlit("{\"t\":\"gap\",\"at\":");
                reveal_strlit(",\"dropped\":");
                reveal_strlit("}");
            }
            let mut gap = String::new();
            put(&mut gap, "{\"t\":\"gap\",\"at\":");
            assert(gap@ =~= "{\"t\":\"gap\",\"at\":"@);
            put_signed(&mut gap, now_ms);
            put(&mut gap, ",\"dropped\":");
            put_unsigned(&mut gap, *dropped);
            put(&mut gap, "}");
            gap
        },
    };
    out.push('\n');
    assert(out@.drop_last() =~= entry_json(*entry, now_ms));
    out
}

/// A gap never looks like a record.
pub proof fn law_gaps_and_records_differ(f: frame::FrameView, at: i64, dropped: u64)
    ensures
        frame_json(f) != gap_json(at, dropped),
{
    reveal_strlit("{\"t\":\"log\",\"at\":");
    reveal_strlit("{\"t\":\"gap\",\"at\":");
    assert(frame_json(f)[6] == 'l');
    assert(gap_json(at, dropped)[6] == 'g');
}

// ---------------------------------------------------------------------------
// Collecting
// ---------------------------------------------------------------------------

/// What comes out of the stream of records.
#[derive(Debug)]
pub enum Received {
    Frame(Arc<LogFrame>),
    Lagged(u64),
    /// Nothing is there at the moment.
    Empty,
    /// Nothing will come any more.
    Closed,
}

/// What is added to a batch.
pub open spec fn entry_of(received: Received) -> Seq<Entry> {
    match received {
        Received::Frame(f) => seq![Entry::Log(f)],
        Received::Lagged(n) => seq![Entry::Gap(n)],
        _ => seq![],
    }
}

/// Takes in what was received; says whether the stream is closed.
pub fn push_received(received: Received, batch: &mut Vec<Entry>) -> (r: bool)
    ensures
        final(batch)@ == old(batch)@ + entry_of(received),
        r == (received is Closed),
{
    let ghost before = batch@;
    match received {
        Received::Frame(f) => {
            batch.push(Entry::Log(f));
            assert(batch@ =~= before + seq![Entry::Log(f)]);
            false
        },
        Received::Lagged(n) => {
            batch.push(Entry::Gap(n));
            assert(batch@ =~= before + seq![Entry::Gap(n)]);
            false
        },
        Received::Empty => {
            assert(batch@ =~= before + Seq::empty());
            false
        },
        Received::Closed => {
            assert(batch@ =~= before + Seq::empty());
            true
        },
    }
}

/// Whether more is collected before the batch is written.
pub fn wants_more(batch: &Vec<Entry>) -> (r: bool)
    ensures
        r == (batch@.len() < MAX_BATCH_RECORDS),
{
    batch.len() < MAX_BATCH_RECORDS
}

/// What follows the writing of a batch while the archive is shut down.
#[derive(Debug, Clone, Copy, PartialEq, Eq, Structural)]
pub enum DrainStep {
    Again,
    Stop,
}

/// The archive is drained until a batch is not full, or the stream is closed, or
/// a batch could not be written.
pub fn after_batch(batch: &Vec<Entry>, closed: bool, written: bool) -> (r: DrainStep)
    ensures
        r is Again <==> batch@.len() > 0 && written && !closed && batch@.len()
            >= MAX_BATCH_RECORDS,
{
    if batch.len() == 0 || !written || closed || batch.len() < MAX_BATCH_RECORDS {
        DrainStep::Stop
    } else {
        DrainStep::Again
    }
}

// ---------------------------------------------------------------------------
// Rotation
// ---------------------------------------------------------------------------

#[derive(Debug, Clone, Copy, PartialEq, Eq, Structural)]
pub struct SinkOptions {
    pub max_bytes: u64,
    pub max_files: usize,
}

/// The active file: its index, what it holds, and what waits to be written to it.
#[derive(Debug, Clone, Copy, PartialEq, Eq, Structural)]
pub struct Writer {
    pub options: SinkOptions,
    pub index: u64,
    pub bytes: u64,
    pub pending: u64,
}

/// What is done with a record.
#[derive(Debug, Clone, Copy, PartialEq, Eq, Structural)]
pub enum RecordStep {
    /// Let it wait with the others.
    Append,
    /// Write what waits, begin the next file, and let it wait for that.
    Rotate,
}

/// The index of the file after this one.
pub open spec fn next_file(index: u64) -> u64 {
    if index == u64::MAX {
        index
    } else {
        (index + 1) as u64
    }
}

/// A record would make the file too large, and is not the first one in it.
pub open spec fn overfull(w: Writer, size: int) -> bool {
    w.bytes + w.pending > 0 && w.bytes + w.pending + size > w.options.max_bytes
}

/// What a record of the given size makes of the active file.
pub open spec fn accepted(w: Writer, size: u64) -> (Writer, RecordStep) {
    if overfull(w, size as int) {
        (
            Writer { index: next_file(w.index), bytes: 0, pending: size, ..w },
            RecordStep::Rotate,
        )
    } else {
        (Writer { pending: (w.pending + size) as u64, ..w }, RecordStep::Append)
    }
}

impl Writer {
    pub fn open(options: SinkOptions, index: u64) -> (r: Writer)
        ensures
            r == (Writer { options, index, bytes: 0, pending: 0 }),
    {
        Writer { options, index, bytes: 0, pending: 0 }
    }

    /// Takes in a record.
    pub fn accept(&mut self, size: u64) -> (r: RecordStep)
        requires
            old(self).bytes + old(self).pending + size <= u64::MAX,
        ensures
            (*final(self), r) == accepted(*old(self), size),
    {
        let held: u64 = self.bytes + self.pending;
        if held > 0 && held + size > self.options.max_bytes {
            self.index = self.index.saturating_add(1);
            self.bytes = 0;
            self.pending = size;
            RecordStep::Rotate
        } else {
            self.pending = self.pending + size;
            RecordStep::Append
        }
    }

    /// What waited was written.
    pub fn flushed(&mut self)
        requires
            old(self).bytes + old(self).pending <= u64::MAX,
        ensures
            *final(self) == (Writer {
                bytes: (old(self).bytes + old(self).pending) as u64,
                pending: 0,
                ..*old(self)
            }),
    {
        self.bytes = self.bytes + self.pending;
        self.pending = 0;
    }
}

/// A file holds no more than it may, unless it holds a single record.
pub open spec fn within_budget(w: Writer, last: u64) -> bool {
    w.bytes + w.pending <= w.options.max_bytes || w.bytes + w.pending == last
}

/// What all the records of a run make of the active file.
pub open spec fn accepted_all(w: Writer, sizes: Seq<u64>) -> Writer
    decreases sizes.len(),
{
    if sizes.len() == 0 {
        w
    } else {
        accepted(accepted_all(w, sizes.drop_last()), sizes.last()).0
    }
}

/// Whatever is archived, no file grows beyond its budget, but for one that holds a
/// single record.
pub proof fn law_files_stay_within_their_budget(w: Writer, sizes: Seq<u64>)
    requires
        w.bytes == 0,
        w.pending == 0,
        sizes.len() > 0,
        forall|i: int|
            #![trigger sizes[i]]
            0 <= i < sizes.len() ==> w.options.max_bytes + sizes[i] <= u64::MAX,
    ensures
        accepted_all(w, sizes).options == w.options,
        within_budget(accepted_all(w, sizes), sizes.last()),
    decreases sizes.len(),
{
    let rest = sizes.drop_last();
    assert(sizes[sizes.len() - 1] == sizes.last());
    if rest.len() > 0 {
        assert forall|i: int|
            #![trigger rest[i]]
            0 <= i < rest.len() implies w.options.max_bytes + rest[i] <= u64::MAX by {
            assert(rest[i] == sizes[i]);
        }
        law_files_stay_within_their_budget(w, rest);
    } else {
        assert(accepted_all(w, rest) == w);
    }
}

// ---------------------------------------------------------------------------
// Files
// ---------------------------------------------------------------------------

/// Zeros to put before a number of `len` digits so that it has six.
pub open spec fn zeros(len: nat) -> Seq<char>
    decreases 6 - len,
{
    if len >= 6 {
        seq![]
    } else {
        zeros(len + 1).push('0')
    }
}

/// The name of a file of the archive.
pub open spec fn archive_name(index: u64) -> Seq<char> {
    "core-"@ + (zeros(text::decimal(index as nat).len()) + text::decimal(index as nat))
        + ".jsonl"@
}

/// The index of a file of the archive.
pub open spec fn archive_index(name: Seq<char>) -> Option<u64> {
    match text::after_prefix(name, "core-"@) {
        None => None,
        Some(rest) => match text::before_suffix(rest, ".jsonl"@) {
            None => None,
            Some(digits) => match text::unsigned_value(digits, u64::MAX as nat) {
                Some(n) => Some(n as u64),
                None => None,
            },
        },
    }
}

pub fn parse_index(name: &str) -> (r: Option<u64>)
    ensures
        r == archive_index(name@),
{
    match strip_prefix(name, "core-") {
        None => None,
        Some(rest) => match strip_suffix(rest.as_str(), ".jsonl") {
            None => None,
            Some(digits) => parse_u64(digits.as_str()),
        },
    }
}

fn pad(len: usize) -> (r: String)
    ensures
        r@ == zeros(len as nat),
    decreases 6 - len,
{
    if len >= 6 {
        String::new()
    } else {
        let mut out = pad(len + 1);
        out.push('0');
        out
    }
}

pub fn file_name(index: u64) -> (r: String)
    ensures
        r@ == archive_name(index),
{
    let digits = u64_to_string(index);
    let len: usize = digits.as_str().unicode_len();
    let mut number = pad(len);
    number.append(digits.as_str());
    let mut out = "core-".to_owned();
    out.append(number.as_str());
    out.append(".jsonl");
    out
}

/// Where a file of the archive lies.
pub fn file_path(dir: &str, index: u64) -> (r: String)
    ensures
        path::joins(dir@, archive_name(index), r@),
{
    join(dir, file_name(index).as_str())
}

/// Where the archive lies.
pub fn log_dir(parent: &str) -> (r: String)
    ensures
        path::joins(parent@, LOG_DIR_NAME@, r@),
{
    join(parent, LOG_DIR_NAME)
}

/// The directory of the archive, where its path is a text.
pub fn canonical_dir(canonical: Option<String>) -> (r: Result<String, Error>)
    ensures
        match canonical {
            Some(dir) => r == Ok::<String, Error>(dir),
            None => r matches Err(Error::InvalidManagerOptions(m)) && m@
                == "core log directory is not UTF-8"@,
        },
{
    match canonical {
        Some(dir) => Ok(dir),
        None => Err(Error::InvalidManagerOptions("core log directory is not UTF-8".to_owned())),
    }
}

proof fn lemma_zeros(len: nat, d: Seq<char>)
    requires
        text::all_digits(d),
    ensures
        text::all_digits(zeros(len) + d),
        text::decimal_value(zeros(len) + d) == text::decimal_value(d),
        zeros(len).len() == (if len >= 6 {
            0
        } else {
            6 - len
        }),
    decreases 6 - len, d.len(),
{
    if d.len() > 0 {
        let init = d.drop_last();
        assert forall|i: int| 0 <= i < init.len() implies text::is_digit(#[trigger] init[i]) by {
            assert(init[i] == d[i]);
        }
        lemma_zeros(len, init);
        let all = zeros(len) + d;
        assert(all.drop_last() =~= zeros(len) + init);
        assert(all.last() == d.last());
        assert forall|i: int| 0 <= i < all.len() implies text::is_digit(#[trigger] all[i]) by {
            if i < all.len() - 1 {
                assert(all[i] == (zeros(len) + init)[i]);
            } else {
                assert(text::is_digit(d[d.len() - 1]));
            }
        }
    } else {
        assert(zeros(len) + d =~= zeros(len));
        if len < 6 {
            lemma_zeros(len + 1, d);
            assert(zeros(len + 1) + d =~= zeros(len + 1));
            assert(zeros(len).drop_last() =~= zeros(len + 1));
            assert(text::digit_value('0') == 0);
        }
    }
}

/// The name of a file of the archive tells its index.
pub proof fn law_archive_names_tell_their_index(index: u64)
    ensures
        archive_index(archive_name(index)) == Some(index),
{
    reveal_strlit("core-");
    reveal_strlit(".jsonl");
    let d = text::decimal(index as nat);
    text::law_decimal_round_trip(index as nat);
    let number = zeros(d.len()) + d;
    lemma_zeros(d.len(), d);
    assert(text::is_digit(number[0]));
    let s = archive_name(index);
    assert(s.subrange(0, 5) =~= "core-"@);
    let rest = s.subrange(5, s.len() as int);
    assert(rest =~= number + ".jsonl"@);
    assert(rest.subrange(rest.len() - 6, rest.len() as int) =~= ".jsonl"@);
    assert(rest.subrange(0, rest.len() - 6) =~= number);
}

pub open spec fn ordered(files: Seq<(u64, String)>) -> bool {
    forall|i: int, j: int| 0 <= i < j < files.len() ==> files[i].0 <= files[j].0
}

/// Adds a file to the files of the archive, behind those with the same index.
pub fn add_file(files: &mut Vec<(u64, String)>, index: u64, path: String)
    requires
        ordered(old(files)@),
    ensures
        ordered(final(files)@),
        exists|at: int|
            0 <= at <= old(files)@.len() && #[trigger] old(files)@.insert(at, (index, path))
                == final(files)@ && (forall|j: int| 0 <= j < at ==> old(files)@[j].0 <= index) && (
            forall|j: int| at <= j < old(files)@.len() ==> old(files)@[j].0 > index),
{
    let ghost before = files@;
    let n: usize = files.len();
    let mut at: usize = n;
    while at > 0 && files[at - 1].0 > index
        invariant
            n == files@.len(),
            files@ == before,
            at <= n,
            forall|j: int| at <= j < n ==> before[j].0 > index,
        decreases at,
    {
        at -= 1;
    }
    proof {
        assert forall|j: int| 0 <= j < at implies before[j].0 <= index by {
            if j < at - 1 {
                assert(before[j].0 <= before[at - 1].0);
            }
        }
    }
    files.insert(at, (index, path));
    proof {
        let after = files@;
        assert(after == before.insert(at as int, (index, path)));
        assert forall|i: int, j: int| 0 <= i < j < after.len() implies after[i].0
            <= after[j].0 by {
            let pi = if i < at {
                i
            } else {
                i - 1
            };
            let pj = if j < at {
                j
            } else {
                j - 1
            };
            if i != at && j != at {
                assert(before[pi].0 <= before[pj].0);
            }
        }
    }
}

/// The index of the file that is opened next.
pub fn next_index(files: &Vec<(u64, String)>) -> (r: u64)
    ensures
        r == (if files@.len() == 0 {
            1
        } else {
            next_file(files@.last().0)
        }),
{
    let n: usize = files.len();
    if n == 0 {
        1
    } else {
        files[n - 1].0.saturating_add(1)
    }
}

/// The first files that are too many, but for the active one: `active[i]` says whether
/// file `i` is that.
pub open spec fn pruned(files: Seq<(u64, String)>, active: Seq<bool>, count: int) -> Seq<Seq<char>>
    decreases count,
{
    if count <= 0 {
        seq![]
    } else {
        let before = pruned(files, active, count - 1);
        if active[count - 1] {
            before
        } else {
            before.push(files[count - 1].1@)
        }
    }
}

/// How many files are too many.
pub open spec fn surplus(files: Seq<(u64, String)>, max_files: usize) -> int {
    if files.len() > max_files {
        files.len() - max_files
    } else {
        0
    }
}

/// What is known of which files are the one at the given path.
pub open spec fn marked(files: Seq<(u64, String)>, path: Seq<char>, active: Seq<bool>) -> bool {
    active.len() == files.len() && forall|i: int|
        0 <= i < files.len() ==> path::sameness((#[trigger] files[i]).1@, path, active[i])
}

/// The files that are removed so that no more than `max_files` are left: the oldest
/// ones, but never those that are marked as active.
pub fn prune_marked(files: &Vec<(u64, String)>, active: &Vec<bool>, max_files: usize) -> (r: Vec<
    String,
>)
    requires
        active@.len() == files@.len(),
    ensures
        text::strings(r@) == pruned(files@, active@, surplus(files@, max_files)),
{
    let mut out: Vec<String> = Vec::new();
    let n: usize = files.len();
    let mut i: usize = 0;
    assert(text::strings(out@) =~= Seq::empty());
    while i < n && n - i > max_files
        invariant
            n == files@.len(),
            n == active@.len(),
            i <= n,
            i <= surplus(files@, max_files),
            text::strings(out@) == pruned(files@, active@, i as int),
        decreases n - i,
    {
        let ghost before = out@;
        if !active[i] {
            out.push(files[i].1.clone());
            assert(text::strings(out@) =~= text::strings(before).push(files@[i as int].1@));
        }
        i += 1;
    }
    out
}

/// The files that are removed so that no more than `max_files` are left: the
/// oldest ones, but never the active one.
pub fn prune(files: &Vec<(u64, String)>, active: &str, max_files: usize) -> (r: Vec<String>)
    ensures
        exists|marks: Seq<bool>|
            #[trigger] marked(files@, active@, marks) && text::strings(r@) == pruned(
                files@,
                marks,
                surplus(files@, max_files),
            ),
{
    let mut marks: Vec<bool> = Vec::new();
    let n: usize = files.len();
    let mut i: usize = 0;
    while i < n
        invariant
            n == files@.len(),
            i <= n,
            marks@.len() == i,
            forall|j: int|
                0 <= j < i ==> path::sameness((#[trigger] files@[j]).1@, active@, marks@[j]),
        decreases n - i,
    {
        marks.push(same_path(files[i].1.as_str(), active));
        i += 1;
    }
    assert(marked(files@, active@, marks@));
    prune_marked(files, &marks, max_files)
}

/// Whether a file that could not be removed stops the archive.
pub fn removal_result(removed: Result<(), IoError>) -> (r: Result<(), IoError>)
    ensures
        match removed {
            Ok(()) => r is Ok,
            Err(e) => if e.kind is NotFound {
                r is Ok
            } else {
                r == Err::<(), IoError>(e)
            },
        },
{
    match removed {
        Ok(()) => Ok(()),
        Err(e) => {
            if matches!(e.kind, crate::io::error::IoKind::NotFound) {
                Ok(())
            } else {
                Err(e)
            }
        },
    }
}

/// The active file is never among the files that are removed, and once they are
/// gone no more than the allowed number is left, the active file aside.
pub proof fn law_pruning_keeps_the_active_file(
    files: Seq<(u64, String)>,
    path: Seq<char>,
    active: Seq<bool>,
    max_files: usize,
)
    requires
        marked(files, path, active),
    ensures
        !pruned(files, active, surplus(files, max_files)).contains(path),
        files.len() - pruned(files, active, surplus(files, max_files)).len() <= max_files
            + occurrences(active, surplus(files, max_files)),
{
    lemma_pruned(files, path, active, surplus(files, max_files));
}

/// How many of the first files are the active one.
pub open spec fn occurrences(active: Seq<bool>, count: int) -> int
    decreases count,
{
    if count <= 0 {
        0
    } else {
        occurrences(active, count - 1) + (if active[count - 1] {
            1int
        } else {
            0int
        })
    }
}

proof fn lemma_pruned(files: Seq<(u64, String)>, path: Seq<char>, active: Seq<bool>, count: int)
    requires
        0 <= count <= files.len(),
        marked(files, path, active),
    ensures
        !pruned(files, active, count).contains(path),
        pruned(files, active, count).len() == count - occurrences(active, count),
    decreases count,
{
    if count > 0 {
        lemma_pruned(files, path, active, count - 1);
        let before = pruned(files, active, count - 1);
        let after = pruned(files, active, count);
        assert(path::sameness(files[count - 1].1@, path, active[count - 1]));
        if after.contains(path) {
            let k = choose|k: int| 0 <= k < after.len() && after[k] == path;
            if k < before.len() {
                assert(before[k] == path);
            }
        }
    }
}

/// Different texts are different in the archive.
pub proof fn law_archived_texts_are_told_apart(a: Seq<char>, b: Seq<char>)
    requires
        json_text(a) == json_text(b),
    ensures
        a == b,
{
    assert(json_body(a) =~= json_text(a).subrange(1, json_text(a).len() - 1));
    assert(json_body(b) =~= json_text(b).subrange(1, json_text(b).len() - 1));
    lemma_json_body_is_injective(a, b);
}

proof fn lemma_json_body_is_injective(a: Seq<char>, b: Seq<char>)
    requires
        json_body(a) == json_body(b),
    ensures
        a == b,
    decreases a.len(),
{
    if a.len() == 0 || b.len() == 0 {
        assert(a.len() > 0 ==> json_body(a).len() >= json_char(a[0]).len());
        assert(b.len() > 0 ==> json_body(b).len() >= json_char(b[0]).len());
        assert(a =~= b);
    } else {
        let body = json_body(a);
        let x = json_char(a[0]);
        let y = json_char(b[0]);
        let xs = json_body(a.drop_first());
        let ys = json_body(b.drop_first());
        assert(body == x + xs && body == y + ys);
        assert forall|i: int| 0 <= i < x.len() implies x[i] == #[trigger] body[i] by {}
        assert forall|i: int| 0 <= i < y.len() implies y[i] == #[trigger] body[i] by {}
        assert(a[0] == b[0]) by {
            if (a[0] as int) < 32 {
                lemma_control_digits(a[0]);
            }
            if (b[0] as int) < 32 {
                lemma_control_digits(b[0]);
            }
            assert(x[0] == body[0] && y[0] == body[0]);
            if x[0] == '\\' {
                assert(x[1] == body[1] && y[1] == body[1]);
                if x[1] == 'u' {
                    assert(x[4] == body[4] && y[4] == body[4]);
                    assert(x[5] == body[5] && y[5] == body[5]);
                }
            }
        }
        assert(xs =~= body.skip(x.len() as int));
        assert(ys =~= body.skip(y.len() as int));
        lemma_json_body_is_injective(a.drop_first(), b.drop_first());
        assert(a =~= seq![a[0]] + a.drop_first());
        assert(b =~= seq![b[0]] + b.drop_first());
    }
}

// ---------------------------------------------------------------------------
// Laws of rotation
// ---------------------------------------------------------------------------

/// A record that still fits into the active file goes into it, and so does the first
/// record of a file, whatever its size. Only a record that would make a file too large
/// that holds something begins the next file, in which it is the first one.
pub proof fn law_records_that_fit_are_appended(w: Writer, size: u64)
    requires
        w.bytes + w.pending + size <= u64::MAX,
    ensures
        w.bytes + w.pending + size <= w.options.max_bytes || w.bytes + w.pending == 0 ==> accepted(
            w,
            size,
        ).1 is Append && accepted(w, size).0.index == w.index && accepted(w, size).0.bytes
            == w.bytes && accepted(w, size).0.pending == w.pending + size,
        w.bytes + w.pending > 0 && w.bytes + w.pending + size > w.options.max_bytes ==> accepted(
            w,
            size,
        ).1 is Rotate && accepted(w, size).0.bytes == 0 && accepted(w, size).0.pending == size
            && (w.index < u64::MAX ==> accepted(w, size).0.index == w.index + 1),
        accepted(w, size).0.options == w.options,
{
}

/// How many bytes some records take.
pub open spec fn total(sizes: Seq<u64>) -> int
    decreases sizes.len(),
{
    if sizes.len() == 0 {
        0
    } else {
        total(sizes.drop_last()) + sizes.last()
    }
}

pub proof fn lemma_total(sizes: Seq<u64>)
    ensures
        total(sizes) >= 0,
    decreases sizes.len(),
{
    if sizes.len() > 0 {
        lemma_total(sizes.drop_last());
    }
}

/// Records that fit into the active file together all go into it, and nothing of them
/// is lost on the way.
pub proof fn law_runs_that_fit_share_a_file(w: Writer, sizes: Seq<u64>)
    requires
        w.bytes + w.pending + total(sizes) <= w.options.max_bytes,
    ensures
        accepted_all(w, sizes).index == w.index,
        accepted_all(w, sizes).bytes == w.bytes,
        accepted_all(w, sizes).pending == w.pending + total(sizes),
        accepted_all(w, sizes).options == w.options,
    decreases sizes.len(),
{
    if sizes.len() > 0 {
        lemma_total(sizes.drop_last());
        law_runs_that_fit_share_a_file(w, sizes.drop_last());
    }
}

/// The files that are removed are the oldest ones: whichever of the first files is not
/// the active one, in order, and none of the last `max_files`.
pub proof fn law_pruning_removes_the_oldest(
    files: Seq<(u64, String)>,
    active: Seq<bool>,
    max_files: usize,
    i: int,
)
    requires
        active.len() == files.len(),
        0 <= i < files.len(),
    ensures
        i + max_files < files.len() && !active[i] ==> pruned(
            files,
            active,
            surplus(files, max_files),
        ).contains(files[i].1@),
        files.len() <= max_files ==> pruned(files, active, surplus(files, max_files)).len() == 0,
        pruned(files, active, surplus(files, max_files)).len() + max_files <= files.len() || pruned(
            files,
            active,
            surplus(files, max_files),
        ).len() == 0,
{
    lemma_pruned_holds(files, active, surplus(files, max_files), i);
}

proof fn lemma_pruned_holds(files: Seq<(u64, String)>, active: Seq<bool>, count: int, i: int)
    requires
        0 <= count <= files.len(),
        active.len() == files.len(),
    ensures
        0 <= i < count && !active[i] ==> pruned(files, active, count).contains(files[i].1@),
        pruned(files, active, count).len() <= count,
    decreases count,
{
    if count > 0 {
        lemma_pruned_holds(files, active, count - 1, i);
        let before = pruned(files, active, count - 1);
        let after = pruned(files, active, count);
        if 0 <= i < count && !active[i] {
            if i == count - 1 {
                assert(after[after.len() - 1] == files[i].1@);
            } else {
                let k = choose|k: int| 0 <= k < before.len() && before[k] == files[i].1@;
                assert(after[k] == files[i].1@);
            }
        }
    }
}

/// A record that was received is archived as it is, records that were lost leave a gap
/// of their number, and nothing else is archived.
pub proof fn law_what_is_received_is_archived(received: Received)
    ensures
        received matches Received::Frame(f) ==> entry_of(received) == seq![Entry::Log(f)],
        received matches Received::Lagged(n) ==> entry_of(received) == seq![Entry::Gap(n)],
        !(received is Frame) && !(received is Lagged) ==> entry_of(received).len() == 0,
{
}

proof fn lemma_same_end(a: Seq<char>, b: Seq<char>, after: Seq<char>)
    requires
        a + after == b + after,
    ensures
        a == b,
{
    let s = a + after;
    let t = b + after;
    assert(s.len() == a.len() + after.len());
    assert(t.len() == b.len() + after.len());
    assert forall|i: int| 0 <= i < a.len() implies a[i] == b[i] by {
        assert(s[i] == a[i]);
        assert(t[i] == b[i]);
    }
    assert(a =~= b);
}

proof fn lemma_same_beginning(before: Seq<char>, a: Seq<char>, b: Seq<char>)
    requires
        before + a == before + b,
    ensures
        a == b,
{
    let s = before + a;
    let t = before + b;
    let n = before.len() as int;
    assert(s.len() == n + a.len());
    assert(t.len() == n + b.len());
    assert forall|i: int| 0 <= i < a.len() implies a[i] == b[i] by {
        assert(s[n + i] == a[i]);
        assert(t[n + i] == b[i]);
    }
    assert(a =~= b);
}

/// The level of a record is told in the archive.
pub proof fn law_archived_levels_are_told_apart(a: LogLevel, b: LogLevel)
    ensures
        level_name(a) == level_name(b) ==> a == b,
{
    reveal_strlit("\"trace\"");
    reveal_strlit("\"debug\"");
    reveal_strlit("\"info\"");
    reveal_strlit("\"warning\"");
    reveal_strlit("\"error\"");
    reveal_strlit("\"fatal\"");
    assert("\"trace\""@[1] == 't');
    assert("\"debug\""@[1] == 'd');
    assert("\"info\""@[1] == 'i');
    assert("\"warning\""@[1] == 'w');
    assert("\"error\""@[1] == 'e');
    assert("\"fatal\""@[1] == 'f');
}

proof fn lemma_streams_differ(a: LogStream, b: LogStream)
    requires
        stream_name(a) == stream_name(b),
    ensures
        a == b,
{
    reveal_strlit("\"stdout\"");
    reveal_strlit("\"stderr\"");
    assert("\"stdout\""@[4] == 'o');
    assert("\"stderr\""@[4] == 'e');
}

proof fn lemma_flags_differ(a: bool, b: bool)
    requires
        flag_name(a) == flag_name(b),
    ensures
        a == b,
{
    reveal_strlit("true");
    reveal_strlit("false");
    assert("true"@.len() == 4);
    assert("false"@.len() == 5);
}

proof fn lemma_texts_or_null_differ(a: Option<Seq<char>>, b: Option<Seq<char>>)
    requires
        text_or_null(a) == text_or_null(b),
    ensures
        a == b,
{
    reveal_strlit("null");
    assert("null"@[0] == 'n');
    if a is Some {
        assert(json_text(a->0)[0] == '"');
    }
    if b is Some {
        assert(json_text(b->0)[0] == '"');
    }
    if a is Some && b is Some {
        law_archived_texts_are_told_apart(a->0, b->0);
    }
}

/// The beginning of an archived record, up to its `at`.
spec fn up_to_at(f: frame::FrameView) -> Seq<char> {
    "{\"t\":\"log\",\"at\":"@ + text::signed(f.at as int)
}

/// The beginning of an archived record, up to its `epoch`.
spec fn up_to_epoch(f: frame::FrameView) -> Seq<char> {
    up_to_at(f) + ",\"epoch\":"@ + text::decimal(f.epoch as nat)
}

/// The beginning of an archived record, up to its `kind`.
spec fn up_to_kind(f: frame::FrameView) -> Seq<char> {
    up_to_epoch(f) + ",\"kind\":\""@ + kind::kind_name(f.kind)
}

/// The beginning of an archived record, up to its `stream`.
spec fn up_to_stream(f: frame::FrameView) -> Seq<char> {
    up_to_kind(f) + "\",\"stream\":"@ + stream_name(f.stream)
}

/// The beginning of an archived record, up to its `level`.
spec fn up_to_level(f: frame::FrameView) -> Seq<char> {
    up_to_stream(f) + ",\"level\":"@ + level_name(f.level)
}

/// The beginning of an archived record, up to its `timestamp`.
spec fn up_to_timestamp(f: frame::FrameView) -> Seq<char> {
    up_to_level(f) + ",\"timestamp\":"@ + stamp_json(f.timestamp)
}

/// The beginning of an archived record, up to its `target`.
spec fn up_to_target(f: frame::FrameView) -> Seq<char> {
    up_to_timestamp(f) + ",\"target\":"@ + text_or_null(f.target)
}

/// The beginning of an archived record, up to its `message`.
spec fn up_to_message(f: frame::FrameView) -> Seq<char> {
    up_to_target(f) + ",\"message\":"@ + json_text(f.message)
}

/// The beginning of an archived record, up to its `fields`.
spec fn up_to_fields(f: frame::FrameView) -> Seq<char> {
    up_to_message(f) + ",\"fields\":["@ + fields_json(f.fields)
}

/// The beginning of an archived record, up to its `raw`.
spec fn up_to_raw(f: frame::FrameView) -> Seq<char> {
    up_to_fields(f) + "],\"raw\":"@ + json_text(f.raw)
}

/// The beginning of an archived record, up to its `truncated`.
spec fn up_to_truncated(f: frame::FrameView) -> Seq<char> {
    up_to_raw(f) + ",\"truncated\":"@ + flag_name(f.truncated)
}

proof fn lemma_parts(f: frame::FrameView)
    ensures
        frame_json(f) == up_to_truncated(f) + "}"@,
{
}

proof fn lemma_epochs_are_archived(a: frame::FrameView, b: frame::FrameView)
    requires
        frame_json(a) == frame_json(b),
        a.at == b.at,
        a.kind == b.kind,
        a.stream == b.stream,
        a.level == b.level,
        a.timestamp == b.timestamp,
        a.target == b.target,
        a.message == b.message,
        a.fields == b.fields,
        a.raw == b.raw,
        a.truncated == b.truncated,
    ensures
        a.epoch == b.epoch,
{
    lemma_parts(a);
    lemma_parts(b);
    lemma_same_end(up_to_truncated(a), up_to_truncated(b), "}"@);
    lemma_same_end(up_to_raw(a) + ",\"truncated\":"@, up_to_raw(b) + ",\"truncated\":"@, flag_name(a.truncated));
    lemma_same_end(up_to_raw(a), up_to_raw(b), ",\"truncated\":"@);
    lemma_same_end(up_to_fields(a) + "],\"raw\":"@, up_to_fields(b) + "],\"raw\":"@, json_text(a.raw));
    lemma_same_end(up_to_fields(a), up_to_fields(b), "],\"raw\":"@);
    lemma_same_end(up_to_message(a) + ",\"fields\":["@, up_to_message(b) + ",\"fields\":["@, fields_json(a.fields));
    lemma_same_end(up_to_message(a), up_to_message(b), ",\"fields\":["@);
    lemma_same_end(up_to_target(a) + ",\"message\":"@, up_to_target(b) + ",\"message\":"@, json_text(a.message));
    lemma_same_end(up_to_target(a), up_to_target(b), ",\"message\":"@);
    lemma_same_end(up_to_timestamp(a) + ",\"target\":"@, up_to_timestamp(b) + ",\"target\":"@, text_or_null(a.target));
    lemma_same_end(up_to_timestamp(a), up_to_timestamp(b), ",\"target\":"@);
    lemma_same_end(up_to_level(a) + ",\"timestamp\":"@, up_to_level(b) + ",\"timestamp\":"@, stamp_json(a.timestamp));
    lemma_same_end(up_to_level(a), up_to_level(b), ",\"timestamp\":"@);
    lemma_same_end(up_to_stream(a) + ",\"level\":"@, up_to_stream(b) + ",\"level\":"@, level_name(a.level));
    lemma_same_end(up_to_stream(a), up_to_stream(b), ",\"level\":"@);
    lemma_same_end(up_to_kind(a) + "\",\"stream\":"@, up_to_kind(b) + "\",\"stream\":"@, stream_name(a.stream));
    lemma_same_end(up_to_kind(a), up_to_kind(b), "\",\"stream\":"@);
    lemma_same_end(up_to_epoch(a) + ",\"kind\":\""@, up_to_epoch(b) + ",\"kind\":\""@, kind::kind_name(a.kind));
    lemma_same_end(up_to_epoch(a), up_to_epoch(b), ",\"kind\":\""@);
    lemma_same_beginning(up_to_at(a) + ",\"epoch\":"@, text::decimal(a.epoch as nat), text::decimal(b.epoch as nat));
    text::law_decimal_round_trip(a.epoch as nat);
    text::law_decimal_round_trip(b.epoch as nat);
}

proof fn lemma_kinds_are_archived(a: frame::FrameView, b: frame::FrameView)
    requires
        frame_json(a) == frame_json(b),
        a.at == b.at,
        a.epoch == b.epoch,
        a.stream == b.stream,
        a.level == b.level,
        a.timestamp == b.timestamp,
        a.target == b.target,
        a.message == b.message,
        a.fields == b.fields,
        a.raw == b.raw,
        a.truncated == b.truncated,
    ensures
        a.kind == b.kind,
{
    lemma_parts(a);
    lemma_parts(b);
    lemma_same_end(up_to_truncated(a), up_to_truncated(b), "}"@);
    lemma_same_end(up_to_raw(a) + ",\"truncated\":"@, up_to_raw(b) + ",\"truncated\":"@, flag_name(a.truncated));
    lemma_same_end(up_to_raw(a), up_to_raw(b), ",\"truncated\":"@);
    lemma_same_end(up_to_fields(a) + "],\"raw\":"@, up_to_fields(b) + "],\"raw\":"@, json_text(a.raw));
    lemma_same_end(up_to_fields(a), up_to_fields(b), "],\"raw\":"@);
    lemma_same_end(up_to_message(a) + ",\"fields\":["@, up_to_message(b) + ",\"fields\":["@, fields_json(a.fields));
    lemma_same_end(up_to_message(a), up_to_message(b), ",\"fields\":["@);
    lemma_same_end(up_to_target(a) + ",\"message\":"@, up_to_target(b) + ",\"message\":"@, json_text(a.message));
    lemma_same_end(up_to_target(a), up_to_target(b), ",\"message\":"@);
    lemma_same_end(up_to_timestamp(a) + ",\"target\":"@, up_to_timestamp(b) + ",\"target\":"@, text_or_null(a.target));
    lemma_same_end(up_to_timestamp(a), up_to_timestamp(b), ",\"target\":"@);
    lemma_same_end(up_to_level(a) + ",\"timestamp\":"@, up_to_level(b) + ",\"timestamp\":"@, stamp_json(a.timestamp));
    lemma_same_end(up_to_level(a), up_to_level(b), ",\"timestamp\":"@);
    lemma_same_end(up_to_stream(a) + ",\"level\":"@, up_to_stream(b) + ",\"level\":"@, level_name(a.level));
    lemma_same_end(up_to_stream(a), up_to_stream(b), ",\"level\":"@);
    lemma_same_end(up_to_kind(a) + "\",\"stream\":"@, up_to_kind(b) + "\",\"stream\":"@, stream_name(a.stream));
    lemma_same_end(up_to_kind(a), up_to_kind(b), "\",\"stream\":"@);
    lemma_same_beginning(up_to_epoch(a) + ",\"kind\":\""@, kind::kind_name(a.kind), kind::kind_name(b.kind));
    kind::law_kind_names_differ(a.kind, b.kind);
}

proof fn lemma_streams_are_archived(a: frame::FrameView, b: frame::FrameView)
    requires
        frame_json(a) == frame_json(b),
        a.at == b.at,
        a.epoch == b.epoch,
        a.kind == b.kind,
        a.level == b.level,
        a.timestamp == b.timestamp,
        a.target == b.target,
        a.message == b.message,
        a.fields == b.fields,
        a.raw == b.raw,
        a.truncated == b.truncated,
    ensures
        a.stream == b.stream,
{
    lemma_parts(a);
    lemma_parts(b);
    lemma_same_end(up_to_truncated(a), up_to_truncated(b), "}"@);
    lemma_same_end(up_to_raw(a) + ",\"truncated\":"@, up_to_raw(b) + ",\"truncated\":"@, flag_name(a.truncated));
    lemma_same_end(up_to_raw(a), up_to_raw(b), ",\"truncated\":"@);
    lemma_same_end(up_to_fields(a) + "],\"raw\":"@, up_to_fields(b) + "],\"raw\":"@, json_text(a.raw));
    lemma_same_end(up_to_fields(a), up_to_fields(b), "],\"raw\":"@);
    lemma_same_end(up_to_message(a) + ",\"fields\":["@, up_to_message(b) + ",\"fields\":["@, fields_json(a.fields));
    lemma_same_end(up_to_message(a), up_to_message(b), ",\"fields\":["@);
    lemma_same_end(up_to_target(a) + ",\"message\":"@, up_to_target(b) + ",\"message\":"@, json_text(a.message));
    lemma_same_end(up_to_target(a), up_to_target(b), ",\"message\":"@);
    lemma_same_end(up_to_timestamp(a) + ",\"target\":"@, up_to_timestamp(b) + ",\"target\":"@, text_or_null(a.target));
    lemma_same_end(up_to_timestamp(a), up_to_timestamp(b), ",\"target\":"@);
    lemma_same_end(up_to_level(a) + ",\"timestamp\":"@, up_to_level(b) + ",\"timestamp\":"@, stamp_json(a.timestamp));
    lemma_same_end(up_to_level(a), up_to_level(b), ",\"timestamp\":"@);
    lemma_same_end(up_to_stream(a) + ",\"level\":"@, up_to_stream(b) + ",\"level\":"@, level_name(a.level));
    lemma_same_end(up_to_stream(a), up_to_stream(b), ",\"level\":"@);
    lemma_same_beginning(up_to_kind(a) + "\",\"stream\":"@, stream_name(a.stream), stream_name(b.stream));
    lemma_streams_differ(a.stream, b.stream);
}

proof fn lemma_levels_are_archived(a: frame::FrameView, b: frame::FrameView)
    requires
        frame_json(a) == frame_json(b),
        a.at == b.at,
        a.epoch == b.epoch,
        a.kind == b.kind,
        a.stream == b.stream,
        a.timestamp == b.timestamp,
        a.target == b.target,
        a.message == b.message,
        a.fields == b.fields,
        a.raw == b.raw,
        a.truncated == b.truncated,
    ensures
        a.level == b.level,
{
    lemma_parts(a);
    lemma_parts(b);
    lemma_same_end(up_to_truncated(a), up_to_truncated(b), "}"@);
    lemma_same_end(up_to_raw(a) + ",\"truncated\":"@, up_to_raw(b) + ",\"truncated\":"@, flag_name(a.truncated));
    lemma_same_end(up_to_raw(a), up_to_raw(b), ",\"truncated\":"@);
    lemma_same_end(up_to_fields(a) + "],\"raw\":"@, up_to_fields(b) + "],\"raw\":"@, json_text(a.raw));
    lemma_same_end(up_to_fields(a), up_to_fields(b), "],\"raw\":"@);
    lemma_same_end(up_to_message(a) + ",\"fields\":["@, up_to_message(b) + ",\"fields\":["@, fields_json(a.fields));
    lemma_same_end(up_to_message(a), up_to_message(b), ",\"fields\":["@);
    lemma_same_end(up_to_target(a) + ",\"message\":"@, up_to_target(b) + ",\"message\":"@, json_text(a.message));
    lemma_same_end(up_to_target(a), up_to_target(b), ",\"message\":"@);
    lemma_same_end(up_to_timestamp(a) + ",\"target\":"@, up_to_timestamp(b) + ",\"target\":"@, text_or_null(a.target));
    lemma_same_end(up_to_timestamp(a), up_to_timestamp(b), ",\"target\":"@);
    lemma_same_end(up_to_level(a) + ",\"timestamp\":"@, up_to_level(b) + ",\"timestamp\":"@, stamp_json(a.timestamp));
    lemma_same_end(up_to_level(a), up_to_level(b), ",\"timestamp\":"@);
    lemma_same_beginning(up_to_stream(a) + ",\"level\":"@, level_name(a.level), level_name(b.level));
    law_archived_levels_are_told_apart(a.level, b.level);
}

proof fn lemma_targets_are_archived(a: frame::FrameView, b: frame::FrameView)
    requires
        frame_json(a) == frame_json(b),
        a.at == b.at,
        a.epoch == b.epoch,
        a.kind == b.kind,
        a.stream == b.stream,
        a.level == b.level,
        a.timestamp == b.timestamp,
        a.message == b.message,
        a.fields == b.fields,
        a.raw == b.raw,
        a.truncated == b.truncated,
    ensures
        a.target == b.target,
{
    lemma_parts(a);
    lemma_parts(b);
    lemma_same_end(up_to_truncated(a), up_to_truncated(b), "}"@);
    lemma_same_end(up_to_raw(a) + ",\"truncated\":"@, up_to_raw(b) + ",\"truncated\":"@, flag_name(a.truncated));
    lemma_same_end(up_to_raw(a), up_to_raw(b), ",\"truncated\":"@);
    lemma_same_end(up_to_fields(a) + "],\"raw\":"@, up_to_fields(b) + "],\"raw\":"@, json_text(a.raw));
    lemma_same_end(up_to_fields(a), up_to_fields(b), "],\"raw\":"@);
    lemma_same_end(up_to_message(a) + ",\"fields\":["@, up_to_message(b) + ",\"fields\":["@, fields_json(a.fields));
    lemma_same_end(up_to_message(a), up_to_message(b), ",\"fields\":["@);
    lemma_same_end(up_to_target(a) + ",\"message\":"@, up_to_target(b) + ",\"message\":"@, json_text(a.message));
    lemma_same_end(up_to_target(a), up_to_target(b), ",\"message\":"@);
    lemma_same_beginning(up_to_timestamp(a) + ",\"target\":"@, text_or_null(a.target), text_or_null(b.target));
    lemma_texts_or_null_differ(a.target, b.target);
}

proof fn lemma_messages_are_archived(a: frame::FrameView, b: frame::FrameView)
    requires
        frame_json(a) == frame_json(b),
        a.at == b.at,
        a.epoch == b.epoch,
        a.kind == b.kind,
        a.stream == b.stream,
        a.level == b.level,
        a.timestamp == b.timestamp,
        a.target == b.target,
        a.fields == b.fields,
        a.raw == b.raw,
        a.truncated == b.truncated,
    ensures
        a.message == b.message,
{
    lemma_parts(a);
    lemma_parts(b);
    lemma_same_end(up_to_truncated(a), up_to_truncated(b), "}"@);
    lemma_same_end(up_to_raw(a) + ",\"truncated\":"@, up_to_raw(b) + ",\"truncated\":"@, flag_name(a.truncated));
    lemma_same_end(up_to_raw(a), up_to_raw(b), ",\"truncated\":"@);
    lemma_same_end(up_to_fields(a) + "],\"raw\":"@, up_to_fields(b) + "],\"raw\":"@, json_text(a.raw));
    lemma_same_end(up_to_fields(a), up_to_fields(b), "],\"raw\":"@);
    lemma_same_end(up_to_message(a) + ",\"fields\":["@, up_to_message(b) + ",\"fields\":["@, fields_json(a.fields));
    lemma_same_end(up_to_message(a), up_to_message(b), ",\"fields\":["@);
    lemma_same_beginning(up_to_target(a) + ",\"message\":"@, json_text(a.message), json_text(b.message));
    law_archived_texts_are_told_apart(a.message, b.message);
}

proof fn lemma_lines_are_archived(a: frame::FrameView, b: frame::FrameView)
    requires
        frame_json(a) == frame_json(b),
        a.at == b.at,
        a.epoch == b.epoch,
        a.kind == b.kind,
        a.stream == b.stream,
        a.level == b.level,
        a.timestamp == b.timestamp,
        a.target == b.target,
        a.message == b.message,
        a.fields == b.fields,
        a.truncated == b.truncated,
    ensures
        a.raw == b.raw,
{
    lemma_parts(a);
    lemma_parts(b);
    lemma_same_end(up_to_truncated(a), up_to_truncated(b), "}"@);
    lemma_same_end(up_to_raw(a) + ",\"truncated\":"@, up_to_raw(b) + ",\"truncated\":"@, flag_name(a.truncated));
    lemma_same_end(up_to_raw(a), up_to_raw(b), ",\"truncated\":"@);
    lemma_same_beginning(up_to_fields(a) + "],\"raw\":"@, json_text(a.raw), json_text(b.raw));
    law_archived_texts_are_told_apart(a.raw, b.raw);
}

proof fn lemma_cuts_are_archived(a: frame::FrameView, b: frame::FrameView)
    requires
        frame_json(a) == frame_json(b),
        a.at == b.at,
        a.epoch == b.epoch,
        a.kind == b.kind,
        a.stream == b.stream,
        a.level == b.level,
        a.timestamp == b.timestamp,
        a.target == b.target,
        a.message == b.message,
        a.fields == b.fields,
        a.raw == b.raw,
    ensures
        a.truncated == b.truncated,
{
    lemma_parts(a);
    lemma_parts(b);
    lemma_same_end(up_to_truncated(a), up_to_truncated(b), "}"@);
    lemma_same_beginning(up_to_raw(a) + ",\"truncated\":"@, flag_name(a.truncated), flag_name(b.truncated));
    lemma_flags_differ(a.truncated, b.truncated);
}

/// Records that agree but for one thing are different in the archive: nothing of a
/// record is left out of it, and nothing that differs is written alike.
pub proof fn law_archived_records_are_told_apart(a: frame::FrameView, b: frame::FrameView)
    requires
        frame_json(a) == frame_json(b),
        a.at == b.at,
        a.timestamp == b.timestamp,
        a.fields == b.fields,
    ensures
        a.kind == b.kind && a.stream == b.stream && a.level == b.level && a.target == b.target
            && a.message == b.message && a.raw == b.raw && a.truncated == b.truncated ==> a.epoch
            == b.epoch,
        a.epoch == b.epoch && a.stream == b.stream && a.level == b.level && a.target == b.target
            && a.message == b.message && a.raw == b.raw && a.truncated == b.truncated ==> a.kind
            == b.kind,
        a.epoch == b.epoch && a.kind == b.kind && a.level == b.level && a.target == b.target
            && a.message == b.message && a.raw == b.raw && a.truncated == b.truncated ==> a.stream
            == b.stream,
        a.epoch == b.epoch && a.kind == b.kind && a.stream == b.stream && a.target == b.target
            && a.message == b.message && a.raw == b.raw && a.truncated == b.truncated ==> a.level
            == b.level,
        a.epoch == b.epoch && a.kind == b.kind && a.stream == b.stream && a.level == b.level
            && a.message == b.message && a.raw == b.raw && a.truncated == b.truncated ==> a.target
            == b.target,
        a.epoch == b.epoch && a.kind == b.kind && a.stream == b.stream && a.level == b.level
            && a.target == b.target && a.raw == b.raw && a.truncated == b.truncated ==> a.message
            == b.message,
        a.epoch == b.epoch && a.kind == b.kind && a.stream == b.stream && a.level == b.level
            && a.target == b.target && a.message == b.message && a.truncated == b.truncated
            ==> a.raw == b.raw,
        a.epoch == b.epoch && a.kind == b.kind && a.stream == b.stream && a.level == b.level
            && a.target == b.target && a.message == b.message && a.raw == b.raw ==> a.truncated
            == b.truncated,
{
    if a.kind == b.kind && a.stream == b.stream && a.level == b.level && a.target == b.target
        && a.message == b.message && a.raw == b.raw && a.truncated == b.truncated {
        lemma_epochs_are_archived(a, b);
    }
    if a.epoch == b.epoch && a.stream == b.stream && a.level == b.level && a.target == b.target
        && a.message == b.message && a.raw == b.raw && a.truncated == b.truncated {
        lemma_kinds_are_archived(a, b);
    }
    if a.epoch == b.epoch && a.kind == b.kind && a.level == b.level && a.target == b.target
        && a.message == b.message && a.raw == b.raw && a.truncated == b.truncated {
        lemma_streams_are_archived(a, b);
    }
    if a.epoch == b.epoch && a.kind == b.kind && a.stream == b.stream && a.target == b.target
        && a.message == b.message && a.raw == b.raw && a.truncated == b.truncated {
        lemma_levels_are_archived(a, b);
    }
    if a.epoch == b.epoch && a.kind == b.kind && a.stream == b.stream && a.level == b.level
        && a.message == b.message && a.raw == b.raw && a.truncated == b.truncated {
        lemma_targets_are_archived(a, b);
    }
    if a.epoch == b.epoch && a.kind == b.kind && a.stream == b.stream && a.level == b.level
        && a.target == b.target && a.raw == b.raw && a.truncated == b.truncated {
        lemma_messages_are_archived(a, b);
    }
    if a.epoch == b.epoch && a.kind == b.kind && a.stream == b.stream && a.level == b.level
        && a.target == b.target && a.message == b.message && a.truncated == b.truncated {
        lemma_lines_are_archived(a, b);
    }
    if a.epoch == b.epoch && a.kind == b.kind && a.stream == b.stream && a.level == b.level
        && a.target == b.target && a.message == b.message && a.raw == b.raw {
        lemma_cuts_are_archived(a, b);
    }
}

/// Gaps of different lengths, and at different times, are different in the archive.
pub proof fn law_archived_gaps_are_told_apart(at: i64, then: i64, dropped: u64, lost: u64)
    ensures
        gap_json(at, dropped) == gap_json(at, lost) ==> dropped == lost,
        gap_json(at, dropped) == gap_json(then, dropped) ==> at == then,
{
    let head = "{\"t\":\"gap\",\"at\":"@;
    let mark = ",\"dropped\":"@;
    if gap_json(at, dropped) == gap_json(at, lost) {
        let before = head + text::signed(at as int) + mark;
        let a = text::decimal(dropped as nat);
        let b = text::decimal(lost as nat);
        lemma_same_end(before + a, before + b, "}"@);
        lemma_same_beginning(before, a, b);
        text::law_decimal_round_trip(dropped as nat);
        text::law_decimal_round_trip(lost as nat);
    }
    if gap_json(at, dropped) == gap_json(then, dropped) {
        let a = head + text::signed(at as int);
        let b = head + text::signed(then as int);
        let n = text::decimal(dropped as nat);
        lemma_same_end(a + mark + n, b + mark + n, "}"@);
        lemma_same_end(a + mark, b + mark, n);
        lemma_same_end(a, b, mark);
        lemma_same_beginning(head, text::signed(at as int), text::signed(then as int));
        text::law_signed_numbers_are_told_apart(at as int, then as int);
    }
}

/// An entry is archived as what it is: a record as that record, and a gap with its
/// length.
pub proof fn law_entries_are_archived_as_they_are(entry: Entry, now_ms: i64)
    ensures
        entry matches Entry::Log(f) ==> entry_json(entry, now_ms) == frame_json(f@),
        entry matches Entry::Gap(n) ==> entry_json(entry, now_ms) == gap_json(now_ms, n),
{
}

} // verus!
