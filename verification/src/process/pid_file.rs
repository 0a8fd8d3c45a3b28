//! Per-epoch pid records: a small versioned line protocol.

use vstd::prelude::*;
use vstd::string::*;
use vstd::utf8::*;

use crate::text;
use crate::text::{
    byte_len, chars, from_utf8, hex_encode, lines, parse_u32, parse_u64, split_at_first, str_eq,
    u64_to_string,
};

verus! {

pub const EPOCH_PID_VERSION: u32 = 2;

/// Describes one manager-owned, per-epoch pid record.
#[derive(Debug, Clone, PartialEq, Eq)]
pub struct EpochPidFile {
    path: String,
    epoch: u64,
    runtime_config: String,
}

impl EpochPidFile {
    pub closed spec fn path_text(&self) -> Seq<char> {
        self.path@
    }

    pub closed spec fn epoch_number(&self) -> u64 {
        self.epoch
    }

    pub closed spec fn config_text(&self) -> Seq<char> {
        self.runtime_config@
    }

    pub fn new(path: String, epoch: u64, runtime_config: String) -> (r: EpochPidFile)
        ensures
            r.path_text() == path@,
            r.epoch_number() == epoch,
            r.config_text() == runtime_config@,
    {
        EpochPidFile { path, epoch, runtime_config }
    }

    pub fn path(&self) -> (r: &str)
        ensures
            r@ == self.path_text(),
    {
        self.path.as_str()
    }

    pub fn epoch(&self) -> (r: u64)
        ensures
            r == self.epoch_number(),
    {
        self.epoch
    }

    pub fn runtime_config(&self) -> (r: &str)
        ensures
            r@ == self.config_text(),
    {
        self.runtime_config.as_str()
    }
}

/// Versioned pid-file contents, by which a process that outlived its manager is
/// recognized.
#[derive(Debug, Clone, PartialEq, Eq)]
pub struct EpochPidRecord {
    pub pid: u32,
    pub epoch: u64,
    pub executable: String,
    pub start_token: u64,
    pub runtime_config: String,
}

pub struct RecordView {
    pub pid: u32,
    pub epoch: u64,
    pub executable: Seq<char>,
    pub start_token: u64,
    pub runtime_config: Seq<char>,
}

/// A field of a record.
#[derive(Debug, Clone, Copy, PartialEq, Eq, Structural)]
pub enum RecordField {
    Version,
    Pid,
    Epoch,
    Executable,
    StartToken,
    RuntimeConfig,
}

/// Why a text is no record.
#[derive(Debug, Clone, Copy, PartialEq, Eq, Structural)]
pub enum RecordError {
    MalformedLine,
    DuplicateField,
    Incomplete,
    InvalidField(RecordField),
    UnsupportedVersion(u32),
    OddHexLength,
    InvalidHex,
    ExecutableNotUtf8,
    RuntimePathNotUtf8,
}

/// The key of a field.
pub open spec fn field_key(field: RecordField) -> Seq<char> {
    match field {
        RecordField::Version => "version"@,
        RecordField::Pid => "pid"@,
        RecordField::Epoch => "epoch"@,
        RecordField::Executable => "executable"@,
        RecordField::StartToken => "start-token"@,
        RecordField::RuntimeConfig => "runtime-config"@,
    }
}

impl RecordField {
    pub fn key(self) -> (r: &'static str)
        ensures
            r@ == field_key(self),
    {
        match self {
            RecordField::Version => "version",
            RecordField::Pid => "pid",
            RecordField::Epoch => "epoch",
            RecordField::Executable => "executable",
            RecordField::StartToken => "start-token",
            RecordField::RuntimeConfig => "runtime-config",
        }
    }
}

/// What an error says.
pub open spec fn record_error_text(e: RecordError) -> Seq<char> {
    match e {
        RecordError::MalformedLine => "malformed epoch pid record line"@,
        RecordError::DuplicateField => "duplicate epoch pid record field"@,
        RecordError::Incomplete => "epoch pid record fields are incomplete"@,
        RecordError::InvalidField(field) => "invalid epoch pid field `"@ + field_key(field) + "`"@,
        RecordError::UnsupportedVersion(v) => "unsupported epoch pid record version "@
            + text::decimal(v as nat),
        RecordError::OddHexLength => "hex field has odd length"@,
        RecordError::InvalidHex => "invalid hex field"@,
        RecordError::ExecutableNotUtf8 => "epoch pid executable is not UTF-8"@,
        RecordError::RuntimePathNotUtf8 => "epoch pid runtime path is not UTF-8"@,
    }
}

impl RecordError {
    pub fn message(&self) -> (r: String)
        ensures
            r@ == record_error_text(*self),
    {
        match self {
            RecordError::MalformedLine => "malformed epoch pid record line".to_owned(),
            RecordError::DuplicateField => "duplicate epoch pid record field".to_owned(),
            RecordError::Incomplete => "epoch pid record fields are incomplete".to_owned(),
            RecordError::InvalidField(field) => {
                let mut out = "invalid epoch pid field `".to_owned();
                out.append(field.key());
                out.append("`");
                out
            },
            RecordError::UnsupportedVersion(v) => {
                let mut out = "unsupported epoch pid record version ".to_owned();
                out.append(u64_to_string(*v as u64).as_str());
                out
            },
            RecordError::OddHexLength => "hex field has odd length".to_owned(),
            RecordError::InvalidHex => "invalid hex field".to_owned(),
            RecordError::ExecutableNotUtf8 => "epoch pid executable is not UTF-8".to_owned(),
            RecordError::RuntimePathNotUtf8 => "epoch pid runtime path is not UTF-8".to_owned(),
        }
    }
}

// ---------------------------------------------------------------------------
// Writing
// ---------------------------------------------------------------------------

/// One line of a record.
pub open spec fn entry(field: RecordField, value: Seq<char>) -> Seq<char> {
    (field_key(field) + "="@ + value).push('\n')
}

/// A record in the line protocol.
pub open spec fn encoded(r: RecordView) -> Seq<char> {
    entry(RecordField::Version, text::decimal(EPOCH_PID_VERSION as nat)) + entry(
        RecordField::Pid,
        text::decimal(r.pid as nat),
    ) + entry(RecordField::Epoch, text::decimal(r.epoch as nat)) + entry(
        RecordField::Executable,
        text::hex_text(encode_utf8(r.executable)),
    ) + entry(RecordField::StartToken, text::decimal(r.start_token as nat)) + entry(
        RecordField::RuntimeConfig,
        text::hex_text(encode_utf8(r.runtime_config)),
    )
}

fn push_entry(out: &mut String, field: RecordField, value: &str)
    ensures
        final(out)@ == old(out)@ + entry(field, value@),
{
    let ghost before = out@;
    out.append(field.key());
    out.append("=");
    out.append(value);
    out.push('\n');
    assert(out@ =~= before + entry(field, value@));
}

// ---------------------------------------------------------------------------
// Reading
// ---------------------------------------------------------------------------

/// The value under a key.
pub open spec fn value_of(fields: Seq<(Seq<char>, Seq<char>)>, key: Seq<char>) -> Option<Seq<char>>
    decreases fields.len(),
{
    if fields.len() == 0 {
        None
    } else if fields.last().0 == key {
        Some(fields.last().1)
    } else {
        value_of(fields.drop_last(), key)
    }
}

/// The fields of a list of lines, each `key=value` and no key twice.
pub open spec fn field_list(lines: Seq<Seq<char>>) -> Result<
    Seq<(Seq<char>, Seq<char>)>,
    RecordError,
>
    decreases lines.len(),
{
    if lines.len() == 0 {
        Ok(Seq::empty())
    } else {
        match field_list(lines.drop_last()) {
            Err(e) => Err(e),
            Ok(fields) => match text::split_once(lines.last(), "="@) {
                None => Err(RecordError::MalformedLine),
                Some((key, value)) => if value_of(fields, key) is Some {
                    Err(RecordError::DuplicateField)
                } else {
                    Ok(fields.push((key, value)))
                },
            },
        }
    }
}

/// Exactly the fields of a record are there.
pub open spec fn complete(fields: Seq<(Seq<char>, Seq<char>)>) -> bool {
    fields.len() == 6 && forall|field: RecordField|
        value_of(fields, #[trigger] field_key(field)) is Some
}

/// The bytes of a field in lower-case hexadecimal digits.
pub open spec fn hex_field(value: Seq<char>) -> Result<Seq<u8>, RecordError> {
    if text::utf8_len(value) % 2 != 0 {
        Err(RecordError::OddHexLength)
    } else if !text::all_hex(value) {
        Err(RecordError::InvalidHex)
    } else {
        Ok(text::hex_bytes(value))
    }
}

/// The text of a field in hexadecimal digits.
pub open spec fn text_field(value: Seq<char>, not_utf8: RecordError) -> Result<
    Seq<char>,
    RecordError,
> {
    match hex_field(value) {
        Err(e) => Err(e),
        Ok(bytes) => if valid_utf8(bytes) {
            Ok(decode_utf8(bytes))
        } else {
            Err(not_utf8)
        },
    }
}

/// The number in a field.
pub open spec fn number_field(
    fields: Seq<(Seq<char>, Seq<char>)>,
    field: RecordField,
    max: nat,
) -> Result<nat, RecordError> {
    match text::unsigned_value(value_of(fields, field_key(field))->0, max) {
        Some(n) => Ok(n),
        None => Err(RecordError::InvalidField(field)),
    }
}

/// The record that complete fields make, or the first thing that is wrong with
/// them.
pub open spec fn record_of(fields: Seq<(Seq<char>, Seq<char>)>) -> Result<
    RecordView,
    RecordError,
> {
    match number_field(fields, RecordField::Version, u32::MAX as nat) {
        Err(e) => Err(e),
        Ok(version) => if version != EPOCH_PID_VERSION {
            Err(RecordError::UnsupportedVersion(version as u32))
        } else {
            match text_field(
                value_of(fields, field_key(RecordField::Executable))->0,
                RecordError::ExecutableNotUtf8,
            ) {
                Err(e) => Err(e),
                Ok(executable) => match text_field(
                    value_of(fields, field_key(RecordField::RuntimeConfig))->0,
                    RecordError::RuntimePathNotUtf8,
                ) {
                    Err(e) => Err(e),
                    Ok(runtime_config) => match number_field(
                        fields,
                        RecordField::Pid,
                        u32::MAX as nat,
                    ) {
                        Err(e) => Err(e),
                        Ok(pid) => match number_field(
                            fields,
                            RecordField::Epoch,
                            u64::MAX as nat,
                        ) {
                            Err(e) => Err(e),
                            Ok(epoch) => match number_field(
                                fields,
                                RecordField::StartToken,
                                u64::MAX as nat,
                            ) {
                                Err(e) => Err(e),
                                Ok(start_token) => Ok(
                                    RecordView {
                                        pid: pid as u32,
                                        epoch: epoch as u64,
                                        executable,
                                        start_token: start_token as u64,
                                        runtime_config,
                                    },
                                ),
                            },
                        },
                    },
                },
            }
        },
    }
}

/// The record that a text stands for.
pub open spec fn decoded(raw: Seq<char>) -> Result<RecordView, RecordError> {
    match field_list(text::lines_of(raw)) {
        Err(e) => Err(e),
        Ok(fields) => if complete(fields) {
            record_of(fields)
        } else {
            Err(RecordError::Incomplete)
        },
    }
}

pub open spec fn field_views(fields: Seq<(String, String)>) -> Seq<(Seq<char>, Seq<char>)> {
    Seq::new(fields.len(), |i: int| (fields[i].0@, fields[i].1@))
}

fn get_field<'a>(fields: &'a Vec<(String, String)>, key: &str) -> (r: Option<&'a str>)
    ensures
        match r {
            Some(v) => value_of(field_views(fields@), key@) == Some(v@),
            None => value_of(field_views(fields@), key@) is None,
        },
{
    let mut i: usize = fields.len();
    let ghost all = field_views(fields@);
    assert(all.take(all.len() as int) =~= all);
    while i > 0
        invariant
            i <= fields@.len(),
            all == field_views(fields@),
            value_of(all, key@) == value_of(all.take(i as int), key@),
        decreases i,
    {
        assert(all.take(i as int).last() == (fields@[i - 1].0@, fields@[i - 1].1@));
        if str_eq(fields[i - 1].0.as_str(), key) {
            return Some(fields[i - 1].1.as_str());
        }
        assert(all.take(i as int).drop_last() =~= all.take(i - 1));
        i -= 1;
    }
    None
}

proof fn lemma_field_list_prefix(lines: Seq<Seq<char>>, k: int)
    requires
        0 <= k <= lines.len(),
        field_list(lines.take(k)) is Err,
    ensures
        field_list(lines) == field_list(lines.take(k)),
    decreases lines.len() - k,
{
    if k < lines.len() {
        assert(lines.take(k + 1).drop_last() =~= lines.take(k));
        lemma_field_list_prefix(lines, k + 1);
    } else {
        assert(lines.take(k) =~= lines);
    }
}

fn parse_fields(raw: &str) -> (r: Result<Vec<(String, String)>, RecordError>)
    ensures
        match r {
            Ok(fields) => field_list(text::lines_of(raw@)) == Ok::<
                Seq<(Seq<char>, Seq<char>)>,
                RecordError,
            >(field_views(fields@)),
            Err(e) => field_list(text::lines_of(raw@)) == Err::<
                Seq<(Seq<char>, Seq<char>)>,
                RecordError,
            >(e),
        },
{
    let rows = lines(raw);
    let ghost all = text::lines_of(raw@);
    let mut fields: Vec<(String, String)> = Vec::new();
    let mut i: usize = 0;
    assert(all.take(0) =~= Seq::empty());
    assert(field_views(fields@) =~= Seq::empty());
    while i < rows.len()
        invariant
            i <= rows@.len(),
            all == text::strings(rows@),
            all == text::lines_of(raw@),
            field_list(all.take(i as int)) == Ok::<Seq<(Seq<char>, Seq<char>)>, RecordError>(
                field_views(fields@),
            ),
        decreases rows@.len() - i,
    {
        proof {
            assert(all.take(i + 1).drop_last() =~= all.take(i as int));
            assert(all.take(i + 1).last() == rows@[i as int]@);
        }
        match split_at_first(rows[i].as_str(), "=") {
            None => {
                proof {
                    lemma_field_list_prefix(all, i + 1);
                }
                return Err(RecordError::MalformedLine);
            },
            Some((key, value)) => {
                if get_field(&fields, key.as_str()).is_some() {
                    proof {
                        lemma_field_list_prefix(all, i + 1);
                    }
                    return Err(RecordError::DuplicateField);
                }
                let ghost before = fields@;
                let ghost pair = (key@, value@);
                fields.push((key, value));
                assert(field_views(fields@) =~= field_views(before).push(pair));
            },
        }
        i += 1;
    }
    assert(all.take(i as int) =~= all);
    Ok(fields)
}

pub fn hex_nibble(c: char) -> (r: Result<u8, RecordError>)
    ensures
        match r {
            Ok(v) => text::is_hex(c) && v == text::hex_value(c) && v < 16,
            Err(e) => !text::is_hex(c) && e == RecordError::InvalidHex,
        },
{
    if '0' <= c && c <= '9' {
        Ok((c as u32 - 48) as u8)
    } else if 'a' <= c && c <= 'f' {
        Ok((c as u32 - 87) as u8)
    } else {
        Err(RecordError::InvalidHex)
    }
}

/// A text of hexadecimal digits has one byte per character.
proof fn lemma_hex_width(s: Seq<char>)
    requires
        text::all_hex(s),
    ensures
        text::utf8_len(s) == s.len(),
    decreases s.len(),
{
    if s.len() > 0 {
        let rest = s.drop_last();
        assert forall|i: int| 0 <= i < rest.len() implies text::is_hex(#[trigger] rest[i]) by {
            assert(rest[i] == s[i]);
        }
        lemma_hex_width(rest);
        assert(s =~= rest.push(s.last()));
        assert(text::is_hex(s[s.len() - 1]));
        text::lemma_utf8_len_push(rest, s.last());
    }
}

pub fn hex_decode(value: &str) -> (r: Result<Vec<u8>, RecordError>)
    ensures
        match r {
            Ok(bytes) => hex_field(value@) == Ok::<Seq<u8>, RecordError>(bytes@),
            Err(e) => hex_field(value@) == Err::<Seq<u8>, RecordError>(e),
        },
{
    if byte_len(value) % 2 != 0 {
        return Err(RecordError::OddHexLength);
    }
    let cs = chars(value);
    let n: usize = cs.len();
    let mut out: Vec<u8> = Vec::new();
    let mut i: usize = 0;
    while i < n
        invariant
            cs@ == value@,
            n == cs@.len(),
            i <= n,
            i == 2 * out@.len(),
            text::utf8_len(value@) % 2 == 0,
            forall|j: int| 0 <= j < i ==> text::is_hex(#[trigger] cs@[j]),
            forall|j: int|
                0 <= j < out@.len() ==> #[trigger] out@[j] == (16 * text::hex_value(cs@[2 * j])
                    + text::hex_value(cs@[2 * j + 1])) as u8,
        decreases n - i,
    {
        let high = match hex_nibble(cs[i]) {
            Ok(v) => v,
            Err(e) => {
                return Err(e);
            },
        };
        if i + 1 == n {
            proof {
                lemma_hex_width(value@);
                assert(false);
            }
            return Err(RecordError::InvalidHex);
        }
        let low = match hex_nibble(cs[i + 1]) {
            Ok(v) => v,
            Err(e) => {
                return Err(e);
            },
        };
        out.push(high * 16 + low);
        i += 2;
    }
    assert(out@ =~= text::hex_bytes(value@));
    Ok(out)
}

fn decode_text(value: &str, not_utf8: RecordError) -> (r: Result<String, RecordError>)
    ensures
        match r {
            Ok(s) => text_field(value@, not_utf8) == Ok::<Seq<char>, RecordError>(s@),
            Err(e) => text_field(value@, not_utf8) == Err::<Seq<char>, RecordError>(e),
        },
{
    match hex_decode(value) {
        Err(e) => Err(e),
        Ok(bytes) => {
            match from_utf8(bytes) {
                Some(s) => {
                    proof {
                        encode_utf8_valid_utf8(s@);
                        encode_utf8_decode_utf8(s@);
                    }
                    Ok(s)
                },
                None => Err(not_utf8),
            }
        },
    }
}

fn required<'a>(fields: &'a Vec<(String, String)>, field: RecordField) -> (r: &'a str)
    requires
        value_of(field_views(fields@), field_key(field)) is Some,
    ensures
        value_of(field_views(fields@), field_key(field)) == Some(r@),
{
    match get_field(fields, field.key()) {
        Some(v) => v,
        None => {
            assert(false);
            ""
        },
    }
}

fn parse_field_u32(fields: &Vec<(String, String)>, field: RecordField) -> (r: Result<
    u32,
    RecordError,
>)
    requires
        value_of(field_views(fields@), field_key(field)) is Some,
    ensures
        match r {
            Ok(v) => number_field(field_views(fields@), field, u32::MAX as nat) == Ok::<
                nat,
                RecordError,
            >(v as nat),
            Err(e) => number_field(field_views(fields@), field, u32::MAX as nat) == Err::<
                nat,
                RecordError,
            >(e),
        },
{
    match parse_u32(required(fields, field)) {
        Some(v) => Ok(v),
        None => Err(RecordError::InvalidField(field)),
    }
}

fn parse_field_u64(fields: &Vec<(String, String)>, field: RecordField) -> (r: Result<
    u64,
    RecordError,
>)
    requires
        value_of(field_views(fields@), field_key(field)) is Some,
    ensures
        match r {
            Ok(v) => number_field(field_views(fields@), field, u64::MAX as nat) == Ok::<
                nat,
                RecordError,
            >(v as nat),
            Err(e) => number_field(field_views(fields@), field, u64::MAX as nat) == Err::<
                nat,
                RecordError,
            >(e),
        },
{
    match parse_u64(required(fields, field)) {
        Some(v) => Ok(v),
        None => Err(RecordError::InvalidField(field)),
    }
}

fn is_complete(fields: &Vec<(String, String)>) -> (r: bool)
    ensures
        r == complete(field_views(fields@)),
{
    if fields.len() != 6 {
        return false;
    }
    let all = [
        RecordField::Version,
        RecordField::Pid,
        RecordField::Epoch,
        RecordField::Executable,
        RecordField::StartToken,
        RecordField::RuntimeConfig,
    ];
    let mut i: usize = 0;
    while i < 6
        invariant
            i <= 6,
            fields@.len() == 6,
            all@ == seq![
                RecordField::Version,
                RecordField::Pid,
                RecordField::Epoch,
                RecordField::Executable,
                RecordField::StartToken,
                RecordField::RuntimeConfig,
            ],
            forall|j: int|
                0 <= j < i ==> value_of(field_views(fields@), field_key(#[trigger] all@[j])) is Some,
        decreases 6 - i,
    {
        let field = all[i];
        if get_field(fields, field.key()).is_none() {
            assert(value_of(field_views(fields@), field_key(field)) is None);
            return false;
        }
        i += 1;
    }
    assert forall|field: RecordField|
        value_of(field_views(fields@), #[trigger] field_key(field)) is Some by {
        let j = match field {
            RecordField::Version => 0int,
            RecordField::Pid => 1,
            RecordField::Epoch => 2,
            RecordField::Executable => 3,
            RecordField::StartToken => 4,
            RecordField::RuntimeConfig => 5,
        };
        assert(all@[j] == field);
    }
    true
}

impl EpochPidRecord {
    pub open spec fn view(&self) -> RecordView {
        RecordView {
            pid: self.pid,
            epoch: self.epoch,
            executable: self.executable@,
            start_token: self.start_token,
            runtime_config: self.runtime_config@,
        }
    }

    /// The record in the line protocol.
    pub fn encode(&self) -> (r: String)
        ensures
            r@ == encoded(self@),
    {
        let mut out = String::new();
        push_entry(
            &mut out,
            RecordField::Version,
            u64_to_string(EPOCH_PID_VERSION as u64).as_str(),
        );
        push_entry(&mut out, RecordField::Pid, u64_to_string(self.pid as u64).as_str());
        push_entry(&mut out, RecordField::Epoch, u64_to_string(self.epoch).as_str());
        push_entry(
            &mut out,
            RecordField::Executable,
            hex_encode(self.executable.as_str().as_bytes()).as_str(),
        );
        push_entry(&mut out, RecordField::StartToken, u64_to_string(self.start_token).as_str());
        push_entry(
            &mut out,
            RecordField::RuntimeConfig,
            hex_encode(self.runtime_config.as_str().as_bytes()).as_str(),
        );
        assert(out@ =~= encoded(self@));
        out
    }

    /// The record that a text stands for, or the first thing that is wrong with
    /// it.
    pub fn decode(raw: &str) -> (r: Result<EpochPidRecord, RecordError>)
        ensures
            match r {
                Ok(record) => decoded(raw@) == Ok::<RecordView, RecordError>(record@),
                Err(e) => decoded(raw@) == Err::<RecordView, RecordError>(e),
            },
    {
        let fields = match parse_fields(raw) {
            Ok(fields) => fields,
            Err(e) => {
                return Err(e);
            },
        };
        if !is_complete(&fields) {
            return Err(RecordError::Incomplete);
        }
        proof {
            let f = field_views(fields@);
            assert(value_of(f, field_key(RecordField::Version)) is Some);
            assert(value_of(f, field_key(RecordField::Pid)) is Some);
            assert(value_of(f, field_key(RecordField::Epoch)) is Some);
            assert(value_of(f, field_key(RecordField::Executable)) is Some);
            assert(value_of(f, field_key(RecordField::StartToken)) is Some);
            assert(value_of(f, field_key(RecordField::RuntimeConfig)) is Some);
        }
        let version = match parse_field_u32(&fields, RecordField::Version) {
            Ok(v) => v,
            Err(e) => {
                return Err(e);
            },
        };
        if version != EPOCH_PID_VERSION {
            return Err(RecordError::UnsupportedVersion(version));
        }
        let executable = match decode_text(
            required(&fields, RecordField::Executable),
            RecordError::ExecutableNotUtf8,
        ) {
            Ok(s) => s,
            Err(e) => {
                return Err(e);
            },
        };
        let runtime_config = match decode_text(
            required(&fields, RecordField::RuntimeConfig),
            RecordError::RuntimePathNotUtf8,
        ) {
            Ok(s) => s,
            Err(e) => {
                return Err(e);
            },
        };
        let pid = match parse_field_u32(&fields, RecordField::Pid) {
            Ok(v) => v,
            Err(e) => {
                return Err(e);
            },
        };
        let epoch = match parse_field_u64(&fields, RecordField::Epoch) {
            Ok(v) => v,
            Err(e) => {
                return Err(e);
            },
        };
        let start_token = match parse_field_u64(&fields, RecordField::StartToken) {
            Ok(v) => v,
            Err(e) => {
                return Err(e);
            },
        };
        Ok(EpochPidRecord { pid, epoch, executable, start_token, runtime_config })
    }
}

// ---------------------------------------------------------------------------
// Laws
// ---------------------------------------------------------------------------

/// A line without its end.
spec fn row(field: RecordField, value: Seq<char>) -> Seq<char> {
    field_key(field) + "="@ + value
}

/// Digits of either notation.
spec fn plain(value: Seq<char>) -> bool {
    value.len() == 0 || text::all_hex(value)
}

proof fn lemma_keys(field: RecordField)
    ensures
        unmarked(field_key(field)),
        field_key(field).len() == (match field {
            RecordField::Version => 7nat,
            RecordField::Pid => 3,
            RecordField::Epoch => 5,
            RecordField::Executable => 10,
            RecordField::StartToken => 11,
            RecordField::RuntimeConfig => 14,
        }),
{
    reveal_strlit("version");
    reveal_strlit("pid");
    reveal_strlit("epoch");
    reveal_strlit("executable");
    reveal_strlit("start-token");
    reveal_strlit("runtime-config");
}

/// No character that the line protocol gives a meaning to.
spec fn unmarked(s: Seq<char>) -> bool {
    forall|i: int| 0 <= i < s.len() ==> #[trigger] s[i] != '=' && s[i] != '\n' && s[i] != '\r'
}

proof fn lemma_pair(key: Seq<char>, value: Seq<char>)
    requires
        unmarked(key),
        plain(value),
    ensures
        !(key + "="@ + value).contains('\n'),
        (key + "="@ + value).last() != '\r',
        text::split_once(key + "="@ + value, "="@) == Some((key, value)),
{
    reveal_strlit("=");
    let eq = "="@;
    assert(eq.len() == 1 && eq[0] == '=');
    let s = key + eq + value;
    let n = key.len() as int;
    assert(s[n] == '=');
    assert forall|i: int| 0 <= i < s.len() implies #[trigger] s[i] != '\n' && s[i] != '\r' by {
        if i < n {
            assert(s[i] == key[i]);
        } else if i > n {
            assert(s[i] == value[i - n - 1]);
            assert(text::is_hex(value[i - n - 1]));
        }
    }
    assert forall|j: int| 0 <= j < n implies #[trigger] s[j] != eq[0] by {
        assert(s[j] == key[j]);
    }
    text::lemma_find_one(s, eq, 0, n);
    assert(s.subrange(0, n) =~= key);
    assert(s.subrange(n + 1, s.len() as int) =~= value);
}

proof fn lemma_row(field: RecordField, value: Seq<char>)
    requires
        plain(value),
    ensures
        !row(field, value).contains('\n'),
        row(field, value).last() != '\r',
        entry(field, value) == row(field, value).push('\n'),
        text::split_once(row(field, value), "="@) == Some((field_key(field), value)),
{
    lemma_keys(field);
    lemma_pair(field_key(field), value);
}

/// The lines of a record.
spec fn rows(r: RecordView) -> Seq<Seq<char>> {
    seq![
        row(RecordField::Version, text::decimal(EPOCH_PID_VERSION as nat)),
        row(RecordField::Pid, text::decimal(r.pid as nat)),
        row(RecordField::Epoch, text::decimal(r.epoch as nat)),
        row(RecordField::Executable, text::hex_text(encode_utf8(r.executable))),
        row(RecordField::StartToken, text::decimal(r.start_token as nat)),
        row(RecordField::RuntimeConfig, text::hex_text(encode_utf8(r.runtime_config))),
    ]
}

proof fn lemma_decimal_plain(n: nat)
    ensures
        plain(text::decimal(n)),
{
    text::law_decimal_round_trip(n);
    assert forall|i: int| 0 <= i < text::decimal(n).len() implies text::is_hex(
        #[trigger] text::decimal(n)[i],
    ) by {
        assert(text::is_digit(text::decimal(n)[i]));
    }
}

proof fn lemma_encoded_lines(r: RecordView)
    ensures
        text::lines_of(encoded(r)) == rows(r),
{
    let d0 = text::decimal(EPOCH_PID_VERSION as nat);
    let d1 = text::decimal(r.pid as nat);
    let d2 = text::decimal(r.epoch as nat);
    let h3 = text::hex_text(encode_utf8(r.executable));
    let d4 = text::decimal(r.start_token as nat);
    let h5 = text::hex_text(encode_utf8(r.runtime_config));
    lemma_decimal_plain(EPOCH_PID_VERSION as nat);
    lemma_decimal_plain(r.pid as nat);
    lemma_decimal_plain(r.epoch as nat);
    lemma_decimal_plain(r.start_token as nat);
    text::law_hex_round_trip(encode_utf8(r.executable));
    text::law_hex_round_trip(encode_utf8(r.runtime_config));
    lemma_row(RecordField::Version, d0);
    lemma_row(RecordField::Pid, d1);
    lemma_row(RecordField::Epoch, d2);
    lemma_row(RecordField::Executable, h3);
    lemma_row(RecordField::StartToken, d4);
    lemma_row(RecordField::RuntimeConfig, h5);
    let e0 = entry(RecordField::Version, d0);
    let e1 = entry(RecordField::Pid, d1);
    let e2 = entry(RecordField::Epoch, d2);
    let e3 = entry(RecordField::Executable, h3);
    let e4 = entry(RecordField::StartToken, d4);
    let e5 = entry(RecordField::RuntimeConfig, h5);
    let t5 = e5 + Seq::<char>::empty();
    let t4 = e4 + t5;
    let t3 = e3 + t4;
    let t2 = e2 + t3;
    let t1 = e1 + t2;
    let t0 = e0 + t1;
    assert(encoded(r) =~= t0);
    text::lemma_first_line(row(RecordField::RuntimeConfig, h5), Seq::empty());
    text::lemma_first_line(row(RecordField::StartToken, d4), t5);
    text::lemma_first_line(row(RecordField::Executable, h3), t4);
    text::lemma_first_line(row(RecordField::Epoch, d2), t3);
    text::lemma_first_line(row(RecordField::Pid, d1), t2);
    text::lemma_first_line(row(RecordField::Version, d0), t1);
    assert(text::lines_of(Seq::<char>::empty()) =~= Seq::empty());
    assert(text::lines_of(t0) =~= rows(r));
}

/// The fields of a record.
spec fn fields_of(r: RecordView) -> Seq<(Seq<char>, Seq<char>)> {
    seq![
        (field_key(RecordField::Version), text::decimal(EPOCH_PID_VERSION as nat)),
        (field_key(RecordField::Pid), text::decimal(r.pid as nat)),
        (field_key(RecordField::Epoch), text::decimal(r.epoch as nat)),
        (field_key(RecordField::Executable), text::hex_text(encode_utf8(r.executable))),
        (field_key(RecordField::StartToken), text::decimal(r.start_token as nat)),
        (field_key(RecordField::RuntimeConfig), text::hex_text(encode_utf8(r.runtime_config))),
    ]
}

/// The field at index `i`.
spec fn field_at(i: int) -> RecordField {
    if i == 0 {
        RecordField::Version
    } else if i == 1 {
        RecordField::Pid
    } else if i == 2 {
        RecordField::Epoch
    } else if i == 3 {
        RecordField::Executable
    } else if i == 4 {
        RecordField::StartToken
    } else {
        RecordField::RuntimeConfig
    }
}

/// A key is found among the first `k` fields exactly where its field is one of
/// them.
proof fn lemma_value_of_fields(r: RecordView, k: int, i: int)
    requires
        0 <= k <= 6,
        0 <= i < 6,
    ensures
        value_of(fields_of(r).take(k), field_key(field_at(i))) == (if i < k {
            Some(fields_of(r)[i].1)
        } else {
            None
        }),
    decreases k,
{
    let f = fields_of(r).take(k);
    if k > 0 {
        assert(f.drop_last() =~= fields_of(r).take(k - 1));
        assert(f.last() == fields_of(r)[k - 1]);
        assert(f.last().0 == field_key(field_at(k - 1)));
        lemma_keys(field_at(k - 1));
        lemma_keys(field_at(i));
        lemma_value_of_fields(r, k - 1, i);
    }
}

proof fn lemma_field_list_rows(r: RecordView, k: int)
    requires
        0 <= k <= 6,
    ensures
        field_list(rows(r).take(k)) == Ok::<Seq<(Seq<char>, Seq<char>)>, RecordError>(
            fields_of(r).take(k),
        ),
    decreases k,
{
    let l = rows(r).take(k);
    if k > 0 {
        lemma_field_list_rows(r, k - 1);
        assert(l.drop_last() =~= rows(r).take(k - 1));
        assert(l.last() == rows(r)[k - 1]);
        let value = fields_of(r)[k - 1].1;
        assert(rows(r)[k - 1] == row(field_at(k - 1), value));
        assert(plain(value)) by {
            lemma_decimal_plain(EPOCH_PID_VERSION as nat);
            lemma_decimal_plain(r.pid as nat);
            lemma_decimal_plain(r.epoch as nat);
            lemma_decimal_plain(r.start_token as nat);
            text::law_hex_round_trip(encode_utf8(r.executable));
            text::law_hex_round_trip(encode_utf8(r.runtime_config));
        }
        lemma_row(field_at(k - 1), value);
        lemma_value_of_fields(r, k - 1, k - 1);
        assert(fields_of(r).take(k) =~= fields_of(r).take(k - 1).push(
            (field_key(field_at(k - 1)), value),
        ));
    } else {
        assert(l =~= Seq::empty());
        assert(fields_of(r).take(0) =~= Seq::empty());
    }
}

proof fn lemma_text_field_round_trip(s: Seq<char>, e: RecordError)
    ensures
        text_field(text::hex_text(encode_utf8(s)), e) == Ok::<Seq<char>, RecordError>(s),
{
    let bytes = encode_utf8(s);
    text::law_hex_round_trip(bytes);
    lemma_hex_width(text::hex_text(bytes));
    encode_utf8_valid_utf8(s);
    encode_utf8_decode_utf8(s);
}

/// Reading a written record gives the record back.
pub proof fn law_record_round_trip(r: RecordView)
    ensures
        decoded(encoded(r)) == Ok::<RecordView, RecordError>(r),
{
    lemma_encoded_lines(r);
    lemma_field_list_rows(r, 6);
    assert(rows(r).take(6) =~= rows(r));
    assert(fields_of(r).take(6) =~= fields_of(r));
    let f = fields_of(r);
    assert forall|field: RecordField| value_of(f, #[trigger] field_key(field)) is Some by {
        let i = match field {
            RecordField::Version => 0int,
            RecordField::Pid => 1,
            RecordField::Epoch => 2,
            RecordField::Executable => 3,
            RecordField::StartToken => 4,
            RecordField::RuntimeConfig => 5,
        };
        assert(field_at(i) == field);
        lemma_value_of_fields(r, 6, i);
    }
    lemma_value_of_fields(r, 6, 0);
    lemma_value_of_fields(r, 6, 1);
    lemma_value_of_fields(r, 6, 2);
    lemma_value_of_fields(r, 6, 3);
    lemma_value_of_fields(r, 6, 4);
    lemma_value_of_fields(r, 6, 5);
    text::law_unsigned_round_trip(EPOCH_PID_VERSION as nat, u32::MAX as nat);
    text::law_unsigned_round_trip(r.pid as nat, u32::MAX as nat);
    text::law_unsigned_round_trip(r.epoch as nat, u64::MAX as nat);
    text::law_unsigned_round_trip(r.start_token as nat, u64::MAX as nat);
    lemma_text_field_round_trip(r.executable, RecordError::ExecutableNotUtf8);
    lemma_text_field_round_trip(r.runtime_config, RecordError::RuntimePathNotUtf8);
}

/// A text says that a field has a value: one of its lines does.
pub open spec fn told(raw: Seq<char>, key: Seq<char>, value: Seq<char>) -> bool {
    exists|i: int|
        0 <= i < text::lines_of(raw).len() && text::split_once(
            #[trigger] text::lines_of(raw)[i],
            "="@,
        ) == Some((key, value))
}

proof fn lemma_field_list_lines(lines: Seq<Seq<char>>)
    requires
        field_list(lines) is Ok,
    ensures
        ({
            let fields = field_list(lines)->Ok_0;
            &&& fields.len() == lines.len()
            &&& forall|i: int|
                0 <= i < lines.len() ==> text::split_once(#[trigger] lines[i], "="@) == Some(
                    fields[i],
                )
            &&& forall|i: int, j: int|
                0 <= i < j < fields.len() ==> (#[trigger] fields[i]).0 != (#[trigger] fields[j]).0
        }),
    decreases lines.len(),
{
    if lines.len() > 0 {
        let front = lines.drop_last();
        lemma_field_list_lines(front);
        let before = field_list(front)->Ok_0;
        let fields = field_list(lines)->Ok_0;
        assert forall|i: int| 0 <= i < lines.len() implies text::split_once(
            #[trigger] lines[i],
            "="@,
        ) == Some(fields[i]) by {
            if i < front.len() {
                assert(front[i] == lines[i]);
                assert(fields[i] == before[i]);
            }
        }
        assert forall|i: int, j: int| 0 <= i < j < fields.len() implies (#[trigger] fields[i]).0
            != (#[trigger] fields[j]).0 by {
            assert(fields[i] == before[i]);
            if j == before.len() && fields[i].0 == fields[j].0 {
                lemma_value_is_found(before, fields[j].0, i);
            } else if j < before.len() {
                assert(fields[j] == before[j]);
            }
        }
    }
}

proof fn lemma_value_is_found(fields: Seq<(Seq<char>, Seq<char>)>, key: Seq<char>, i: int)
    requires
        0 <= i < fields.len(),
        fields[i].0 == key,
    ensures
        value_of(fields, key) is Some,
    decreases fields.len(),
{
    if fields.last().0 != key {
        assert(fields.drop_last()[i] == fields[i]);
        lemma_value_is_found(fields.drop_last(), key, i);
    }
}

proof fn lemma_value_stands_somewhere(fields: Seq<(Seq<char>, Seq<char>)>, key: Seq<char>) -> (i:
    int)
    requires
        value_of(fields, key) is Some,
    ensures
        0 <= i < fields.len(),
        fields[i] == (key, value_of(fields, key)->0),
    decreases fields.len(),
{
    if fields.last().0 == key {
        assert(fields[fields.len() - 1] == (key, value_of(fields, key)->0));
        fields.len() - 1
    } else {
        let i = lemma_value_stands_somewhere(fields.drop_last(), key);
        assert(fields.drop_last()[i] == fields[i]);
        i
    }
}

proof fn lemma_told(raw: Seq<char>, field: RecordField)
    requires
        field_list(text::lines_of(raw)) is Ok,
        complete(field_list(text::lines_of(raw))->Ok_0),
    ensures
        told(
            raw,
            field_key(field),
            value_of(field_list(text::lines_of(raw))->Ok_0, field_key(field))->0,
        ),
{
    let lines = text::lines_of(raw);
    let fields = field_list(lines)->Ok_0;
    lemma_field_list_lines(lines);
    let i = lemma_value_stands_somewhere(fields, field_key(field));
    assert(text::split_once(lines[i], "="@) == Some(fields[i]));
}

/// A text that is taken for a record has six lines, says that its version is the
/// second, and says of the process what the record then does.
pub proof fn law_records_say_what_their_text_does(raw: Seq<char>)
    requires
        decoded(raw) is Ok,
    ensures
        text::lines_of(raw).len() == 6,
        exists|v: Seq<char>|
            #[trigger] told(raw, "version"@, v) && text::unsigned_value(v, u32::MAX as nat)
                == Some(2nat),
        exists|v: Seq<char>|
            #[trigger] told(raw, "pid"@, v) && text::unsigned_value(v, u32::MAX as nat) == Some(
                decoded(raw)->Ok_0.pid as nat,
            ),
        exists|v: Seq<char>|
            #[trigger] told(raw, "epoch"@, v) && text::unsigned_value(v, u64::MAX as nat)
                == Some(decoded(raw)->Ok_0.epoch as nat),
        exists|v: Seq<char>|
            #[trigger] told(raw, "start-token"@, v) && text::unsigned_value(v, u64::MAX as nat)
                == Some(decoded(raw)->Ok_0.start_token as nat),
        exists|v: Seq<char>|
            #[trigger] told(raw, "executable"@, v) && text::all_hex(v) && valid_utf8(
                text::hex_bytes(v),
            ) && decode_utf8(text::hex_bytes(v)) == decoded(raw)->Ok_0.executable,
        exists|v: Seq<char>|
            #[trigger] told(raw, "runtime-config"@, v) && text::all_hex(v) && valid_utf8(
                text::hex_bytes(v),
            ) && decode_utf8(text::hex_bytes(v)) == decoded(raw)->Ok_0.runtime_config,
{
    let fields = field_list(text::lines_of(raw))->Ok_0;
    lemma_field_list_lines(text::lines_of(raw));
    lemma_told(raw, RecordField::Version);
    lemma_told(raw, RecordField::Pid);
    lemma_told(raw, RecordField::Epoch);
    lemma_told(raw, RecordField::StartToken);
    lemma_told(raw, RecordField::Executable);
    lemma_told(raw, RecordField::RuntimeConfig);
    lemma_unsigned_bounded(value_of(fields, "pid"@)->0, u32::MAX as nat);
    lemma_unsigned_bounded(value_of(fields, "epoch"@)->0, u64::MAX as nat);
    lemma_unsigned_bounded(value_of(fields, "start-token"@)->0, u64::MAX as nat);
}

proof fn lemma_unsigned_bounded(value: Seq<char>, max: nat)
    ensures
        text::unsigned_value(value, max) matches Some(n) ==> n <= max,
{
}

/// No record says anything twice.
pub proof fn law_repeated_fields_are_refused(raw: Seq<char>, i: int, j: int)
    requires
        0 <= i < j < text::lines_of(raw).len(),
        text::split_once(text::lines_of(raw)[i], "="@) matches Some(a) && text::split_once(
            text::lines_of(raw)[j],
            "="@,
        ) matches Some(b) && a.0 == b.0,
    ensures
        decoded(raw) is Err,
{
    let lines = text::lines_of(raw);
    if field_list(lines) is Ok {
        lemma_field_list_lines(lines);
        let fields = field_list(lines)->Ok_0;
        assert(text::split_once(lines[i], "="@) == Some(fields[i]));
        assert(text::split_once(lines[j], "="@) == Some(fields[j]));
    }
}

} // verus!
