//! Levels and tokens that several line formats share.

use vstd::prelude::*;
use vstd::string::*;

use crate::metadata::log::LogLevel;
use crate::text;
use crate::text::{chars, collect, find_whitespace, skip_whitespace, str_eq};

verus! {

/// The level that a word stands for.
pub open spec fn level_of(word: Seq<char>) -> Option<LogLevel> {
    if word == "trace"@ || word == "TRC"@ || word == "TRACE"@ {
        Some(LogLevel::Trace)
    } else if word == "debug"@ || word == "DBG"@ || word == "DEBUG"@ {
        Some(LogLevel::Debug)
    } else if word == "info"@ || word == "INF"@ || word == "INFO"@ || word == "???"@ {
        Some(LogLevel::Info)
    } else if word == "warn"@ || word == "warning"@ || word == "WRN"@ || word == "WARN"@ {
        Some(LogLevel::Warning)
    } else if word == "error"@ || word == "ERR"@ || word == "ERROR"@ {
        Some(LogLevel::Error)
    } else if word == "fatal"@ || word == "panic"@ || word == "FTL"@ || word == "PNC"@ {
        Some(LogLevel::Fatal)
    } else {
        None
    }
}

pub fn parse_level(level: &str) -> (r: Option<LogLevel>)
    ensures
        r == level_of(level@),
{
    if str_eq(level, "trace") || str_eq(level, "TRC") || str_eq(level, "TRACE") {
        Some(LogLevel::Trace)
    } else if str_eq(level, "debug") || str_eq(level, "DBG") || str_eq(level, "DEBUG") {
        Some(LogLevel::Debug)
    } else if str_eq(level, "info") || str_eq(level, "INF") || str_eq(level, "INFO") || str_eq(
        level,
        "???",
    ) {
        Some(LogLevel::Info)
    } else if str_eq(level, "warn") || str_eq(level, "warning") || str_eq(level, "WRN") || str_eq(
        level,
        "WARN",
    ) {
        Some(LogLevel::Warning)
    } else if str_eq(level, "error") || str_eq(level, "ERR") || str_eq(level, "ERROR") {
        Some(LogLevel::Error)
    } else if str_eq(level, "fatal") || str_eq(level, "panic") || str_eq(level, "FTL") || str_eq(
        level,
        "PNC",
    ) {
        Some(LogLevel::Fatal)
    } else {
        None
    }
}

/// The first word of a text and what follows it, without the white space
/// around it. The word must end before the text does.
pub open spec fn first_token(input: Seq<char>) -> Option<(Seq<char>, Seq<char>)> {
    let body = text::trimmed_start(input);
    let end = text::first_where(body, 0, text::space());
    if end < body.len() {
        Some(
            (
                body.subrange(0, end),
                text::trimmed_start(body.subrange(end, body.len() as int)),
            ),
        )
    } else {
        None
    }
}

pub fn take_token(input: &str) -> (r: Option<(String, String)>)
    ensures
        match r {
            Some(t) => first_token(input@) == Some((t.0@, t.1@)),
            None => first_token(input@) is None,
        },
{
    let all = chars(input);
    let start = skip_whitespace(&all, 0);
    let body = chars(collect(&all, start, all.len()).as_str());
    let end = find_whitespace(&body, 0);
    if end < body.len() {
        let rest = chars(collect(&body, end, body.len()).as_str());
        let next = skip_whitespace(&rest, 0);
        Some((collect(&body, 0, end), collect(&rest, next, rest.len())))
    } else {
        None
    }
}

/// The words that the families print for a level: in lower case, as three capitals,
/// and in capitals.
pub open spec fn level_words(level: LogLevel) -> (Seq<char>, Seq<char>, Seq<char>) {
    match level {
        LogLevel::Trace => ("trace"@, "TRC"@, "TRACE"@),
        LogLevel::Debug => ("debug"@, "DBG"@, "DEBUG"@),
        LogLevel::Info => ("info"@, "INF"@, "INFO"@),
        LogLevel::Warning => ("warning"@, "WRN"@, "WARN"@),
        LogLevel::Error => ("error"@, "ERR"@, "ERROR"@),
        LogLevel::Fatal => ("fatal"@, "FTL"@, "PNC"@),
    }
}

/// Every level is read from each of its words.
pub proof fn law_levels_are_read_from_their_words(level: LogLevel)
    ensures
        level_of(level_words(level).0) == Some(level),
        level_of(level_words(level).1) == Some(level),
        level_of(level_words(level).2) == Some(level),
{
    reveal_strlit("trace");
    reveal_strlit("TRC");
    reveal_strlit("TRACE");
    reveal_strlit("debug");
    reveal_strlit("DBG");
    reveal_strlit("DEBUG");
    reveal_strlit("info");
    reveal_strlit("INF");
    reveal_strlit("INFO");
    reveal_strlit("???");
    reveal_strlit("warn");
    reveal_strlit("warning");
    reveal_strlit("WRN");
    reveal_strlit("WARN");
    reveal_strlit("error");
    reveal_strlit("ERR");
    reveal_strlit("ERROR");
    reveal_strlit("fatal");
    reveal_strlit("panic");
    reveal_strlit("FTL");
    reveal_strlit("PNC");
    assert("trace"@.len() == 5 && "trace"@[0] == 't' && "trace"@[1] == 'r' && "trace"@[2] == 'a');
    assert("TRC"@.len() == 3 && "TRC"@[0] == 'T' && "TRC"@[1] == 'R' && "TRC"@[2] == 'C');
    assert("TRACE"@.len() == 5 && "TRACE"@[0] == 'T' && "TRACE"@[1] == 'R' && "TRACE"@[2] == 'A');
    assert("debug"@.len() == 5 && "debug"@[0] == 'd' && "debug"@[1] == 'e' && "debug"@[2] == 'b');
    assert("DBG"@.len() == 3 && "DBG"@[0] == 'D' && "DBG"@[1] == 'B' && "DBG"@[2] == 'G');
    assert("DEBUG"@.len() == 5 && "DEBUG"@[0] == 'D' && "DEBUG"@[1] == 'E' && "DEBUG"@[2] == 'B');
    assert("info"@.len() == 4 && "info"@[0] == 'i' && "info"@[1] == 'n' && "info"@[2] == 'f');
    assert("INF"@.len() == 3 && "INF"@[0] == 'I' && "INF"@[1] == 'N' && "INF"@[2] == 'F');
    assert("INFO"@.len() == 4 && "INFO"@[0] == 'I' && "INFO"@[1] == 'N' && "INFO"@[2] == 'F');
    assert("???"@.len() == 3 && "???"@[0] == '?' && "???"@[1] == '?' && "???"@[2] == '?');
    assert("warn"@.len() == 4 && "warn"@[0] == 'w' && "warn"@[1] == 'a' && "warn"@[2] == 'r');
    assert("warning"@.len() == 7 && "warning"@[0] == 'w' && "warning"@[1] == 'a' && "warning"@[2] == 'r');
    assert("WRN"@.len() == 3 && "WRN"@[0] == 'W' && "WRN"@[1] == 'R' && "WRN"@[2] == 'N');
    assert("WARN"@.len() == 4 && "WARN"@[0] == 'W' && "WARN"@[1] == 'A' && "WARN"@[2] == 'R');
    assert("error"@.len() == 5 && "error"@[0] == 'e' && "error"@[1] == 'r' && "error"@[2] == 'r');
    assert("ERR"@.len() == 3 && "ERR"@[0] == 'E' && "ERR"@[1] == 'R' && "ERR"@[2] == 'R');
    assert("ERROR"@.len() == 5 && "ERROR"@[0] == 'E' && "ERROR"@[1] == 'R' && "ERROR"@[2] == 'R');
    assert("fatal"@.len() == 5 && "fatal"@[0] == 'f' && "fatal"@[1] == 'a' && "fatal"@[2] == 't');
    assert("panic"@.len() == 5 && "panic"@[0] == 'p' && "panic"@[1] == 'a' && "panic"@[2] == 'n');
    assert("FTL"@.len() == 3 && "FTL"@[0] == 'F' && "FTL"@[1] == 'T' && "FTL"@[2] == 'L');
    assert("PNC"@.len() == 3 && "PNC"@[0] == 'P' && "PNC"@[1] == 'N' && "PNC"@[2] == 'C');
}

/// A word and what follows it after a blank are told apart.
pub proof fn law_words_are_taken_off(word: Seq<char>, rest: Seq<char>)
    requires
        word.len() > 0,
        forall|i: int| 0 <= i < word.len() ==> !text::is_space(#[trigger] word[i]),
        rest.len() > 0,
        !text::is_space(rest[0]),
    ensures
        first_token(word + seq![' '] + rest) == Some((word, rest)),
        first_token(seq![' '] + (word + seq![' '] + rest)) == Some((word, rest)),
{
    let s = word + seq![' '] + rest;
    let n = word.len() as int;
    assert(text::is_space(' '));
    assert(s[0] == word[0]);
    text::lemma_first_where(s, 0, text::not_space(), 0);
    assert(text::trimmed_start(s) =~= s);
    assert forall|j: int| 0 <= j < n implies !text::space()(#[trigger] s[j]) by {
        assert(s[j] == word[j]);
    }
    assert(s[n] == ' ');
    text::lemma_first_where(s, 0, text::space(), n);
    let tail = s.subrange(n, s.len() as int);
    assert(tail =~= seq![' '] + rest);
    assert(tail[0] == ' ' && tail[1] == rest[0]);
    text::lemma_first_where(tail, 0, text::not_space(), 1);
    assert(text::trimmed_start(tail) =~= rest);
    assert(s.subrange(0, n) =~= word);
    let t = seq![' '] + s;
    assert(t[0] == ' ' && t[1] == s[0]);
    text::lemma_first_where(t, 0, text::not_space(), 1);
    assert(text::trimmed_start(t) =~= s);
}

} // verus!
