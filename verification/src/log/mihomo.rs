//! Lines in `logfmt`: `key=value` pairs with quoted values.

use vstd::prelude::*;
use vstd::string::*;

use crate::log::clock;
use crate::log::common;
use crate::log::common::parse_level;
use crate::log::clock::parse_rfc3339_ms;
use crate::log::frame;
use crate::log::frame::StampView;
use crate::log::line::{ParsedLine, ParsedView};
use crate::metadata::log::{LogField, LogLevel, LogTimestamp};
use crate::text;
use crate::text::{
    chars, collect, find_ascii_whitespace, is_ascii_whitespace, skip_ascii_whitespace, str_eq,
};

verus! {

/// A character at which a key ends: `=` or white space.
pub open spec fn key_stop() -> spec_fn(char) -> bool {
    |c: char| c == '=' || text::is_ascii_space(c)
}

/// What an escaped character stands for.
pub open spec fn unescaped(c: char) -> Seq<char> {
    if c == '"' || c == '\\' {
        seq![c]
    } else if c == 'n' {
        seq!['\n']
    } else if c == 'r' {
        seq!['\r']
    } else if c == 't' {
        seq!['\t']
    } else {
        seq!['\\', c]
    }
}

pub open spec fn led_by(pre: Seq<char>, rest: Option<(Seq<char>, int)>) -> Option<
    (Seq<char>, int),
> {
    match rest {
        Some((value, end)) => Some((pre + value, end)),
        None => None,
    }
}

/// A quoted value whose opening quote stands before `i`, and the place after
/// its closing quote.
pub open spec fn quoted(s: Seq<char>, i: int) -> Option<(Seq<char>, int)>
    decreases s.len() - i,
{
    if i >= s.len() {
        None
    } else if s[i] == '"' {
        Some((Seq::empty(), i + 1))
    } else if s[i] == '\\' {
        if i + 1 >= s.len() {
            None
        } else {
            led_by(unescaped(s[i + 1]), quoted(s, i + 2))
        }
    } else {
        led_by(seq![s[i]], quoted(s, i + 1))
    }
}

/// The value that starts at `i`, and where it ends.
pub open spec fn value_at(s: Seq<char>, i: int) -> Option<(Seq<char>, int)> {
    if i < s.len() && s[i] == '"' {
        match quoted(s, i + 1) {
            Some((value, end)) => if end < s.len() && !text::is_ascii_space(s[end]) {
                None
            } else {
                Some((value, end))
            },
            None => None,
        }
    } else {
        let end = text::first_where(s, i, text::ascii_space());
        Some((s.subrange(i, end), end))
    }
}

/// The pairs written from `i` on.
pub open spec fn pairs(s: Seq<char>, i: int) -> Option<Seq<(Seq<char>, Seq<char>)>>
    decreases s.len() - i,
    when 0 <= i <= s.len()
{
    let start = text::first_where(s, i, text::not_ascii_space());
    let stop = text::first_where(s, start, key_stop());
    proof {
        lemma_value_at_end(s, i);
    }
    if start == s.len() {
        Some(Seq::empty())
    } else if stop == start || stop == s.len() || s[stop] != '=' {
        None
    } else {
        match value_at(s, stop + 1) {
            None => None,
            Some((value, end)) => match pairs(s, end) {
                None => None,
                Some(rest) => Some(seq![(s.subrange(start, stop), value)] + rest),
            },
        }
    }
}

/// A value ends after the key that it follows, and within the text.
pub proof fn lemma_value_at_end(s: Seq<char>, i: int)
    requires
        0 <= i <= s.len(),
    ensures
        ({
            let start = text::first_where(s, i, text::not_ascii_space());
            let stop = text::first_where(s, start, key_stop());
            &&& i <= start <= stop <= s.len()
            &&& stop < s.len() ==> (value_at(s, stop + 1) matches Some((value, end)) ==> stop < end
                <= s.len())
        }),
{
    let start = text::first_where(s, i, text::not_ascii_space());
    text::lemma_first_where_bounds(s, i, text::not_ascii_space());
    let stop = text::first_where(s, start, key_stop());
    text::lemma_first_where_bounds(s, start, key_stop());
    if stop < s.len() {
        lemma_quoted_end(s, stop + 2);
        text::lemma_first_where_bounds(s, stop + 1, text::ascii_space());
    }
}

proof fn lemma_quoted_end(s: Seq<char>, i: int)
    requires
        0 <= i,
    ensures
        quoted(s, i) matches Some((value, end)) ==> i < end <= s.len(),
    decreases s.len() - i,
{
    if i < s.len() && s[i] != '"' {
        if s[i] == '\\' {
            if i + 1 < s.len() {
                lemma_quoted_end(s, i + 2);
            }
        } else {
            lemma_quoted_end(s, i + 1);
        }
    }
}

fn find_key_stop(cs: &[char], from: usize) -> (r: usize)
    requires
        from <= cs@.len(),
    ensures
        r == text::first_where(cs@, from as int, key_stop()),
        from <= r <= cs@.len(),
{
    let mut i: usize = from;
    while i < cs.len()
        invariant
            from <= i <= cs@.len(),
            forall|j: int| from <= j < i ==> !key_stop()(#[trigger] cs@[j]),
        decreases cs@.len() - i,
    {
        if cs[i] == '=' || is_ascii_whitespace(cs[i]) {
            proof {
                text::lemma_first_where(cs@, from as int, key_stop(), i as int);
            }
            return i;
        }
        i += 1;
    }
    proof {
        text::lemma_first_where(cs@, from as int, key_stop(), i as int);
    }
    i
}

fn scan_quoted(cs: &[char], from: usize) -> (r: Option<(String, usize)>)
    requires
        from <= cs@.len(),
    ensures
        match r {
            Some(t) => quoted(cs@, from as int) == Some((t.0@, t.1 as int)) && from < t.1
                <= cs@.len(),
            None => quoted(cs@, from as int) is None,
        },
{
    let mut out = String::new();
    let mut i: usize = from;
    let ghost whole = quoted(cs@, from as int);
    proof {
        if whole is Some {
            let (v, e) = whole->0;
            assert(Seq::<char>::empty() + v =~= v);
        }
    }
    while i < cs.len()
        invariant
            from <= i <= cs@.len(),
            whole == quoted(cs@, from as int),
            whole == led_by(out@, quoted(cs@, i as int)),
        decreases cs@.len() - i,
    {
        let c = cs[i];
        let ghost before = out@;
        if c == '"' {
            assert(out@ + Seq::<char>::empty() =~= out@);
            return Some((out, i + 1));
        }
        if c == '\\' {
            if i + 1 >= cs.len() {
                return None;
            }
            let e = cs[i + 1];
            if e == '"' || e == '\\' {
                out.push(e);
            } else if e == 'n' {
                out.push('\n');
            } else if e == 'r' {
                out.push('\r');
            } else if e == 't' {
                out.push('\t');
            } else {
                out.push('\\');
                out.push(e);
            }
            proof {
                assert(out@ =~= before + unescaped(e));
                let next = quoted(cs@, i + 2);
                if next is Some {
                    let (v, end) = next->0;
                    assert(before + (unescaped(e) + v) =~= out@ + v);
                }
            }
            i += 2;
        } else {
            out.push(c);
            proof {
                let next = quoted(cs@, i + 1);
                if next is Some {
                    let (v, end) = next->0;
                    assert(before + (seq![c] + v) =~= out@ + v);
                }
            }
            i += 1;
        }
    }
    None
}

/// The keys and values of a list of pairs.
pub open spec fn pair_views(items: Seq<(String, String)>) -> Seq<(Seq<char>, Seq<char>)> {
    Seq::new(items.len(), |i: int| (items[i].0@, items[i].1@))
}

/// The `key=value` pairs of a line, where it consists of such pairs only.
pub fn scan_logfmt(line: &str) -> (r: Option<Vec<(String, String)>>)
    ensures
        match r {
            Some(fields) => pairs(line@, 0) == Some(pair_views(fields@)),
            None => pairs(line@, 0) is None,
        },
{
    let cs = chars(line);
    let mut fields: Vec<(String, String)> = Vec::new();
    let mut i: usize = 0;
    let ghost whole = pairs(line@, 0);
    assert(pair_views(fields@) =~= Seq::empty());
    proof {
        if whole is Some {
            assert(pair_views(fields@) + whole->0 =~= whole->0);
        }
    }
    loop
        invariant
            cs@ == line@,
            i <= cs@.len(),
            whole == pairs(line@, 0),
            whole == (match pairs(cs@, i as int) {
                Some(rest) => Some(pair_views(fields@) + rest),
                None => None,
            }),
        decreases cs@.len() - i,
    {
        let start = skip_ascii_whitespace(&cs, i);
        if start == cs.len() {
            proof {
                text::lemma_first_where_bounds(cs@, start as int, key_stop());
                assert(pair_views(fields@) + Seq::empty() =~= pair_views(fields@));
            }
            return Some(fields);
        }
        let stop = find_key_stop(&cs, start);
        if stop == start || stop == cs.len() || cs[stop] != '=' {
            return None;
        }
        let key = collect(&cs, start, stop);
        let value_start: usize = stop + 1;
        let (value, end) = if value_start < cs.len() && cs[value_start] == '"' {
            match scan_quoted(&cs, value_start + 1) {
                Some((value, end)) => {
                    if end < cs.len() && !is_ascii_whitespace(cs[end]) {
                        return None;
                    }
                    (value, end)
                },
                None => {
                    return None;
                },
            }
        } else {
            let end = find_ascii_whitespace(&cs, value_start);
            (collect(&cs, value_start, end), end)
        };
        assert(value_at(cs@, stop + 1) == Some((value@, end as int)));
        let ghost before = fields@;
        let ghost pair = (key@, value@);
        fields.push((key, value));
        proof {
            assert(pair_views(fields@) =~= pair_views(before).push(pair));
            let rest = pairs(cs@, end as int);
            if rest is Some {
                assert(pair_views(before) + (seq![pair] + rest->0) =~= pair_views(fields@)
                    + rest->0);
            }
        }
        i = end;
    }
}

// ---------------------------------------------------------------------------
// The line
// ---------------------------------------------------------------------------

/// The value under the last pair with this key.
pub open spec fn last_value(items: Seq<(Seq<char>, Seq<char>)>, key: Seq<char>) -> Option<
    Seq<char>,
>
    decreases items.len(),
{
    if items.len() == 0 {
        None
    } else if items.last().0 == key {
        Some(items.last().1)
    } else {
        last_value(items.drop_last(), key)
    }
}

/// The pairs that are neither time, level nor message, in order.
pub open spec fn other_pairs(items: Seq<(Seq<char>, Seq<char>)>) -> Seq<(Seq<char>, Seq<char>)>
    decreases items.len(),
{
    if items.len() == 0 {
        items
    } else {
        let rest = other_pairs(items.drop_last());
        let key = items.last().0;
        if key == "time"@ || key == "level"@ || key == "msg"@ {
            rest
        } else {
            rest.push(items.last())
        }
    }
}

/// What a `logfmt` line says: it needs a time, a level that is known, and a
/// message.
pub open spec fn mihomo_line(line: Seq<char>) -> Option<ParsedView> {
    match pairs(line, 0) {
        None => None,
        Some(items) => {
            let level = match last_value(items, "level"@) {
                Some(word) => common::level_of(word),
                None => None,
            };
            match (last_value(items, "time"@), level, last_value(items, "msg"@)) {
                (Some(time), Some(level), Some(message)) => Some(
                    ParsedView {
                        timestamp: Some(
                            StampView {
                                raw: time,
                                unix_ms: clock::rfc3339_ms(time),
                                inferred: false,
                            },
                        ),
                        level,
                        target: None,
                        message,
                        fields: other_pairs(items),
                    },
                ),
                _ => None,
            }
        },
    }
}

proof fn lemma_header_keys()
    ensures
        "time"@ != "level"@,
        "time"@ != "msg"@,
        "level"@ != "msg"@,
{
    reveal_strlit("time");
    reveal_strlit("level");
    reveal_strlit("msg");
    assert("time"@.len() == 4);
    assert("level"@.len() == 5);
    assert("msg"@.len() == 3);
}

pub fn parse(line: &str) -> (r: Option<ParsedLine>)
    ensures
        match r {
            Some(p) => mihomo_line(line@) == Some(p@),
            None => mihomo_line(line@) is None,
        },
{
    let items = match scan_logfmt(line) {
        Some(items) => items,
        None => {
            return None;
        },
    };
    let ghost all = pair_views(items@);
    let mut time: Option<String> = None;
    let mut level: Option<LogLevel> = None;
    let mut message: Option<String> = None;
    let mut fields: Vec<LogField> = Vec::new();
    let mut i: usize = 0;
    proof {
        lemma_header_keys();
        assert(all.take(0) =~= Seq::empty());
        assert(frame::field_views(fields@) =~= Seq::empty());
    }
    while i < items.len()
        invariant
            i <= items@.len(),
            all == pair_views(items@),
            "time"@ != "level"@,
            "time"@ != "msg"@,
            "level"@ != "msg"@,
            frame::text_view(time) == last_value(all.take(i as int), "time"@),
            frame::text_view(message) == last_value(all.take(i as int), "msg"@),
            level == (match last_value(all.take(i as int), "level"@) {
                Some(word) => common::level_of(word),
                None => None,
            }),
            frame::field_views(fields@) == other_pairs(all.take(i as int)),
        decreases items@.len() - i,
    {
        let key = items[i].0.clone();
        let value = items[i].1.clone();
        proof {
            assert(all.take(i + 1).drop_last() =~= all.take(i as int));
            assert(all.take(i + 1).last() == (key@, value@));
        }
        if str_eq(key.as_str(), "time") {
            time = Some(value);
        } else if str_eq(key.as_str(), "level") {
            level = parse_level(value.as_str());
        } else if str_eq(key.as_str(), "msg") {
            message = Some(value);
        } else {
            let ghost before = fields@;
            let ghost pair = (key@, value@);
            fields.push(LogField { key, value });
            assert(frame::field_views(fields@) =~= frame::field_views(before).push(pair));
        }
        i += 1;
    }
    assert(all.take(i as int) =~= all);
    match (time, level, message) {
        (Some(time), Some(level), Some(message)) => {
            let unix_ms = parse_rfc3339_ms(time.as_str());
            Some(
                ParsedLine {
                    timestamp: Some(LogTimestamp { raw: time, unix_ms, inferred: false }),
                    level,
                    target: None,
                    message,
                    fields,
                },
            )
        },
        _ => None,
    }
}

// ---------------------------------------------------------------------------
// Reading back what was written
// ---------------------------------------------------------------------------

/// A character as it is written between quotes.
pub open spec fn escaped(c: char) -> Seq<char> {
    if c == '"' || c == '\\' {
        seq!['\\', c]
    } else if c == '\n' {
        seq!['\\', 'n']
    } else if c == '\r' {
        seq!['\\', 'r']
    } else if c == '\t' {
        seq!['\\', 't']
    } else {
        seq![c]
    }
}

/// A value as it is written between quotes.
pub open spec fn escaped_text(value: Seq<char>) -> Seq<char>
    decreases value.len(),
{
    if value.len() == 0 {
        value
    } else {
        escaped(value[0]) + escaped_text(value.drop_first())
    }
}

/// A pair as it is written, with its value between quotes.
pub open spec fn written_pair(pair: (Seq<char>, Seq<char>)) -> Seq<char> {
    pair.0 + seq!['=', '"'] + escaped_text(pair.1) + seq!['"']
}

/// Pairs as they are written, with blanks between them.
pub open spec fn written(items: Seq<(Seq<char>, Seq<char>)>) -> Seq<char>
    decreases items.len(),
{
    if items.len() == 0 {
        seq![]
    } else if items.len() == 1 {
        written_pair(items[0])
    } else {
        written_pair(items[0]) + seq![' '] + written(items.drop_first())
    }
}

/// A text that can be a key.
pub open spec fn is_key(key: Seq<char>) -> bool {
    key.len() > 0 && forall|i: int|
        0 <= i < key.len() ==> #[trigger] key[i] != '=' && !text::is_ascii_space(key[i])
}

proof fn lemma_quoted_reads_back(pre: Seq<char>, value: Seq<char>, post: Seq<char>)
    ensures
        quoted(pre + escaped_text(value) + seq!['"'] + post, pre.len() as int) == Some(
            (value, pre.len() as int + escaped_text(value).len() + 1),
        ),
    decreases value.len(),
{
    let s = pre + escaped_text(value) + seq!['"'] + post;
    let n = pre.len() as int;
    if value.len() == 0 {
        assert(s[n] == '"');
        assert(value =~= Seq::<char>::empty());
    } else {
        let c = value[0];
        let rest = value.drop_first();
        let head = escaped(c);
        assert(s =~= (pre + head) + escaped_text(rest) + seq!['"'] + post);
        lemma_quoted_reads_back(pre + head, rest, post);
        assert(s[n] == head[0]);
        if head.len() == 2 {
            assert(s[n + 1] == head[1]);
            assert(unescaped(head[1]) =~= seq![c]);
        }
        assert(seq![c] + rest =~= value);
    }
}

proof fn lemma_one_pair(
    pre: Seq<char>,
    gap: Seq<char>,
    key: Seq<char>,
    value: Seq<char>,
    more: Seq<char>,
    s: Seq<char>,
)
    requires
        gap.len() == 0 || gap == seq![' '],
        is_key(key),
        more.len() == 0 || more[0] == ' ',
        s == (pre + gap + key + seq!['=', '"']) + escaped_text(value) + seq!['"'] + more,
    ensures
        ({
            let start = pre.len() as int + gap.len();
            let stop = start + key.len();
            &&& text::first_where(s, pre.len() as int, text::not_ascii_space()) == start
            &&& text::first_where(s, start, key_stop()) == stop
            &&& stop < s.len() && s[stop] == '='
            &&& s.subrange(start, stop) == key
            &&& value_at(s, stop + 1) == Some((value, stop + 3 + escaped_text(value).len()))
        }),
{
    let n = pre.len() as int;
    let start: int = n + gap.len();
    let stop: int = start + key.len();
    let e = escaped_text(value);
    let lead = pre + gap + key + seq!['=', '"'];
    assert(text::is_ascii_space(' '));
    assert forall|j: int| n <= j < start implies !text::not_ascii_space()(#[trigger] s[j]) by {
        assert(s[j] == gap[j - n]);
    }
    assert(s[start] == key[0]);
    assert(!text::is_ascii_space(key[0]));
    text::lemma_first_where(s, n, text::not_ascii_space(), start);
    assert forall|j: int| start <= j < stop implies !key_stop()(#[trigger] s[j]) by {
        assert(s[j] == key[j - start]);
    }
    assert(s[stop] == '=');
    text::lemma_first_where(s, start, key_stop(), stop);
    assert(s[stop + 1] == '"');
    assert(lead.len() == stop + 2);
    lemma_quoted_reads_back(lead, value, more);
    let end: int = stop + 3 + e.len();
    assert(quoted(s, stop + 2) == Some((value, end)));
    if end < s.len() {
        assert(s[end] == more[0]);
    }
    assert(s.subrange(start, stop) =~= key);
}

proof fn lemma_pairs_read_back(
    pre: Seq<char>,
    gap: Seq<char>,
    items: Seq<(Seq<char>, Seq<char>)>,
)
    requires
        gap.len() == 0 || gap == seq![' '],
        forall|i: int| 0 <= i < items.len() ==> is_key((#[trigger] items[i]).0),
    ensures
        pairs(pre + gap + written(items), pre.len() as int) == Some(items),
    decreases items.len(),
{
    let s = pre + gap + written(items);
    let n = pre.len() as int;
    if items.len() == 0 {
        assert(text::is_ascii_space(' '));
        assert forall|j: int| n <= j < s.len() implies !text::not_ascii_space()(#[trigger] s[j]) by {
            assert(s[j] == gap[j - n]);
        }
        text::lemma_first_where(s, n, text::not_ascii_space(), s.len() as int);
        lemma_value_at_end(s, n);
        assert(items =~= Seq::empty());
    } else {
        let key = items[0].0;
        let value = items[0].1;
        let rest = items.drop_first();
        let gap2 = if items.len() == 1 {
            Seq::<char>::empty()
        } else {
            seq![' ']
        };
        let more = gap2 + written(rest);
        let e = escaped_text(value);
        let lead = pre + gap + key + seq!['=', '"'];
        lemma_written_splits(items);
        assert(s =~= lead + e + seq!['"'] + more);
        assert(is_key(items[0].0));
        lemma_one_pair(pre, gap, key, value, more, s);
        let stop: int = n + gap.len() + key.len();
        let end: int = stop + 3 + e.len();
        let front = lead + e + seq!['"'];
        assert(front.len() == end);
        assert(s =~= front + gap2 + written(rest));
        assert forall|i: int| 0 <= i < rest.len() implies is_key((#[trigger] rest[i]).0) by {
            assert(rest[i] == items[i + 1]);
        }
        lemma_pairs_read_back(front, gap2, rest);
        lemma_value_at_end(s, n);
        assert(seq![(key, value)] + rest =~= items);
    }
}

proof fn lemma_written_splits(items: Seq<(Seq<char>, Seq<char>)>)
    requires
        items.len() > 0,
    ensures
        written(items) == written_pair(items[0]) + ((if items.len() == 1 {
            Seq::<char>::empty()
        } else {
            seq![' ']
        }) + written(items.drop_first())),
        items.len() == 1 ==> written(items.drop_first()).len() == 0,
{
    if items.len() == 1 {
        assert(written(items.drop_first()) =~= Seq::<char>::empty());
        assert(written_pair(items[0]) + (Seq::<char>::empty() + Seq::<char>::empty())
            =~= written_pair(items[0]));
    } else {
        assert(written_pair(items[0]) + seq![' '] + written(items.drop_first()) =~= written_pair(
            items[0],
        ) + (seq![' '] + written(items.drop_first())));
    }
}

/// Pairs that were written are read back, whatever their values hold.
pub proof fn law_pairs_are_read_back(items: Seq<(Seq<char>, Seq<char>)>)
    requires
        forall|i: int| 0 <= i < items.len() ==> is_key((#[trigger] items[i]).0),
    ensures
        pairs(written(items), 0) == Some(items),
{
    lemma_pairs_read_back(Seq::empty(), Seq::empty(), items);
    assert(Seq::<char>::empty() + Seq::<char>::empty() + written(items) =~= written(items));
}

proof fn lemma_last_value_before(
    head: Seq<(Seq<char>, Seq<char>)>,
    fields: Seq<(Seq<char>, Seq<char>)>,
    key: Seq<char>,
)
    requires
        forall|i: int| 0 <= i < fields.len() ==> (#[trigger] fields[i]).0 != key,
    ensures
        last_value(head + fields, key) == last_value(head, key),
    decreases fields.len(),
{
    if fields.len() == 0 {
        assert(head + fields =~= head);
    } else {
        let init = fields.drop_last();
        assert((head + fields).drop_last() =~= head + init);
        assert(fields[fields.len() - 1] == fields.last());
        assert forall|i: int| 0 <= i < init.len() implies (#[trigger] init[i]).0 != key by {
            assert(init[i] == fields[i]);
        }
        lemma_last_value_before(head, init, key);
    }
}

proof fn lemma_other_pairs_behind(
    head: Seq<(Seq<char>, Seq<char>)>,
    fields: Seq<(Seq<char>, Seq<char>)>,
)
    requires
        other_pairs(head).len() == 0,
        forall|i: int|
            0 <= i < fields.len() ==> (#[trigger] fields[i]).0 != "time"@ && fields[i].0
                != "level"@ && fields[i].0 != "msg"@,
    ensures
        other_pairs(head + fields) == fields,
    decreases fields.len(),
{
    if fields.len() == 0 {
        assert(head + fields =~= head);
        assert(other_pairs(head) =~= fields);
    } else {
        let init = fields.drop_last();
        assert((head + fields).drop_last() =~= head + init);
        assert((head + fields).last() == fields.last());
        assert(fields[fields.len() - 1] == fields.last());
        assert forall|i: int| 0 <= i < init.len() implies (#[trigger] init[i]).0 != "time"@
            && init[i].0 != "level"@ && init[i].0 != "msg"@ by {
            assert(init[i] == fields[i]);
        }
        lemma_other_pairs_behind(head, init);
        assert(init.push(fields.last()) =~= fields);
    }
}

/// A line that gives a time, a level and a message is read as just that, with all its
/// other pairs as fields, in order.
pub proof fn law_lines_are_read_back(
    time: Seq<char>,
    word: Seq<char>,
    message: Seq<char>,
    fields: Seq<(Seq<char>, Seq<char>)>,
)
    requires
        common::level_of(word) is Some,
        forall|i: int|
            0 <= i < fields.len() ==> is_key((#[trigger] fields[i]).0) && fields[i].0 != "time"@
                && fields[i].0 != "level"@ && fields[i].0 != "msg"@,
    ensures
        mihomo_line(
            written(seq![("time"@, time), ("level"@, word), ("msg"@, message)] + fields),
        ) matches Some(p) && {
            &&& p.level == common::level_of(word)->0
            &&& p.message == message
            &&& p.fields == fields
            &&& p.target is None
            &&& p.timestamp matches Some(t) && t.raw == time && !t.inferred && t.unix_ms
                == clock::rfc3339_ms(time)
        },
{
    lemma_header_keys();
    reveal_strlit("time");
    reveal_strlit("level");
    reveal_strlit("msg");
    let head = seq![("time"@, time), ("level"@, word), ("msg"@, message)];
    let items = head + fields;
    assert(is_key("time"@)) by {
        assert("time"@[0] == 't' && "time"@[1] == 'i' && "time"@[2] == 'm' && "time"@[3] == 'e');
    }
    assert(is_key("level"@)) by {
        assert("level"@[0] == 'l' && "level"@[1] == 'e' && "level"@[2] == 'v' && "level"@[3] == 'e'
            && "level"@[4] == 'l');
    }
    assert(is_key("msg"@)) by {
        assert("msg"@[0] == 'm' && "msg"@[1] == 's' && "msg"@[2] == 'g');
    }
    assert forall|i: int| 0 <= i < items.len() implies is_key((#[trigger] items[i]).0) by {
        if i >= 3 {
            assert(items[i] == fields[i - 3]);
        }
    }
    law_pairs_are_read_back(items);
    lemma_last_value_before(head, fields, "time"@);
    lemma_last_value_before(head, fields, "level"@);
    lemma_last_value_before(head, fields, "msg"@);
    let one = seq![("time"@, time)];
    let two = seq![("time"@, time), ("level"@, word)];
    assert(head.drop_last() =~= two);
    assert(two.drop_last() =~= one);
    assert(one.drop_last() =~= Seq::empty());
    reveal_with_fuel(last_value, 4);
    reveal_with_fuel(other_pairs, 4);
    assert(other_pairs(head).len() == 0);
    lemma_other_pairs_behind(head, fields);
}

/// A line without a time, a level that is known, or a message is no header.
pub proof fn law_headers_need_all_three(line: Seq<char>, items: Seq<(Seq<char>, Seq<char>)>)
    requires
        pairs(line, 0) == Some(items),
        last_value(items, "time"@) is None || last_value(items, "level"@) is None || last_value(
            items,
            "msg"@,
        ) is None || common::level_of(last_value(items, "level"@)->0) is None,
    ensures
        mihomo_line(line) is None,
{
}

} // verus!
