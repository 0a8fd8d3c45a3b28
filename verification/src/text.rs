//! Text as sequences of characters: searching, trimming, decimal and
//! hexadecimal notation, and byte lengths.

use vstd::prelude::*;
use vstd::string::*;
use vstd::utf8::*;

verus! {

/// `String::push`: appends one character to the end of the string.
pub assume_specification[ std::string::String::push ](s: &mut std::string::String, ch: char)
    ensures
        final(s)@ == old(s)@.push(ch),
;

// ---------------------------------------------------------------------------
// Character classes
// ---------------------------------------------------------------------------

/// The Unicode `White_Space` property.
pub open spec fn is_space(c: char) -> bool {
    let u = c as u32;
    ||| 0x09 <= u <= 0x0d
    ||| u == 0x20
    ||| u == 0x85
    ||| u == 0xa0
    ||| u == 0x1680
    ||| 0x2000 <= u <= 0x200a
    ||| u == 0x2028
    ||| u == 0x2029
    ||| u == 0x202f
    ||| u == 0x205f
    ||| u == 0x3000
}

/// ASCII white space: space, tab, line feed, form feed and carriage return.
pub open spec fn is_ascii_space(c: char) -> bool {
    let u = c as u32;
    u == 0x20 || u == 0x09 || u == 0x0a || u == 0x0c || u == 0x0d
}

pub open spec fn is_digit(c: char) -> bool {
    '0' <= c <= '9'
}

pub fn is_whitespace(c: char) -> (r: bool)
    ensures
        r == is_space(c),
{
    let u: u32 = c as u32;
    (0x09 <= u && u <= 0x0d) || u == 0x20 || u == 0x85 || u == 0xa0 || u == 0x1680 || (0x2000 <= u
        && u <= 0x200a) || u == 0x2028 || u == 0x2029 || u == 0x202f || u == 0x205f || u == 0x3000
}

pub fn is_ascii_whitespace(c: char) -> (r: bool)
    ensures
        r == is_ascii_space(c),
{
    let u: u32 = c as u32;
    u == 0x20 || u == 0x09 || u == 0x0a || u == 0x0c || u == 0x0d
}

pub fn is_ascii_digit(c: char) -> (r: bool)
    ensures
        r == is_digit(c),
{
    '0' <= c && c <= '9'
}

// ---------------------------------------------------------------------------
// Characters of a string
// ---------------------------------------------------------------------------

/// The characters of a string, in order.
pub fn chars(s: &str) -> (r: Vec<char>)
    ensures
        r@ == s@,
{
    let mut out: Vec<char> = Vec::new();
    for c in it: s.chars()
        invariant
            it.seq() == s@,
            out@ == s@.take(it.index() as int),
    {
        assert(s@.take(it.index() as int + 1) =~= s@.take(it.index() as int).push(c));
        out.push(c);
    }
    assert(out@ =~= s@);
    out
}

/// The string made of the characters `from..to`.
pub fn collect(cs: &[char], from: usize, to: usize) -> (r: String)
    requires
        from <= to <= cs@.len(),
    ensures
        r@ == cs@.subrange(from as int, to as int),
{
    let mut out = String::new();
    let mut i: usize = from;
    while i < to
        invariant
            from <= i <= to <= cs@.len(),
            out@ == cs@.subrange(from as int, i as int),
        decreases to - i,
    {
        assert(cs@.subrange(from as int, i + 1) =~= cs@.subrange(from as int, i as int).push(
            cs@[i as int],
        ));
        out.push(cs[i]);
        i += 1;
    }
    out
}

/// Length in bytes of the UTF-8 form of `s`.
pub open spec fn utf8_len(s: Seq<char>) -> nat {
    encode_utf8(s).len()
}

pub fn byte_len(s: &str) -> (r: usize)
    ensures
        r == utf8_len(s@),
{
    s.as_bytes().len()
}

/// Bytes of the UTF-8 form of one character.
pub open spec fn char_width(c: char) -> nat {
    encode_scalar(c as u32).len()
}

pub fn width_of(c: char) -> (r: usize)
    ensures
        r == char_width(c),
        1 <= r <= 4,
{
    let u: u32 = c as u32;
    if u < 0x80 {
        1
    } else if u < 0x800 {
        2
    } else if u < 0x1_0000 {
        3
    } else {
        4
    }
}

pub proof fn lemma_utf8_len_push(s: Seq<char>, c: char)
    ensures
        utf8_len(s.push(c)) == utf8_len(s) + char_width(c),
    decreases s.len(),
{
    let t = s.push(c);
    if s.len() == 0 {
        assert(t.drop_first() =~= Seq::<char>::empty());
        assert(encode_utf8(Seq::<char>::empty()).len() == 0);
    } else {
        assert(t.drop_first() =~= s.drop_first().push(c));
        lemma_utf8_len_push(s.drop_first(), c);
    }
}

pub proof fn lemma_utf8_len_add(a: Seq<char>, b: Seq<char>)
    ensures
        utf8_len(a + b) == utf8_len(a) + utf8_len(b),
    decreases b.len(),
{
    if b.len() == 0 {
        assert(a + b =~= a);
    } else {
        assert(a + b =~= (a + b.drop_last()).push(b.last()));
        assert(b =~= b.drop_last().push(b.last()));
        lemma_utf8_len_add(a, b.drop_last());
        lemma_utf8_len_push(a + b.drop_last(), b.last());
        lemma_utf8_len_push(b.drop_last(), b.last());
    }
}

/// How many characters from the start of `s` fit into `max` bytes.
pub open spec fn fitting(s: Seq<char>, max: int) -> int
    decreases s.len(),
{
    if s.len() == 0 || char_width(s[0]) > max {
        0
    } else {
        1 + fitting(s.drop_first(), max - char_width(s[0]))
    }
}

/// The longest prefix of `s` of at most `max` bytes.
pub open spec fn clipped(s: Seq<char>, max: int) -> Seq<char> {
    s.take(fitting(s, max))
}

/// A clipped text is a prefix within its limit, and one character more would
/// exceed it.
pub proof fn law_clipped(s: Seq<char>, max: int)
    requires
        0 <= max,
    ensures
        0 <= fitting(s, max) <= s.len(),
        utf8_len(clipped(s, max)) <= max,
        fitting(s, max) < s.len() ==> utf8_len(s.take(fitting(s, max) + 1)) > max,
        utf8_len(s) <= max ==> clipped(s, max) == s,
    decreases s.len(),
{
    if s.len() == 0 || char_width(s[0]) > max {
        assert(clipped(s, max) =~= Seq::<char>::empty());
        assert(encode_utf8(Seq::<char>::empty()).len() == 0);
        if s.len() > 0 {
            lemma_utf8_len_take(s, 1);
            assert(s.take(1).drop_first() =~= Seq::<char>::empty());
        } else {
            assert(clipped(s, max) =~= s);
        }
    } else {
        let rest = s.drop_first();
        let left = max - char_width(s[0]);
        law_clipped(rest, left);
        assert(clipped(s, max).drop_first() =~= clipped(rest, left));
        assert(clipped(s, max)[0] == s[0]);
        if fitting(s, max) < s.len() {
            assert(s.take(fitting(s, max) + 1).drop_first() =~= rest.take(fitting(rest, left) + 1));
        }
        if utf8_len(s) <= max {
            assert(clipped(s, max) =~= s) by {
                assert(clipped(rest, left) == rest);
                assert(fitting(rest, left) == rest.len());
            }
        }
    }
}

proof fn lemma_utf8_len_take(s: Seq<char>, k: int)
    requires
        0 <= k <= s.len(),
    ensures
        utf8_len(s.take(k)) <= utf8_len(s),
{
    assert(s =~= s.take(k) + s.skip(k));
    lemma_utf8_len_add(s.take(k), s.skip(k));
}

/// The longest prefix of `s` of at most `max` bytes.
pub fn clip(s: &str, max: usize) -> (r: String)
    ensures
        r@ == clipped(s@, max as int),
{
    let cs = chars(s);
    let mut out = String::new();
    let mut left: usize = max;
    let mut i: usize = 0;
    assert(s@.skip(0) =~= s@);
    assert(s@.take(0) =~= Seq::<char>::empty());
    while i < cs.len()
        invariant
            i <= cs@.len(),
            cs@ == s@,
            out@ == s@.take(i as int),
            fitting(s@, max as int) == i + fitting(s@.skip(i as int), left as int),
        decreases cs@.len() - i,
    {
        let w = width_of(cs[i]);
        assert(s@.skip(i as int)[0] == s@[i as int]);
        if w > left {
            return out;
        }
        assert(s@.skip(i as int).drop_first() =~= s@.skip(i + 1));
        assert(s@.take(i + 1) =~= s@.take(i as int).push(s@[i as int]));
        out.push(cs[i]);
        left -= w;
        i += 1;
    }
    out
}

/// The character that starts at byte `n`, or the end where `n` is the length
/// in bytes; nothing where `n` falls inside a character or beyond the end.
pub open spec fn byte_index(s: Seq<char>, n: int) -> Option<int>
    decreases s.len(),
{
    if n == 0 {
        Some(0)
    } else if s.len() == 0 || n < char_width(s[0]) {
        None
    } else {
        match byte_index(s.drop_first(), n - char_width(s[0])) {
            Some(k) => Some(k + 1),
            None => None,
        }
    }
}

pub fn char_at_byte(cs: &[char], n: usize) -> (r: Option<usize>)
    ensures
        match r {
            Some(k) => byte_index(cs@, n as int) == Some(k as int) && k <= cs@.len(),
            None => byte_index(cs@, n as int) is None,
        },
{
    let mut left: usize = n;
    let mut i: usize = 0;
    assert(cs@.skip(0) =~= cs@);
    while left > 0
        invariant
            i <= cs@.len(),
            byte_index(cs@, n as int) == (match byte_index(cs@.skip(i as int), left as int) {
                Some(k) => Some(k + i),
                None => None,
            }),
        decreases left,
    {
        if i == cs.len() {
            return None;
        }
        let w = width_of(cs[i]);
        assert(cs@.skip(i as int)[0] == cs@[i as int]);
        if left < w {
            return None;
        }
        assert(cs@.skip(i as int).drop_first() =~= cs@.skip(i + 1));
        left -= w;
        i += 1;
    }
    Some(i)
}

pub fn str_eq(a: &str, b: &str) -> (r: bool)
    ensures
        r == (a@ == b@),
{
    let x = a.as_bytes();
    let y = b.as_bytes();
    proof {
        encode_utf8_decode_utf8(a@);
        encode_utf8_decode_utf8(b@);
    }
    if x.len() != y.len() {
        return false;
    }
    let mut i: usize = 0;
    while i < x.len()
        invariant
            i <= x@.len() == y@.len(),
            x@ == encode_utf8(a@),
            y@ == encode_utf8(b@),
            x@.take(i as int) == y@.take(i as int),
        decreases x@.len() - i,
    {
        if x[i] != y[i] {
            assert(x@ != y@);
            return false;
        }
        assert(x@.take(i + 1) =~= x@.take(i as int).push(x@[i as int]));
        assert(y@.take(i + 1) =~= y@.take(i as int).push(y@[i as int]));
        i += 1;
    }
    assert(x@ =~= x@.take(i as int));
    assert(y@ =~= y@.take(i as int));
    true
}

// ---------------------------------------------------------------------------
// Searching
// ---------------------------------------------------------------------------

/// The least index at or after `from` whose character satisfies `p`, or the
/// length of `s` when there is none.
pub open spec fn first_where(s: Seq<char>, from: int, p: spec_fn(char) -> bool) -> int
    decreases s.len() - from,
{
    if from >= s.len() {
        s.len() as int
    } else if p(s[from]) {
        from
    } else {
        first_where(s, from + 1, p)
    }
}

pub open spec fn space() -> spec_fn(char) -> bool {
    |c: char| is_space(c)
}

pub open spec fn not_space() -> spec_fn(char) -> bool {
    |c: char| !is_space(c)
}

pub open spec fn ascii_space() -> spec_fn(char) -> bool {
    |c: char| is_ascii_space(c)
}

pub open spec fn not_ascii_space() -> spec_fn(char) -> bool {
    |c: char| !is_ascii_space(c)
}

pub open spec fn not_digit() -> spec_fn(char) -> bool {
    |c: char| !is_digit(c)
}

pub open spec fn is_char(ch: char) -> spec_fn(char) -> bool {
    |c: char| c == ch
}

/// `first_where` is determined by its two defining properties.
pub proof fn lemma_first_where(s: Seq<char>, from: int, p: spec_fn(char) -> bool, r: int)
    requires
        0 <= from <= r <= s.len(),
        forall|j: int| from <= j < r ==> !p(#[trigger] s[j]),
        r < s.len() ==> p(s[r]),
    ensures
        first_where(s, from, p) == r,
    decreases r - from,
{
    if from < r {
        assert(!p(s[from]));
        lemma_first_where(s, from + 1, p, r);
    }
}

/// What `first_where` returns is in range, satisfies `p` unless it is the
/// length, and nothing before it does.
pub proof fn lemma_first_where_bounds(s: Seq<char>, from: int, p: spec_fn(char) -> bool)
    requires
        0 <= from <= s.len(),
    ensures
        from <= first_where(s, from, p) <= s.len(),
        forall|j: int| from <= j < first_where(s, from, p) ==> !p(#[trigger] s[j]),
        first_where(s, from, p) < s.len() ==> p(s[first_where(s, from, p)]),
    decreases s.len() - from,
{
    if from < s.len() && !p(s[from]) {
        lemma_first_where_bounds(s, from + 1, p);
    }
}

pub fn find_whitespace(cs: &[char], from: usize) -> (r: usize)
    requires
        from <= cs@.len(),
    ensures
        r == first_where(cs@, from as int, space()),
        from <= r <= cs@.len(),
        r < cs@.len() ==> is_space(cs@[r as int]),
{
    let mut i: usize = from;
    while i < cs.len()
        invariant
            from <= i <= cs@.len(),
            forall|j: int| from <= j < i ==> !is_space(#[trigger] cs@[j]),
        decreases cs@.len() - i,
    {
        if is_whitespace(cs[i]) {
            proof {
                lemma_first_where(cs@, from as int, space(), i as int);
            }
            return i;
        }
        i += 1;
    }
    proof {
        lemma_first_where(cs@, from as int, space(), i as int);
    }
    i
}

pub fn skip_whitespace(cs: &[char], from: usize) -> (r: usize)
    requires
        from <= cs@.len(),
    ensures
        r == first_where(cs@, from as int, not_space()),
        from <= r <= cs@.len(),
{
    let mut i: usize = from;
    while i < cs.len()
        invariant
            from <= i <= cs@.len(),
            forall|j: int| from <= j < i ==> is_space(#[trigger] cs@[j]),
        decreases cs@.len() - i,
    {
        if !is_whitespace(cs[i]) {
            proof {
                lemma_first_where(cs@, from as int, not_space(), i as int);
            }
            return i;
        }
        i += 1;
    }
    proof {
        lemma_first_where(cs@, from as int, not_space(), i as int);
    }
    i
}

pub fn find_ascii_whitespace(cs: &[char], from: usize) -> (r: usize)
    requires
        from <= cs@.len(),
    ensures
        r == first_where(cs@, from as int, ascii_space()),
        from <= r <= cs@.len(),
{
    let mut i: usize = from;
    while i < cs.len()
        invariant
            from <= i <= cs@.len(),
            forall|j: int| from <= j < i ==> !is_ascii_space(#[trigger] cs@[j]),
        decreases cs@.len() - i,
    {
        if is_ascii_whitespace(cs[i]) {
            proof {
                lemma_first_where(cs@, from as int, ascii_space(), i as int);
            }
            return i;
        }
        i += 1;
    }
    proof {
        lemma_first_where(cs@, from as int, ascii_space(), i as int);
    }
    i
}

pub fn skip_ascii_whitespace(cs: &[char], from: usize) -> (r: usize)
    requires
        from <= cs@.len(),
    ensures
        r == first_where(cs@, from as int, not_ascii_space()),
        from <= r <= cs@.len(),
{
    let mut i: usize = from;
    while i < cs.len()
        invariant
            from <= i <= cs@.len(),
            forall|j: int| from <= j < i ==> is_ascii_space(#[trigger] cs@[j]),
        decreases cs@.len() - i,
    {
        if !is_ascii_whitespace(cs[i]) {
            proof {
                lemma_first_where(cs@, from as int, not_ascii_space(), i as int);
            }
            return i;
        }
        i += 1;
    }
    proof {
        lemma_first_where(cs@, from as int, not_ascii_space(), i as int);
    }
    i
}

pub fn skip_digits(cs: &[char], from: usize) -> (r: usize)
    requires
        from <= cs@.len(),
    ensures
        r == first_where(cs@, from as int, not_digit()),
        from <= r <= cs@.len(),
{
    let mut i: usize = from;
    while i < cs.len()
        invariant
            from <= i <= cs@.len(),
            forall|j: int| from <= j < i ==> is_digit(#[trigger] cs@[j]),
        decreases cs@.len() - i,
    {
        if !is_ascii_digit(cs[i]) {
            proof {
                lemma_first_where(cs@, from as int, not_digit(), i as int);
            }
            return i;
        }
        i += 1;
    }
    proof {
        lemma_first_where(cs@, from as int, not_digit(), i as int);
    }
    i
}

pub fn find_char(cs: &[char], from: usize, ch: char) -> (r: usize)
    requires
        from <= cs@.len(),
    ensures
        r == first_where(cs@, from as int, is_char(ch)),
        from <= r <= cs@.len(),
        r < cs@.len() ==> cs@[r as int] == ch,
{
    let mut i: usize = from;
    while i < cs.len()
        invariant
            from <= i <= cs@.len(),
            forall|j: int| from <= j < i ==> #[trigger] cs@[j] != ch,
        decreases cs@.len() - i,
    {
        if cs[i] == ch {
            proof {
                lemma_first_where(cs@, from as int, is_char(ch), i as int);
            }
            return i;
        }
        i += 1;
    }
    proof {
        lemma_first_where(cs@, from as int, is_char(ch), i as int);
    }
    i
}

/// The last index before `end` whose character satisfies `p`, or -1.
pub open spec fn last_where(s: Seq<char>, end: int, p: spec_fn(char) -> bool) -> int
    decreases end,
{
    if end <= 0 {
        -1
    } else if p(s[end - 1]) {
        end - 1
    } else {
        last_where(s, end - 1, p)
    }
}

pub proof fn lemma_last_where_bounds(s: Seq<char>, end: int, p: spec_fn(char) -> bool)
    requires
        0 <= end <= s.len(),
    ensures
        -1 <= last_where(s, end, p) < end || end == 0,
        last_where(s, end, p) >= 0 ==> p(s[last_where(s, end, p)]),
    decreases end,
{
    if end > 0 && !p(s[end - 1]) {
        lemma_last_where_bounds(s, end - 1, p);
    }
}

pub fn rfind_char(cs: &[char], end: usize, ch: char) -> (r: Option<usize>)
    requires
        end <= cs@.len(),
    ensures
        match r {
            Some(i) => last_where(cs@, end as int, is_char(ch)) == i && i < end,
            None => last_where(cs@, end as int, is_char(ch)) == -1,
        },
{
    let mut i: usize = end;
    while i > 0
        invariant
            i <= end <= cs@.len(),
            last_where(cs@, end as int, is_char(ch)) == last_where(cs@, i as int, is_char(ch)),
        decreases i,
    {
        if cs[i - 1] == ch {
            return Some(i - 1);
        }
        i -= 1;
    }
    None
}

pub fn rfind_whitespace(cs: &[char], end: usize) -> (r: Option<usize>)
    requires
        end <= cs@.len(),
    ensures
        match r {
            Some(i) => last_where(cs@, end as int, space()) == i && i < end,
            None => last_where(cs@, end as int, space()) == -1,
        },
{
    let mut i: usize = end;
    while i > 0
        invariant
            i <= end <= cs@.len(),
            last_where(cs@, end as int, space()) == last_where(cs@, i as int, space()),
        decreases i,
    {
        if is_whitespace(cs[i - 1]) {
            return Some(i - 1);
        }
        i -= 1;
    }
    None
}

/// `pat` occurs in `s` at index `i`.
pub open spec fn matches_at(s: Seq<char>, pat: Seq<char>, i: int) -> bool {
    0 <= i && i + pat.len() <= s.len() && s.subrange(i, i + pat.len()) == pat
}

/// The first occurrence of `pat` at or after `from`.
pub open spec fn find_sub(s: Seq<char>, pat: Seq<char>, from: int) -> Option<int>
    decreases s.len() - from + 1,
{
    if from + pat.len() > s.len() {
        None
    } else if matches_at(s, pat, from) {
        Some(from)
    } else {
        find_sub(s, pat, from + 1)
    }
}

pub open spec fn contains_sub(s: Seq<char>, pat: Seq<char>) -> bool {
    find_sub(s, pat, 0) is Some
}

/// The text before and after the first occurrence of `pat`.
pub open spec fn split_once(s: Seq<char>, pat: Seq<char>) -> Option<(Seq<char>, Seq<char>)> {
    match find_sub(s, pat, 0) {
        Some(i) => Some((s.subrange(0, i), s.subrange(i + pat.len(), s.len() as int))),
        None => None,
    }
}

pub proof fn lemma_find_sub_bounds(s: Seq<char>, pat: Seq<char>, from: int)
    requires
        0 <= from,
    ensures
        match find_sub(s, pat, from) {
            Some(i) => from <= i && matches_at(s, pat, i) && (forall|j: int|
                from <= j < i ==> !#[trigger] matches_at(s, pat, j)),
            None => forall|j: int| from <= j ==> !#[trigger] matches_at(s, pat, j),
        },
    decreases s.len() - from + 1,
{
    if from + pat.len() <= s.len() && !matches_at(s, pat, from) {
        lemma_find_sub_bounds(s, pat, from + 1);
    }
}

/// The first occurrence of a single character.
pub proof fn lemma_find_one(s: Seq<char>, pat: Seq<char>, from: int, n: int)
    requires
        pat.len() == 1,
        0 <= from <= n < s.len(),
        s[n] == pat[0],
        forall|j: int| from <= j < n ==> #[trigger] s[j] != pat[0],
    ensures
        find_sub(s, pat, from) == Some(n),
    decreases n - from,
{
    assert(s.subrange(from, from + 1)[0] == s[from]);
    if from < n {
        assert(!matches_at(s, pat, from));
        lemma_find_one(s, pat, from + 1, n);
    } else {
        assert(s.subrange(from, from + 1) =~= pat);
    }
}

/// Whether `pat` occurs at index `i`.
pub fn match_at(cs: &[char], pat: &[char], i: usize) -> (r: bool)
    requires
        i <= cs@.len(),
    ensures
        r == matches_at(cs@, pat@, i as int),
{
    let n: usize = cs.len();
    if n - i < pat.len() {
        return false;
    }
    let mut k: usize = 0;
    while k < pat.len()
        invariant
            k <= pat@.len(),
            i + pat@.len() <= cs@.len() == n,
            cs@.subrange(i as int, i + k) == pat@.take(k as int),
        decreases pat@.len() - k,
    {
        if cs[i + k] != pat[k] {
            proof {
                if cs@.subrange(i as int, i + pat@.len()) == pat@ {
                    assert(cs@.subrange(i as int, i + pat@.len())[k as int] == pat@[k as int]);
                }
            }
            return false;
        }
        assert(cs@.subrange(i as int, i + k + 1) =~= cs@.subrange(i as int, i + k).push(
            cs@[i + k],
        ));
        assert(pat@.take(k + 1) =~= pat@.take(k as int).push(pat@[k as int]));
        k += 1;
    }
    assert(pat@.take(k as int) =~= pat@);
    true
}

pub fn find_pattern(cs: &[char], pat: &[char], from: usize) -> (r: Option<usize>)
    requires
        from <= cs@.len(),
    ensures
        match r {
            Some(i) => find_sub(cs@, pat@, from as int) == Some(i as int) && from <= i && matches_at(
                cs@,
                pat@,
                i as int,
            ),
            None => find_sub(cs@, pat@, from as int) is None,
        },
{
    let mut i: usize = from;
    while cs.len() - i >= pat.len()
        invariant
            from <= i <= cs@.len(),
            find_sub(cs@, pat@, from as int) == find_sub(cs@, pat@, i as int),
        decreases cs@.len() - i,
    {
        if match_at(cs, pat, i) {
            return Some(i);
        }
        if i == cs.len() {
            assert(cs@.subrange(i as int, i as int) =~= pat@);
            return None;
        }
        i += 1;
    }
    None
}

pub open spec fn has_prefix(s: Seq<char>, p: Seq<char>) -> bool {
    matches_at(s, p, 0)
}

pub open spec fn has_suffix(s: Seq<char>, p: Seq<char>) -> bool {
    matches_at(s, p, s.len() - p.len())
}

pub fn starts_with(s: &str, p: &str) -> (r: bool)
    ensures
        r == has_prefix(s@, p@),
{
    let cs = chars(s);
    let ps = chars(p);
    match_at(&cs, &ps, 0)
}

pub fn ends_with(s: &str, p: &str) -> (r: bool)
    ensures
        r == has_suffix(s@, p@),
{
    let cs = chars(s);
    let ps = chars(p);
    if ps.len() > cs.len() {
        return false;
    }
    match_at(&cs, &ps, cs.len() - ps.len())
}

/// A text with every occurrence of `pat`, from the left, replaced.
pub open spec fn replaced(s: Seq<char>, pat: Seq<char>, with: Seq<char>, from: int) -> Seq<char>
    decreases s.len() - from,
    when 0 <= from <= s.len() && pat.len() > 0
{
    proof {
        lemma_find_sub_bounds(s, pat, from);
    }
    match find_sub(s, pat, from) {
        Some(i) => s.subrange(from, i) + with + replaced(s, pat, with, i + pat.len()),
        None => s.subrange(from, s.len() as int),
    }
}

pub fn replace(s: &str, pat: &str, with: &str) -> (r: String)
    requires
        pat@.len() > 0,
    ensures
        r@ == replaced(s@, pat@, with@, 0),
{
    let cs = chars(s);
    let ps = chars(pat);
    let n: usize = cs.len();
    let mut out = String::new();
    let mut from: usize = 0;
    assert(out@ + replaced(s@, pat@, with@, 0) =~= replaced(s@, pat@, with@, 0));
    loop
        invariant_except_break
            out@ + replaced(s@, pat@, with@, from as int) == replaced(s@, pat@, with@, 0),
        invariant
            n == cs@.len(),
            cs@ == s@,
            ps@ == pat@,
            pat@.len() > 0,
            from <= n,
        ensures
            out@ == replaced(s@, pat@, with@, 0),
        decreases n - from,
    {
        let ghost before = out@;
        proof {
            lemma_find_sub_bounds(s@, pat@, from as int);
        }
        match find_pattern(&cs, &ps, from) {
            Some(i) => {
                out.append(collect(&cs, from, i).as_str());
                out.append(with);
                proof {
                    assert(before + (s@.subrange(from as int, i as int) + with@ + replaced(
                        s@,
                        pat@,
                        with@,
                        i + pat@.len(),
                    )) =~= out@ + replaced(s@, pat@, with@, i + pat@.len()));
                }
                from = i + ps.len();
            },
            None => {
                out.append(collect(&cs, from, n).as_str());
                break ;
            },
        }
    }
    out
}

/// The rest of `s` after the prefix `p`.
pub open spec fn after_prefix(s: Seq<char>, p: Seq<char>) -> Option<Seq<char>> {
    if has_prefix(s, p) {
        Some(s.subrange(p.len() as int, s.len() as int))
    } else {
        None
    }
}

pub fn strip_prefix(s: &str, p: &str) -> (r: Option<String>)
    ensures
        match r {
            Some(t) => after_prefix(s@, p@) == Some(t@),
            None => after_prefix(s@, p@) is None,
        },
{
    let cs = chars(s);
    let ps = chars(p);
    if match_at(&cs, &ps, 0) {
        Some(collect(&cs, ps.len(), cs.len()))
    } else {
        None
    }
}

/// The rest of `s` before the suffix `p`.
pub open spec fn before_suffix(s: Seq<char>, p: Seq<char>) -> Option<Seq<char>> {
    if has_suffix(s, p) {
        Some(s.subrange(0, s.len() - p.len()))
    } else {
        None
    }
}

pub fn strip_suffix(s: &str, p: &str) -> (r: Option<String>)
    ensures
        match r {
            Some(t) => before_suffix(s@, p@) == Some(t@),
            None => before_suffix(s@, p@) is None,
        },
{
    let cs = chars(s);
    let ps = chars(p);
    if ps.len() > cs.len() {
        return None;
    }
    if match_at(&cs, &ps, cs.len() - ps.len()) {
        Some(collect(&cs, 0, cs.len() - ps.len()))
    } else {
        None
    }
}

pub fn contains(s: &str, p: &str) -> (r: bool)
    ensures
        r == contains_sub(s@, p@),
{
    let cs = chars(s);
    let ps = chars(p);
    find_pattern(&cs, &ps, 0).is_some()
}

pub fn split_at_first(s: &str, p: &str) -> (r: Option<(String, String)>)
    ensures
        match r {
            Some(t) => split_once(s@, p@) == Some((t.0@, t.1@)),
            None => split_once(s@, p@) is None,
        },
{
    let cs = chars(s);
    let ps = chars(p);
    let n: usize = cs.len();
    match find_pattern(&cs, &ps, 0) {
        Some(i) => Some((collect(&cs, 0, i), collect(&cs, i + ps.len(), n))),
        None => None,
    }
}

// ---------------------------------------------------------------------------
// Trimming
// ---------------------------------------------------------------------------

pub open spec fn trimmed_start(s: Seq<char>) -> Seq<char> {
    s.subrange(first_where(s, 0, not_space()), s.len() as int)
}

pub open spec fn trimmed_end(s: Seq<char>) -> Seq<char>
    decreases s.len(),
{
    if s.len() > 0 && is_space(s.last()) {
        trimmed_end(s.drop_last())
    } else {
        s
    }
}

pub open spec fn trimmed(s: Seq<char>) -> Seq<char> {
    trimmed_end(trimmed_start(s))
}

pub fn trim(s: &str) -> (r: String)
    ensures
        r@ == trimmed(s@),
{
    let cs = chars(s);
    let start = skip_whitespace(&cs, 0);
    let mut end: usize = cs.len();
    while end > start && is_whitespace(cs[end - 1])
        invariant
            start <= end <= cs@.len(),
            trimmed_end(cs@.subrange(start as int, end as int)) == trimmed_end(
                cs@.subrange(start as int, cs@.len() as int),
            ),
        decreases end,
    {
        assert(cs@.subrange(start as int, end as int).drop_last() =~= cs@.subrange(
            start as int,
            end - 1,
        ));
        end -= 1;
    }
    collect(&cs, start, end)
}

/// What is left after trimming neither starts nor ends in white space.
pub proof fn lemma_trimmed(s: Seq<char>)
    ensures
        trimmed(s).len() > 0 ==> !is_space(trimmed(s)[0]) && !is_space(trimmed(s).last()),
{
    lemma_first_where_bounds(s, 0, not_space());
    let t = trimmed_start(s);
    if t.len() > 0 {
        assert(t[0] == s[first_where(s, 0, not_space())]);
    }
    lemma_trimmed_end(t);
}

proof fn lemma_trimmed_end(s: Seq<char>)
    ensures
        trimmed_end(s).len() <= s.len(),
        trimmed_end(s).len() > 0 ==> trimmed_end(s)[0] == s[0] && !is_space(trimmed_end(s).last()),
    decreases s.len(),
{
    if s.len() > 0 && is_space(s.last()) {
        lemma_trimmed_end(s.drop_last());
    }
}

/// A text that neither starts nor ends in white space is trimmed already.
pub proof fn lemma_trimmed_fixed(s: Seq<char>)
    requires
        s.len() > 0 ==> !is_space(s[0]) && !is_space(s.last()),
    ensures
        trimmed(s) == s,
{
    if s.len() > 0 {
        lemma_first_where(s, 0, not_space(), 0);
    }
    assert(trimmed_start(s) =~= s);
}

// ---------------------------------------------------------------------------
// Letters
// ---------------------------------------------------------------------------

/// The lower-case form of an ASCII letter; any other character itself.
pub open spec fn lower_char(c: char) -> char {
    if 'A' <= c <= 'Z' {
        (c as u32 + 32) as char
    } else {
        c
    }
}

pub open spec fn lowered(s: Seq<char>) -> Seq<char> {
    Seq::new(s.len(), |i: int| lower_char(s[i]))
}

pub fn to_ascii_lowercase(s: &str) -> (r: String)
    ensures
        r@ == lowered(s@),
{
    let cs = chars(s);
    let mut out = String::new();
    let mut i: usize = 0;
    while i < cs.len()
        invariant
            cs@ == s@,
            i <= cs@.len(),
            out@ == lowered(s@).take(i as int),
        decreases cs@.len() - i,
    {
        let c = cs[i];
        let low: char = if 'A' <= c && c <= 'Z' {
            (c as u8 + 32) as char
        } else {
            c
        };
        assert(low == lower_char(c));
        assert(lowered(s@).take(i + 1) =~= lowered(s@).take(i as int).push(low));
        out.push(low);
        i += 1;
    }
    assert(lowered(s@).take(i as int) =~= lowered(s@));
    out
}

// ---------------------------------------------------------------------------
// Lines
// ---------------------------------------------------------------------------

/// A line without the carriage return at its end.
pub open spec fn without_return(line: Seq<char>) -> Seq<char> {
    if line.len() > 0 && line.last() == '\r' {
        line.drop_last()
    } else {
        line
    }
}

/// The lines of a text. A line ends in a line feed, with or without a carriage
/// return before it; the last line need not end.
pub open spec fn lines_of(s: Seq<char>) -> Seq<Seq<char>>
    decreases s.len(),
{
    proof {
        lemma_first_where_bounds(s, 0, is_char('\n'));
    }
    let i = first_where(s, 0, is_char('\n'));
    if s.len() == 0 {
        Seq::empty()
    } else if i == s.len() {
        seq![s]
    } else {
        seq![without_return(s.take(i))] + lines_of(s.skip(i + 1))
    }
}

pub open spec fn strings(items: Seq<String>) -> Seq<Seq<char>> {
    Seq::new(items.len(), |i: int| items[i]@)
}

pub fn lines(s: &str) -> (r: Vec<String>)
    ensures
        strings(r@) == lines_of(s@),
{
    let cs = chars(s);
    let n: usize = cs.len();
    let mut out: Vec<String> = Vec::new();
    let mut from: usize = 0;
    assert(s@.skip(0) =~= s@);
    assert(strings(out@) + lines_of(s@) =~= lines_of(s@));
    while from < n
        invariant
            cs@ == s@,
            n == cs@.len(),
            from <= n,
            strings(out@) + lines_of(s@.skip(from as int)) == lines_of(s@),
        decreases n - from,
    {
        let ghost rest = s@.skip(from as int);
        let end = find_char(&cs, from, '\n');
        proof {
            lemma_first_where_bounds(s@, from as int, is_char('\n'));
            assert forall|j: int| 0 <= j < end - from implies !is_char('\n')(
                #[trigger] rest[j],
            ) by {
                assert(rest[j] == s@[j + from]);
            }
            if end < n {
                assert(rest[end - from] == s@[end as int]);
            }
            lemma_first_where(rest, 0, is_char('\n'), end - from);
        }
        let ghost before = out@;
        if end == n {
            let line = collect(&cs, from, n);
            out.push(line);
            assert(line@ =~= rest);
            assert(strings(out@) =~= strings(before) + seq![rest]);
            assert(lines_of(rest) == seq![rest]);
            return out;
        }
        let stop: usize = if end > from && cs[end - 1] == '\r' {
            end - 1
        } else {
            end
        };
        let line = collect(&cs, from, stop);
        out.push(line);
        proof {
            let full = rest.take(end - from);
            if end > from {
                assert(full.last() == s@[end - 1]);
            }
            assert(line@ =~= without_return(full));
            assert(rest.skip(end - from + 1) =~= s@.skip(end + 1));
            assert(strings(out@) =~= strings(before) + seq![line@]);
            assert(strings(before) + (seq![line@] + lines_of(s@.skip(end + 1))) =~= strings(out@)
                + lines_of(s@.skip(end + 1)));
        }
        from = end + 1;
    }
    assert(s@.skip(from as int) =~= Seq::<char>::empty());
    assert(strings(out@) =~= lines_of(s@));
    out
}

/// A text that is not empty has a line.
pub proof fn lemma_some_line(s: Seq<char>)
    requires
        s.len() > 0,
    ensures
        lines_of(s).len() > 0,
{
}

/// A text that starts with a whole line.
pub proof fn lemma_first_line(line: Seq<char>, rest: Seq<char>)
    requires
        !line.contains('\n'),
        line.len() == 0 || line.last() != '\r',
    ensures
        lines_of(line.push('\n') + rest) == seq![line] + lines_of(rest),
{
    let s = line.push('\n') + rest;
    let i = line.len() as int;
    assert forall|j: int| 0 <= j < i implies !is_char('\n')(#[trigger] s[j]) by {
        assert(s[j] == line[j]);
        assert(line.contains(line[j]));
    }
    assert(s[i] == '\n');
    lemma_first_where(s, 0, is_char('\n'), i);
    assert(s.take(i) =~= line);
    assert(s.skip(i + 1) =~= rest);
}

// ---------------------------------------------------------------------------
// Order
// ---------------------------------------------------------------------------

/// Lexicographic order by code point.
pub open spec fn text_lt(a: Seq<char>, b: Seq<char>) -> bool
    decreases a.len(),
{
    if b.len() == 0 {
        false
    } else if a.len() == 0 {
        true
    } else if a[0] != b[0] {
        a[0] < b[0]
    } else {
        text_lt(a.drop_first(), b.drop_first())
    }
}

pub proof fn lemma_text_lt_irreflexive(a: Seq<char>)
    ensures
        !text_lt(a, a),
    decreases a.len(),
{
    if a.len() > 0 {
        lemma_text_lt_irreflexive(a.drop_first());
    }
}

pub proof fn lemma_text_lt_transitive(a: Seq<char>, b: Seq<char>, c: Seq<char>)
    requires
        text_lt(a, b),
        text_lt(b, c),
    ensures
        text_lt(a, c),
    decreases a.len(),
{
    if a.len() > 0 && a[0] == b[0] && b[0] == c[0] {
        lemma_text_lt_transitive(a.drop_first(), b.drop_first(), c.drop_first());
    }
}

pub proof fn lemma_text_lt_total(a: Seq<char>, b: Seq<char>)
    ensures
        a == b || text_lt(a, b) || text_lt(b, a),
    decreases a.len(),
{
    if a.len() > 0 && b.len() > 0 && a[0] == b[0] {
        lemma_text_lt_total(a.drop_first(), b.drop_first());
        if a.drop_first() == b.drop_first() {
            assert(a =~= seq![a[0]] + a.drop_first());
            assert(b =~= seq![b[0]] + b.drop_first());
        }
    } else if a.len() == 0 && b.len() == 0 {
        assert(a =~= b);
    }
}

pub fn str_lt(a: &str, b: &str) -> (r: bool)
    ensures
        r == text_lt(a@, b@),
{
    let x = chars(a);
    let y = chars(b);
    let mut i: usize = 0;
    assert(a@.skip(0) =~= a@);
    assert(b@.skip(0) =~= b@);
    while i < x.len() && i < y.len()
        invariant
            x@ == a@,
            y@ == b@,
            i <= x@.len(),
            i <= y@.len(),
            text_lt(a@, b@) == text_lt(a@.skip(i as int), b@.skip(i as int)),
        decreases x@.len() - i,
    {
        if x[i] != y[i] {
            return x[i] < y[i];
        }
        assert(a@.skip(i as int).drop_first() =~= a@.skip(i + 1));
        assert(b@.skip(i as int).drop_first() =~= b@.skip(i + 1));
        i += 1;
    }
    i < y.len()
}

// ---------------------------------------------------------------------------
// Decimal notation
// ---------------------------------------------------------------------------

pub open spec fn all_digits(s: Seq<char>) -> bool {
    forall|i: int| 0 <= i < s.len() ==> is_digit(#[trigger] s[i])
}

pub open spec fn digit_value(c: char) -> nat {
    (c as nat - '0' as nat) as nat
}

/// The number that a sequence of decimal digits stands for.
pub open spec fn decimal_value(s: Seq<char>) -> nat
    decreases s.len(),
{
    if s.len() == 0 {
        0
    } else {
        10 * decimal_value(s.drop_last()) + digit_value(s.last())
    }
}

pub open spec fn digit_char(d: nat) -> char {
    (d + '0' as nat) as char
}

/// The decimal digits of a number, without leading zeros.
pub open spec fn decimal(n: nat) -> Seq<char>
    decreases n,
{
    if n < 10 {
        seq![digit_char(n)]
    } else {
        decimal(n / 10).push(digit_char(n % 10))
    }
}

/// Reading back the decimal digits of a number gives the number.
pub proof fn law_decimal_round_trip(n: nat)
    ensures
        decimal(n).len() > 0,
        all_digits(decimal(n)),
        decimal_value(decimal(n)) == n,
    decreases n,
{
    if n < 10 {
        assert(decimal(n).drop_last() =~= Seq::<char>::empty());
        assert(decimal_value(Seq::<char>::empty()) == 0);
    } else {
        law_decimal_round_trip(n / 10);
        assert(decimal(n).drop_last() =~= decimal(n / 10));
        assert(decimal(n).last() == digit_char(n % 10));
    }
}

/// An unsigned number that is at most `max`: an optional `+`, then digits only.
pub open spec fn unsigned_value(s: Seq<char>, max: nat) -> Option<nat> {
    let body = if s.len() > 0 && s[0] == '+' {
        s.drop_first()
    } else {
        s
    };
    if body.len() > 0 && all_digits(body) && decimal_value(body) <= max {
        Some(decimal_value(body))
    } else {
        None
    }
}

/// The decimal form of a number reads back as that number.
pub proof fn law_unsigned_round_trip(n: nat, max: nat)
    requires
        n <= max,
    ensures
        unsigned_value(decimal(n), max) == Some(n),
{
    law_decimal_round_trip(n);
    assert(is_digit(decimal(n)[0]));
}

proof fn lemma_decimal_value_prefix(s: Seq<char>, k: int)
    requires
        0 <= k <= s.len(),
    ensures
        decimal_value(s.take(k)) <= decimal_value(s),
    decreases s.len() - k,
{
    if k < s.len() {
        assert(s.take(k + 1).drop_last() =~= s.take(k));
        lemma_decimal_value_prefix(s, k + 1);
    } else {
        assert(s.take(k) =~= s);
    }
}

pub fn parse_u64(s: &str) -> (r: Option<u64>)
    ensures
        match r {
            Some(v) => unsigned_value(s@, u64::MAX as nat) == Some(v as nat),
            None => unsigned_value(s@, u64::MAX as nat) is None,
        },
{
    let cs = chars(s);
    assert(cs@.subrange(0, cs@.len() as int) =~= s@);
    parse_digits(&cs, 0, cs.len())
}

/// The number written at `from..to`.
pub fn parse_digits(cs: &[char], from: usize, to: usize) -> (r: Option<u64>)
    requires
        from <= to <= cs@.len(),
    ensures
        match r {
            Some(v) => unsigned_value(cs@.subrange(from as int, to as int), u64::MAX as nat)
                == Some(v as nat),
            None => unsigned_value(cs@.subrange(from as int, to as int), u64::MAX as nat) is None,
        },
{
    let ghost whole = cs@.subrange(from as int, to as int);
    let start: usize = if from < to && cs[from] == '+' {
        from + 1
    } else {
        from
    };
    let ghost body = cs@.subrange(start as int, to as int);
    proof {
        if from < to && cs@[from as int] == '+' {
            assert(whole.drop_first() =~= body);
        } else {
            assert(whole =~= body);
        }
    }
    if start == to {
        return None;
    }
    let mut value: u64 = 0;
    let mut i: usize = start;
    assert(body.take(0) =~= Seq::<char>::empty());
    while i < to
        invariant
            start <= i <= to <= cs@.len(),
            body == cs@.subrange(start as int, to as int),
            value == decimal_value(body.take(i - start)),
            all_digits(body.take(i - start)),
            unsigned_value(whole, u64::MAX as nat) == (if body.len() > 0 && all_digits(body)
                && decimal_value(body) <= u64::MAX {
                Some(decimal_value(body))
            } else {
                None
            }),
            whole == cs@.subrange(from as int, to as int),
        decreases to - i,
    {
        let c = cs[i];
        assert(body[i - start] == c);
        if !is_ascii_digit(c) {
            return None;
        }
        let d: u64 = c as u64 - '0' as u64;
        assert(body.take(i - start + 1).drop_last() =~= body.take(i - start));
        assert(body.take(i - start + 1).last() == c);
        proof {
            lemma_decimal_value_prefix(body, i - start + 1);
        }
        if value > u64::MAX / 10 {
            return None;
        }
        let tens: u64 = value * 10;
        if tens > u64::MAX - d {
            return None;
        }
        value = tens + d;
        i += 1;
        assert(all_digits(body.take(i - start))) by {
            assert forall|j: int| 0 <= j < i - start implies is_digit(
                #[trigger] body.take(i - start)[j],
            ) by {
                if j < i - start - 1 {
                    assert(body.take(i - start)[j] == body.take(i - start - 1)[j]);
                }
            }
        }
    }
    assert(body.take(i - start) =~= body);
    Some(value)
}

pub fn parse_u32(s: &str) -> (r: Option<u32>)
    ensures
        match r {
            Some(v) => unsigned_value(s@, u32::MAX as nat) == Some(v as nat),
            None => unsigned_value(s@, u32::MAX as nat) is None,
        },
{
    match parse_u64(s) {
        Some(v) => if v <= u32::MAX as u64 {
            Some(v as u32)
        } else {
            None
        },
        None => None,
    }
}

/// The decimal form of a number.
pub fn u64_to_string(n: u64) -> (r: String)
    ensures
        r@ == decimal(n as nat),
    decreases n,
{
    let d: u32 = (n % 10) as u32 + '0' as u32;
    let c: char = (d as u8) as char;
    assert(c == digit_char((n % 10) as nat));
    if n < 10 {
        let mut out = String::new();
        out.push(c);
        assert(out@ =~= decimal(n as nat));
        out
    } else {
        let mut out = u64_to_string(n / 10);
        out.push(c);
        out
    }
}

// ---------------------------------------------------------------------------
// Hexadecimal notation
// ---------------------------------------------------------------------------

/// A number in decimal, with a sign where it is negative.
pub open spec fn signed(n: int) -> Seq<char> {
    if n < 0 {
        seq!['-'] + decimal((-n) as nat)
    } else {
        decimal(n as nat)
    }
}

pub fn i64_to_string(n: i64) -> (r: String)
    ensures
        r@ == signed(n as int),
{
    if n >= 0 {
        u64_to_string(n as u64)
    } else {
        let size: u64 = (-(n as i128)) as u64;
        let mut out = String::new();
        out.push('-');
        out.append(u64_to_string(size).as_str());
        out
    }
}

/// The lower-case hexadecimal digit of a number below sixteen.
pub open spec fn hex_digit(d: int) -> char {
    if d < 10 {
        (d + '0' as int) as char
    } else {
        (d - 10 + 'a' as int) as char
    }
}

pub open spec fn is_hex(c: char) -> bool {
    '0' <= c <= '9' || 'a' <= c <= 'f'
}

pub open spec fn hex_value(c: char) -> int {
    if '0' <= c <= '9' {
        c as int - '0' as int
    } else {
        c as int - 'a' as int + 10
    }
}

/// Two digits per byte.
pub open spec fn hex_text(bytes: Seq<u8>) -> Seq<char>
    decreases bytes.len(),
{
    if bytes.len() == 0 {
        Seq::empty()
    } else {
        hex_text(bytes.drop_last()).push(hex_digit(bytes.last() as int / 16)).push(
            hex_digit(bytes.last() as int % 16),
        )
    }
}

pub open spec fn all_hex(s: Seq<char>) -> bool {
    forall|i: int| 0 <= i < s.len() ==> is_hex(#[trigger] s[i])
}

/// The bytes that pairs of hexadecimal digits stand for.
pub open spec fn hex_bytes(s: Seq<char>) -> Seq<u8> {
    Seq::new(
        (s.len() / 2) as nat,
        |i: int| (16 * hex_value(s[2 * i]) + hex_value(s[2 * i + 1])) as u8,
    )
}

/// Reading back the hexadecimal form of bytes gives the bytes.
pub proof fn law_hex_round_trip(bytes: Seq<u8>)
    ensures
        hex_text(bytes).len() == 2 * bytes.len(),
        all_hex(hex_text(bytes)),
        hex_bytes(hex_text(bytes)) == bytes,
    decreases bytes.len(),
{
    if bytes.len() > 0 {
        let rest = bytes.drop_last();
        law_hex_round_trip(rest);
        let t = hex_text(rest);
        let s = hex_text(bytes);
        let b = bytes.last() as int;
        assert(s =~= t.push(hex_digit(b / 16)).push(hex_digit(b % 16)));
        assert forall|i: int| 0 <= i < s.len() implies is_hex(#[trigger] s[i]) by {
            if i < t.len() {
                assert(s[i] == t[i]);
            }
        }
        assert forall|i: int| 0 <= i < bytes.len() implies hex_bytes(s)[i] == bytes[i] by {
            if i < rest.len() {
                assert(s[2 * i] == t[2 * i] && s[2 * i + 1] == t[2 * i + 1]);
                assert(hex_bytes(t)[i] == rest[i]);
            } else {
                assert(s[2 * i] == hex_digit(b / 16));
                assert(s[2 * i + 1] == hex_digit(b % 16));
            }
        }
        assert(hex_bytes(s) =~= bytes);
    } else {
        assert(hex_bytes(hex_text(bytes)) =~= bytes);
    }
}

fn hex_char(d: u8) -> (r: char)
    requires
        d < 16,
    ensures
        r == hex_digit(d as int),
{
    if d < 10 {
        (d + 48) as char
    } else {
        (d + 87) as char
    }
}

pub fn hex_encode(bytes: &[u8]) -> (r: String)
    ensures
        r@ == hex_text(bytes@),
{
    let mut out = String::new();
    let mut i: usize = 0;
    assert(bytes@.take(0) =~= Seq::<u8>::empty());
    while i < bytes.len()
        invariant
            i <= bytes@.len(),
            out@ == hex_text(bytes@.take(i as int)),
        decreases bytes@.len() - i,
    {
        let b = bytes[i];
        assert(bytes@.take(i + 1).drop_last() =~= bytes@.take(i as int));
        assert(bytes@.take(i + 1).last() == b);
        out.push(hex_char(b / 16));
        out.push(hex_char(b % 16));
        i += 1;
    }
    assert(bytes@.take(i as int) =~= bytes@);
    out
}

/// The sixteen hexadecimal digits of a number.
pub open spec fn hex16(n: nat, width: nat) -> Seq<char>
    decreases width,
{
    if width == 0 {
        Seq::empty()
    } else {
        hex16(n / 16, (width - 1) as nat).push(hex_digit(n as int % 16))
    }
}

fn hex_fixed(n: u64, width: u32) -> (r: String)
    ensures
        r@ == hex16(n as nat, width as nat),
    decreases width,
{
    if width == 0 {
        String::new()
    } else {
        let mut out = hex_fixed(n / 16, width - 1);
        out.push(hex_char((n % 16) as u8));
        out
    }
}

/// A number in sixteen hexadecimal digits.
pub fn u64_to_hex(n: u64) -> (r: String)
    ensures
        r@ == hex16(n as nat, 16),
{
    hex_fixed(n, 16)
}

/// `String::from_utf8`: the text whose UTF-8 form the bytes are, where they are
/// one.
#[verifier::external_body]
pub(crate) fn from_utf8(bytes: Vec<u8>) -> (r: Option<String>)
    ensures
        match r {
            Some(s) => encode_utf8(s@) == bytes@,
            None => !valid_utf8(bytes@),
        },
{
    String::from_utf8(bytes).ok()
}

/// The text of bytes that are meant to be UTF-8.
pub uninterp spec fn lossy_text(bytes: Seq<u8>) -> Seq<char>;

/// `String::from_utf8_lossy`: the text of the bytes, with a replacement
/// character for what is not UTF-8. Bytes that are UTF-8 give their text.
#[verifier::external_body]
pub(crate) fn decode_lossy(bytes: &[u8]) -> (r: String)
    ensures
        r@ == lossy_text(bytes@),
        valid_utf8(bytes@) ==> r@ == decode_utf8(bytes@),
{
    String::from_utf8_lossy(bytes).into_owned()
}

/// Trimming takes away white space at both ends and nothing else.
pub proof fn law_trimming_takes_only_spaces(s: Seq<char>)
    ensures
        exists|a: int, b: int|
            0 <= a <= b <= s.len() && trimmed(s) == #[trigger] s.subrange(a, b) && (forall|i: int|
                0 <= i < a ==> is_space(#[trigger] s[i])) && (forall|i: int|
                b <= i < s.len() ==> is_space(#[trigger] s[i])),
        trimmed(s).len() > 0 ==> !is_space(trimmed(s)[0]) && !is_space(trimmed(s).last()),
{
    lemma_trimmed(s);
    lemma_first_where_bounds(s, 0, not_space());
    let a = first_where(s, 0, not_space());
    let t = trimmed_start(s);
    lemma_trimmed_end_is_a_beginning(t);
    let n = trimmed_end(t).len() as int;
    assert(trimmed(s) =~= s.subrange(a, a + n));
    assert forall|i: int| 0 <= i < a implies is_space(#[trigger] s[i]) by {
        assert(!not_space()(s[i]));
    }
    assert forall|i: int| a + n <= i < s.len() implies is_space(#[trigger] s[i]) by {
        assert(t[i - a] == s[i]);
    }
}

proof fn lemma_trimmed_end_is_a_beginning(s: Seq<char>)
    ensures
        trimmed_end(s).len() <= s.len(),
        trimmed_end(s) == s.take(trimmed_end(s).len() as int),
        forall|i: int| trimmed_end(s).len() <= i < s.len() ==> is_space(#[trigger] s[i]),
    decreases s.len(),
{
    if s.len() > 0 && is_space(s.last()) {
        let front = s.drop_last();
        lemma_trimmed_end_is_a_beginning(front);
        let n = trimmed_end(s).len() as int;
        assert(front.take(n) =~= s.take(n));
        assert forall|i: int| n <= i < s.len() implies is_space(#[trigger] s[i]) by {
            if i < front.len() {
                assert(front[i] == s[i]);
            }
        }
    } else {
        assert(s.take(s.len() as int) =~= s);
    }
}

/// Lowering a text changes nothing but capital letters, each into its small one.
pub proof fn law_lowering_changes_only_capitals(s: Seq<char>, i: int)
    requires
        0 <= i < s.len(),
    ensures
        lowered(s).len() == s.len(),
        !('A' <= s[i] <= 'Z') ==> lowered(s)[i] == s[i],
        'A' <= s[i] <= 'Z' ==> 'a' <= lowered(s)[i] <= 'z' && lowered(s)[i] as int - 'a' as int
            == s[i] as int - 'A' as int,
{
}

/// Text without line feeds is one line; a line feed ends a line, and a carriage return
/// before it is not part of it.
pub proof fn law_lines_end_at_line_feeds(line: Seq<char>, rest: Seq<char>)
    requires
        !line.contains('\n'),
        line.len() == 0 || line.last() != '\r',
    ensures
        lines_of(Seq::empty()).len() == 0,
        line.len() > 0 ==> lines_of(line) == seq![line],
        lines_of(line + seq!['\n'] + rest) == seq![line] + lines_of(rest),
        lines_of(line + seq!['\r', '\n'] + rest) == seq![line] + lines_of(rest),
{
    lemma_first_line(line, rest);
    assert(line.push('\n') + rest =~= line + seq!['\n'] + rest);
    let n = line.len() as int;
    assert forall|j: int| 0 <= j < n implies !is_char('\n')(#[trigger] line[j]) by {
        assert(line.contains(line[j]));
    }
    lemma_first_where(line, 0, is_char('\n'), n);
    let s = line + seq!['\r', '\n'] + rest;
    assert forall|j: int| 0 <= j < n + 1 implies !is_char('\n')(#[trigger] s[j]) by {
        if j < n {
            assert(s[j] == line[j]);
        } else {
            assert(s[j] == '\r');
        }
    }
    assert(s[n + 1] == '\n');
    lemma_first_where(s, 0, is_char('\n'), n + 1);
    assert(s.take(n + 1) =~= line.push('\r'));
    assert(line.push('\r').drop_last() =~= line);
    assert(s.skip(n + 2) =~= rest);
}

/// What is split once is the text before the mark and the text behind it, and the mark
/// does not stand in the first.
pub proof fn law_splits_are_at_the_first_mark(s: Seq<char>, mark: Seq<char>)
    ensures
        split_once(s, mark) matches Some((before, behind)) ==> s == before + mark + behind && (
        forall|i: int| 0 <= i < before.len() ==> !#[trigger] matches_at(s, mark, i)),
        split_once(s, mark) is None ==> forall|i: int| 0 <= i ==> !#[trigger] matches_at(s, mark, i),
{
    lemma_find_sub_bounds(s, mark, 0);
    if let Some(i) = find_sub(s, mark, 0) {
        assert(s =~= s.subrange(0, i) + mark + s.subrange(i + mark.len(), s.len() as int)) by {
            assert(s.subrange(i, i + mark.len()) == mark);
            assert forall|j: int| i <= j < i + mark.len() implies s[j] == mark[j - i] by {
                assert(s.subrange(i, i + mark.len())[j - i] == s[j]);
            }
        }
    }
}

/// A text without the pattern is left as it is. In any other the first occurrence is
/// replaced, and what follows it as a text of its own.
pub proof fn law_patterns_are_replaced(s: Seq<char>, pat: Seq<char>, with: Seq<char>, from: int)
    requires
        pat.len() > 0,
        0 <= from <= s.len(),
    ensures
        (forall|i: int| from <= i ==> !#[trigger] matches_at(s, pat, i)) ==> replaced(
            s,
            pat,
            with,
            from,
        ) == s.subrange(from, s.len() as int),
        forall|i: int|
            from <= i && #[trigger] matches_at(s, pat, i) && (forall|j: int|
                from <= j < i ==> !#[trigger] matches_at(s, pat, j)) ==> replaced(
                s,
                pat,
                with,
                from,
            ) == s.subrange(from, i) + with + replaced(s, pat, with, i + pat.len()),
{
    lemma_find_sub_bounds(s, pat, from);
}

/// A number with a sign tells the number.
pub proof fn law_signed_numbers_are_told_apart(a: int, b: int)
    ensures
        signed(a) == signed(b) ==> a == b,
{
    law_decimal_round_trip(if a < 0 {
        (-a) as nat
    } else {
        a as nat
    });
    law_decimal_round_trip(if b < 0 {
        (-b) as nat
    } else {
        b as nat
    });
    if signed(a) == signed(b) {
        if a < 0 && b < 0 {
            assert(signed(a).skip(1) =~= decimal((-a) as nat));
            assert(signed(b).skip(1) =~= decimal((-b) as nat));
        } else if a < 0 {
            assert(signed(a)[0] == '-');
            assert(is_digit(decimal(b as nat)[0]));
        } else if b < 0 {
            assert(signed(b)[0] == '-');
            assert(is_digit(decimal(a as nat)[0]));
        }
    }
}

proof fn lemma_hex16(n: nat, width: nat)
    ensures
        hex16(n, width).len() == width,
        all_hex(hex16(n, width)) || width == 0,
    decreases width,
{
    if width > 0 {
        lemma_hex16(n / 16, (width - 1) as nat);
        let front = hex16(n / 16, (width - 1) as nat);
        assert(is_hex(hex_digit(n as int % 16)));
        assert forall|i: int| 0 <= i < width implies is_hex(#[trigger] hex16(n, width)[i]) by {
            if i < front.len() {
                assert(hex16(n, width)[i] == front[i]);
            }
        }
    }
}

/// Numbers of 64 bits have sixteen digits, and different ones have different digits.
pub proof fn law_digits_tell_their_number(a: nat, b: nat, width: nat)
    ensures
        hex16(a, width).len() == width,
        a < pow16(width) && b < pow16(width) && hex16(a, width) == hex16(b, width) ==> a == b,
    decreases width,
{
    lemma_hex16(a, width);
    lemma_hex16(b, width);
    if width > 0 {
        let w = (width - 1) as nat;
        if a < pow16(width) && b < pow16(width) && hex16(a, width) == hex16(b, width) {
            assert(hex16(a, width).drop_last() =~= hex16(a / 16, w));
            assert(hex16(b, width).drop_last() =~= hex16(b / 16, w));
            assert(hex16(a, width).last() == hex_digit(a as int % 16));
            assert(hex16(b, width).last() == hex_digit(b as int % 16));
            law_digits_tell_their_number(a / 16, b / 16, w);
        }
    }
}

/// Sixteen to a power.
pub open spec fn pow16(n: nat) -> nat
    decreases n,
{
    if n == 0 {
        1
    } else {
        16 * pow16((n - 1) as nat)
    }
}

} // verus!
