//! Configuration documents as trees of values.

use vstd::prelude::*;

use crate::text;
use crate::text::{str_eq, str_lt};

verus! {

/// A number as a document spells it: an integer, or the text of a number that
/// is not one.
#[derive(Debug)]
pub enum Number {
    Unsigned(u64),
    Negative(i64),
    Decimal(String),
}

/// A node of a configuration document.
#[derive(Debug)]
pub enum Datum {
    Null,
    Bool(bool),
    Number(Number),
    Text(String),
    List(Vec<Datum>),
    Table(Vec<(Datum, Datum)>),
    Tagged(String, Box<Datum>),
}

/// What a document node says.
pub enum Node {
    Null,
    Bool(bool),
    Int(int),
    Decimal(Seq<char>),
    Text(Seq<char>),
    List(Seq<Node>),
    Table(Seq<(Node, Node)>),
    Tagged(Seq<char>, Box<Node>),
}

/// A float that is zero, written with or without its sign.
pub open spec fn zero_text(s: Seq<char>) -> bool {
    s == "0.0"@ || s == "-0.0"@
}

/// Two nodes say the same. A float is written in one way, but for the two zeros, which
/// are one number; the order of the entries of a table says nothing.
pub open spec fn alike(a: Node, b: Node) -> bool
    decreases a, 0nat,
{
    match (a, b) {
        (Node::Decimal(s), Node::Decimal(t)) => s == t || (zero_text(s) && zero_text(t)),
        (Node::List(x), Node::List(y)) => {
            &&& x.len() == y.len()
            &&& forall|i: int| 0 <= i < x.len() ==> alike(#[trigger] x[i], y[i])
        },
        (Node::Table(x), Node::Table(y)) => x.len() == y.len() && all_within(x, y),
        (Node::Tagged(s, x), Node::Tagged(t, y)) => s == t && alike(*x, *y),
        _ => a == b,
    }
}

/// Every entry of the first table has its like in the second one.
pub open spec fn all_within(x: Seq<(Node, Node)>, y: Seq<(Node, Node)>) -> bool
    decreases x, 0nat,
{
    x.len() == 0 || (all_within(x.drop_last(), y) && entry_within(x.last(), y, y.len()))
}

/// One of the first `n` entries of the table says the same as this one.
pub open spec fn entry_within(entry: (Node, Node), table: Seq<(Node, Node)>, n: nat) -> bool
    decreases entry, n,
{
    n > 0 && ((alike(entry.0, table[n - 1].0) && alike(entry.1, table[n - 1].1)) || entry_within(
        entry,
        table,
        (n - 1) as nat,
    ))
}

/// An entry has its like in a table where one of its entries is.
pub proof fn lemma_entry_within(
    entry: (Node, Node),
    table: Seq<(Node, Node)>,
    n: nat,
    j: int,
)
    requires
        0 <= j < n <= table.len(),
        alike(entry.0, table[j].0),
        alike(entry.1, table[j].1),
    ensures
        entry_within(entry, table, n),
    decreases n,
{
    if j < n - 1 {
        lemma_entry_within(entry, table, (n - 1) as nat, j);
    }
}

/// The entry of a table that is the like of a given one.
pub proof fn lemma_like_of(entry: (Node, Node), table: Seq<(Node, Node)>, n: nat) -> (j: int)
    requires
        entry_within(entry, table, n),
        n <= table.len(),
    ensures
        0 <= j < n,
        alike(entry.0, table[j].0),
        alike(entry.1, table[j].1),
    decreases n,
{
    if alike(entry.0, table[n - 1].0) && alike(entry.1, table[n - 1].1) {
        n - 1
    } else {
        lemma_like_of(entry, table, (n - 1) as nat)
    }
}

pub proof fn lemma_all_within(x: Seq<(Node, Node)>, y: Seq<(Node, Node)>)
    ensures
        all_within(x, y) <==> forall|i: int|
            0 <= i < x.len() ==> entry_within(#[trigger] x[i], y, y.len()),
    decreases x.len(),
{
    if x.len() > 0 {
        let rest = x.drop_last();
        lemma_all_within(rest, y);
        assert(x.last() == x[x.len() - 1]);
        assert(forall|i: int| 0 <= i < rest.len() ==> #[trigger] rest[i] == x[i]);
        if all_within(x, y) {
            assert forall|i: int| 0 <= i < x.len() implies entry_within(
                #[trigger] x[i],
                y,
                y.len(),
            ) by {
                if i < rest.len() {
                    assert(rest[i] == x[i]);
                }
            }
        }
    }
}

/// What is held in two places says the same, or is in neither of them.
pub open spec fn both_alike(a: Option<Node>, b: Option<Node>) -> bool {
    match (a, b) {
        (Some(x), Some(y)) => alike(x, y),
        (None, None) => true,
        _ => false,
    }
}

/// What is equal says the same.
pub proof fn law_equal_is_alike(a: Node)
    ensures
        alike(a, a),
    decreases a,
{
    match a {
        Node::List(x) => {
            assert forall|i: int| 0 <= i < x.len() implies alike(#[trigger] x[i], x[i]) by {
                law_equal_is_alike(x[i]);
            }
        },
        Node::Table(x) => {
            assert forall|i: int| 0 <= i < x.len() implies entry_within(
                #[trigger] x[i],
                x,
                x.len(),
            ) by {
                law_equal_is_alike(x[i].0);
                law_equal_is_alike(x[i].1);
                lemma_entry_within(x[i], x, x.len(), i);
            }
            lemma_all_within(x, x);
        },
        Node::Tagged(_, x) => {
            law_equal_is_alike(*x);
        },
        _ => {},
    }
}

fn is_zero_text(s: &str) -> (r: bool)
    ensures
        r == zero_text(s@),
{
    str_eq(s, "0.0") || str_eq(s, "-0.0")
}

impl Number {
    pub open spec fn view(&self) -> Node {
        match self {
            Number::Unsigned(n) => Node::Int(*n as int),
            Number::Negative(n) => Node::Int(*n as int),
            Number::Decimal(s) => Node::Decimal(s@),
        }
    }

    pub fn copy(&self) -> (r: Number)
        ensures
            r@ == self@,
    {
        match self {
            Number::Unsigned(n) => Number::Unsigned(*n),
            Number::Negative(n) => Number::Negative(*n),
            Number::Decimal(s) => Number::Decimal(s.clone()),
        }
    }

    /// Whether two numbers are the same.
    pub fn same(&self, other: &Number) -> (r: bool)
        ensures
            r == alike(self@, other@),
    {
        match (self, other) {
            (Number::Unsigned(a), Number::Unsigned(b)) => *a == *b,
            (Number::Negative(a), Number::Negative(b)) => *a == *b,
            (Number::Unsigned(a), Number::Negative(b)) => *a as i128 == *b as i128,
            (Number::Negative(a), Number::Unsigned(b)) => *a as i128 == *b as i128,
            (Number::Decimal(a), Number::Decimal(b)) => str_eq(a.as_str(), b.as_str()) || (
            is_zero_text(a.as_str()) && is_zero_text(b.as_str())),
            _ => false,
        }
    }
}

/// The nodes of a list of values.
pub open spec fn nodes(items: Seq<Datum>) -> Seq<Node> {
    Seq::new(items.len(), |i: int| items[i]@)
}

/// The entries of a table of values.
pub open spec fn entries(items: Seq<(Datum, Datum)>) -> Seq<(Node, Node)> {
    Seq::new(items.len(), |i: int| (items[i].0@, items[i].1@))
}

impl Datum {
    pub open spec fn view(&self) -> Node
        decreases self,
    {
        match self {
            Datum::Null => Node::Null,
            Datum::Bool(b) => Node::Bool(*b),
            Datum::Number(n) => n@,
            Datum::Text(s) => Node::Text(s@),
            Datum::List(items) => Node::List(
                Seq::new(
                    items@.len(),
                    |i: int|
                        if 0 <= i < items@.len() {
                            items@[i].view()
                        } else {
                            Node::Null
                        },
                ),
            ),
            Datum::Table(items) => Node::Table(
                Seq::new(
                    items@.len(),
                    |i: int|
                        if 0 <= i < items@.len() {
                            (items@[i].0.view(), items@[i].1.view())
                        } else {
                            (Node::Null, Node::Null)
                        },
                ),
            ),
            Datum::Tagged(tag, inner) => Node::Tagged(tag@, Box::new(inner.view())),
        }
    }

    pub proof fn lemma_list(items: Vec<Datum>)
        ensures
            Datum::List(items)@ == Node::List(nodes(items@)),
    {
        assert(Datum::List(items)@->List_0 =~= nodes(items@));
    }

    pub proof fn lemma_table(items: Vec<(Datum, Datum)>)
        ensures
            Datum::Table(items)@ == Node::Table(entries(items@)),
    {
        assert(Datum::Table(items)@->Table_0 =~= entries(items@));
    }

    /// An equal value.
    pub fn copy(&self) -> (r: Datum)
        ensures
            r@ == self@,
        decreases self,
    {
        match self {
            Datum::Null => Datum::Null,
            Datum::Bool(b) => Datum::Bool(*b),
            Datum::Number(n) => Datum::Number(n.copy()),
            Datum::Text(s) => Datum::Text(s.clone()),
            Datum::List(items) => {
                let out = copy_items(items);
                proof {
                    Datum::lemma_list(out);
                    Datum::lemma_list(*items);
                }
                Datum::List(out)
            },
            Datum::Table(items) => {
                let out = copy_entries(items);
                proof {
                    Datum::lemma_table(out);
                    Datum::lemma_table(*items);
                }
                Datum::Table(out)
            },
            Datum::Tagged(tag, inner) => Datum::Tagged(tag.clone(), Box::new(inner.copy())),
        }
    }

    /// Whether two values say the same.
    pub fn same(&self, other: &Datum) -> (r: bool)
        ensures
            r == alike(self@, other@),
        decreases self,
    {
        match (self, other) {
            (Datum::Null, Datum::Null) => true,
            (Datum::Bool(a), Datum::Bool(b)) => *a == *b,
            (Datum::Number(a), Datum::Number(b)) => a.same(b),
            (Datum::Text(a), Datum::Text(b)) => str_eq(a.as_str(), b.as_str()),
            (Datum::List(a), Datum::List(b)) => {
                proof {
                    Datum::lemma_list(*a);
                    Datum::lemma_list(*b);
                }
                if a.len() != b.len() {
                    return false;
                }
                let mut i: usize = 0;
                while i < a.len()
                    invariant
                        i <= a@.len() == b@.len(),
                        self == Datum::List(*a),
                        self@ == Node::List(nodes(a@)),
                        other@ == Node::List(nodes(b@)),
                        forall|j: int| 0 <= j < i ==> alike(#[trigger] nodes(a@)[j], nodes(b@)[j]),
                    decreases a@.len() - i,
                {
                    if !a[i].same(&b[i]) {
                        assert(!alike(nodes(a@)[i as int], nodes(b@)[i as int]));
                        return false;
                    }
                    i += 1;
                }
                true
            },
            (Datum::Table(a), Datum::Table(b)) => {
                proof {
                    Datum::lemma_table(*a);
                    Datum::lemma_table(*b);
                }
                if a.len() != b.len() {
                    return false;
                }
                let mut i: usize = 0;
                while i < a.len()
                    invariant
                        i <= a@.len(),
                        a@.len() == b@.len(),
                        self == Datum::Table(*a),
                        self@ == Node::Table(entries(a@)),
                        other@ == Node::Table(entries(b@)),
                        forall|k: int|
                            0 <= k < i ==> entry_within(
                                #[trigger] entries(a@)[k],
                                entries(b@),
                                entries(b@).len(),
                            ),
                    decreases a@.len() - i,
                {
                    if !within(&a[i], b) {
                        proof {
                            lemma_all_within(entries(a@), entries(b@));
                            assert(!entry_within(
                                entries(a@)[i as int],
                                entries(b@),
                                entries(b@).len(),
                            ));
                        }
                        return false;
                    }
                    i += 1;
                }
                proof {
                    lemma_all_within(entries(a@), entries(b@));
                }
                true
            },
            (Datum::Tagged(s, a), Datum::Tagged(t, b)) => str_eq(s.as_str(), t.as_str()) && a.same(
                b,
            ),
            _ => false,
        }
    }
}

/// Whether a table has the like of an entry.
fn within(entry: &(Datum, Datum), table: &Vec<(Datum, Datum)>) -> (r: bool)
    ensures
        r == entry_within((entry.0@, entry.1@), entries(table@), entries(table@).len()),
    decreases entry,
{
    let ghost e = (entry.0@, entry.1@);
    let ghost all = entries(table@);
    let mut j: usize = 0;
    while j < table.len()
        invariant
            j <= table@.len(),
            e == (entry.0@, entry.1@),
            all == entries(table@),
            !entry_within(e, all, j as nat),
        decreases table@.len() - j,
    {
        assert(all[j as int] == (table@[j as int].0@, table@[j as int].1@));
        if entry.0.same(&table[j].0) && entry.1.same(&table[j].1) {
            proof {
                lemma_entry_within(e, all, all.len(), j as int);
            }
            return true;
        }
        j += 1;
    }
    false
}

/// Equal items.
pub fn copy_items(items: &Vec<Datum>) -> (r: Vec<Datum>)
    ensures
        nodes(r@) == nodes(items@),
    decreases items,
{
    let mut out: Vec<Datum> = Vec::new();
    let mut i: usize = 0;
    while i < items.len()
        invariant
            i <= items@.len(),
            nodes(out@) == nodes(items@).take(i as int),
        decreases items@.len() - i,
    {
        let item = items[i].copy();
        let ghost before = out@;
        out.push(item);
        assert(nodes(out@) =~= nodes(before).push(item@));
        assert(nodes(items@).take(i + 1) =~= nodes(items@).take(i as int).push(item@));
        i += 1;
    }
    assert(nodes(items@).take(i as int) =~= nodes(items@));
    out
}

/// Equal entries.
pub fn copy_entries(items: &Vec<(Datum, Datum)>) -> (r: Vec<(Datum, Datum)>)
    ensures
        entries(r@) == entries(items@),
    decreases items,
{
    let mut out: Vec<(Datum, Datum)> = Vec::new();
    let mut i: usize = 0;
    while i < items.len()
        invariant
            i <= items@.len(),
            entries(out@) == entries(items@).take(i as int),
        decreases items@.len() - i,
    {
        let key = items[i].0.copy();
        let value = items[i].1.copy();
        let ghost before = out@;
        out.push((key, value));
        assert(entries(out@) =~= entries(before).push((key@, value@)));
        assert(entries(items@).take(i + 1) =~= entries(items@).take(i as int).push(
            (key@, value@),
        ));
        i += 1;
    }
    assert(entries(items@).take(i as int) =~= entries(items@));
    out
}

// ---------------------------------------------------------------------------
// Reading a document
// ---------------------------------------------------------------------------

/// The index of the first entry with the text key `key`, or the number of
/// entries when there is none.
pub open spec fn key_index(table: Seq<(Node, Node)>, key: Seq<char>) -> int
    decreases table.len(),
{
    if table.len() == 0 {
        0
    } else if table[0].0 == Node::Text(key) {
        0
    } else {
        1 + key_index(table.drop_first(), key)
    }
}

/// A table has an entry under a text key.
#[verifier::opaque]
pub open spec fn holds_key(table: Seq<(Node, Node)>, key: Seq<char>) -> bool {
    exists|i: int| 0 <= i < table.len() && (#[trigger] table[i]).0 == Node::Text(key)
}

/// What a table holds under a text key.
pub open spec fn lookup(table: Seq<(Node, Node)>, key: Seq<char>) -> Option<Node> {
    let i = key_index(table, key);
    if i < table.len() {
        Some(table[i].1)
    } else {
        None
    }
}

pub proof fn lemma_key_index(table: Seq<(Node, Node)>, key: Seq<char>, r: int)
    requires
        0 <= r <= table.len(),
        forall|j: int| 0 <= j < r ==> (#[trigger] table[j]).0 != Node::Text(key),
        r < table.len() ==> table[r].0 == Node::Text(key),
    ensures
        key_index(table, key) == r,
    decreases table.len(),
{
    if table.len() > 0 && r > 0 {
        assert(table[0].0 != Node::Text(key));
        assert forall|j: int| 0 <= j < r - 1 implies (#[trigger] table.drop_first()[j]).0
            != Node::Text(key) by {
            assert(table.drop_first()[j] == table[j + 1]);
        }
        lemma_key_index(table.drop_first(), key, r - 1);
    }
}

pub proof fn lemma_key_index_bounds(table: Seq<(Node, Node)>, key: Seq<char>)
    ensures
        0 <= key_index(table, key) <= table.len(),
        forall|j: int|
            0 <= j < key_index(table, key) ==> (#[trigger] table[j]).0 != Node::Text(key),
        key_index(table, key) < table.len() ==> table[key_index(table, key)].0 == Node::Text(key),
    decreases table.len(),
{
    if table.len() > 0 && table[0].0 != Node::Text(key) {
        lemma_key_index_bounds(table.drop_first(), key);
        assert forall|j: int| 0 <= j < key_index(table, key) implies (#[trigger] table[j]).0
            != Node::Text(key) by {
            if j > 0 {
                assert(table[j] == table.drop_first()[j - 1]);
            }
        }
    }
}

/// The index of the first entry under `key`.
pub fn find_key(table: &Vec<(Datum, Datum)>, key: &str) -> (r: usize)
    ensures
        r == key_index(entries(table@), key@),
        r <= table@.len(),
{
    let mut i: usize = 0;
    while i < table.len()
        invariant
            i <= table@.len(),
            forall|j: int| 0 <= j < i ==> (#[trigger] entries(table@)[j]).0 != Node::Text(key@),
        decreases table@.len() - i,
    {
        let hit = match &table[i].0 {
            Datum::Text(s) => str_eq(s.as_str(), key),
            _ => false,
        };
        assert(entries(table@)[i as int].0 == table@[i as int].0@);
        if hit {
            proof {
                lemma_key_index(entries(table@), key@, i as int);
            }
            return i;
        }
        i += 1;
    }
    proof {
        lemma_key_index(entries(table@), key@, i as int);
    }
    i
}

/// What the table holds under `key`.
pub fn get<'a>(table: &'a Vec<(Datum, Datum)>, key: &str) -> (r: Option<&'a Datum>)
    ensures
        match r {
            Some(v) => lookup(entries(table@), key@) == Some(v@),
            None => lookup(entries(table@), key@) is None,
        },
{
    let i = find_key(table, key);
    if i < table.len() {
        assert(entries(table@)[i as int].1 == table@[i as int].1@);
        Some(&table[i].1)
    } else {
        None
    }
}

impl Node {
    /// The value below its tags.
    pub open spec fn untagged(self) -> Node
        decreases self,
    {
        match self {
            Node::Tagged(_, inner) => inner.untagged(),
            _ => self,
        }
    }

    pub open spec fn text(self) -> Option<Seq<char>> {
        match self.untagged() {
            Node::Text(s) => Some(s),
            _ => None,
        }
    }

    pub open spec fn flag(self) -> Option<bool> {
        match self.untagged() {
            Node::Bool(b) => Some(b),
            _ => None,
        }
    }

    /// The number, where it is an integer that fits in 64 signed bits.
    pub open spec fn int64(self) -> Option<int> {
        match self.untagged() {
            Node::Int(n) => if i64::MIN <= n <= i64::MAX {
                Some(n)
            } else {
                None
            },
            _ => None,
        }
    }

    pub open spec fn table(self) -> Option<Seq<(Node, Node)>> {
        match self.untagged() {
            Node::Table(t) => Some(t),
            _ => None,
        }
    }

    /// The given table, below the same tags.
    pub open spec fn with_table(self, table: Seq<(Node, Node)>) -> Node
        decreases self,
    {
        match self {
            Node::Tagged(tag, inner) => Node::Tagged(tag, Box::new(inner.with_table(table))),
            _ => Node::Table(table),
        }
    }

    pub proof fn lemma_with_table(self, table: Seq<(Node, Node)>)
        ensures
            self.with_table(table).table() == Some(table),
        decreases self,
    {
        if let Node::Tagged(_, inner) = self {
            inner.lemma_with_table(table);
        }
    }
}

impl Datum {
    /// The value below its tags.
    pub fn untag_ref(&self) -> (r: &Datum)
        ensures
            r@ == self@.untagged(),
            !(r is Tagged),
        decreases self,
    {
        match self {
            Datum::Tagged(_, inner) => inner.untag_ref(),
            _ => self,
        }
    }

    pub fn as_str(&self) -> (r: Option<&str>)
        ensures
            match r {
                Some(s) => self@.text() == Some(s@),
                None => self@.text() is None,
            },
    {
        match self.untag_ref() {
            Datum::Text(s) => Some(s.as_str()),
            _ => None,
        }
    }

    pub fn as_bool(&self) -> (r: Option<bool>)
        ensures
            r == self@.flag(),
    {
        match self.untag_ref() {
            Datum::Bool(b) => Some(*b),
            _ => None,
        }
    }

    pub fn as_i64(&self) -> (r: Option<i64>)
        ensures
            match r {
                Some(n) => self@.int64() == Some(n as int),
                None => self@.int64() is None,
            },
    {
        match self.untag_ref() {
            Datum::Number(Number::Unsigned(n)) => if *n <= i64::MAX as u64 {
                Some(*n as i64)
            } else {
                None
            },
            Datum::Number(Number::Negative(n)) => Some(*n),
            _ => None,
        }
    }

    pub fn is_null(&self) -> (r: bool)
        ensures
            r == (self@.untagged() is Null),
    {
        match self.untag_ref() {
            Datum::Null => true,
            _ => false,
        }
    }

    pub fn as_table(&self) -> (r: Option<&Vec<(Datum, Datum)>>)
        ensures
            match r {
                Some(t) => self@.table() == Some(entries(t@)),
                None => self@.table() is None,
            },
    {
        match self.untag_ref() {
            Datum::Table(t) => {
                proof {
                    Datum::lemma_table(*t);
                }
                Some(t)
            },
            _ => None,
        }
    }

    /// The given table, below the same tags.
    pub fn with_table(&self, table: Vec<(Datum, Datum)>) -> (r: Datum)
        ensures
            r@ == self@.with_table(entries(table@)),
        decreases self,
    {
        proof {
            Datum::lemma_table(table);
        }
        match self {
            Datum::Tagged(tag, inner) => Datum::Tagged(
                tag.clone(),
                Box::new(inner.with_table(table)),
            ),
            _ => Datum::Table(table),
        }
    }
}

// ---------------------------------------------------------------------------
// Changing a table
// ---------------------------------------------------------------------------

/// The table with `node` under `key`: in place where the key is there, at the
/// end where it is not.
pub open spec fn inserted(table: Seq<(Node, Node)>, key: Seq<char>, node: Node) -> Seq<
    (Node, Node),
> {
    let i = key_index(table, key);
    if i < table.len() {
        table.update(i, (Node::Text(key), node))
    } else {
        table.push((Node::Text(key), node))
    }
}

pub fn insert(table: &mut Vec<(Datum, Datum)>, key: &str, value: Datum)
    ensures
        entries(final(table)@) == inserted(entries(old(table)@), key@, value@),
{
    let i = find_key(table, key);
    let entry = (Datum::Text(key.to_owned()), value);
    let ghost before = table@;
    let ghost e = (entry.0@, entry.1@);
    if i < table.len() {
        table.set(i, entry);
        assert(entries(table@) =~= entries(before).update(i as int, e));
    } else {
        table.push(entry);
        assert(entries(table@) =~= entries(before).push(e));
    }
}

/// The table without the entries under `key`.
pub open spec fn removed(table: Seq<(Node, Node)>, key: Seq<char>) -> Seq<(Node, Node)>
    decreases table.len(),
{
    if table.len() == 0 {
        table
    } else {
        let rest = removed(table.drop_last(), key);
        if table.last().0 == Node::Text(key) {
            rest
        } else {
            rest.push(table.last())
        }
    }
}

pub fn remove(table: &Vec<(Datum, Datum)>, key: &str) -> (r: Vec<(Datum, Datum)>)
    ensures
        entries(r@) == removed(entries(table@), key@),
{
    let mut out: Vec<(Datum, Datum)> = Vec::new();
    let mut i: usize = 0;
    assert(entries(table@).take(0) =~= Seq::<(Node, Node)>::empty());
    assert(entries(out@) =~= Seq::<(Node, Node)>::empty());
    while i < table.len()
        invariant
            i <= table@.len(),
            entries(out@) == removed(entries(table@).take(i as int), key@),
        decreases table@.len() - i,
    {
        let hit = match &table[i].0 {
            Datum::Text(s) => str_eq(s.as_str(), key),
            _ => false,
        };
        assert(entries(table@).take(i + 1).drop_last() =~= entries(table@).take(i as int));
        assert(entries(table@).take(i + 1).last() == (
            table@[i as int].0@,
            table@[i as int].1@,
        ));
        if !hit {
            let k = table[i].0.copy();
            let v = table[i].1.copy();
            let ghost before = out@;
            out.push((k, v));
            assert(entries(out@) =~= entries(before).push((k@, v@)));
        }
        i += 1;
    }
    assert(entries(table@).take(i as int) =~= entries(table@));
    out
}

/// What stands under a key once an entry is put in.
pub proof fn lemma_lookup_inserted(
    table: Seq<(Node, Node)>,
    key: Seq<char>,
    node: Node,
    k: Seq<char>,
)
    ensures
        lookup(inserted(table, key, node), k) == (if k == key {
            Some(node)
        } else {
            lookup(table, k)
        }),
{
    let out = inserted(table, key, node);
    lemma_key_index_bounds(table, key);
    lemma_key_index_bounds(table, k);
    let at = key_index(table, key);
    let r = if k == key {
        at
    } else if key_index(table, k) < table.len() {
        key_index(table, k)
    } else {
        out.len() as int
    };
    assert forall|j: int| 0 <= j < r implies (#[trigger] out[j]).0 != Node::Text(k) by {
        if j != at {
            assert(out[j] == table[j]);
        }
    }
    lemma_key_index(out, k, r);
}

proof fn lemma_lookup_push(table: Seq<(Node, Node)>, e: (Node, Node), k: Seq<char>)
    ensures
        lookup(table.push(e), k) == (match lookup(table, k) {
            Some(node) => Some(node),
            None => if e.0 == Node::Text(k) {
                Some(e.1)
            } else {
                None
            },
        }),
{
    let out = table.push(e);
    lemma_key_index_bounds(table, k);
    let i = key_index(table, k);
    let r = if i < table.len() || e.0 == Node::Text(k) {
        i
    } else {
        i + 1
    };
    assert forall|j: int| 0 <= j < r implies (#[trigger] out[j]).0 != Node::Text(k) by {
        if j < table.len() {
            assert(out[j] == table[j]);
        }
    }
    lemma_key_index(out, k, r);
}

/// What stands under a key once a key is taken out.
pub proof fn lemma_lookup_removed(table: Seq<(Node, Node)>, key: Seq<char>, k: Seq<char>)
    ensures
        lookup(removed(table, key), k) == (if k == key {
            None
        } else {
            lookup(table, k)
        }),
    decreases table.len(),
{
    if table.len() > 0 {
        let init = table.drop_last();
        lemma_lookup_removed(init, key, k);
        lemma_lookup_push(init, table.last(), k);
        lemma_lookup_push(removed(init, key), table.last(), k);
        assert(init.push(table.last()) =~= table);
    }
}

// ---------------------------------------------------------------------------
// Canonical documents
// ---------------------------------------------------------------------------

/// Why a document has no canonical form.
#[derive(Debug, Clone, Copy, PartialEq, Eq, Structural)]
pub enum Refusal {
    KeyNotText,
    Tagged,
}

/// The first place in a table sorted by key whose key is not less than `key`.
pub open spec fn slot(table: Seq<(Node, Node)>, key: Seq<char>) -> int
    decreases table.len(),
{
    if table.len() == 0 {
        0
    } else if !text::text_lt(table[0].0->Text_0, key) {
        0
    } else {
        1 + slot(table.drop_first(), key)
    }
}

/// A sorted table with `node` under `key`.
pub open spec fn put(table: Seq<(Node, Node)>, key: Seq<char>, node: Node) -> Seq<(Node, Node)> {
    let i = slot(table, key);
    if i < table.len() && table[i].0 == Node::Text(key) {
        table.update(i, (Node::Text(key), node))
    } else {
        table.insert(i, (Node::Text(key), node))
    }
}

/// The canonical form of a document: every table has text keys in strictly
/// ascending order, and no value is tagged.
pub open spec fn canonical(node: Node) -> Result<Node, Refusal>
    decreases node,
{
    match node {
        Node::Table(table) => match canonical_table(table) {
            Ok(t) => Ok(Node::Table(t)),
            Err(e) => Err(e),
        },
        Node::List(items) => match canonical_list(items) {
            Ok(l) => Ok(Node::List(l)),
            Err(e) => Err(e),
        },
        Node::Tagged(_, _) => Err(Refusal::Tagged),
        _ => Ok(node),
    }
}

pub open spec fn canonical_table(table: Seq<(Node, Node)>) -> Result<Seq<(Node, Node)>, Refusal>
    decreases table,
{
    if table.len() == 0 {
        Ok(Seq::empty())
    } else {
        match canonical_table(table.drop_last()) {
            Err(e) => Err(e),
            Ok(rest) => match table.last().0 {
                Node::Text(key) => match canonical(table.last().1) {
                    Err(e) => Err(e),
                    Ok(node) => Ok(put(rest, key, node)),
                },
                _ => Err(Refusal::KeyNotText),
            },
        }
    }
}

pub open spec fn canonical_list(items: Seq<Node>) -> Result<Seq<Node>, Refusal>
    decreases items,
{
    if items.len() == 0 {
        Ok(Seq::empty())
    } else {
        match canonical_list(items.drop_last()) {
            Err(e) => Err(e),
            Ok(rest) => match canonical(items.last()) {
                Err(e) => Err(e),
                Ok(node) => Ok(rest.push(node)),
            },
        }
    }
}

/// The canonical form of a value, or why it has none.
pub fn canonicalize(value: &Datum) -> (r: Result<Datum, Refusal>)
    ensures
        match r {
            Ok(v) => canonical(value@) == Ok::<Node, Refusal>(v@),
            Err(e) => canonical(value@) == Err::<Node, Refusal>(e),
        },
    decreases value,
{
    match value {
        Datum::Table(items) => {
            proof {
                Datum::lemma_table(*items);
            }
            match canonicalize_table(items) {
                Ok(out) => {
                    proof {
                        Datum::lemma_table(out);
                    }
                    Ok(Datum::Table(out))
                },
                Err(e) => Err(e),
            }
        },
        Datum::List(items) => {
            proof {
                Datum::lemma_list(*items);
            }
            match canonicalize_list(items) {
                Ok(out) => {
                    proof {
                        Datum::lemma_list(out);
                    }
                    Ok(Datum::List(out))
                },
                Err(e) => Err(e),
            }
        },
        Datum::Tagged(_, _) => Err(Refusal::Tagged),
        Datum::Null => Ok(Datum::Null),
        Datum::Bool(b) => Ok(Datum::Bool(*b)),
        Datum::Number(n) => Ok(Datum::Number(n.copy())),
        Datum::Text(s) => Ok(Datum::Text(s.clone())),
    }
}

/// The canonical form of a table.
pub fn canonicalize_table(items: &Vec<(Datum, Datum)>) -> (r: Result<Vec<(Datum, Datum)>, Refusal>)
    ensures
        match r {
            Ok(t) => canonical_table(entries(items@)) == Ok::<Seq<(Node, Node)>, Refusal>(
                entries(t@),
            ),
            Err(e) => canonical_table(entries(items@)) == Err::<Seq<(Node, Node)>, Refusal>(e),
        },
    decreases items,
{
    let mut out: Vec<(Datum, Datum)> = Vec::new();
    let mut i: usize = 0;
    let ghost all = entries(items@);
    assert(all.take(0) =~= Seq::<(Node, Node)>::empty());
    assert(entries(out@) =~= Seq::<(Node, Node)>::empty());
    while i < items.len()
        invariant
            i <= items@.len(),
            all == entries(items@),
            canonical_table(all.take(i as int)) == Ok::<Seq<(Node, Node)>, Refusal>(entries(out@)),
            forall|j: int| 0 <= j < out@.len() ==> (#[trigger] out@[j]).0@ is Text,
        decreases items@.len() - i,
    {
        assert(all.take(i + 1).drop_last() =~= all.take(i as int));
        assert(all.take(i + 1).last() == (items@[i as int].0@, items@[i as int].1@));
        let step = match &items[i].0 {
            Datum::Text(key) => match canonicalize(&items[i].1) {
                Ok(v) => Ok((key.clone(), v)),
                Err(e) => Err(e),
            },
            _ => Err(Refusal::KeyNotText),
        };
        match step {
            Ok((key, v)) => {
                put_entry(&mut out, key, v);
            },
            Err(e) => {
                proof {
                    lemma_canonical_table_prefix(all, i + 1);
                }
                return Err(e);
            },
        }
        i += 1;
    }
    assert(all.take(i as int) =~= all);
    Ok(out)
}

/// A refused prefix refuses the whole.
proof fn lemma_canonical_table_prefix(table: Seq<(Node, Node)>, k: int)
    requires
        0 <= k <= table.len(),
        canonical_table(table.take(k)) is Err,
    ensures
        canonical_table(table) == canonical_table(table.take(k)),
    decreases table.len() - k,
{
    if k < table.len() {
        assert(table.take(k + 1).drop_last() =~= table.take(k));
        lemma_canonical_table_prefix(table, k + 1);
    } else {
        assert(table.take(k) =~= table);
    }
}

proof fn lemma_canonical_list_prefix(items: Seq<Node>, k: int)
    requires
        0 <= k <= items.len(),
        canonical_list(items.take(k)) is Err,
    ensures
        canonical_list(items) == canonical_list(items.take(k)),
    decreases items.len() - k,
{
    if k < items.len() {
        assert(items.take(k + 1).drop_last() =~= items.take(k));
        lemma_canonical_list_prefix(items, k + 1);
    } else {
        assert(items.take(k) =~= items);
    }
}

fn canonicalize_list(items: &Vec<Datum>) -> (r: Result<Vec<Datum>, Refusal>)
    ensures
        match r {
            Ok(t) => canonical_list(nodes(items@)) == Ok::<Seq<Node>, Refusal>(nodes(t@)),
            Err(e) => canonical_list(nodes(items@)) == Err::<Seq<Node>, Refusal>(e),
        },
    decreases items,
{
    let mut out: Vec<Datum> = Vec::new();
    let mut i: usize = 0;
    let ghost all = nodes(items@);
    assert(all.take(0) =~= Seq::<Node>::empty());
    assert(nodes(out@) =~= Seq::<Node>::empty());
    while i < items.len()
        invariant
            i <= items@.len(),
            all == nodes(items@),
            canonical_list(all.take(i as int)) == Ok::<Seq<Node>, Refusal>(nodes(out@)),
        decreases items@.len() - i,
    {
        assert(all.take(i + 1).drop_last() =~= all.take(i as int));
        assert(all.take(i + 1).last() == items@[i as int]@);
        match canonicalize(&items[i]) {
            Ok(v) => {
                let ghost before = out@;
                out.push(v);
                assert(nodes(out@) =~= nodes(before).push(v@));
            },
            Err(e) => {
                proof {
                    lemma_canonical_list_prefix(all, i + 1);
                }
                return Err(e);
            },
        }
        i += 1;
    }
    assert(all.take(i as int) =~= all);
    Ok(out)
}

proof fn lemma_slot(table: Seq<(Node, Node)>, key: Seq<char>, r: int)
    requires
        0 <= r <= table.len(),
        forall|j: int| 0 <= j < r ==> text::text_lt((#[trigger] table[j]).0->Text_0, key),
        r < table.len() ==> !text::text_lt(table[r].0->Text_0, key),
    ensures
        slot(table, key) == r,
    decreases table.len(),
{
    if table.len() > 0 && r > 0 {
        assert(text::text_lt(table[0].0->Text_0, key));
        assert forall|j: int| 0 <= j < r - 1 implies text::text_lt(
            (#[trigger] table.drop_first()[j]).0->Text_0,
            key,
        ) by {
            assert(table.drop_first()[j] == table[j + 1]);
        }
        lemma_slot(table.drop_first(), key, r - 1);
    }
}

/// Puts `value` under `key` into a sorted table.
fn put_entry(table: &mut Vec<(Datum, Datum)>, key: String, value: Datum)
    requires
        forall|j: int| 0 <= j < old(table)@.len() ==> (#[trigger] old(table)@[j]).0@ is Text,
    ensures
        entries(final(table)@) == put(entries(old(table)@), key@, value@),
        forall|j: int| 0 <= j < final(table)@.len() ==> (#[trigger] final(table)@[j]).0@ is Text,
{
    let mut i: usize = 0;
    let ghost before = table@;
    let ghost all = entries(table@);
    let ghost e = (Node::Text(key@), value@);
    while i < table.len()
        invariant
            i <= table@.len(),
            table@ == before,
            before == old(table)@,
            all == entries(before),
            e == (Node::Text(key@), value@),
            forall|j: int| 0 <= j < before.len() ==> (#[trigger] before[j]).0@ is Text,
            forall|j: int|
                0 <= j < i ==> text::text_lt((#[trigger] all[j]).0->Text_0, key@),
        ensures
            i <= table@.len(),
            table@ == before,
            forall|j: int|
                0 <= j < i ==> text::text_lt((#[trigger] all[j]).0->Text_0, key@),
            i < table@.len() ==> !text::text_lt(all[i as int].0->Text_0, key@) && all[i as int].0
                != Node::Text(key@),
        decreases table@.len() - i,
    {
        assert(before[i as int].0@ is Text);
        match &table[i].0 {
            Datum::Text(existing) => {
                assert(all[i as int].0 == Node::Text(existing@));
                if !str_lt(existing.as_str(), key.as_str()) {
                    if str_eq(existing.as_str(), key.as_str()) {
                        proof {
                            lemma_slot(all, key@, i as int);
                        }
                        table.set(i, (Datum::Text(key), value));
                        assert(entries(table@) =~= all.update(i as int, e));
                        return;
                    }
                    break;
                }
            },
            _ => {
                assert(false);
            },
        }
        i += 1;
    }
    proof {
        lemma_slot(all, key@, i as int);
    }
    table.insert(i, (Datum::Text(key), value));
    assert(entries(table@) =~= all.insert(i as int, e));
}

// ---------------------------------------------------------------------------
// Laws of canonical documents
// ---------------------------------------------------------------------------

/// Text keys in strictly ascending order.
pub open spec fn sorted(table: Seq<(Node, Node)>) -> bool {
    &&& forall|i: int| 0 <= i < table.len() ==> (#[trigger] table[i]).0 is Text
    &&& forall|i: int, j: int|
        0 <= i < j < table.len() ==> text::text_lt(
            (#[trigger] table[i]).0->Text_0,
            (#[trigger] table[j]).0->Text_0,
        )
}

/// Every table below `node` is sorted, and nothing is tagged.
pub open spec fn is_canonical(node: Node) -> bool
    decreases node,
{
    match node {
        Node::Table(table) => sorted(table) && forall|i: int|
            0 <= i < table.len() ==> is_canonical((#[trigger] table[i]).1),
        Node::List(items) => forall|i: int|
            0 <= i < items.len() ==> is_canonical(#[trigger] items[i]),
        Node::Tagged(_, _) => false,
        _ => true,
    }
}

proof fn lemma_slot_bounds(table: Seq<(Node, Node)>, key: Seq<char>)
    ensures
        0 <= slot(table, key) <= table.len(),
        forall|j: int|
            0 <= j < slot(table, key) ==> text::text_lt((#[trigger] table[j]).0->Text_0, key),
        slot(table, key) < table.len() ==> !text::text_lt(
            table[slot(table, key)].0->Text_0,
            key,
        ),
    decreases table.len(),
{
    if table.len() > 0 && text::text_lt(table[0].0->Text_0, key) {
        lemma_slot_bounds(table.drop_first(), key);
        assert forall|j: int| 0 <= j < slot(table, key) implies text::text_lt(
            (#[trigger] table[j]).0->Text_0,
            key,
        ) by {
            if j > 0 {
                assert(table[j] == table.drop_first()[j - 1]);
            }
        }
    }
}

/// Putting an entry into a sorted table keeps it sorted.
proof fn lemma_put_sorted(table: Seq<(Node, Node)>, key: Seq<char>, node: Node)
    requires
        sorted(table),
    ensures
        sorted(put(table, key, node)),
{
    lemma_slot_bounds(table, key);
    let s = slot(table, key);
    let out = put(table, key, node);
    if s < table.len() && table[s].0 == Node::Text(key) {
        assert(out =~= table.update(s, (Node::Text(key), node)));
        assert forall|i: int, j: int| 0 <= i < j < out.len() implies text::text_lt(
            (#[trigger] out[i]).0->Text_0,
            (#[trigger] out[j]).0->Text_0,
        ) by {
            assert(out[i].0 == table[i].0 && out[j].0 == table[j].0);
        }
    } else {
        assert(out =~= table.insert(s, (Node::Text(key), node)));
        if s < table.len() {
            text::lemma_text_lt_total(table[s].0->Text_0, key);
            assert(text::text_lt(key, table[s].0->Text_0));
        }
        assert forall|i: int| 0 <= i < out.len() implies (#[trigger] out[i]).0 is Text by {
            if i < s {
                assert(out[i] == table[i]);
            } else if i > s {
                assert(out[i] == table[i - 1]);
            }
        }
        assert forall|i: int, j: int| 0 <= i < j < out.len() implies text::text_lt(
            (#[trigger] out[i]).0->Text_0,
            (#[trigger] out[j]).0->Text_0,
        ) by {
            if j < s {
                assert(out[i] == table[i] && out[j] == table[j]);
            } else if j == s {
                assert(out[i] == table[i]);
            } else if i < s {
                assert(out[i] == table[i] && out[j] == table[j - 1]);
            } else if i == s {
                assert(out[j] == table[j - 1]);
                if j - 1 > s {
                    text::lemma_text_lt_transitive(
                        key,
                        table[s].0->Text_0,
                        table[j - 1].0->Text_0,
                    );
                }
            } else {
                assert(out[i] == table[i - 1] && out[j] == table[j - 1]);
            }
        }
    }
}

/// The canonical form of a document is canonical.
pub proof fn law_canonical_is_canonical(node: Node)
    requires
        canonical(node) is Ok,
    ensures
        is_canonical(canonical(node)->Ok_0),
    decreases node,
{
    match node {
        Node::Table(table) => {
            lemma_canonical_table_sorted(table);
        },
        Node::List(items) => {
            lemma_canonical_list_items(items);
        },
        _ => {},
    }
}

proof fn lemma_canonical_table_sorted(table: Seq<(Node, Node)>)
    requires
        canonical_table(table) is Ok,
    ensures
        sorted(canonical_table(table)->Ok_0),
        forall|i: int|
            0 <= i < canonical_table(table)->Ok_0.len() ==> is_canonical(
                (#[trigger] canonical_table(table)->Ok_0[i]).1,
            ),
    decreases table,
{
    if table.len() > 0 {
        let rest = canonical_table(table.drop_last())->Ok_0;
        let key = table.last().0->Text_0;
        let node = canonical(table.last().1)->Ok_0;
        lemma_canonical_table_sorted(table.drop_last());
        law_canonical_is_canonical(table.last().1);
        lemma_put_sorted(rest, key, node);
        lemma_slot_bounds(rest, key);
        let s = slot(rest, key);
        let out = put(rest, key, node);
        assert forall|i: int| 0 <= i < out.len() implies is_canonical((#[trigger] out[i]).1) by {
            if s < rest.len() && rest[s].0 == Node::Text(key) {
                if i != s {
                    assert(out[i] == rest[i]);
                }
            } else {
                if i < s {
                    assert(out[i] == rest[i]);
                } else if i > s {
                    assert(out[i] == rest[i - 1]);
                }
            }
        }
    }
}

proof fn lemma_canonical_list_items(items: Seq<Node>)
    requires
        canonical_list(items) is Ok,
    ensures
        canonical_list(items)->Ok_0.len() == items.len(),
        forall|i: int|
            0 <= i < items.len() ==> canonical(#[trigger] items[i]) == Ok::<Node, Refusal>(
                canonical_list(items)->Ok_0[i],
            ),
        forall|i: int|
            0 <= i < items.len() ==> is_canonical(#[trigger] canonical_list(items)->Ok_0[i]),
    decreases items,
{
    if items.len() > 0 {
        let rest = canonical_list(items.drop_last())->Ok_0;
        let out = canonical_list(items)->Ok_0;
        lemma_canonical_list_items(items.drop_last());
        law_canonical_is_canonical(items.last());
        assert(out == rest.push(canonical(items.last())->Ok_0));
        assert forall|i: int| 0 <= i < items.len() implies canonical(#[trigger] items[i]) == Ok::<
            Node,
            Refusal,
        >(out[i]) by {
            if i < items.len() - 1 {
                assert(items.drop_last()[i] == items[i]);
            }
        }
        assert forall|i: int| 0 <= i < items.len() implies is_canonical(#[trigger] out[i]) by {
            if i < items.len() - 1 {
                assert(out[i] == rest[i]);
            }
        }
    }
}

/// A canonical document is its own canonical form.
pub proof fn law_canonical_fixed(node: Node)
    requires
        is_canonical(node),
    ensures
        canonical(node) == Ok::<Node, Refusal>(node),
    decreases node,
{
    match node {
        Node::Table(table) => {
            lemma_canonical_table_fixed(table);
        },
        Node::List(items) => {
            lemma_canonical_list_fixed(items);
        },
        _ => {},
    }
}

proof fn lemma_canonical_table_fixed(table: Seq<(Node, Node)>)
    requires
        sorted(table),
        forall|i: int| 0 <= i < table.len() ==> is_canonical((#[trigger] table[i]).1),
    ensures
        canonical_table(table) == Ok::<Seq<(Node, Node)>, Refusal>(table),
    decreases table,
{
    if table.len() > 0 {
        let rest = table.drop_last();
        assert forall|i: int| 0 <= i < rest.len() implies (#[trigger] rest[i]).0 is Text
            && is_canonical(rest[i].1) by {
            assert(rest[i] == table[i]);
        }
        assert forall|i: int, j: int| 0 <= i < j < rest.len() implies text::text_lt(
            (#[trigger] rest[i]).0->Text_0,
            (#[trigger] rest[j]).0->Text_0,
        ) by {
            assert(rest[i] == table[i] && rest[j] == table[j]);
        }
        lemma_canonical_table_fixed(rest);
        law_canonical_fixed(table.last().1);
        let key = table.last().0->Text_0;
        assert forall|j: int| 0 <= j < rest.len() implies text::text_lt(
            (#[trigger] rest[j]).0->Text_0,
            key,
        ) by {
            assert(rest[j] == table[j]);
            assert(table[table.len() - 1] == table.last());
        }
        lemma_slot(rest, key, rest.len() as int);
        assert(put(rest, key, table.last().1) =~= table);
    } else {
        assert(table =~= Seq::<(Node, Node)>::empty());
    }
}

proof fn lemma_canonical_list_fixed(items: Seq<Node>)
    requires
        forall|i: int| 0 <= i < items.len() ==> is_canonical(#[trigger] items[i]),
    ensures
        canonical_list(items) == Ok::<Seq<Node>, Refusal>(items),
    decreases items,
{
    if items.len() > 0 {
        assert forall|i: int| 0 <= i < items.drop_last().len() implies is_canonical(
            #[trigger] items.drop_last()[i],
        ) by {
            assert(items.drop_last()[i] == items[i]);
        }
        lemma_canonical_list_fixed(items.drop_last());
        law_canonical_fixed(items.last());
        assert(items.drop_last().push(items.last()) =~= items);
    } else {
        assert(items =~= Seq::<Node>::empty());
    }
}

/// In a sorted table a key is found exactly where it stands.
pub proof fn lemma_sorted_lookup(table: Seq<(Node, Node)>, i: int)
    requires
        sorted(table),
        0 <= i < table.len(),
    ensures
        lookup(table, table[i].0->Text_0) == Some(table[i].1),
{
    let key = table[i].0->Text_0;
    assert forall|j: int| 0 <= j < i implies (#[trigger] table[j]).0 != Node::Text(key) by {
        text::lemma_text_lt_irreflexive(key);
    }
    lemma_key_index(table, key, i);
}

/// What is found after a put: the new value under its key, and what was there
/// under every other.
proof fn lemma_put_lookup(table: Seq<(Node, Node)>, key: Seq<char>, node: Node, k: Seq<char>)
    requires
        sorted(table),
    ensures
        lookup(put(table, key, node), k) == (if k == key {
            Some(node)
        } else {
            lookup(table, k)
        }),
{
    lemma_put_sorted(table, key, node);
    lemma_slot_bounds(table, key);
    lemma_key_index_bounds(table, k);
    lemma_key_index_bounds(put(table, key, node), k);
    let s = slot(table, key);
    let out = put(table, key, node);
    let replaced = s < table.len() && table[s].0 == Node::Text(key);
    assert(out[s] == (Node::Text(key), node));
    if k == key {
        lemma_sorted_lookup(out, s);
    } else {
        let i = key_index(table, k);
        let j = key_index(out, k);
        if i < table.len() {
            let at = if replaced || i < s {
                i
            } else {
                i + 1
            };
            assert(out[at] == table[i]);
            lemma_sorted_lookup(out, at);
        } else if j < out.len() {
            assert(j != s);
            let at = if replaced || j < s {
                j
            } else {
                j - 1
            };
            assert(table[at] == out[j]);
            lemma_sorted_lookup(table, at);
            assert(false);
        }
    }
}

/// A sorted table is determined by what is found in it.
pub proof fn lemma_sorted_unique(a: Seq<(Node, Node)>, b: Seq<(Node, Node)>)
    requires
        sorted(a),
        sorted(b),
        forall|k: Seq<char>| lookup(a, k) == #[trigger] lookup(b, k),
    ensures
        a == b,
    decreases a.len(),
{
    if a.len() == 0 {
        if b.len() > 0 {
            lemma_sorted_lookup(b, 0);
            assert(lookup(a, b[0].0->Text_0) == lookup(b, b[0].0->Text_0));
            lemma_key_index_bounds(a, b[0].0->Text_0);
            assert(false);
        }
        assert(a =~= b);
    } else {
        let n = a.len() - 1;
        let ka = a.last().0->Text_0;
        lemma_sorted_lookup(a, n);
        assert(lookup(a, ka) == lookup(b, ka));
        lemma_key_index_bounds(b, ka);
        let m = b.len() - 1;
        assert(b.len() > 0);
        let kb = b.last().0->Text_0;
        lemma_sorted_lookup(b, m);
        assert(lookup(a, kb) == lookup(b, kb));
        lemma_key_index_bounds(a, kb);
        let ia = key_index(a, kb);
        let ib = key_index(b, ka);
        assert(a[ia].0 == Node::Text(kb));
        assert(b[ib].0 == Node::Text(ka));
        assert(ka == kb) by {
            if ka != kb {
                assert(ia < n);
                assert(ib < m);
                assert(text::text_lt(kb, ka));
                assert(text::text_lt(ka, kb));
                text::lemma_text_lt_transitive(ka, kb, ka);
                text::lemma_text_lt_irreflexive(ka);
            }
        }
        assert(a.last() == b.last());
        let a0 = a.drop_last();
        let b0 = b.drop_last();
        assert(sorted(a0)) by {
            assert forall|i: int| 0 <= i < a0.len() implies (#[trigger] a0[i]).0 is Text by {
                assert(a0[i] == a[i]);
            }
            assert forall|i: int, j: int| 0 <= i < j < a0.len() implies text::text_lt(
                (#[trigger] a0[i]).0->Text_0,
                (#[trigger] a0[j]).0->Text_0,
            ) by {
                assert(a0[i] == a[i] && a0[j] == a[j]);
            }
        }
        assert(sorted(b0)) by {
            assert forall|i: int| 0 <= i < b0.len() implies (#[trigger] b0[i]).0 is Text by {
                assert(b0[i] == b[i]);
            }
            assert forall|i: int, j: int| 0 <= i < j < b0.len() implies text::text_lt(
                (#[trigger] b0[i]).0->Text_0,
                (#[trigger] b0[j]).0->Text_0,
            ) by {
                assert(b0[i] == b[i] && b0[j] == b[j]);
            }
        }
        assert forall|k: Seq<char>| lookup(a0, k) == #[trigger] lookup(b0, k) by {
            lemma_drop_last_lookup(a, k);
            lemma_drop_last_lookup(b, k);
            assert(lookup(a, k) == lookup(b, k));
        }
        lemma_sorted_unique(a0, b0);
        assert(a =~= a0.push(a.last()));
        assert(b =~= b0.push(b.last()));
    }
}

proof fn lemma_drop_last_lookup(table: Seq<(Node, Node)>, k: Seq<char>)
    requires
        sorted(table),
        table.len() > 0,
    ensures
        lookup(table.drop_last(), k) == (if k == table.last().0->Text_0 {
            None
        } else {
            lookup(table, k)
        }),
{
    let rest = table.drop_last();
    lemma_key_index_bounds(table, k);
    lemma_key_index_bounds(rest, k);
    let n = table.len() - 1;
    assert(table[n] == table.last());
    let j = key_index(rest, k);
    if j < rest.len() {
        assert(rest[j] == table[j]);
        assert(text::text_lt(table[j].0->Text_0, table[n].0->Text_0));
        text::lemma_text_lt_irreflexive(k);
        lemma_sorted_lookup(table, j);
    } else {
        let i = key_index(table, k);
        if i < n {
            assert(rest[i] == table[i]);
        }
    }
}

/// The value under the last entry with the key `k`.
pub open spec fn last_under(table: Seq<(Node, Node)>, k: Seq<char>) -> Option<Node>
    decreases table.len(),
{
    if table.len() == 0 {
        None
    } else if table.last().0 == Node::Text(k) {
        Some(table.last().1)
    } else {
        last_under(table.drop_last(), k)
    }
}

/// What a key holds in the canonical form of a table is the canonical form of
/// what it holds last in the table.
pub proof fn law_canonical_table_lookup(table: Seq<(Node, Node)>, k: Seq<char>)
    requires
        canonical_table(table) is Ok,
    ensures
        lookup(canonical_table(table)->Ok_0, k) == (match last_under(table, k) {
            Some(node) => Some(canonical(node)->Ok_0),
            None => None,
        }),
        last_under(table, k) matches Some(node) ==> canonical(node) is Ok,
    decreases table.len(),
{
    if table.len() > 0 {
        let rest = canonical_table(table.drop_last())->Ok_0;
        lemma_canonical_table_sorted(table.drop_last());
        law_canonical_table_lookup(table.drop_last(), k);
        lemma_put_lookup(rest, table.last().0->Text_0, canonical(table.last().1)->Ok_0, k);
    }
}

/// No text key occurs twice.
pub open spec fn distinct_keys(table: Seq<(Node, Node)>) -> bool {
    forall|i: int, j: int|
        0 <= i < j < table.len() ==> (#[trigger] table[i]).0 != (#[trigger] table[j]).0
}

proof fn lemma_last_under(table: Seq<(Node, Node)>, k: Seq<char>)
    requires
        distinct_keys(table),
    ensures
        match last_under(table, k) {
            Some(node) => table.contains((Node::Text(k), node)),
            None => forall|node: Node| !#[trigger] table.contains((Node::Text(k), node)),
        },
    decreases table.len(),
{
    if table.len() > 0 {
        let rest = table.drop_last();
        assert(table[table.len() - 1] == table.last());
        if table.last().0 == Node::Text(k) {
            assert(table.contains((Node::Text(k), table.last().1)));
        } else {
            assert forall|i: int, j: int| 0 <= i < j < rest.len() implies (#[trigger] rest[i]).0 != (
            #[trigger] rest[j]).0 by {
                assert(rest[i] == table[i] && rest[j] == table[j]);
            }
            lemma_last_under(rest, k);
            match last_under(rest, k) {
                Some(node) => {
                    let i = choose|i: int| 0 <= i < rest.len() && rest[i] == (Node::Text(k), node);
                    assert(table[i] == rest[i]);
                },
                None => {
                    assert forall|node: Node| !#[trigger] table.contains(
                        (Node::Text(k), node),
                    ) by {
                        if table.contains((Node::Text(k), node)) {
                            let i = choose|i: int|
                                0 <= i < table.len() && table[i] == (Node::Text(k), node);
                            assert(rest[i] == table[i]);
                            assert(rest.contains((Node::Text(k), node)));
                        }
                    }
                },
            }
        }
    }
}

proof fn lemma_canonical_table_ok(table: Seq<(Node, Node)>)
    ensures
        canonical_table(table) is Ok <==> forall|i: int|
            0 <= i < table.len() ==> (#[trigger] table[i]).0 is Text && canonical(table[i].1) is Ok,
    decreases table.len(),
{
    if table.len() > 0 {
        let rest = table.drop_last();
        lemma_canonical_table_ok(rest);
        assert(table[table.len() - 1] == table.last());
        if canonical_table(table) is Ok {
            assert forall|i: int| 0 <= i < table.len() implies (#[trigger] table[i]).0 is Text
                && canonical(table[i].1) is Ok by {
                if i < table.len() - 1 {
                    assert(rest[i] == table[i]);
                }
            }
        } else if forall|i: int|
            0 <= i < table.len() ==> (#[trigger] table[i]).0 is Text && canonical(
                table[i].1,
            ) is Ok {
            assert forall|i: int| 0 <= i < rest.len() implies (#[trigger] rest[i]).0 is Text
                && canonical(rest[i].1) is Ok by {
                assert(rest[i] == table[i]);
            }
        }
    }
}

/// Two tables with the same entries in any order, none of whose keys occurs
/// twice, have the same canonical form, or neither has one.
pub proof fn law_canonical_ignores_order(a: Seq<(Node, Node)>, b: Seq<(Node, Node)>)
    requires
        distinct_keys(a),
        distinct_keys(b),
        a.to_multiset() == b.to_multiset(),
    ensures
        canonical_table(a) is Ok <==> canonical_table(b) is Ok,
        canonical_table(a) is Ok ==> canonical(Node::Table(a)) == canonical(Node::Table(b)),
{
    a.to_multiset_ensures();
    b.to_multiset_ensures();
    lemma_canonical_table_ok(a);
    lemma_canonical_table_ok(b);
    assert forall|e: (Node, Node)| a.contains(e) == #[trigger] b.contains(e) by {
        broadcast use vstd::seq_lib::to_multiset_contains;

        assert(a.contains(e) <==> a.to_multiset().count(e) > 0);
        assert(b.contains(e) <==> b.to_multiset().count(e) > 0);
    }
    if forall|i: int|
        0 <= i < a.len() ==> (#[trigger] a[i]).0 is Text && canonical(a[i].1) is Ok {
        assert forall|i: int| 0 <= i < b.len() implies (#[trigger] b[i]).0 is Text && canonical(
            b[i].1,
        ) is Ok by {
            assert(b.contains(b[i]));
            let j = choose|j: int| 0 <= j < a.len() && a[j] == b[i];
            assert(a[j].0 is Text);
        }
    }
    if forall|i: int|
        0 <= i < b.len() ==> (#[trigger] b[i]).0 is Text && canonical(b[i].1) is Ok {
        assert forall|i: int| 0 <= i < a.len() implies (#[trigger] a[i]).0 is Text && canonical(
            a[i].1,
        ) is Ok by {
            assert(a.contains(a[i]));
            assert(b.contains(a[i]));
            let j = choose|j: int| 0 <= j < b.len() && b[j] == a[i];
            assert(b[j].0 is Text);
        }
    }
    if canonical_table(a) is Ok {
        let ta = canonical_table(a)->Ok_0;
        let tb = canonical_table(b)->Ok_0;
        lemma_canonical_table_sorted(a);
        lemma_canonical_table_sorted(b);
        assert forall|k: Seq<char>| lookup(ta, k) == #[trigger] lookup(tb, k) by {
            law_canonical_table_lookup(a, k);
            law_canonical_table_lookup(b, k);
            lemma_last_under(a, k);
            lemma_last_under(b, k);
            match (last_under(a, k), last_under(b, k)) {
                (Some(x), Some(y)) => {
                    let e = (Node::Text(k), x);
                    let f = (Node::Text(k), y);
                    assert(b.contains(e) && b.contains(f));
                    let i = choose|i: int| 0 <= i < b.len() && b[i] == e;
                    let j = choose|j: int| 0 <= j < b.len() && b[j] == f;
                    assert(i == j) by {
                        if i < j {
                            assert(b[i].0 != b[j].0);
                        } else if j < i {
                            assert(b[j].0 != b[i].0);
                        }
                    }
                },
                (Some(x), None) => {
                    assert(b.contains((Node::Text(k), x)));
                },
                (None, Some(y)) => {
                    assert(a.contains((Node::Text(k), y)) == b.contains((Node::Text(k), y)));
                },
                (None, None) => {},
            }
        }
        lemma_sorted_unique(ta, tb);
    }
}

/// Where no key stands twice, the first entry under a key is the last one.
pub proof fn lemma_last_is_first(table: Seq<(Node, Node)>, k: Seq<char>)
    requires
        distinct_keys(table),
    ensures
        last_under(table, k) == lookup(table, k),
    decreases table.len(),
{
    if table.len() > 0 {
        let rest = table.drop_last();
        assert forall|i: int, j: int| 0 <= i < j < rest.len() implies (#[trigger] rest[i]).0 != (
        #[trigger] rest[j]).0 by {
            assert(rest[i] == table[i] && rest[j] == table[j]);
        }
        lemma_last_is_first(rest, k);
        lemma_lookup_push(rest, table.last(), k);
        assert(rest.push(table.last()) =~= table);
        if table.last().0 == Node::Text(k) {
            lemma_key_index_bounds(rest, k);
            let r = key_index(rest, k);
            if r < rest.len() {
                assert(table[r] == rest[r]);
                assert(table[r].0 != table[table.len() - 1].0);
            }
        }
    }
}

pub proof fn lemma_inserted_keeps_keys_apart(table: Seq<(Node, Node)>, key: Seq<char>, node: Node)
    requires
        distinct_keys(table),
    ensures
        distinct_keys(inserted(table, key, node)),
{
    lemma_key_index_bounds(table, key);
    let r = key_index(table, key);
    let after = inserted(table, key, node);
    assert forall|i: int, j: int| 0 <= i < j < after.len() implies (#[trigger] after[i]).0 != (
    #[trigger] after[j]).0 by {
        if r < table.len() {
            assert(after[i].0 == table[i].0 && after[j].0 == table[j].0);
        } else if j == table.len() {
            assert(table[i].0 != Node::Text(key));
        } else {
            assert(after[i] == table[i] && after[j] == table[j]);
        }
    }
}

pub proof fn lemma_removed_keeps_keys_apart(table: Seq<(Node, Node)>, key: Seq<char>)
    requires
        distinct_keys(table),
    ensures
        distinct_keys(removed(table, key)),
        forall|i: int|
            0 <= i < removed(table, key).len() ==> exists|j: int|
                0 <= j < table.len() && (#[trigger] table[j]).0 == (#[trigger] removed(
                    table,
                    key,
                )[i]).0,
    decreases table.len(),
{
    if table.len() > 0 {
        let rest = table.drop_last();
        assert forall|i: int, j: int| 0 <= i < j < rest.len() implies (#[trigger] rest[i]).0 != (
        #[trigger] rest[j]).0 by {
            assert(rest[i] == table[i] && rest[j] == table[j]);
        }
        lemma_removed_keeps_keys_apart(rest, key);
        let before = removed(rest, key);
        let after = removed(table, key);
        assert forall|i: int| 0 <= i < after.len() implies exists|j: int|
            0 <= j < table.len() && (#[trigger] table[j]).0 == (#[trigger] after[i]).0 by {
            if i < before.len() {
                assert(after[i] == before[i]);
                let j = choose|j: int|
                    0 <= j < rest.len() && (#[trigger] rest[j]).0 == before[i].0;
                assert(table[j] == rest[j]);
            } else {
                assert(table[table.len() - 1].0 == after[i].0);
            }
        }
        assert forall|i: int, j: int| 0 <= i < j < after.len() implies (#[trigger] after[i]).0 != (
        #[trigger] after[j]).0 by {
            assert(after[i] == before[i]);
            if j < before.len() {
                assert(after[j] == before[j]);
            } else {
                let k = choose|k: int|
                    0 <= k < rest.len() && (#[trigger] rest[k]).0 == before[i].0;
                assert(table[k] == rest[k]);
                assert(table[k].0 != table[table.len() - 1].0);
            }
        }
    }
}

/// Texts, flags, integers and nothing are alike only where they are equal.
pub proof fn law_plain_values_are_alike_where_equal(a: Node, b: Node)
    requires
        a is Text || a is Bool || a is Int || a is Null,
    ensures
        alike(a, b) <==> a == b,
        alike(b, a) <==> a == b,
{
}

/// A value is read as what it is and as nothing else, whatever tags stand above it.
pub proof fn law_values_are_read_as_what_they_are(node: Node, tag: Seq<char>)
    ensures
        node matches Node::Text(s) ==> node.text() == Some(s) && node.flag() is None
            && node.int64() is None && node.table() is None,
        node matches Node::Bool(b) ==> node.flag() == Some(b) && node.text() is None
            && node.int64() is None && node.table() is None,
        node matches Node::Int(n) ==> (node.int64() matches Some(m) ==> m == n) && (i64::MIN <= n
            <= i64::MAX ==> node.int64() is Some) && node.text() is None && node.flag() is None,
        node matches Node::Table(t) ==> node.table() == Some(t) && node.text() is None,
        node is Null ==> node.text() is None && node.flag() is None && node.int64() is None
            && node.table() is None,
        Node::Tagged(tag, Box::new(node)).text() == node.text(),
        Node::Tagged(tag, Box::new(node)).flag() == node.flag(),
        Node::Tagged(tag, Box::new(node)).int64() == node.int64(),
        Node::Tagged(tag, Box::new(node)).table() == node.table(),
{
    reveal_with_fuel(Node::untagged, 2);
}

/// The entry is the first one under the key.
pub open spec fn first_under(table: Seq<(Node, Node)>, key: Seq<char>, i: int) -> bool {
    &&& 0 <= i < table.len()
    &&& table[i].0 == Node::Text(key)
    &&& forall|j: int| 0 <= j < i ==> (#[trigger] table[j]).0 != Node::Text(key)
}

/// A key is looked up where it first stands, and is not there where no entry has it.
pub proof fn law_keys_are_looked_up(table: Seq<(Node, Node)>, key: Seq<char>)
    ensures
        lookup(table, key) is None <==> forall|i: int|
            0 <= i < table.len() ==> (#[trigger] table[i]).0 != Node::Text(key),
        lookup(table, key) matches Some(node) ==> exists|i: int|
            #[trigger] first_under(table, key, i) && table[i].1 == node,
{
    lemma_key_index_bounds(table, key);
    let i = key_index(table, key);
    if i < table.len() {
        assert(first_under(table, key, i));
    }
}

} // verus!
