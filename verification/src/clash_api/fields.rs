//! Fields of typed structures as entries of a document.

use vstd::prelude::*;
use vstd::string::*;

use crate::text;
use crate::tree;
use crate::value;
use crate::value::{Datum, Node, Number};

verus! {

pub open spec fn text_node(s: String) -> Node {
    Node::Text(s@)
}

pub open spec fn flag_node(b: bool) -> Node {
    Node::Bool(b)
}

pub open spec fn int_node(n: i64) -> Node {
    Node::Int(n as int)
}

pub open spec fn uint_node(n: u32) -> Node {
    Node::Int(n as int)
}

pub open spec fn texts_node(items: Vec<String>) -> Node {
    Node::List(Seq::new(items@.len(), |i: int| text_node(items@[i])))
}

pub open spec fn uints_node(items: Vec<u32>) -> Node {
    Node::List(Seq::new(items@.len(), |i: int| uint_node(items@[i])))
}

pub open spec fn ints_node(items: Vec<i64>) -> Node {
    Node::List(Seq::new(items@.len(), |i: int| int_node(items@[i])))
}

pub open spec fn pairs_node(items: Vec<(String, String)>) -> Node {
    Node::Table(Seq::new(items@.len(), |i: int| (text_node(items@[i].0), text_node(items@[i].1))))
}

/// The pairs of a map: their keys ascend, so that none is there twice.
pub open spec fn ordered(items: Seq<(String, String)>) -> bool {
    forall|i: int, j: int|
        0 <= i < j < items.len() ==> text::text_lt((#[trigger] items[i]).0@, (#[trigger] items[j]).0@)
}

/// The entry of a field that is left out where it is not set.
#[verifier::opaque]
pub open spec fn optional(key: Seq<char>, node: Option<Node>) -> Seq<(Node, Node)> {
    match node {
        Some(n) => seq![(Node::Text(key), n)],
        None => Seq::empty(),
    }
}

/// The entry of a field that is null where it is not set.
#[verifier::opaque]
pub open spec fn nullable(key: Seq<char>, node: Option<Node>) -> Seq<(Node, Node)> {
    match node {
        Some(n) => seq![(Node::Text(key), n)],
        None => seq![(Node::Text(key), Node::Null)],
    }
}

#[verifier::opaque]
pub open spec fn option_node(value: Option<Datum>) -> Option<Node> {
    match value {
        Some(v) => Some(v@),
        None => None,
    }
}

pub fn text_value(s: &String) -> (r: Datum)
    ensures
        r@ == text_node(*s),
{
    Datum::Text(s.clone())
}

pub fn flag_value(b: bool) -> (r: Datum)
    ensures
        r@ == flag_node(b),
{
    Datum::Bool(b)
}

pub fn int_value(n: i64) -> (r: Datum)
    ensures
        r@ == int_node(n),
{
    if n >= 0 {
        Datum::Number(Number::Unsigned(n as u64))
    } else {
        Datum::Number(Number::Negative(n))
    }
}

pub fn uint_value(n: u32) -> (r: Datum)
    ensures
        r@ == uint_node(n),
{
    Datum::Number(Number::Unsigned(n as u64))
}

pub fn texts_value(items: &Vec<String>) -> (r: Datum)
    ensures
        r@ == texts_node(*items),
{
    let mut out: Vec<Datum> = Vec::new();
    let mut i: usize = 0;
    while i < items.len()
        invariant
            i <= items@.len(),
            out@.len() == i,
            forall|j: int| 0 <= j < i ==> (#[trigger] out@[j])@ == text_node(items@[j]),
        decreases items@.len() - i,
    {
        out.push(text_value(&items[i]));
        i += 1;
    }
    proof {
        Datum::lemma_list(out);
        assert(value::nodes(out@) =~= texts_node(*items)->List_0);
    }
    Datum::List(out)
}

pub fn uints_value(items: &Vec<u32>) -> (r: Datum)
    ensures
        r@ == uints_node(*items),
{
    let mut out: Vec<Datum> = Vec::new();
    let mut i: usize = 0;
    while i < items.len()
        invariant
            i <= items@.len(),
            out@.len() == i,
            forall|j: int| 0 <= j < i ==> (#[trigger] out@[j])@ == uint_node(items@[j]),
        decreases items@.len() - i,
    {
        out.push(uint_value(items[i]));
        i += 1;
    }
    proof {
        Datum::lemma_list(out);
        assert(value::nodes(out@) =~= uints_node(*items)->List_0);
    }
    Datum::List(out)
}

pub fn ints_value(items: &Vec<i64>) -> (r: Datum)
    ensures
        r@ == ints_node(*items),
{
    let mut out: Vec<Datum> = Vec::new();
    let mut i: usize = 0;
    while i < items.len()
        invariant
            i <= items@.len(),
            out@.len() == i,
            forall|j: int| 0 <= j < i ==> (#[trigger] out@[j])@ == int_node(items@[j]),
        decreases items@.len() - i,
    {
        out.push(int_value(items[i]));
        i += 1;
    }
    proof {
        Datum::lemma_list(out);
        assert(value::nodes(out@) =~= ints_node(*items)->List_0);
    }
    Datum::List(out)
}

pub fn pairs_value(items: &Vec<(String, String)>) -> (r: Datum)
    ensures
        r@ == pairs_node(*items),
{
    let mut out: Vec<(Datum, Datum)> = Vec::new();
    let mut i: usize = 0;
    while i < items.len()
        invariant
            i <= items@.len(),
            out@.len() == i,
            forall|j: int|
                0 <= j < i ==> (#[trigger] out@[j]).0@ == text_node(items@[j].0) && out@[j].1@
                    == text_node(items@[j].1),
        decreases items@.len() - i,
    {
        out.push((text_value(&items[i].0), text_value(&items[i].1)));
        i += 1;
    }
    proof {
        Datum::lemma_table(out);
        assert(value::entries(out@) =~= pairs_node(*items)->Table_0);
    }
    Datum::Table(out)
}

/// A field that may be unset.
#[verifier::opaque]
pub open spec fn maybe_text(v: Option<String>) -> Option<Node> {
    match v {
        Some(v) => Some(text_node(v)),
        None => None,
    }
}

pub fn maybe_text_value(v: &Option<String>) -> (r: Option<Datum>)
    ensures
        option_node(r) == maybe_text(*v),
{
    reveal(option_node);
    reveal(maybe_text);
    match v {
        Some(v) => Some(text_value(v)),
        None => None,
    }
}

/// A field that may be unset.
#[verifier::opaque]
pub open spec fn maybe_flag(v: Option<bool>) -> Option<Node> {
    match v {
        Some(v) => Some(flag_node(v)),
        None => None,
    }
}

pub fn maybe_flag_value(v: &Option<bool>) -> (r: Option<Datum>)
    ensures
        option_node(r) == maybe_flag(*v),
{
    reveal(option_node);
    reveal(maybe_flag);
    match v {
        Some(v) => Some(flag_value(*v)),
        None => None,
    }
}

/// A field that may be unset.
#[verifier::opaque]
pub open spec fn maybe_int(v: Option<i64>) -> Option<Node> {
    match v {
        Some(v) => Some(int_node(v)),
        None => None,
    }
}

pub fn maybe_int_value(v: &Option<i64>) -> (r: Option<Datum>)
    ensures
        option_node(r) == maybe_int(*v),
{
    reveal(option_node);
    reveal(maybe_int);
    match v {
        Some(v) => Some(int_value(*v)),
        None => None,
    }
}

/// A field that may be unset.
#[verifier::opaque]
pub open spec fn maybe_uint(v: Option<u32>) -> Option<Node> {
    match v {
        Some(v) => Some(uint_node(v)),
        None => None,
    }
}

pub fn maybe_uint_value(v: &Option<u32>) -> (r: Option<Datum>)
    ensures
        option_node(r) == maybe_uint(*v),
{
    reveal(option_node);
    reveal(maybe_uint);
    match v {
        Some(v) => Some(uint_value(*v)),
        None => None,
    }
}

/// A field that may be unset.
#[verifier::opaque]
pub open spec fn maybe_texts(v: Option<Vec<String>>) -> Option<Node> {
    match v {
        Some(v) => Some(texts_node(v)),
        None => None,
    }
}

pub fn maybe_texts_value(v: &Option<Vec<String>>) -> (r: Option<Datum>)
    ensures
        option_node(r) == maybe_texts(*v),
{
    reveal(option_node);
    reveal(maybe_texts);
    match v {
        Some(v) => Some(texts_value(v)),
        None => None,
    }
}

/// A field that may be unset.
#[verifier::opaque]
pub open spec fn maybe_uints(v: Option<Vec<u32>>) -> Option<Node> {
    match v {
        Some(v) => Some(uints_node(v)),
        None => None,
    }
}

pub fn maybe_uints_value(v: &Option<Vec<u32>>) -> (r: Option<Datum>)
    ensures
        option_node(r) == maybe_uints(*v),
{
    reveal(option_node);
    reveal(maybe_uints);
    match v {
        Some(v) => Some(uints_value(v)),
        None => None,
    }
}

/// A field that may be unset.
#[verifier::opaque]
pub open spec fn maybe_ints(v: Option<Vec<i64>>) -> Option<Node> {
    match v {
        Some(v) => Some(ints_node(v)),
        None => None,
    }
}

pub fn maybe_ints_value(v: &Option<Vec<i64>>) -> (r: Option<Datum>)
    ensures
        option_node(r) == maybe_ints(*v),
{
    reveal(option_node);
    reveal(maybe_ints);
    match v {
        Some(v) => Some(ints_value(v)),
        None => None,
    }
}

/// A field that may be unset.
#[verifier::opaque]
pub open spec fn maybe_pairs(v: Option<Vec<(String, String)>>) -> Option<Node> {
    match v {
        Some(v) => Some(pairs_node(v)),
        None => None,
    }
}

pub fn maybe_pairs_value(v: &Option<Vec<(String, String)>>) -> (r: Option<Datum>)
    ensures
        option_node(r) == maybe_pairs(*v),
{
    reveal(option_node);
    reveal(maybe_pairs);
    match v {
        Some(v) => Some(pairs_value(v)),
        None => None,
    }
}

/// A value that is there.
pub fn given(v: Datum) -> (r: Option<Datum>)
    ensures
        option_node(r) == Some(v@),
{
    reveal(option_node);
    Some(v)
}

/// Adds an entry, where there is a value.
pub fn push_optional(out: &mut Vec<(Datum, Datum)>, key: &str, value: Option<Datum>)
    ensures
        value::entries(final(out)@) == value::entries(old(out)@) + optional(
            key@,
            option_node(value),
        ),
{
    reveal(optional);
    reveal(option_node);
    let ghost before = out@;
    match value {
        Some(v) => {
            let ghost node = v@;
            out.push((Datum::Text(key.to_owned()), v));
            assert(value::entries(out@) =~= value::entries(before) + seq![
                (Node::Text(key@), node),
            ]);
        },
        None => {
            assert(value::entries(before) + Seq::empty() =~= value::entries(before));
        },
    }
}

/// Adds an entry, null where there is no value.
pub fn push_nullable(out: &mut Vec<(Datum, Datum)>, key: &str, value: Option<Datum>)
    ensures
        value::entries(final(out)@) == value::entries(old(out)@) + nullable(
            key@,
            option_node(value),
        ),
{
    reveal(nullable);
    reveal(option_node);
    let ghost before = out@;
    let v = match value {
        Some(v) => v,
        None => Datum::Null,
    };
    let ghost node = v@;
    out.push((Datum::Text(key.to_owned()), v));
    assert(value::entries(out@) =~= value::entries(before) + seq![(Node::Text(key@), node)]);
}

// ---------------------------------------------------------------------------
// Keys of what is put together field by field
// ---------------------------------------------------------------------------

/// The keys of two parts are those of either.
pub broadcast proof fn lemma_keys_of_parts(a: Seq<(Node, Node)>, b: Seq<(Node, Node)>, key: Seq<char>)
    ensures
        #[trigger] value::holds_key(a + b, key) == (value::holds_key(a, key) || value::holds_key(
            b,
            key,
        )),
{
    reveal(value::holds_key);
    if value::holds_key(a, key) {
        let i = choose|i: int| 0 <= i < a.len() && (#[trigger] a[i]).0 == Node::Text(key);
        assert((a + b)[i].0 == Node::Text(key));
    }
    if value::holds_key(b, key) {
        let i = choose|i: int| 0 <= i < b.len() && (#[trigger] b[i]).0 == Node::Text(key);
        assert((a + b)[a.len() + i].0 == Node::Text(key));
    }
    if value::holds_key(a + b, key) {
        let i = choose|i: int|
            0 <= i < (a + b).len() && (#[trigger] (a + b)[i]).0 == Node::Text(key);
        if i < a.len() {
            assert(a[i].0 == Node::Text(key));
        } else {
            assert(b[i - a.len()].0 == Node::Text(key));
        }
    }
}

pub broadcast proof fn lemma_keys_of_nothing(key: Seq<char>)
    ensures
        !(#[trigger] value::holds_key(Seq::<(Node, Node)>::empty(), key)),
{
    reveal(value::holds_key);
}

/// A field that is set is there under its key alone.
pub broadcast proof fn lemma_keys_of_optional(name: Seq<char>, node: Option<Node>, key: Seq<char>)
    ensures
        #[trigger] value::holds_key(optional(name, node), key) == (node is Some && name == key),
{
    reveal(value::holds_key);
    reveal(optional);
    if node is Some {
        assert(optional(name, node)[0].0 == Node::Text(name));
    }
}

/// A field that may be null is always there, under its key alone.
pub broadcast proof fn lemma_keys_of_nullable(name: Seq<char>, node: Option<Node>, key: Seq<char>)
    ensures
        #[trigger] value::holds_key(nullable(name, node), key) == (name == key),
{
    reveal(value::holds_key);
    reveal(nullable);
    assert(nullable(name, node)[0].0 == Node::Text(name));
}

pub broadcast group group_keys {
    lemma_keys_of_parts,
    lemma_keys_of_nothing,
    lemma_keys_of_optional,
    lemma_keys_of_nullable,
}

// ---------------------------------------------------------------------------
// Parts without a key twice
// ---------------------------------------------------------------------------

/// No key is there twice, at any depth.
#[verifier::opaque]
pub open spec fn apart(table: Seq<(Node, Node)>) -> bool {
    tree::well_keyed(Node::Table(table))
}

pub proof fn lemma_apart(table: Seq<(Node, Node)>)
    requires
        apart(table),
    ensures
        tree::well_keyed(Node::Table(table)),
{
    reveal(apart);
}

pub proof fn no_fields() -> (r: Seq<(Node, Node)>)
    ensures
        apart(r),
        r == Seq::<(Node, Node)>::empty(),
{
    reveal(apart);
    Seq::empty()
}

proof fn lemma_one_more(a: Seq<(Node, Node)>, name: Seq<char>, node: Node)
    requires
        tree::well_keyed(Node::Table(a)),
        !value::holds_key(a, name),
        tree::well_keyed(node),
    ensures
        tree::well_keyed(Node::Table(a.push((Node::Text(name), node)))),
{
    reveal(value::holds_key);
    let b = a.push((Node::Text(name), node));
    assert forall|i: int| 0 <= i < b.len() implies (#[trigger] b[i]).0 is Text && tree::well_keyed(
        b[i].1,
    ) by {
        if i < a.len() {
            assert(b[i] == a[i]);
        }
    }
    assert forall|i: int, j: int| 0 <= i < j < b.len() implies (#[trigger] b[i]).0 != (
    #[trigger] b[j]).0 by {
        assert(b[i] == a[i]);
        if j < a.len() {
            assert(b[j] == a[j]);
        }
    }
    assert(value::distinct_keys(b));
}

/// A field with a key of its own keeps the keys apart.
pub proof fn with_optional(a: Seq<(Node, Node)>, name: Seq<char>, node: Option<Node>) -> (r: Seq<
    (Node, Node),
>)
    requires
        apart(a),
        !value::holds_key(a, name),
        node matches Some(n) ==> tree::well_keyed(n),
    ensures
        apart(r),
        r == a + optional(name, node),
{
    reveal(apart);
    reveal(optional);
    match node {
        Some(n) => {
            lemma_one_more(a, name, n);
            assert(a + optional(name, node) =~= a.push((Node::Text(name), n)));
        },
        None => {
            assert(a + optional(name, node) =~= a);
        },
    }
    a + optional(name, node)
}

/// A field with a key of its own keeps the keys apart.
pub proof fn with_nullable(a: Seq<(Node, Node)>, name: Seq<char>, node: Option<Node>) -> (r: Seq<
    (Node, Node),
>)
    requires
        apart(a),
        !value::holds_key(a, name),
        node matches Some(n) ==> tree::well_keyed(n),
    ensures
        apart(r),
        r == a + nullable(name, node),
{
    reveal(apart);
    reveal(nullable);
    let n = match node {
        Some(n) => n,
        None => Node::Null,
    };
    lemma_one_more(a, name, n);
    assert(a + nullable(name, node) =~= a.push((Node::Text(name), n)));
    a + nullable(name, node)
}

/// The pairs of a map keep their keys apart.
pub proof fn lemma_pairs_keep_keys_apart(items: Vec<(String, String)>)
    requires
        ordered(items@),
    ensures
        tree::well_keyed(pairs_node(items)),
{
    let table = pairs_node(items)->Table_0;
    assert forall|i: int, j: int| 0 <= i < j < table.len() implies (#[trigger] table[i]).0 != (
    #[trigger] table[j]).0 by {
        text::lemma_text_lt_irreflexive(items@[i].0@);
        assert(text::text_lt(items@[i].0@, items@[j].0@));
    }
    assert(value::distinct_keys(table));
    assert forall|i: int| 0 <= i < table.len() implies (#[trigger] table[i]).0 is Text
        && tree::well_keyed(table[i].1) by {
        assert(table[i].1 == Node::Text(items@[i].1@));
    }
}

} // verus!
