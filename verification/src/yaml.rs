//! YAML texts as documents.

use serde_yaml_ng::Value as Yaml;

use vstd::prelude::*;

use crate::text;
use crate::value;
use crate::value::{Datum, Node, Number};

verus! {

#[verifier::external_type_specification]
#[verifier::external_body]
pub struct ExYaml(serde_yaml_ng::Value);

/// What a parsed YAML value holds. An integer is held as one; any other number is
/// held by the text that `serde_yaml_ng` prints for it.
pub uninterp spec fn held(value: serde_yaml_ng::Value) -> Node;

/// What a YAML text is read as.
pub uninterp spec fn yaml_tree(raw: Seq<u8>) -> Result<Node, Seq<char>>;

// ---------------------------------------------------------------------------
// Reading
// ---------------------------------------------------------------------------

/// `serde_yaml_ng::from_slice` into a `serde_yaml_ng::Value`: the value that the
/// text stands for, or the words of the error. The result is named after the
/// text.
#[verifier::external_body]
fn load(raw: &[u8]) -> (r: Result<serde_yaml_ng::Value, String>)
    ensures
        match r {
            Ok(v) => yaml_tree(raw@) == Ok::<Node, Seq<char>>(held(v)),
            Err(e) => yaml_tree(raw@) == Err::<Node, Seq<char>>(e@),
        },
{
    serde_yaml_ng::from_slice(raw).map_err(|e| e.to_string())
}

/// The outermost layer of a value.
pub enum Layer<'a> {
    Null,
    Bool(bool),
    Number(Number),
    Text(String),
    List(Vec<&'a serde_yaml_ng::Value>),
    Table(Vec<(&'a serde_yaml_ng::Value, &'a serde_yaml_ng::Value)>),
    Tagged(String, &'a serde_yaml_ng::Value),
}

pub open spec fn held_items(items: Seq<&serde_yaml_ng::Value>) -> Seq<Node> {
    Seq::new(items.len(), |i: int| held(*items[i]))
}

pub open spec fn held_entries(
    items: Seq<(&serde_yaml_ng::Value, &serde_yaml_ng::Value)>,
) -> Seq<(Node, Node)> {
    Seq::new(items.len(), |i: int| (held(*items[i].0), held(*items[i].1)))
}

/// What a value holds, by its outermost layer.
pub open spec fn layered(layer: Layer) -> Node {
    match layer {
        Layer::Null => Node::Null,
        Layer::Bool(b) => Node::Bool(b),
        Layer::Number(n) => n@,
        Layer::Text(s) => Node::Text(s@),
        Layer::List(items) => Node::List(held_items(items@)),
        Layer::Table(items) => Node::Table(held_entries(items@)),
        Layer::Tagged(tag, inner) => Node::Tagged(tag@, Box::new(held(*inner))),
    }
}

/// The outermost layer of a `serde_yaml_ng::Value`, variant by variant: lists and
/// mappings in their order, an integer as one and any other number by its text.
#[verifier::external_body]
fn peel<'a>(value: &'a serde_yaml_ng::Value) -> (r: Layer<'a>)
    ensures
        layered(r) == held(*value),
{
    match value {
        Yaml::Null => Layer::Null,
        Yaml::Bool(b) => Layer::Bool(*b),
        Yaml::Number(n) => Layer::Number(match (n.as_u64(), n.as_i64()) {
            (Some(u), _) => Number::Unsigned(u),
            (None, Some(i)) => Number::Negative(i),
            (None, None) => Number::Decimal(n.to_string()),
        }),
        Yaml::String(s) => Layer::Text(s.clone()),
        Yaml::Sequence(q) => Layer::List(q.iter().collect()),
        Yaml::Mapping(m) => Layer::Table(m.iter().collect()),
        Yaml::Tagged(t) => Layer::Tagged(t.tag.to_string(), &t.value),
    }
}

/// The document that a value holds.
fn from_yaml(value: &serde_yaml_ng::Value) -> (r: Datum)
    ensures
        r@ == held(*value),
    decreases held(*value),
{
    match peel(value) {
        Layer::Null => Datum::Null,
        Layer::Bool(b) => Datum::Bool(b),
        Layer::Number(n) => Datum::Number(n),
        Layer::Text(s) => Datum::Text(s),
        Layer::List(items) => {
            let ghost all = held_items(items@);
            let n: usize = items.len();
            let mut out: Vec<Datum> = Vec::new();
            let mut i: usize = 0;
            assert(value::nodes(out@) =~= all.take(0));
            while i < n
                invariant
                    n == items@.len(),
                    all == held_items(items@),
                    held(*value) == Node::List(all),
                    i <= n,
                    out@.len() == i,
                    value::nodes(out@) == all.take(i as int),
                decreases n - i,
            {
                let ghost before = out@;
                assert(all[i as int] == held(*items@[i as int]));
                assert(decreases_to!(held(*value) => held(*value)->List_0[i as int]));
                out.push(from_yaml(items[i]));
                assert(value::nodes(out@) =~= value::nodes(before).push(all[i as int]));
                assert(all.take(i + 1) =~= all.take(i as int).push(all[i as int]));
                i += 1;
            }
            assert(all.take(n as int) =~= all);
            proof {
                Datum::lemma_list(out);
            }
            Datum::List(out)
        },
        Layer::Table(items) => {
            let ghost all = held_entries(items@);
            let n: usize = items.len();
            let mut out: Vec<(Datum, Datum)> = Vec::new();
            let mut i: usize = 0;
            assert(value::entries(out@) =~= all.take(0));
            while i < n
                invariant
                    n == items@.len(),
                    all == held_entries(items@),
                    held(*value) == Node::Table(all),
                    i <= n,
                    out@.len() == i,
                    value::entries(out@) == all.take(i as int),
                decreases n - i,
            {
                let ghost before = out@;
                assert(all[i as int] == (held(*items@[i as int].0), held(*items@[i as int].1)));
                assert(decreases_to!(held(*value) => held(*value)->Table_0[i as int].0));
                assert(decreases_to!(held(*value) => held(*value)->Table_0[i as int].1));
                let key = from_yaml(items[i].0);
                let inner = from_yaml(items[i].1);
                out.push((key, inner));
                assert(value::entries(out@) =~= value::entries(before).push(all[i as int]));
                assert(all.take(i + 1) =~= all.take(i as int).push(all[i as int]));
                i += 1;
            }
            assert(all.take(n as int) =~= all);
            proof {
                Datum::lemma_table(out);
            }
            Datum::Table(out)
        },
        Layer::Tagged(tag, inner) => {
            assert(decreases_to!(held(*value) => *held(*value)->Tagged_1));
            Datum::Tagged(tag, Box::new(from_yaml(inner)))
        },
    }
}

/// The document that a YAML text stands for.
pub fn read(raw: &[u8]) -> (r: Result<Datum, String>)
    ensures
        match r {
            Ok(v) => yaml_tree(raw@) == Ok::<Node, Seq<char>>(v@),
            Err(e) => yaml_tree(raw@) == Err::<Node, Seq<char>>(e@),
        },
{
    match load(raw) {
        Ok(v) => Ok(from_yaml(&v)),
        Err(e) => Err(e),
    }
}

// ---------------------------------------------------------------------------
// Writing
// ---------------------------------------------------------------------------

/// What the text of a number is read as.
pub uninterp spec fn reread(text: Seq<char>) -> Node;

/// What a document becomes as a value: numbers that are not integers are read
/// again from their texts.
pub open spec fn rebuilt(node: Node) -> Node
    decreases node,
{
    match node {
        Node::Decimal(text) => reread(text),
        Node::List(items) => Node::List(
            Seq::new(
                items.len(),
                |i: int|
                    if 0 <= i < items.len() {
                        rebuilt(items[i])
                    } else {
                        Node::Null
                    },
            ),
        ),
        Node::Table(table) => Node::Table(
            Seq::new(
                table.len(),
                |i: int|
                    if 0 <= i < table.len() {
                        (table[i].0, rebuilt(table[i].1))
                    } else {
                        (Node::Null, Node::Null)
                    },
            ),
        ),
        _ => node,
    }
}

/// The text of a number as a `serde_yaml_ng::Value`: the number that the `FromStr`
/// of `serde_yaml_ng::Number` reads, or the text itself where it reads none. The
/// result is named after the text.
#[verifier::external_body]
fn number_value(text: &String) -> (r: serde_yaml_ng::Value)
    ensures
        held(r) == reread(text@),
{
    text.parse().map_or_else(|_| text.clone().into(), Yaml::Number)
}

/// `Value::Null` of `serde_yaml_ng`.
#[verifier::external_body]
fn null_value() -> (r: serde_yaml_ng::Value)
    ensures
        held(r) == Node::Null,
{
    Yaml::Null
}

/// `Value::Bool` of `serde_yaml_ng`.
#[verifier::external_body]
fn bool_value(b: bool) -> (r: serde_yaml_ng::Value)
    ensures
        held(r) == Node::Bool(b),
{
    Yaml::Bool(b)
}

/// `serde_yaml_ng::Value` from an unsigned integer.
#[verifier::external_body]
fn unsigned_value(n: u64) -> (r: serde_yaml_ng::Value)
    ensures
        held(r) == Node::Int(n as int),
{
    Yaml::from(n)
}

/// `serde_yaml_ng::Value` from a signed integer.
#[verifier::external_body]
fn signed_value(n: i64) -> (r: serde_yaml_ng::Value)
    ensures
        held(r) == Node::Int(n as int),
{
    Yaml::from(n)
}

/// `Value::String` of `serde_yaml_ng`.
#[verifier::external_body]
fn text_value(text: &String) -> (r: serde_yaml_ng::Value)
    ensures
        held(r) == Node::Text(text@),
{
    Yaml::String(text.clone())
}

pub open spec fn owned_items(items: Seq<serde_yaml_ng::Value>) -> Seq<Node> {
    Seq::new(items.len(), |i: int| held(items[i]))
}

pub open spec fn owned_entries(items: Seq<(String, serde_yaml_ng::Value)>) -> Seq<(Node, Node)> {
    Seq::new(items.len(), |i: int| (Node::Text(items[i].0@), held(items[i].1)))
}

/// `Value::Sequence` of `serde_yaml_ng`.
#[verifier::external_body]
fn list_value(items: Vec<serde_yaml_ng::Value>) -> (r: serde_yaml_ng::Value)
    ensures
        held(r) == Node::List(owned_items(items@)),
{
    Yaml::Sequence(items)
}

/// `Value::Mapping` of `serde_yaml_ng`, collected from its entries: they are kept
/// in their order, where no key is there twice.
#[verifier::external_body]
fn table_value(items: Vec<(String, serde_yaml_ng::Value)>) -> (r: serde_yaml_ng::Value)
    requires
        forall|i: int, j: int| 0 <= i < j < items@.len() ==> items@[i].0@ != items@[j].0@,
    ensures
        held(r) == Node::Table(owned_entries(items@)),
{
    Yaml::Mapping(items.into_iter().map(|e| (Yaml::String(e.0), e.1)).collect())
}

/// The value of a canonical document.
fn to_yaml(document: &Datum) -> (r: serde_yaml_ng::Value)
    requires
        value::is_canonical(document@),
    ensures
        held(r) == rebuilt(document@),
    decreases document,
{
    match document {
        Datum::Null => null_value(),
        Datum::Bool(b) => bool_value(*b),
        Datum::Number(Number::Unsigned(n)) => unsigned_value(*n),
        Datum::Number(Number::Negative(n)) => signed_value(*n),
        Datum::Number(Number::Decimal(text)) => number_value(text),
        Datum::Text(text) => text_value(text),
        Datum::List(items) => {
            proof {
                Datum::lemma_list(*items);
            }
            let ghost all = rebuilt(document@)->List_0;
            let n: usize = items.len();
            let mut out: Vec<serde_yaml_ng::Value> = Vec::new();
            let mut i: usize = 0;
            assert(owned_items(out@) =~= all.take(0));
            while i < n
                invariant
                    n == items@.len(),
                    document == Datum::List(*items),
                    document@ == Node::List(value::nodes(items@)),
                    value::is_canonical(document@),
                    rebuilt(document@) == Node::List(all),
                    all.len() == n,
                    i <= n,
                    out@.len() == i,
                    owned_items(out@) == all.take(i as int),
                decreases n - i,
            {
                let ghost before = out@;
                assert(value::nodes(items@)[i as int] == items@[i as int]@);
                out.push(to_yaml(&items[i]));
                assert(owned_items(out@) =~= owned_items(before).push(all[i as int]));
                assert(all.take(i + 1) =~= all.take(i as int).push(all[i as int]));
                i += 1;
            }
            assert(all.take(n as int) =~= all);
            list_value(out)
        },
        Datum::Table(items) => {
            proof {
                Datum::lemma_table(*items);
            }
            let ghost all = rebuilt(document@)->Table_0;
            let ghost table = value::entries(items@);
            let n: usize = items.len();
            let mut out: Vec<(String, serde_yaml_ng::Value)> = Vec::new();
            let mut i: usize = 0;
            assert(owned_entries(out@) =~= all.take(0));
            while i < n
                invariant
                    n == items@.len(),
                    table == value::entries(items@),
                    document == Datum::Table(*items),
                    document@ == Node::Table(table),
                    value::is_canonical(document@),
                    rebuilt(document@) == Node::Table(all),
                    all.len() == n,
                    i <= n,
                    out@.len() == i,
                    owned_entries(out@) == all.take(i as int),
                decreases n - i,
            {
                let ghost before = out@;
                assert(table[i as int] == (items@[i as int].0@, items@[i as int].1@));
                let key = match &items[i].0 {
                    Datum::Text(key) => key.clone(),
                    _ => String::new(),
                };
                let inner = to_yaml(&items[i].1);
                out.push((key, inner));
                assert(owned_entries(out@) =~= owned_entries(before).push(all[i as int]));
                assert(all.take(i + 1) =~= all.take(i as int).push(all[i as int]));
                i += 1;
            }
            assert(all.take(n as int) =~= all);
            assert forall|a: int, b: int| 0 <= a < b < out@.len() implies out@[a].0@
                != out@[b].0@ by {
                assert(owned_entries(out@)[a] == all[a]);
                assert(owned_entries(out@)[b] == all[b]);
                assert(all[a].0 == table[a].0);
                assert(all[b].0 == table[b].0);
                text::lemma_text_lt_irreflexive(table[a].0->Text_0);
            }
            table_value(out)
        },
        Datum::Tagged(_, _) => null_value(),
    }
}

/// How a value is written.
pub uninterp spec fn yaml_text(node: Node) -> Result<Seq<char>, Seq<char>>;

/// `serde_yaml_ng::to_string`: the YAML text of a value, or the words of the
/// error. The result is named after what the value holds.
#[verifier::external_body]
fn emit(value: &serde_yaml_ng::Value) -> (r: Result<String, String>)
    ensures
        match r {
            Ok(s) => yaml_text(held(*value)) == Ok::<Seq<char>, Seq<char>>(s@),
            Err(e) => yaml_text(held(*value)) == Err::<Seq<char>, Seq<char>>(e@),
        },
{
    serde_yaml_ng::to_string(value).map_err(|e| e.to_string())
}

/// The YAML text of a canonical document.
pub fn write(document: &Datum) -> (r: Result<String, String>)
    requires
        value::is_canonical(document@),
    ensures
        match r {
            Ok(s) => yaml_text(rebuilt(document@)) == Ok::<Seq<char>, Seq<char>>(s@),
            Err(e) => yaml_text(rebuilt(document@)) == Err::<Seq<char>, Seq<char>>(e@),
        },
{
    emit(&to_yaml(document))
}

// ---------------------------------------------------------------------------
// Laws
// ---------------------------------------------------------------------------

/// No number that is not an integer.
pub open spec fn integral(node: Node) -> bool
    decreases node,
{
    match node {
        Node::Decimal(_) => false,
        Node::List(items) => forall|i: int| 0 <= i < items.len() ==> integral(#[trigger] items[i]),
        Node::Table(table) => forall|i: int|
            0 <= i < table.len() ==> integral((#[trigger] table[i]).1),
        _ => true,
    }
}

/// A document whose numbers are all integers is written as it is.
pub proof fn law_integral_documents_are_kept(node: Node)
    requires
        integral(node),
    ensures
        rebuilt(node) == node,
    decreases node,
{
    match node {
        Node::List(items) => {
            assert forall|i: int| 0 <= i < items.len() implies rebuilt(#[trigger] items[i])
                == items[i] by {
                law_integral_documents_are_kept(items[i]);
            }
            assert(rebuilt(node)->List_0 =~= items);
        },
        Node::Table(table) => {
            assert forall|i: int| 0 <= i < table.len() implies rebuilt((#[trigger] table[i]).1)
                == table[i].1 by {
                law_integral_documents_are_kept(table[i].1);
            }
            assert(rebuilt(node)->Table_0 =~= table);
        },
        _ => {},
    }
}

} // verus!
