//! Paths into documents: leaves, look-ups and differences.

use vstd::prelude::*;
use vstd::string::*;

use crate::text;
use crate::value;
use crate::value::{get, Node, Datum};

verus! {

/// A path from the top of a document.
pub open spec fn path_of(path: Seq<String>) -> Seq<Seq<char>> {
    text::strings(path)
}

// ---------------------------------------------------------------------------
// Leaves
// ---------------------------------------------------------------------------

/// The values of a document that are no tables, each with its path below
/// `path`. Entries without a text key are left out.
pub open spec fn leaves(node: Node, path: Seq<Seq<char>>) -> Seq<(Seq<Seq<char>>, Node)>
    decreases node,
{
    match node {
        Node::Table(table) => table_leaves(table, path),
        _ => seq![(path, node)],
    }
}

pub open spec fn table_leaves(table: Seq<(Node, Node)>, path: Seq<Seq<char>>) -> Seq<
    (Seq<Seq<char>>, Node),
>
    decreases table,
{
    if table.len() == 0 {
        Seq::empty()
    } else {
        table_leaves(table.drop_last(), path) + (match table.last().0 {
            Node::Text(key) => leaves(table.last().1, path.push(key)),
            _ => Seq::empty(),
        })
    }
}

pub open spec fn leaf_views(items: Seq<(Vec<String>, Datum)>) -> Seq<(Seq<Seq<char>>, Node)> {
    Seq::new(items.len(), |i: int| (path_of(items[i].0@), items[i].1@))
}

/// An equal path.
pub fn copy_path(path: &Vec<String>) -> (r: Vec<String>)
    ensures
        path_of(r@) == path_of(path@),
{
    let mut out: Vec<String> = Vec::new();
    let mut i: usize = 0;
    while i < path.len()
        invariant
            i <= path@.len(),
            path_of(out@) == path_of(path@).take(i as int),
        decreases path@.len() - i,
    {
        let ghost before = out@;
        let step = path[i].clone();
        let ghost text = step@;
        out.push(step);
        assert(path_of(out@) =~= path_of(before).push(text));
        assert(path_of(path@).take(i + 1) =~= path_of(path@).take(i as int).push(text));
        i += 1;
    }
    assert(path_of(path@).take(i as int) =~= path_of(path@));
    out
}

/// Adds the leaves of `value` below `path` to `out`.
pub fn collect_leaves(value: &Datum, path: &Vec<String>, out: &mut Vec<(Vec<String>, Datum)>)
    ensures
        leaf_views(final(out)@) == leaf_views(old(out)@) + leaves(value@, path_of(path@)),
    decreases value,
{
    match value {
        Datum::Table(table) => {
            proof {
                Datum::lemma_table(*table);
            }
            collect_table_leaves(table, path, out);
        },
        _ => {
            let ghost before = out@;
            let leaf = (copy_path(path), value.copy());
            let ghost view = (path_of(leaf.0@), leaf.1@);
            out.push(leaf);
            assert(leaf_views(out@) =~= leaf_views(before) + seq![view]);
        },
    }
}

fn collect_table_leaves(
    table: &Vec<(Datum, Datum)>,
    path: &Vec<String>,
    out: &mut Vec<(Vec<String>, Datum)>,
)
    ensures
        leaf_views(final(out)@) == leaf_views(old(out)@) + table_leaves(
            value::entries(table@),
            path_of(path@),
        ),
    decreases table,
{
    let mut i: usize = 0;
    let ghost all = value::entries(table@);
    let ghost start = leaf_views(out@);
    assert(all.take(0) =~= Seq::empty());
    assert(start + table_leaves(all.take(0), path_of(path@)) =~= start);
    while i < table.len()
        invariant
            i <= table@.len(),
            all == value::entries(table@),
            start == leaf_views(old(out)@),
            leaf_views(out@) == start + table_leaves(all.take(i as int), path_of(path@)),
        decreases table@.len() - i,
    {
        proof {
            assert(all.take(i + 1).drop_last() =~= all.take(i as int));
            assert(all.take(i + 1).last() == (table@[i as int].0@, table@[i as int].1@));
        }
        let ghost before = leaf_views(out@);
        match &table[i].0 {
            Datum::Text(key) => {
                let mut below = copy_path(path);
                let ghost base = below@;
                below.push(key.clone());
                assert(path_of(below@) =~= path_of(path@).push(key@));
                collect_leaves(&table[i].1, &below, out);
            },
            _ => {
                assert(before + Seq::empty() =~= before);
            },
        }
        proof {
            let step = match table@[i as int].0@ {
                Node::Text(key) => leaves(table@[i as int].1@, path_of(path@).push(key)),
                _ => Seq::empty(),
            };
            assert(leaf_views(out@) =~= before + step);
            assert(start + table_leaves(all.take(i as int), path_of(path@)) + step =~= start + (
            table_leaves(all.take(i as int), path_of(path@)) + step));
        }
        i += 1;
    }
    assert(all.take(i as int) =~= all);
}

// ---------------------------------------------------------------------------
// Looking up
// ---------------------------------------------------------------------------

/// What stands at a path.
pub open spec fn at_path(node: Node, path: Seq<Seq<char>>) -> Option<Node>
    decreases path.len(),
{
    if path.len() == 0 {
        Some(node)
    } else {
        match node {
            Node::Table(table) => match value::lookup(table, path[0]) {
                Some(below) => at_path(below, path.drop_first()),
                None => None,
            },
            _ => None,
        }
    }
}

/// What stands at a path.
pub fn value_at<'a>(value: &'a Datum, path: &Vec<String>) -> (r: Option<&'a Datum>)
    ensures
        match r {
            Some(v) => at_path(value@, path_of(path@)) == Some(v@),
            None => at_path(value@, path_of(path@)) is None,
        },
{
    let mut current = value;
    let mut i: usize = 0;
    let ghost whole = path_of(path@);
    assert(whole.skip(0) =~= whole);
    while i < path.len()
        invariant
            i <= path@.len(),
            whole == path_of(path@),
            at_path(value@, whole) == at_path(current@, whole.skip(i as int)),
        decreases path@.len() - i,
    {
        proof {
            assert(whole.skip(i as int)[0] == path@[i as int]@);
            assert(whole.skip(i as int).drop_first() =~= whole.skip(i + 1));
        }
        match current {
            Datum::Table(table) => {
                proof {
                    Datum::lemma_table(*table);
                }
                match get(table, path[i].as_str()) {
                    Some(below) => {
                        current = below;
                    },
                    None => {
                        return None;
                    },
                }
            },
            _ => {
                return None;
            },
        }
        i += 1;
    }
    assert(whole.skip(i as int) =~= Seq::empty());
    Some(current)
}

/// Every table below `node` has text keys only, none of them twice.
pub open spec fn well_keyed(node: Node) -> bool
    decreases node,
{
    match node {
        Node::Table(table) => value::distinct_keys(table) && (forall|i: int|
            0 <= i < table.len() ==> (#[trigger] table[i]).0 is Text && well_keyed(table[i].1)),
        _ => true,
    }
}

/// A canonical document is well keyed.
pub proof fn lemma_canonical_well_keyed(node: Node)
    requires
        value::is_canonical(node),
    ensures
        well_keyed(node),
    decreases node,
{
    match node {
        Node::Table(table) => {
            assert forall|i: int, j: int| 0 <= i < j < table.len() implies (#[trigger] table[i]).0 != (
            #[trigger] table[j]).0 by {
                text::lemma_text_lt_irreflexive(table[i].0->Text_0);
            }
            assert forall|i: int| 0 <= i < table.len() implies (#[trigger] table[i]).0 is Text
                && well_keyed(table[i].1) by {
                lemma_canonical_well_keyed(table[i].1);
            }
        },
        _ => {},
    }
}

/// Every leaf of a well-keyed document stands at its path.
pub proof fn law_leaves_are_found(node: Node, path: Seq<Seq<char>>, i: int)
    requires
        well_keyed(node),
        0 <= i < leaves(node, path).len(),
    ensures
        path.len() <= leaves(node, path)[i].0.len(),
        leaves(node, path)[i].0.take(path.len() as int) == path,
        at_path(node, leaves(node, path)[i].0.skip(path.len() as int)) == Some(
            leaves(node, path)[i].1,
        ),
    decreases node,
{
    let n = path.len() as int;
    match node {
        Node::Table(table) => {
            assert(table.take(table.len() as int) =~= table);
            lemma_table_leaf(table, path, i, table.len() as int);
            let (k, j) = choose|k: int, j: int|
                #![trigger table[k], leaves(table[k].1, path.push(table[k].0->Text_0))[j]]
                leaf_from(table, path, i, k, j);
            let below = path.push(table[k].0->Text_0);
            law_leaves_are_found(table[k].1, below, j);
            let leaf = leaves(table[k].1, below)[j];
            assert(leaf.0.take(n + 1) == below);
            assert(leaf.0.take(n) =~= path) by {
                assert(leaf.0.take(n) =~= leaf.0.take(n + 1).take(n));
                assert(below.take(n) =~= path);
            }
            let rest = leaf.0.skip(n);
            assert(rest[0] == leaf.0.take(n + 1)[n]);
            assert(rest.drop_first() =~= leaf.0.skip(n + 1));
            assert forall|m: int| 0 <= m < k implies (#[trigger] table[m]).0 != Node::Text(
                rest[0],
            ) by {
                assert(table[m].0 != table[k].0);
            }
            value::lemma_key_index(table, rest[0], k);
        },
        _ => {
            assert(path.skip(n) =~= Seq::empty());
            assert(path.take(n) =~= path);
        },
    }
}

/// Leaf `i` of a table is leaf `j` of its entry `k`.
spec fn leaf_from(
    table: Seq<(Node, Node)>,
    path: Seq<Seq<char>>,
    i: int,
    k: int,
    j: int,
) -> bool {
    &&& 0 <= k < table.len()
    &&& 0 <= j < leaves(table[k].1, path.push(table[k].0->Text_0)).len()
    &&& table_leaves(table, path)[i] == leaves(table[k].1, path.push(table[k].0->Text_0))[j]
}

/// Every leaf of a table comes from one of its entries.
proof fn lemma_table_leaf(table: Seq<(Node, Node)>, path: Seq<Seq<char>>, i: int, n: int)
    requires
        0 <= n <= table.len(),
        forall|k: int| 0 <= k < table.len() ==> (#[trigger] table[k]).0 is Text,
        0 <= i < table_leaves(table.take(n), path).len(),
        table_leaves(table, path)[i] == table_leaves(table.take(n), path)[i],
    ensures
        exists|k: int, j: int|
            #![trigger table[k], leaves(table[k].1, path.push(table[k].0->Text_0))[j]]
            leaf_from(table, path, i, k, j),
    decreases n,
{
    let t = table.take(n);
    if n > 0 {
        assert(t.drop_last() =~= table.take(n - 1));
        assert(t.last() == table[n - 1]);
        let front = table_leaves(table.take(n - 1), path);
        if i < front.len() {
            lemma_table_leaf(table, path, i, n - 1);
        } else {
            let k = n - 1;
            let j = i - front.len();
            assert(table[k].0 is Text);
            assert(leaf_from(table, path, i, k, j));
        }
    }
}

// ---------------------------------------------------------------------------
// Differences
// ---------------------------------------------------------------------------

/// One place in which two documents differ. `new` is what the second holds
/// there, where it holds anything.
#[derive(Debug)]
pub struct DiffEntry {
    pub path: Vec<String>,
    pub new: Option<Datum>,
}

pub struct DiffView {
    pub path: Seq<Seq<char>>,
    pub new: Option<Node>,
}

pub open spec fn new_view(new: Option<Datum>) -> Option<Node> {
    match new {
        Some(v) => Some(v@),
        None => None,
    }
}

impl DiffEntry {
    pub open spec fn view(&self) -> DiffView {
        DiffView { path: path_of(self.path@), new: new_view(self.new) }
    }
}

pub open spec fn diff_views(items: Seq<DiffEntry>) -> Seq<DiffView> {
    Seq::new(items.len(), |i: int| items[i]@)
}

/// The differences between what two documents hold at `path`, where the first
/// holds something there. Tables are compared entry by entry, everything else
/// as a whole.
pub open spec fn node_diff(old: Node, new: Option<Node>, path: Seq<Seq<char>>) -> Seq<DiffView>
    decreases old,
{
    match (old, new) {
        (Node::Table(a), Some(Node::Table(b))) => changed_diff(a, b, path) + added_diff(a, b, path),
        _ => if value::both_alike(Some(old), new) {
            Seq::empty()
        } else {
            seq![DiffView { path, new }]
        },
    }
}

/// The differences between two documents.
pub open spec fn table_diff(a: Seq<(Node, Node)>, b: Seq<(Node, Node)>) -> Seq<DiffView> {
    node_diff(Node::Table(a), Some(Node::Table(b)), Seq::empty())
}

/// The differences at the keys of the first table, in its order.
pub open spec fn changed_diff(
    a: Seq<(Node, Node)>,
    b: Seq<(Node, Node)>,
    path: Seq<Seq<char>>,
) -> Seq<DiffView>
    decreases a,
{
    if a.len() == 0 {
        Seq::empty()
    } else {
        changed_diff(a.drop_last(), b, path) + (match a.last().0 {
            Node::Text(key) => node_diff(
                a.last().1,
                value::lookup(b, key),
                path.push(key),
            ),
            _ => Seq::empty(),
        })
    }
}

/// The differences at the keys that only the second table has, in its order.
pub open spec fn added_diff(
    a: Seq<(Node, Node)>,
    b: Seq<(Node, Node)>,
    path: Seq<Seq<char>>,
) -> Seq<DiffView>
    decreases b.len(),
{
    if b.len() == 0 {
        Seq::empty()
    } else {
        added_diff(a, b.drop_last(), path) + (match b.last().0 {
            Node::Text(key) => if value::lookup(a, key) is None {
                seq![DiffView { path: path.push(key), new: Some(b.last().1) }]
            } else {
                Seq::empty()
            },
            _ => Seq::empty(),
        })
    }
}

/// The differences between two documents.
pub fn diff(current: &Vec<(Datum, Datum)>, desired: &Vec<(Datum, Datum)>) -> (r: Vec<DiffEntry>)
    ensures
        diff_views(r@) == table_diff(value::entries(current@), value::entries(desired@)),
{
    let mut out: Vec<DiffEntry> = Vec::new();
    let top: Vec<String> = Vec::new();
    assert(diff_views(out@) =~= Seq::empty());
    assert(path_of(top@) =~= Seq::empty());
    push_table_diff(current, desired, &top, &mut out);
    assert(Seq::<DiffView>::empty() + table_diff(
        value::entries(current@),
        value::entries(desired@),
    ) =~= table_diff(value::entries(current@), value::entries(desired@)));
    out
}

fn push_node_diff(old_value: &Datum, new: Option<&Datum>, path: &Vec<String>, out: &mut Vec<DiffEntry>)
    ensures
        diff_views(final(out)@) == diff_views(old(out)@) + node_diff(
            old_value@,
            (match new {
                Some(v) => Some(v@),
                None => None,
            }),
            path_of(path@),
        ),
    decreases old_value,
{
    let ghost start = diff_views(out@);
    match (old_value, new) {
        (Datum::Table(a), Some(Datum::Table(b))) => {
            proof {
                Datum::lemma_table(*a);
                Datum::lemma_table(*b);
            }
            push_table_diff(a, b, path, out);
        },
        (_, Some(v)) => {
            if old_value.same(v) {
                assert(start + Seq::empty() =~= start);
            } else {
                push_entry(path, Some(v.copy()), out);
            }
        },
        (_, None) => {
            push_entry(path, None, out);
        },
    }
}

fn push_entry(path: &Vec<String>, new: Option<Datum>, out: &mut Vec<DiffEntry>)
    ensures
        diff_views(final(out)@) == diff_views(old(out)@) + seq![
            DiffView { path: path_of(path@), new: new_view(new) },
        ],
{
    let ghost before = out@;
    let entry = DiffEntry { path: copy_path(path), new };
    let ghost view = entry@;
    out.push(entry);
    assert(diff_views(out@) =~= diff_views(before) + seq![view]);
}

fn extend_path(path: &Vec<String>, key: &String) -> (r: Vec<String>)
    ensures
        path_of(r@) == path_of(path@).push(key@),
{
    let mut below = copy_path(path);
    let ghost base = below@;
    below.push(key.clone());
    assert(path_of(below@) =~= path_of(base).push(key@));
    below
}

fn push_table_diff(
    a: &Vec<(Datum, Datum)>,
    b: &Vec<(Datum, Datum)>,
    path: &Vec<String>,
    out: &mut Vec<DiffEntry>,
)
    ensures
        diff_views(final(out)@) == diff_views(old(out)@) + (changed_diff(
            value::entries(a@),
            value::entries(b@),
            path_of(path@),
        ) + added_diff(value::entries(a@), value::entries(b@), path_of(path@))),
    decreases a,
{
    let ghost ea = value::entries(a@);
    let ghost eb = value::entries(b@);
    let ghost p = path_of(path@);
    let ghost start = diff_views(out@);
    let mut i: usize = 0;
    assert(ea.take(0) =~= Seq::empty());
    assert(start + changed_diff(ea.take(0), eb, p) =~= start);
    while i < a.len()
        invariant
            i <= a@.len(),
            ea == value::entries(a@),
            eb == value::entries(b@),
            p == path_of(path@),
            start == diff_views(old(out)@),
            diff_views(out@) == start + changed_diff(ea.take(i as int), eb, p),
        decreases a@.len() - i,
    {
        proof {
            assert(ea.take(i + 1).drop_last() =~= ea.take(i as int));
            assert(ea.take(i + 1).last() == (a@[i as int].0@, a@[i as int].1@));
        }
        let ghost before = diff_views(out@);
        match &a[i].0 {
            Datum::Text(key) => {
                let below = extend_path(path, key);
                push_node_diff(&a[i].1, get(b, key.as_str()), &below, out);
            },
            _ => {},
        }
        proof {
            let step = match a@[i as int].0@ {
                Node::Text(key) => node_diff(
                    a@[i as int].1@,
                    value::lookup(eb, key),
                    p.push(key),
                ),
                _ => Seq::empty(),
            };
            assert(diff_views(out@) =~= before + step);
            assert(start + changed_diff(ea.take(i as int), eb, p) + step =~= start + (changed_diff(
                ea.take(i as int),
                eb,
                p,
            ) + step));
        }
        i += 1;
    }
    assert(ea.take(i as int) =~= ea);
    let ghost middle = diff_views(out@);
    let mut j: usize = 0;
    assert(eb.take(0) =~= Seq::empty());
    assert(middle + added_diff(ea, eb.take(0), p) =~= middle);
    while j < b.len()
        invariant
            j <= b@.len(),
            ea == value::entries(a@),
            eb == value::entries(b@),
            p == path_of(path@),
            diff_views(out@) == middle + added_diff(ea, eb.take(j as int), p),
        decreases b@.len() - j,
    {
        proof {
            assert(eb.take(j + 1).drop_last() =~= eb.take(j as int));
            assert(eb.take(j + 1).last() == (b@[j as int].0@, b@[j as int].1@));
        }
        let ghost before = diff_views(out@);
        match &b[j].0 {
            Datum::Text(key) => {
                if get(a, key.as_str()).is_none() {
                    let below = extend_path(path, key);
                    push_entry(&below, Some(b[j].1.copy()), out);
                }
            },
            _ => {},
        }
        proof {
            let step = match b@[j as int].0@ {
                Node::Text(key) => if value::lookup(ea, key) is None {
                    seq![DiffView { path: p.push(key), new: Some(b@[j as int].1@) }]
                } else {
                    Seq::empty()
                },
                _ => Seq::empty(),
            };
            assert(diff_views(out@) =~= before + step);
            assert(middle + added_diff(ea, eb.take(j as int), p) + step =~= middle + (added_diff(
                ea,
                eb.take(j as int),
                p,
            ) + step));
        }
        j += 1;
    }
    assert(eb.take(j as int) =~= eb);
    assert(start + changed_diff(ea, eb, p) + added_diff(ea, eb, p) =~= start + (changed_diff(
        ea,
        eb,
        p,
    ) + added_diff(ea, eb, p)));
}

// ---------------------------------------------------------------------------
// Laws of differences
// ---------------------------------------------------------------------------

proof fn lemma_changed_diff_empty(
    a: Seq<(Node, Node)>,
    b: Seq<(Node, Node)>,
    path: Seq<Seq<char>>,
)
    requires
        forall|i: int|
            0 <= i < a.len() ==> (#[trigger] a[i]).0 is Text && value::is_canonical(a[i].1),
        forall|j: int| 0 <= j < b.len() ==> value::is_canonical((#[trigger] b[j]).1),
    ensures
        changed_diff(a, b, path).len() == 0 <==> forall|i: int|
            0 <= i < a.len() ==> value::both_alike(
                Some((#[trigger] a[i]).1),
                value::lookup(b, a[i].0->Text_0),
            ),
    decreases a,
{
    if a.len() > 0 {
        let rest = a.drop_last();
        let n = a.len() - 1;
        assert(a[n] == a.last());
        assert forall|i: int| 0 <= i < rest.len() implies (#[trigger] rest[i]).0 is Text
            && value::is_canonical(rest[i].1) by {
            assert(rest[i] == a[i]);
        }
        lemma_changed_diff_empty(rest, b, path);
        let key = a.last().0->Text_0;
        value::lemma_key_index_bounds(b, key);
        lemma_node_diff_empty(a.last().1, value::lookup(b, key), path.push(key));
        if changed_diff(a, b, path).len() == 0 {
            assert forall|i: int| 0 <= i < a.len() implies value::both_alike(
                Some((#[trigger] a[i]).1),
                value::lookup(b, a[i].0->Text_0),
            ) by {
                if i < n {
                    assert(rest[i] == a[i]);
                }
            }
        } else if forall|i: int|
            0 <= i < a.len() ==> value::both_alike(
                Some((#[trigger] a[i]).1),
                value::lookup(b, a[i].0->Text_0),
            ) {
            assert forall|i: int| 0 <= i < rest.len() implies value::both_alike(
                Some((#[trigger] rest[i]).1),
                value::lookup(b, rest[i].0->Text_0),
            ) by {
                assert(rest[i] == a[i]);
            }
        }
    }
}

proof fn lemma_added_diff_empty(a: Seq<(Node, Node)>, b: Seq<(Node, Node)>, path: Seq<Seq<char>>)
    requires
        forall|j: int| 0 <= j < b.len() ==> (#[trigger] b[j]).0 is Text,
    ensures
        added_diff(a, b, path).len() == 0 <==> forall|j: int|
            0 <= j < b.len() ==> value::lookup(a, (#[trigger] b[j]).0->Text_0) is Some,
    decreases b.len(),
{
    if b.len() > 0 {
        let rest = b.drop_last();
        let n = b.len() - 1;
        assert(b[n] == b.last());
        assert forall|j: int| 0 <= j < rest.len() implies (#[trigger] rest[j]).0 is Text by {
            assert(rest[j] == b[j]);
        }
        lemma_added_diff_empty(a, rest, path);
        if added_diff(a, b, path).len() == 0 {
            assert forall|j: int| 0 <= j < b.len() implies value::lookup(
                a,
                (#[trigger] b[j]).0->Text_0,
            ) is Some by {
                if j < n {
                    assert(rest[j] == b[j]);
                }
            }
        } else if forall|j: int|
            0 <= j < b.len() ==> value::lookup(a, (#[trigger] b[j]).0->Text_0) is Some {
            assert forall|j: int| 0 <= j < rest.len() implies value::lookup(
                a,
                (#[trigger] rest[j]).0->Text_0,
            ) is Some by {
                assert(rest[j] == b[j]);
            }
        }
    }
}

/// The keys of a table.
pub open spec fn keys_of(table: Seq<(Node, Node)>) -> Seq<(Node, Node)> {
    Seq::new(table.len(), |i: int| (table[i].0, Node::Null))
}

proof fn lemma_key_index_of_keys(table: Seq<(Node, Node)>, key: Seq<char>)
    ensures
        value::lookup(keys_of(table), key) == (if value::lookup(table, key) is Some {
            Some(Node::Null)
        } else {
            None
        }),
{
    value::lemma_key_index_bounds(table, key);
    value::lemma_key_index_bounds(keys_of(table), key);
    let i = value::key_index(table, key);
    let k = value::key_index(keys_of(table), key);
    if i < table.len() {
        assert(keys_of(table)[i].0 == table[i].0);
    }
    if k < table.len() {
        assert(keys_of(table)[k].0 == table[k].0);
    }
}

/// Where one sorted table has the keys of another one of the same length, the other one
/// has its keys too.
proof fn lemma_same_keys(a: Seq<(Node, Node)>, b: Seq<(Node, Node)>)
    requires
        value::sorted(a),
        value::sorted(b),
        a.len() == b.len(),
        forall|i: int| 0 <= i < a.len() ==> value::lookup(b, (#[trigger] a[i]).0->Text_0) is Some,
    ensures
        forall|j: int| 0 <= j < b.len() ==> value::lookup(a, (#[trigger] b[j]).0->Text_0) is Some,
{
    let xs = Seq::new(a.len(), |i: int| a[i].0->Text_0);
    let ys = Seq::new(b.len(), |i: int| b[i].0->Text_0);
    assert(xs.no_duplicates()) by {
        assert forall|i: int, j: int| 0 <= i < j < xs.len() implies xs[i] != xs[j] by {
            assert(text::text_lt(a[i].0->Text_0, a[j].0->Text_0));
            text::lemma_text_lt_irreflexive(xs[i]);
        }
    }
    assert(ys.no_duplicates()) by {
        assert forall|i: int, j: int| 0 <= i < j < ys.len() implies ys[i] != ys[j] by {
            assert(text::text_lt(b[i].0->Text_0, b[j].0->Text_0));
            text::lemma_text_lt_irreflexive(ys[i]);
        }
    }
    xs.unique_seq_to_set();
    ys.unique_seq_to_set();
    assert forall|k: Seq<char>| xs.to_set().contains(k) implies ys.to_set().contains(k) by {
        let i = choose|i: int| 0 <= i < xs.len() && xs[i] == k;
        assert(value::lookup(b, a[i].0->Text_0) is Some);
        value::lemma_key_index_bounds(b, k);
        assert(ys[value::key_index(b, k)] == k);
    }
    assert(xs.to_set().subset_of(ys.to_set()));
    vstd::set_lib::lemma_subset_equality(xs.to_set(), ys.to_set());
    assert forall|j: int| 0 <= j < b.len() implies value::lookup(
        a,
        (#[trigger] b[j]).0->Text_0,
    ) is Some by {
        let k = b[j].0->Text_0;
        assert(ys[j] == k);
        assert(ys.to_set().contains(k));
        assert(xs.to_set().contains(k));
        let i = choose|i: int| 0 <= i < xs.len() && xs[i] == k;
        assert(a[i].0 is Text);
        value::lemma_key_index_bounds(a, k);
    }
}

/// Canonical tables say the same exactly where each holds what the other one holds.
proof fn lemma_tables_alike(a: Seq<(Node, Node)>, b: Seq<(Node, Node)>)
    requires
        value::is_canonical(Node::Table(a)),
        value::is_canonical(Node::Table(b)),
    ensures
        value::alike(Node::Table(a), Node::Table(b)) <==> (forall|i: int|
            0 <= i < a.len() ==> value::both_alike(
                Some((#[trigger] a[i]).1),
                value::lookup(b, a[i].0->Text_0),
            )) && (forall|j: int|
            0 <= j < b.len() ==> value::lookup(a, (#[trigger] b[j]).0->Text_0) is Some),
{
    value::lemma_all_within(a, b);
    if value::alike(Node::Table(a), Node::Table(b)) {
        assert forall|i: int| 0 <= i < a.len() implies value::both_alike(
            Some((#[trigger] a[i]).1),
            value::lookup(b, a[i].0->Text_0),
        ) by {
            let j = value::lemma_like_of(a[i], b, b.len());
            value::lemma_sorted_lookup(b, j);
        }
        lemma_same_keys(a, b);
    }
    if (forall|i: int|
        0 <= i < a.len() ==> value::both_alike(
            Some((#[trigger] a[i]).1),
            value::lookup(b, a[i].0->Text_0),
        )) && (forall|j: int|
        0 <= j < b.len() ==> value::lookup(a, (#[trigger] b[j]).0->Text_0) is Some) {
        let ka = keys_of(a);
        let kb = keys_of(b);
        assert forall|k: Seq<char>| value::lookup(ka, k) == #[trigger] value::lookup(kb, k) by {
            lemma_key_index_of_keys(a, k);
            lemma_key_index_of_keys(b, k);
            value::lemma_key_index_bounds(a, k);
            value::lemma_key_index_bounds(b, k);
            let i = value::key_index(a, k);
            let j = value::key_index(b, k);
            if i < a.len() {
                assert(value::both_alike(Some(a[i].1), value::lookup(b, a[i].0->Text_0)));
            } else if j < b.len() {
                assert(value::lookup(a, b[j].0->Text_0) is Some);
            }
        }
        assert(value::sorted(ka)) by {
            assert(forall|i: int| 0 <= i < a.len() ==> (#[trigger] ka[i]).0 == a[i].0);
        }
        assert(value::sorted(kb)) by {
            assert(forall|i: int| 0 <= i < b.len() ==> (#[trigger] kb[i]).0 == b[i].0);
        }
        value::lemma_sorted_unique(ka, kb);
        assert(ka.len() == a.len() && kb.len() == b.len());
        assert forall|i: int| 0 <= i < a.len() implies value::entry_within(
            #[trigger] a[i],
            b,
            b.len(),
        ) by {
            assert(ka[i] == kb[i]);
            assert(value::both_alike(Some(a[i].1), value::lookup(b, a[i].0->Text_0)));
            value::lemma_sorted_lookup(b, i);
            value::law_equal_is_alike(a[i].0);
            value::lemma_entry_within(a[i], b, b.len(), i);
        }
    }
}

proof fn lemma_node_diff_empty(old: Node, new: Option<Node>, path: Seq<Seq<char>>)
    requires
        value::is_canonical(old),
        new is Some ==> value::is_canonical(new->0),
    ensures
        node_diff(old, new, path).len() == 0 <==> value::both_alike(Some(old), new),
    decreases old,
{
    if let (Node::Table(a), Some(Node::Table(b))) = (old, new) {
        lemma_changed_diff_empty(a, b, path);
        lemma_added_diff_empty(a, b, path);
        lemma_tables_alike(a, b);
        assert(node_diff(old, new, path).len() == changed_diff(a, b, path).len() + added_diff(
            a,
            b,
            path,
        ).len());
    }
}

/// Two canonical documents without a difference say the same, and documents that say
/// the same have no difference.
pub proof fn law_no_difference_means_alike(a: Seq<(Node, Node)>, b: Seq<(Node, Node)>)
    requires
        value::is_canonical(Node::Table(a)),
        value::is_canonical(Node::Table(b)),
    ensures
        table_diff(a, b).len() == 0 <==> value::alike(Node::Table(a), Node::Table(b)),
{
    lemma_node_diff_empty(Node::Table(a), Some(Node::Table(b)), Seq::empty());
}

/// What canonical documents that say the same hold under a key says the same.
pub proof fn law_alike_under_a_key(a: Seq<(Node, Node)>, b: Seq<(Node, Node)>, key: Seq<char>)
    requires
        value::is_canonical(Node::Table(a)),
        value::is_canonical(Node::Table(b)),
        value::alike(Node::Table(a), Node::Table(b)),
    ensures
        value::both_alike(value::lookup(a, key), value::lookup(b, key)),
{
    lemma_tables_alike(a, b);
    value::lemma_key_index_bounds(a, key);
    value::lemma_key_index_bounds(b, key);
    let i = value::key_index(a, key);
    let j = value::key_index(b, key);
    if i < a.len() {
        assert(value::both_alike(Some(a[i].1), value::lookup(b, a[i].0->Text_0)));
    } else if j < b.len() {
        assert(value::lookup(a, b[j].0->Text_0) is Some);
    }
}

/// A difference tells where two documents differ, and what the second one holds there.
pub open spec fn tells_apart(
    old: Node,
    new: Option<Node>,
    path: Seq<Seq<char>>,
    e: DiffView,
) -> bool {
    let rest = e.path.skip(path.len() as int);
    &&& path.len() <= e.path.len()
    &&& e.path.take(path.len() as int) == path
    &&& e.new == (match new {
        Some(n) => at_path(n, rest),
        None => None,
    })
    &&& !value::both_alike(at_path(old, rest), e.new)
}

proof fn lemma_deeper(
    a: Seq<(Node, Node)>,
    b: Seq<(Node, Node)>,
    path: Seq<Seq<char>>,
    k: int,
    e: DiffView,
)
    requires
        well_keyed(Node::Table(a)),
        0 <= k < a.len(),
        tells_apart(
            a[k].1,
            value::lookup(b, a[k].0->Text_0),
            path.push(a[k].0->Text_0),
            e,
        ),
    ensures
        tells_apart(Node::Table(a), Some(Node::Table(b)), path, e),
{
    let n = path.len() as int;
    let key = a[k].0->Text_0;
    let below = path.push(key);
    let rest = e.path.skip(n);
    assert(e.path.take(n) =~= e.path.take(n + 1).take(n));
    assert(below.take(n) =~= path);
    assert(e.path.take(n + 1)[n] == key);
    assert(rest[0] == key);
    assert(rest.drop_first() =~= e.path.skip(n + 1));
    assert(a[k].0 is Text);
    assert forall|m: int| 0 <= m < k implies (#[trigger] a[m]).0 != Node::Text(key) by {
        assert(a[m].0 != a[k].0);
    }
    value::lemma_key_index(a, key, k);
}

proof fn lemma_changed_entries(
    a: Seq<(Node, Node)>,
    b: Seq<(Node, Node)>,
    path: Seq<Seq<char>>,
    n: int,
    i: int,
)
    requires
        well_keyed(Node::Table(a)),
        well_keyed(Node::Table(b)),
        0 <= n <= a.len(),
        0 <= i < changed_diff(a.take(n), b, path).len(),
    ensures
        tells_apart(
            Node::Table(a),
            Some(Node::Table(b)),
            path,
            changed_diff(a.take(n), b, path)[i],
        ),
    decreases a, n,
{
    if n > 0 {
        assert(a.take(n).drop_last() =~= a.take(n - 1));
        assert(a.take(n).last() == a[n - 1]);
        assert(a[n - 1].0 is Text);
        let front = changed_diff(a.take(n - 1), b, path);
        if i < front.len() {
            lemma_changed_entries(a, b, path, n - 1, i);
        } else {
            let key = a[n - 1].0->Text_0;
            value::lemma_key_index_bounds(b, key);
            if value::lookup(b, key) is Some {
                assert(well_keyed(b[value::key_index(b, key)].1));
            }
            assert(decreases_to!(a => a[n - 1]));
            lemma_difference(
                a[n - 1].1,
                value::lookup(b, key),
                path.push(key),
                i - front.len(),
            );
            lemma_deeper(
                a,
                b,
                path,
                n - 1,
                node_diff(a[n - 1].1, value::lookup(b, key), path.push(key))[i - front.len()],
            );
        }
    }
}

proof fn lemma_added_entries(
    a: Seq<(Node, Node)>,
    b: Seq<(Node, Node)>,
    path: Seq<Seq<char>>,
    n: int,
    i: int,
)
    requires
        well_keyed(Node::Table(b)),
        0 <= n <= b.len(),
        0 <= i < added_diff(a, b.take(n), path).len(),
    ensures
        tells_apart(
            Node::Table(a),
            Some(Node::Table(b)),
            path,
            added_diff(a, b.take(n), path)[i],
        ),
    decreases n,
{
    if n > 0 {
        assert(b.take(n).drop_last() =~= b.take(n - 1));
        assert(b.take(n).last() == b[n - 1]);
        assert(b[n - 1].0 is Text);
        let front = added_diff(a, b.take(n - 1), path);
        if i < front.len() {
            lemma_added_entries(a, b, path, n - 1, i);
        } else {
            let key = b[n - 1].0->Text_0;
            let e = added_diff(a, b.take(n), path)[i];
            let rest = e.path.skip(path.len() as int);
            assert(e.path == path.push(key));
            assert(rest =~= seq![key]);
            assert(rest.drop_first() =~= Seq::<Seq<char>>::empty());
            assert(e.path.take(path.len() as int) =~= path);
            assert forall|m: int| 0 <= m < n - 1 implies (#[trigger] b[m]).0 != Node::Text(key) by {
                assert(b[m].0 != b[n - 1].0);
            }
            value::lemma_key_index(b, key, n - 1);
            reveal_with_fuel(at_path, 2);
        }
    }
}

proof fn lemma_difference(old: Node, new: Option<Node>, path: Seq<Seq<char>>, i: int)
    requires
        well_keyed(old),
        new matches Some(n) ==> well_keyed(n),
        0 <= i < node_diff(old, new, path).len(),
    ensures
        tells_apart(old, new, path, node_diff(old, new, path)[i]),
    decreases old,
{
    if let (Node::Table(a), Some(Node::Table(b))) = (old, new) {
        assert(a.take(a.len() as int) =~= a);
        assert(b.take(b.len() as int) =~= b);
        let front = changed_diff(a, b, path);
        if i < front.len() {
            lemma_changed_entries(a, b, path, a.len() as int, i);
        } else {
            lemma_added_entries(a, b, path, b.len() as int, i - front.len());
        }
    } else {
        let e = node_diff(old, new, path)[i];
        assert(e.path == path);
        assert(path.skip(path.len() as int) =~= Seq::empty());
        assert(path.take(path.len() as int) =~= path);
    }
}

/// Every difference between two documents is one: what the second one holds at its
/// place is what it tells, and the first one holds something else there, or nothing.
pub proof fn law_differences_are_real(a: Seq<(Node, Node)>, b: Seq<(Node, Node)>, i: int)
    requires
        well_keyed(Node::Table(a)),
        well_keyed(Node::Table(b)),
        0 <= i < table_diff(a, b).len(),
    ensures
        table_diff(a, b)[i].path.len() > 0,
        table_diff(a, b)[i].new == at_path(Node::Table(b), table_diff(a, b)[i].path),
        !value::both_alike(
            at_path(Node::Table(a), table_diff(a, b)[i].path),
            at_path(Node::Table(b), table_diff(a, b)[i].path),
        ),
{
    lemma_difference(Node::Table(a), Some(Node::Table(b)), Seq::empty(), i);
    let e = table_diff(a, b)[i];
    assert(e.path.skip(0) =~= e.path);
    lemma_difference_lies_below(a, b, Seq::empty(), i);
}

proof fn lemma_difference_lies_below(
    a: Seq<(Node, Node)>,
    b: Seq<(Node, Node)>,
    path: Seq<Seq<char>>,
    i: int,
)
    requires
        well_keyed(Node::Table(a)),
        well_keyed(Node::Table(b)),
        0 <= i < node_diff(Node::Table(a), Some(Node::Table(b)), path).len(),
    ensures
        node_diff(Node::Table(a), Some(Node::Table(b)), path)[i].path.len() > path.len(),
{
    let front = changed_diff(a, b, path);
    assert(a.take(a.len() as int) =~= a);
    assert(b.take(b.len() as int) =~= b);
    if i < front.len() {
        lemma_changed_below(a, b, path, a.len() as int, i);
    } else {
        lemma_added_below(a, b, path, b.len() as int, i - front.len());
    }
}

proof fn lemma_changed_below(
    a: Seq<(Node, Node)>,
    b: Seq<(Node, Node)>,
    path: Seq<Seq<char>>,
    n: int,
    i: int,
)
    requires
        well_keyed(Node::Table(a)),
        well_keyed(Node::Table(b)),
        0 <= n <= a.len(),
        0 <= i < changed_diff(a.take(n), b, path).len(),
    ensures
        changed_diff(a.take(n), b, path)[i].path.len() > path.len(),
    decreases n,
{
    if n > 0 {
        assert(a.take(n).drop_last() =~= a.take(n - 1));
        assert(a.take(n).last() == a[n - 1]);
        let front = changed_diff(a.take(n - 1), b, path);
        if i < front.len() {
            lemma_changed_below(a, b, path, n - 1, i);
        } else {
            assert(a[n - 1].0 is Text);
            let key = a[n - 1].0->Text_0;
            value::lemma_key_index_bounds(b, key);
            if value::lookup(b, key) is Some {
                assert(well_keyed(b[value::key_index(b, key)].1));
            }
            lemma_difference(a[n - 1].1, value::lookup(b, key), path.push(key), i - front.len());
        }
    }
}

proof fn lemma_added_below(
    a: Seq<(Node, Node)>,
    b: Seq<(Node, Node)>,
    path: Seq<Seq<char>>,
    n: int,
    i: int,
)
    requires
        0 <= n <= b.len(),
        0 <= i < added_diff(a, b.take(n), path).len(),
    ensures
        added_diff(a, b.take(n), path)[i].path.len() > path.len(),
    decreases n,
{
    if n > 0 {
        assert(b.take(n).drop_last() =~= b.take(n - 1));
        let front = added_diff(a, b.take(n - 1), path);
        if i < front.len() {
            lemma_added_below(a, b, path, n - 1, i);
        }
    }
}

/// Every field in which two canonical documents do not say the same is among their
/// differences.
pub proof fn law_every_changed_field_is_told(
    a: Seq<(Node, Node)>,
    b: Seq<(Node, Node)>,
    key: Seq<char>,
)
    requires
        value::is_canonical(Node::Table(a)),
        value::is_canonical(Node::Table(b)),
        !value::both_alike(value::lookup(a, key), value::lookup(b, key)),
    ensures
        exists|i: int|
            0 <= i < table_diff(a, b).len() && (#[trigger] table_diff(a, b)[i]).path.len() > 0
                && table_diff(a, b)[i].path[0] == key,
{
    value::lemma_key_index_bounds(a, key);
    value::lemma_key_index_bounds(b, key);
    let n = value::key_index(a, key);
    let empty = Seq::<Seq<char>>::empty();
    let changed = changed_diff(a, b, empty);
    let added = added_diff(a, b, empty);
    lemma_canonical_well_keyed(Node::Table(a));
    lemma_canonical_well_keyed(Node::Table(b));
    if n < a.len() {
        lemma_node_diff_empty(a[n].1, value::lookup(b, key), empty.push(key));
        if value::lookup(b, key) is Some {
            assert(well_keyed(b[value::key_index(b, key)].1));
        }
        assert(well_keyed(a[n].1));
        let below = node_diff(a[n].1, value::lookup(b, key), empty.push(key));
        lemma_difference(a[n].1, value::lookup(b, key), empty.push(key), 0);
        assert(a.take(a.len() as int) =~= a);
        lemma_changed_holds(a, b, empty, n, a.len() as int, below[0]);
        let i = choose|i: int| 0 <= i < changed.len() && changed[i] == below[0];
        assert(table_diff(a, b)[i] == below[0]);
        assert(below[0].path.take(1)[0] == key);
    } else {
        let m = value::key_index(b, key);
        assert(b.take(b.len() as int) =~= b);
        let e = DiffView { path: empty.push(key), new: Some(b[m].1) };
        lemma_added_holds(a, b, empty, m, b.len() as int, e);
        let i = choose|i: int| 0 <= i < added.len() && added[i] == e;
        assert(table_diff(a, b)[changed.len() + i] == e);
    }
}

proof fn lemma_changed_holds(
    a: Seq<(Node, Node)>,
    b: Seq<(Node, Node)>,
    path: Seq<Seq<char>>,
    k: int,
    n: int,
    e: DiffView,
)
    requires
        0 <= k < n <= a.len(),
        a[k].0 is Text,
        node_diff(a[k].1, value::lookup(b, a[k].0->Text_0), path.push(a[k].0->Text_0)).contains(e),
    ensures
        changed_diff(a.take(n), b, path).contains(e),
    decreases n,
{
    assert(a.take(n).drop_last() =~= a.take(n - 1));
    assert(a.take(n).last() == a[n - 1]);
    let front = changed_diff(a.take(n - 1), b, path);
    let whole = changed_diff(a.take(n), b, path);
    if k < n - 1 {
        lemma_changed_holds(a, b, path, k, n - 1, e);
        let i = choose|i: int| 0 <= i < front.len() && front[i] == e;
        assert(whole[i] == e);
    } else {
        let below = node_diff(
            a[k].1,
            value::lookup(b, a[k].0->Text_0),
            path.push(a[k].0->Text_0),
        );
        let i = choose|i: int| 0 <= i < below.len() && below[i] == e;
        assert(whole[front.len() + i] == e);
    }
}

proof fn lemma_added_holds(
    a: Seq<(Node, Node)>,
    b: Seq<(Node, Node)>,
    path: Seq<Seq<char>>,
    k: int,
    n: int,
    e: DiffView,
)
    requires
        0 <= k < n <= b.len(),
        b[k].0 is Text,
        value::lookup(a, b[k].0->Text_0) is None,
        e == (DiffView { path: path.push(b[k].0->Text_0), new: Some(b[k].1) }),
    ensures
        added_diff(a, b.take(n), path).contains(e),
    decreases n,
{
    assert(b.take(n).drop_last() =~= b.take(n - 1));
    assert(b.take(n).last() == b[n - 1]);
    let front = added_diff(a, b.take(n - 1), path);
    let whole = added_diff(a, b.take(n), path);
    if k < n - 1 {
        lemma_added_holds(a, b, path, k, n - 1, e);
        let i = choose|i: int| 0 <= i < front.len() && front[i] == e;
        assert(whole[i] == e);
    } else {
        assert(whole[front.len() as int] == e);
    }
}

/// Documents that say the same say the same at every place.
pub proof fn law_alike_at_every_place(a: Node, b: Node, path: Seq<Seq<char>>)
    requires
        value::is_canonical(a),
        value::is_canonical(b),
        value::alike(a, b),
    ensures
        value::both_alike(at_path(a, path), at_path(b, path)),
    decreases path.len(),
{
    if path.len() > 0 {
        if let (Node::Table(x), Node::Table(y)) = (a, b) {
            law_alike_under_a_key(x, y, path[0]);
            value::lemma_key_index_bounds(x, path[0]);
            value::lemma_key_index_bounds(y, path[0]);
            if let (Some(below), Some(other)) = (
                value::lookup(x, path[0]),
                value::lookup(y, path[0]),
            ) {
                assert(value::is_canonical(x[value::key_index(x, path[0])].1));
                assert(value::is_canonical(y[value::key_index(y, path[0])].1));
                law_alike_at_every_place(below, other, path.drop_first());
            }
        }
    }
}

proof fn lemma_leaf_is_listed(
    table: Seq<(Node, Node)>,
    path: Seq<Seq<char>>,
    k: int,
    leaf: (Seq<Seq<char>>, Node),
)
    requires
        0 <= k < table.len(),
        table[k].0 is Text,
        leaves(table[k].1, path.push(table[k].0->Text_0)).contains(leaf),
    ensures
        table_leaves(table, path).contains(leaf),
    decreases table.len(),
{
    let front = table_leaves(table.drop_last(), path);
    let back = match table.last().0 {
        Node::Text(key) => leaves(table.last().1, path.push(key)),
        _ => Seq::empty(),
    };
    vstd::seq_lib::lemma_seq_concat_contains_all_elements(front, back, leaf);
    if k < table.len() - 1 {
        assert(table.drop_last()[k] == table[k]);
        lemma_leaf_is_listed(table.drop_last(), path, k, leaf);
    }
}

/// No leaf is a table.
pub proof fn lemma_leaves_are_no_tables(node: Node, path: Seq<Seq<char>>)
    ensures
        forall|i: int|
            0 <= i < leaves(node, path).len() ==> !((#[trigger] leaves(node, path)[i]).1 is Table),
    decreases node, 0nat,
{
    if let Node::Table(table) = node {
        lemma_table_leaves_are_no_tables(table, path);
    }
}

proof fn lemma_table_leaves_are_no_tables(table: Seq<(Node, Node)>, path: Seq<Seq<char>>)
    ensures
        forall|i: int|
            0 <= i < table_leaves(table, path).len() ==> !((#[trigger] table_leaves(
                table,
                path,
            )[i]).1 is Table),
    decreases table, table.len(),
{
    if table.len() > 0 {
        let front = table_leaves(table.drop_last(), path);
        lemma_table_leaves_are_no_tables(table.drop_last(), path);
        if let Node::Text(key) = table.last().0 {
            let back = leaves(table.last().1, path.push(key));
            lemma_leaves_are_no_tables(table.last().1, path.push(key));
            assert forall|i: int| 0 <= i < table_leaves(table, path).len() implies !((
            #[trigger] table_leaves(table, path)[i]).1 is Table) by {
                if i < front.len() {
                    assert(table_leaves(table, path)[i] == front[i]);
                } else {
                    assert(table_leaves(table, path)[i] == back[i - front.len()]);
                }
            }
        } else {
            assert(table_leaves(table, path) =~= front);
        }
    }
}

/// No value of a document is missed: whatever stands at a path and is no table is among
/// the leaves, with its path.
pub proof fn law_no_leaf_is_missed(
    node: Node,
    above: Seq<Seq<char>>,
    path: Seq<Seq<char>>,
    value: Node,
)
    requires
        at_path(node, path) == Some(value),
        !(value is Table),
    ensures
        leaves(node, above).contains((above + path, value)),
    decreases path.len(),
{
    if path.len() == 0 {
        assert(above + path =~= above);
        assert(leaves(node, above)[0] == (above, value));
    } else if let Node::Table(table) = node {
        let key = path[0];
        value::lemma_key_index_bounds(table, key);
        let k = value::key_index(table, key);
        let below = table[k].1;
        law_no_leaf_is_missed(below, above.push(key), path.drop_first(), value);
        assert(above.push(key) + path.drop_first() =~= above + path);
        lemma_leaf_is_listed(table, above, k, (above + path, value));
    }
}

} // verus!
