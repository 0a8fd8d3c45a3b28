//! Identity of a distributed core artifact: behavioral family plus open variant
//! tags.

use vstd::prelude::*;
use vstd::string::*;

use crate::metadata::kind::ClashCoreKind;
use crate::text;
use crate::text::{split_at_first, str_eq, str_lt, to_ascii_lowercase, trim};

verus! {

/// A tag, trimmed and in lower case.
#[derive(Debug, Clone, PartialEq, Eq, PartialOrd, Ord, Hash)]
pub struct VariantTag(String);

/// The form in which a tag is kept.
pub open spec fn normalized(tag: Seq<char>) -> Seq<char> {
    text::lowered(text::trimmed(tag))
}

/// The group of a tag: what stands before its first colon.
pub open spec fn group_of(tag: Seq<char>) -> Option<Seq<char>> {
    match text::split_once(tag, ":"@) {
        Some((group, _)) => Some(group),
        None => None,
    }
}

/// The value of a tag: what stands after its first colon, or the whole tag.
pub open spec fn value_of(tag: Seq<char>) -> Seq<char> {
    match text::split_once(tag, ":"@) {
        Some((_, value)) => value,
        None => tag,
    }
}

impl VariantTag {
    pub closed spec fn view(&self) -> Seq<char> {
        self.0@
    }

    /// The name of the group of release channels.
    pub fn group_channel() -> (r: &'static str)
        ensures
            r@ == "channel"@,
    {
        "channel"
    }

    pub fn new(tag: &str) -> (r: VariantTag)
        ensures
            r@ == normalized(tag@),
    {
        VariantTag(to_ascii_lowercase(trim(tag).as_str()))
    }

    pub fn as_str(&self) -> (r: &str)
        ensures
            r@ == self@,
    {
        self.0.as_str()
    }

    pub fn group(&self) -> (r: Option<String>)
        ensures
            match r {
                Some(group) => group_of(self@) == Some(group@),
                None => group_of(self@) is None,
            },
    {
        match split_at_first(self.0.as_str(), ":") {
            Some((group, _)) => Some(group),
            None => None,
        }
    }

    pub fn value(&self) -> (r: String)
        ensures
            r@ == value_of(self@),
    {
        match split_at_first(self.0.as_str(), ":") {
            Some((_, value)) => value,
            None => self.0.clone(),
        }
    }
}

/// Normalizing twice is normalizing once.
pub proof fn law_normalized_is_fixed(tag: Seq<char>)
    ensures
        normalized(normalized(tag)) == normalized(tag),
{
    let t = text::trimmed(tag);
    let n = normalized(tag);
    text::lemma_trimmed(tag);
    if n.len() > 0 {
        assert(n[0] == text::lower_char(t[0]));
        assert(n.last() == text::lower_char(t.last()));
    }
    text::lemma_trimmed_fixed(n);
    assert(text::lowered(n) =~= n);
}

/// A set of tags in ascending order.
#[derive(Debug, PartialEq, Eq)]
pub struct TagSet {
    tags: Vec<VariantTag>,
}

pub open spec fn tag_texts(tags: Seq<VariantTag>) -> Seq<Seq<char>> {
    Seq::new(tags.len(), |i: int| tags[i]@)
}

/// In ascending order, so that no tag occurs twice.
pub open spec fn ascending(tags: Seq<Seq<char>>) -> bool {
    forall|i: int, j: int|
        0 <= i < j < tags.len() ==> text::text_lt(#[trigger] tags[i], #[trigger] tags[j])
}

impl TagSet {
    pub closed spec fn view(&self) -> Seq<Seq<char>> {
        tag_texts(self.tags@)
    }

    #[verifier::type_invariant]
    spec fn in_order(self) -> bool {
        ascending(tag_texts(self.tags@))
    }

    pub fn new() -> (r: TagSet)
        ensures
            r@.len() == 0,
            ascending(r@),
    {
        let tags: Vec<VariantTag> = Vec::new();
        TagSet { tags }
    }

    pub fn len(&self) -> (r: usize)
        ensures
            r == self@.len(),
    {
        self.tags.len()
    }

    /// The tag at a place in the order.
    pub fn get(&self, i: usize) -> (r: &VariantTag)
        requires
            i < self@.len(),
        ensures
            r@ == self@[i as int],
            ascending(self@),
    {
        proof {
            use_type_invariant(self);
        }
        &self.tags[i]
    }

    /// The set with one more tag. A tag that is already there changes nothing.
    pub fn with(self, tag: VariantTag) -> (r: TagSet)
        ensures
            ascending(r@),
            forall|t: Seq<char>|
                #[trigger] r@.contains(t) <==> self@.contains(t) || t == tag@,
    {
        proof {
            use_type_invariant(&self);
        }
        let mut tags = self.tags;
        let ghost before = tag_texts(tags@);
        let mut i: usize = 0;
        while i < tags.len() && str_lt(tags[i].as_str(), tag.as_str())
            invariant
                i <= tags@.len(),
                before == tag_texts(tags@),
                forall|j: int| 0 <= j < i ==> text::text_lt(#[trigger] before[j], tag@),
            decreases tags@.len() - i,
        {
            i += 1;
        }
        if i < tags.len() && str_eq(tags[i].as_str(), tag.as_str()) {
            proof {
                assert(before[i as int] == tag@);
                assert(before.contains(tag@));
            }
            return TagSet { tags };
        }
        tags.insert(i, tag);
        proof {
            let after = tag_texts(tags@);
            assert(after =~= before.insert(i as int, tag@));
            if i < before.len() {
                text::lemma_text_lt_total(before[i as int], tag@);
            }
            assert forall|a: int, b: int| 0 <= a < b < after.len() implies text::text_lt(
                #[trigger] after[a],
                #[trigger] after[b],
            ) by {
                if b < i {
                    assert(after[a] == before[a] && after[b] == before[b]);
                } else if b == i {
                    assert(after[a] == before[a]);
                } else if a < i {
                    assert(after[a] == before[a] && after[b] == before[b - 1]);
                } else if a == i {
                    assert(after[b] == before[b - 1]);
                    if b - 1 > i {
                        text::lemma_text_lt_transitive(tag@, before[i as int], before[b - 1]);
                    }
                } else {
                    assert(after[a] == before[a - 1] && after[b] == before[b - 1]);
                }
            }
            assert forall|t: Seq<char>| #[trigger] after.contains(t) <==> before.contains(t) || t
                == tag@ by {
                if before.contains(t) {
                    let k = choose|k: int| 0 <= k < before.len() && before[k] == t;
                    if k < i {
                        assert(after[k] == t);
                    } else {
                        assert(after[k + 1] == t);
                    }
                }
                if t == tag@ {
                    assert(after[i as int] == t);
                }
                if after.contains(t) && t != tag@ {
                    let k = choose|k: int| 0 <= k < after.len() && after[k] == t;
                    if k < i {
                        assert(before[k] == t);
                    } else {
                        assert(before[k - 1] == t);
                    }
                }
            }
        }
        TagSet { tags }
    }

    /// The set of the tags of a list.
    pub fn from_tags(list: Vec<VariantTag>) -> (r: TagSet)
        ensures
            ascending(r@),
            forall|t: Seq<char>| #[trigger] r@.contains(t) <==> tag_texts(list@).contains(t),
    {
        let mut set = TagSet::new();
        let mut i: usize = 0;
        let ghost all = tag_texts(list@);
        assert forall|t: Seq<char>| #[trigger] set@.contains(t) <==> all.take(0).contains(t) by {}
        while i < list.len()
            invariant
                i <= list@.len(),
                all == tag_texts(list@),
                ascending(set@),
                forall|t: Seq<char>|
                    #[trigger] set@.contains(t) <==> all.take(i as int).contains(t),
            decreases list@.len() - i,
        {
            let tag = VariantTag(list[i].0.clone());
            assert(tag@ == all[i as int]);
            let ghost before = set@;
            set = set.with(tag);
            proof {
                let prefix = all.take(i as int);
                let next = all.take(i + 1);
                assert(next =~= prefix.push(tag@));
                assert forall|t: Seq<char>| #[trigger] set@.contains(t) <==> next.contains(t) by {
                    assert(before.contains(t) <==> prefix.contains(t));
                    if prefix.contains(t) {
                        let k = choose|k: int| 0 <= k < prefix.len() && prefix[k] == t;
                        assert(next[k] == t);
                    }
                    if t == tag@ {
                        assert(next[i as int] == t);
                    }
                    if next.contains(t) && t != tag@ {
                        let k = choose|k: int| 0 <= k < next.len() && next[k] == t;
                        assert(prefix[k] == t);
                    }
                }
            }
            i += 1;
        }
        assert(all.take(i as int) =~= all);
        set
    }
}

/// A sorted set is determined by its members, so the order and the repetition of
/// a list do not matter.
pub proof fn law_sets_with_equal_members_are_equal(a: Seq<Seq<char>>, b: Seq<Seq<char>>)
    requires
        ascending(a),
        ascending(b),
        forall|t: Seq<char>| #[trigger] a.contains(t) <==> b.contains(t),
    ensures
        a == b,
    decreases a.len(),
{
    if a.len() == 0 {
        if b.len() > 0 {
            assert(b.contains(b[0]));
            assert(a.contains(b[0]));
        }
        assert(a =~= b);
    } else {
        assert(a.contains(a.last())) by {
            assert(a[a.len() - 1] == a.last());
        }
        assert(b.contains(a.last()));
        assert(b.len() > 0);
        assert(b.contains(b.last())) by {
            assert(b[b.len() - 1] == b.last());
        }
        assert(a.contains(b.last()));
        let i = choose|i: int| 0 <= i < a.len() && a[i] == b.last();
        let j = choose|j: int| 0 <= j < b.len() && b[j] == a.last();
        assert(a.last() == b.last()) by {
            if a.last() != b.last() {
                assert(text::text_lt(a[i], a[a.len() - 1]));
                assert(text::text_lt(b[j], b[b.len() - 1]));
                text::lemma_text_lt_transitive(a.last(), b.last(), a.last());
                text::lemma_text_lt_irreflexive(a.last());
            }
        }
        let a0 = a.drop_last();
        let b0 = b.drop_last();
        assert forall|t: Seq<char>| #[trigger] a0.contains(t) <==> b0.contains(t) by {
            lemma_drop_last_contains(a, t);
            lemma_drop_last_contains(b, t);
            assert(a.contains(t) <==> b.contains(t));
        }
        assert forall|x: int, y: int| 0 <= x < y < a0.len() implies text::text_lt(
            #[trigger] a0[x],
            #[trigger] a0[y],
        ) by {
            assert(a0[x] == a[x] && a0[y] == a[y]);
        }
        assert forall|x: int, y: int| 0 <= x < y < b0.len() implies text::text_lt(
            #[trigger] b0[x],
            #[trigger] b0[y],
        ) by {
            assert(b0[x] == b[x] && b0[y] == b[y]);
        }
        law_sets_with_equal_members_are_equal(a0, b0);
        assert(a =~= a0.push(a.last()));
        assert(b =~= b0.push(b.last()));
    }
}

proof fn lemma_drop_last_contains(s: Seq<Seq<char>>, t: Seq<char>)
    requires
        ascending(s),
        s.len() > 0,
    ensures
        s.drop_last().contains(t) <==> s.contains(t) && t != s.last(),
{
    let rest = s.drop_last();
    let n = s.len() - 1;
    if rest.contains(t) {
        let k = choose|k: int| 0 <= k < rest.len() && rest[k] == t;
        assert(s[k] == t);
        assert(text::text_lt(s[k], s[n]));
        text::lemma_text_lt_irreflexive(t);
    }
    if s.contains(t) && t != s.last() {
        let k = choose|k: int| 0 <= k < s.len() && s[k] == t;
        assert(rest[k] == t);
    }
}

// ---------------------------------------------------------------------------
// Distributions
// ---------------------------------------------------------------------------

#[derive(Debug, PartialEq, Eq)]
pub struct CoreDistribution {
    pub kind: ClashCoreKind,
    pub variant: Option<String>,
    pub tags: TagSet,
}

/// The value of the first tag of a group.
pub open spec fn first_in_group(tags: Seq<Seq<char>>, group: Seq<char>) -> Option<Seq<char>>
    decreases tags.len(),
{
    if tags.len() == 0 {
        None
    } else if group_of(tags[0]) == Some(group) {
        Some(value_of(tags[0]))
    } else {
        first_in_group(tags.drop_first(), group)
    }
}

impl CoreDistribution {
    pub fn new(kind: ClashCoreKind) -> (r: CoreDistribution)
        ensures
            r.kind == kind,
            r.variant is None,
            r.tags@.len() == 0,
    {
        CoreDistribution { kind, variant: None, tags: TagSet::new() }
    }

    pub fn tag_value(&self, group: &str) -> (r: Option<String>)
        ensures
            match r {
                Some(value) => first_in_group(self.tags@, group@) == Some(value@),
                None => first_in_group(self.tags@, group@) is None,
            },
    {
        let mut i: usize = 0;
        let ghost all = self.tags@;
        assert(all.skip(0) =~= all);
        while i < self.tags.len()
            invariant
                i <= all.len(),
                all == self.tags@,
                first_in_group(all, group@) == first_in_group(all.skip(i as int), group@),
            decreases all.len() - i,
        {
            let tag = self.tags.get(i);
            assert(all.skip(i as int)[0] == all[i as int]);
            assert(all.skip(i as int).drop_first() =~= all.skip(i + 1));
            if let Some(g) = tag.group() {
                if str_eq(g.as_str(), group) {
                    return Some(tag.value());
                }
            }
            i += 1;
        }
        None
    }

    pub fn channel(&self) -> (r: Option<String>)
        ensures
            match r {
                Some(value) => first_in_group(self.tags@, "channel"@) == Some(value@),
                None => first_in_group(self.tags@, "channel"@) is None,
            },
    {
        self.tag_value(VariantTag::group_channel())
    }
}

/// A tag with a group is its group, a colon and its value, and the colon is the first;
/// one without is its value.
pub proof fn law_tags_are_groups_and_values(tag: Seq<char>)
    ensures
        group_of(tag) matches Some(group) ==> tag == group + seq![':'] + value_of(tag) && (
        forall|i: int| 0 <= i < group.len() ==> #[trigger] group[i] != ':'),
        group_of(tag) is None ==> value_of(tag) == tag && (forall|i: int|
            0 <= i < tag.len() ==> #[trigger] tag[i] != ':'),
{
    reveal_strlit(":");
    assert(":"@.len() == 1 && ":"@[0] == ':');
    text::lemma_find_sub_bounds(tag, ":"@, 0);
    match text::find_sub(tag, ":"@, 0) {
        Some(n) => {
            assert(tag.subrange(n, n + 1)[0] == tag[n]);
            let group = tag.subrange(0, n);
            assert forall|i: int| 0 <= i < group.len() implies #[trigger] group[i] != ':' by {
                assert(!text::matches_at(tag, ":"@, i));
                if tag[i] == ':' {
                    assert(tag.subrange(i, i + 1) =~= ":"@);
                }
            }
            assert(tag =~= group + seq![':'] + tag.subrange(n + 1, tag.len() as int));
        },
        None => {
            assert forall|i: int| 0 <= i < tag.len() implies #[trigger] tag[i] != ':' by {
                assert(!text::matches_at(tag, ":"@, i));
                if tag[i] == ':' {
                    assert(tag.subrange(i, i + 1) =~= ":"@);
                }
            }
        },
    }
}

/// The tag is the first one of the group.
pub open spec fn leads_group(tags: Seq<Seq<char>>, group: Seq<char>, i: int) -> bool {
    &&& 0 <= i < tags.len()
    &&& group_of(tags[i]) == Some(group)
    &&& forall|j: int| 0 <= j < i ==> group_of(#[trigger] tags[j]) != Some(group)
}

/// The value of a group is that of the first tag of the group, and there is none
/// where no tag is of it.
pub proof fn law_groups_are_looked_up(tags: Seq<Seq<char>>, group: Seq<char>)
    ensures
        first_in_group(tags, group) is None <==> forall|i: int|
            0 <= i < tags.len() ==> group_of(#[trigger] tags[i]) != Some(group),
        first_in_group(tags, group) matches Some(value) ==> exists|i: int|
            #[trigger] leads_group(tags, group, i) && value_of(tags[i]) == value,
    decreases tags.len(),
{
    if tags.len() > 0 {
        if group_of(tags[0]) == Some(group) {
            assert(leads_group(tags, group, 0));
        } else {
            let rest = tags.drop_first();
            law_groups_are_looked_up(rest, group);
            if first_in_group(tags, group) is None {
                assert forall|i: int| 0 <= i < tags.len() implies group_of(#[trigger] tags[i])
                    != Some(group) by {
                    if i > 0 {
                        assert(rest[i - 1] == tags[i]);
                    }
                }
            } else {
                let i = choose|i: int|
                    #[trigger] leads_group(rest, group, i) && value_of(rest[i])
                        == first_in_group(rest, group)->0;
                assert(tags[i + 1] == rest[i]);
                assert forall|j: int| 0 <= j < i + 1 implies group_of(#[trigger] tags[j]) != Some(
                    group,
                ) by {
                    if j > 0 {
                        assert(rest[j - 1] == tags[j]);
                    }
                }
                assert(leads_group(tags, group, i + 1));
            }
        }
    }
}

} // verus!
