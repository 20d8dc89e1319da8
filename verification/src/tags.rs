//! Tags used in the Ledger: `apply tag` directives and metadata of transactions and postings.
use crate::syntax::{LedgerEntry, Metadata, MetadataValue};
use crate::text::{compare_text, lemma_str_lt_order, str_lt};
use vstd::prelude::*;

verus! {

/// What the tags report.
#[derive(Debug, PartialEq, Eq, Structural, Clone, Copy)]
pub enum TagQuery {
    /// Only the keys.
    KeysOnly,
    /// The keys with their values.
    WithValues,
}

/// Value of a tag.
#[derive(Debug, PartialEq, Eq, Clone)]
pub enum TagValue {
    Expr(String),
    Text(String),
}

/// Tag: a key, with its value if asked for.
#[derive(Debug, PartialEq, Eq, Clone)]
pub struct Tag {
    pub key: String,
    pub value: Option<TagValue>,
}

/// View of a tag: the key, and the value as its kind (0 for an expression, 1 for a text) and
/// its text.
pub type TagView = (Seq<char>, Option<(nat, Seq<char>)>);

/// The view of a tag.
pub open spec fn tag_view(t: Tag) -> TagView {
    (
        t.key@,
        match t.value {
            None => None,
            Some(TagValue::Expr(e)) => Some((0nat, e@)),
            Some(TagValue::Text(s)) => Some((1nat, s@)),
        },
    )
}

/// `a < b`: by key, then no value first, then expressions before texts, then by text.
pub open spec fn tag_lt(a: TagView, b: TagView) -> bool {
    str_lt(a.0, b.0) || (a.0 == b.0 && match (a.1, b.1) {
        (None, Some(_)) => true,
        (Some(x), Some(y)) => x.0 < y.0 || (x.0 == y.0 && str_lt(x.1, y.1)),
        _ => false,
    })
}

/// The tags are strictly increasing.
pub open spec fn tags_sorted(v: Seq<Tag>) -> bool {
    forall|i: int, j: int| 0 <= i < j < v.len() ==> tag_lt(tag_view(#[trigger] v[i]), tag_view(#[trigger] v[j]))
}

/// `t` is one of the tags.
pub open spec fn has_tag(v: Seq<Tag>, t: TagView) -> bool {
    exists|i: int| 0 <= i < v.len() && tag_view(#[trigger] v[i]) == t
}

/// The tag of the key and value, as the query asks.
pub open spec fn tag_of(query: TagQuery, key: Seq<char>, value: Option<MetadataValue>) -> TagView {
    match (query, value) {
        (TagQuery::WithValues, Some(MetadataValue::Expr(e))) => (key, Some((0nat, e@))),
        (TagQuery::WithValues, Some(MetadataValue::Text(s))) => (key, Some((1nat, s@))),
        _ => (key, None),
    }
}

/// The metadata gives the tag.
pub open spec fn metadata_gives(query: TagQuery, m: Metadata, t: TagView) -> bool {
    match m {
        Metadata::WordTags(ws) => exists|j: int| 0 <= j < ws@.len() && t == (#[trigger] ws@[j]@, None::<(nat, Seq<char>)>),
        Metadata::KeyValueTag { key, value } => t == tag_of(query, key@, Some(value)),
        Metadata::Comment(_) => false,
    }
}

/// The entry gives the tag: an `apply tag`, or the metadata of a transaction or of one of
/// its postings.
pub open spec fn entry_gives(query: TagQuery, e: LedgerEntry, t: TagView) -> bool {
    match e {
        LedgerEntry::ApplyTag(a) => t == tag_of(query, a.key@, a.value),
        LedgerEntry::Txn(txn) => (exists|j: int| 0 <= j < txn.metadata@.len() && metadata_gives(query, #[trigger] txn.metadata@[j], t))
            || (exists|p: int, j: int|
            0 <= p < txn.posts@.len() && 0 <= j < txn.posts@[p].value.metadata@.len() && metadata_gives(
                query,
                #[trigger] txn.posts@[p].value.metadata@[j],
                t,
            )),
        _ => false,
    }
}

/// The order of tags is a strict total order.
proof fn lemma_tag_lt_order(a: TagView, b: TagView, c: TagView)
    ensures
        !tag_lt(a, a),
        a != b ==> tag_lt(a, b) || tag_lt(b, a),
        !(tag_lt(a, b) && tag_lt(b, a)),
        tag_lt(a, b) && tag_lt(b, c) ==> tag_lt(a, c),
{
    lemma_str_lt_order(a.0, b.0, c.0);
    lemma_str_lt_order(b.0, c.0, a.0);
    lemma_str_lt_order(c.0, a.0, b.0);
    lemma_str_lt_order(b.0, a.0, c.0);
    if let (Some(x), Some(y), Some(z)) = (a.1, b.1, c.1) {
        lemma_str_lt_order(x.1, y.1, z.1);
        lemma_str_lt_order(y.1, x.1, z.1);
    }
    if let (Some(x), Some(y)) = (a.1, b.1) {
        lemma_str_lt_order(x.1, y.1, y.1);
        lemma_str_lt_order(y.1, x.1, x.1);
        if x.0 == y.0 && x.1 == y.1 {
            assert(x == y);
        }
    }
    if let Some(x) = a.1 {
        lemma_str_lt_order(x.1, x.1, x.1);
    }
}

/// Compares the tags: negative, zero or positive as `a` is before, equal to or after `b`.
fn compare_tags(a: &Tag, b: &Tag) -> (r: i8)
    ensures
        r < 0 <==> tag_lt(tag_view(*a), tag_view(*b)),
        r == 0 <==> tag_view(*a) == tag_view(*b),
        r > 0 <==> tag_lt(tag_view(*b), tag_view(*a)),
{
    proof {
        lemma_tag_lt_order(tag_view(*a), tag_view(*b), tag_view(*b));
        lemma_tag_lt_order(tag_view(*b), tag_view(*a), tag_view(*a));
    }
    let k = compare_text(a.key.as_str(), b.key.as_str());
    if k != 0 {
        return k;
    }
    match (&a.value, &b.value) {
        (None, None) => 0,
        (None, Some(_)) => -1,
        (Some(_), None) => 1,
        (Some(x), Some(y)) => match (x, y) {
            (TagValue::Expr(_), TagValue::Text(_)) => -1,
            (TagValue::Text(_), TagValue::Expr(_)) => 1,
            (TagValue::Expr(p), TagValue::Expr(q)) => compare_text(p.as_str(), q.as_str()),
            (TagValue::Text(p), TagValue::Text(q)) => compare_text(p.as_str(), q.as_str()),
        },
    }
}

/// Adds the tag of the key and value as the query asks, keeping the tags sorted and unique.
fn insert(collected: &mut Vec<Tag>, query: TagQuery, key: &str, value: Option<&MetadataValue>)
    requires
        tags_sorted(old(collected)@),
    ensures
        tags_sorted(final(collected)@),
        forall|t: TagView| has_tag(final(collected)@, t) <==> (has_tag(old(collected)@, t) || t == tag_of(
            query,
            key@,
            match value {
                Some(v) => Some(*v),
                None => None,
            },
        )),
{
    let tag = match (query, value) {
        (TagQuery::WithValues, Some(MetadataValue::Expr(e))) => Tag {
            key: key.to_owned(),
            value: Some(TagValue::Expr(e.clone())),
        },
        (TagQuery::WithValues, Some(MetadataValue::Text(s))) => Tag {
            key: key.to_owned(),
            value: Some(TagValue::Text(s.clone())),
        },
        _ => Tag { key: key.to_owned(), value: None },
    };
    let ghost tv = tag_view(tag);
    let ghost before = collected@;
    let mut p: usize = 0;
    let mut stop = false;
    while p < collected.len() && !stop
        invariant
            p <= collected@.len(),
            collected@ == before,
            tags_sorted(before),
            tv == tag_view(tag),
            tv == tag_of(
                query,
                key@,
                match value {
                    Some(v) => Some(*v),
                    None => None,
                },
            ),
            forall|k: int| 0 <= k < p ==> tag_lt(tag_view(#[trigger] collected@[k]), tv),
            stop ==> p < collected@.len() && tag_lt(tv, tag_view(collected@[p as int])),
        decreases collected@.len() - p + (if stop { 0int } else { 1int }),
    {
        let cp = &collected[p];
        assert(*cp == collected@[p as int]);
        let c = compare_tags(cp, &tag);
        if c == 0 {
            proof {
                assert(tag_view(collected@[p as int]) == tv);
                assert(has_tag(collected@, tv));
            }
            return;
        }
        if c > 0 {
            stop = true;
        } else {
            p = p + 1;
        }
    }
    collected.insert(p, tag);
    proof {
        assert forall|i: int, j: int| 0 <= i < j < collected@.len() implies tag_lt(
            tag_view(#[trigger] collected@[i]),
            tag_view(#[trigger] collected@[j]),
        ) by {
            let pi = p as int;
            if j < pi {
                assert(collected@[i] == before[i] && collected@[j] == before[j]);
            } else if j == pi {
                assert(collected@[i] == before[i]);
            } else if i == pi {
                assert(collected@[j] == before[j - 1]);
                if j - 1 > pi {
                    lemma_tag_lt_order(tv, tag_view(before[pi]), tag_view(before[j - 1]));
                }
            } else if i < pi {
                assert(collected@[i] == before[i] && collected@[j] == before[j - 1]);
                assert(tag_lt(tag_view(before[i]), tag_view(before[j - 1])));
            } else {
                assert(collected@[i] == before[i - 1] && collected@[j] == before[j - 1]);
            }
        }
        assert forall|t: TagView| has_tag(collected@, t) <==> (has_tag(before, t) || t == tv) by {
            if has_tag(collected@, t) {
                let i = choose|i: int| 0 <= i < collected@.len() && tag_view(#[trigger] collected@[i]) == t;
                if i < p as int {
                    assert(collected@[i] == before[i]);
                } else if i > p as int {
                    assert(collected@[i] == before[i - 1]);
                }
            }
            if has_tag(before, t) {
                let i = choose|i: int| 0 <= i < before.len() && tag_view(#[trigger] before[i]) == t;
                if i < p as int {
                    assert(collected@[i] == before[i]);
                } else {
                    assert(collected@[i + 1] == before[i]);
                }
            }
            if t == tv {
                assert(collected@[p as int] == tag);
            }
        }
    }
}

/// Adds the tags of the metadata.
fn collect_metadata(collected: &mut Vec<Tag>, query: TagQuery, metadata: &Metadata)
    requires
        tags_sorted(old(collected)@),
    ensures
        tags_sorted(final(collected)@),
        forall|t: TagView| has_tag(final(collected)@, t) <==> (has_tag(old(collected)@, t) || metadata_gives(query, *metadata, t)),
{
    match metadata {
        Metadata::WordTags(word_tags) => {
            let mut i: usize = 0;
            while i < word_tags.len()
                invariant
                    i <= word_tags@.len(),
                    tags_sorted(collected@),
                    forall|t: TagView| has_tag(collected@, t) <==> (has_tag(old(collected)@, t) || exists|j: int| 0 <= j < i && t == (#[trigger] word_tags@[j]@, None::<(nat, Seq<char>)>)),
                decreases word_tags@.len() - i,
            {
                insert(collected, query, word_tags[i].as_str(), None);
                proof {
                    assert forall|t: TagView| has_tag(collected@, t) <==> (has_tag(old(collected)@, t) || exists|j: int| 0 <= j < i + 1 && t == (#[trigger] word_tags@[j]@, None::<(nat, Seq<char>)>)) by {
                        if t == (word_tags@[i as int]@, None::<(nat, Seq<char>)>) {
                        }
                    }
                }
                i = i + 1;
            }
        },
        Metadata::KeyValueTag { key, value } => {
            insert(collected, query, key.as_str(), Some(value));
        },
        Metadata::Comment(_) => {},
    }
}

/// Adds the tags of the entry.
fn collect_entry(collected: &mut Vec<Tag>, query: TagQuery, entry: &LedgerEntry)
    requires
        tags_sorted(old(collected)@),
    ensures
        tags_sorted(final(collected)@),
        forall|t: TagView| has_tag(final(collected)@, t) <==> (has_tag(old(collected)@, t) || entry_gives(query, *entry, t)),
{
    match entry {
        LedgerEntry::ApplyTag(apply) => {
            let v = match &apply.value {
                Some(x) => Some(x),
                None => None,
            };
            insert(collected, query, apply.key.as_str(), v);
        },
        LedgerEntry::Txn(txn) => {
            let mut i: usize = 0;
            while i < txn.metadata.len()
                invariant
                    i <= txn.metadata@.len(),
                    tags_sorted(collected@),
                    forall|t: TagView| has_tag(collected@, t) <==> (has_tag(old(collected)@, t) || exists|j: int| 0 <= j < i && metadata_gives(query, #[trigger] txn.metadata@[j], t)),
                decreases txn.metadata@.len() - i,
            {
                collect_metadata(collected, query, &txn.metadata[i]);
                proof {
                    assert forall|t: TagView| has_tag(collected@, t) <==> (has_tag(old(collected)@, t) || exists|j: int| 0 <= j < i + 1 && metadata_gives(query, #[trigger] txn.metadata@[j], t)) by {
                        if metadata_gives(query, txn.metadata@[i as int], t) {
                        }
                    }
                }
                i = i + 1;
            }
            let mut p: usize = 0;
            while p < txn.posts.len()
                invariant
                    p <= txn.posts@.len(),
                    tags_sorted(collected@),
                    forall|t: TagView| has_tag(collected@, t) <==> (has_tag(old(collected)@, t)
                        || (exists|j: int| 0 <= j < txn.metadata@.len() && metadata_gives(query, #[trigger] txn.metadata@[j], t))
                        || exists|q: int, j: int| 0 <= q < p && 0 <= j < txn.posts@[q].value.metadata@.len() && metadata_gives(query, #[trigger] txn.posts@[q].value.metadata@[j], t)),
                decreases txn.posts@.len() - p,
            {
                let post = &txn.posts[p].value;
                let mut k: usize = 0;
                while k < post.metadata.len()
                    invariant
                        p < txn.posts@.len(),
                        *post == txn.posts@[p as int].value,
                        k <= post.metadata@.len(),
                        tags_sorted(collected@),
                        forall|t: TagView| has_tag(collected@, t) <==> (has_tag(old(collected)@, t)
                            || (exists|j: int| 0 <= j < txn.metadata@.len() && metadata_gives(query, #[trigger] txn.metadata@[j], t))
                            || (exists|q: int, j: int| 0 <= q < p && 0 <= j < txn.posts@[q].value.metadata@.len() && metadata_gives(query, #[trigger] txn.posts@[q].value.metadata@[j], t))
                            || exists|j: int| 0 <= j < k && metadata_gives(query, #[trigger] post.metadata@[j], t)),
                    decreases post.metadata@.len() - k,
                {
                    collect_metadata(collected, query, &post.metadata[k]);
                    proof {
                        assert forall|t: TagView| has_tag(collected@, t) <==> (has_tag(old(collected)@, t)
                            || (exists|j: int| 0 <= j < txn.metadata@.len() && metadata_gives(query, #[trigger] txn.metadata@[j], t))
                            || (exists|q: int, j: int| 0 <= q < p && 0 <= j < txn.posts@[q].value.metadata@.len() && metadata_gives(query, #[trigger] txn.posts@[q].value.metadata@[j], t))
                            || exists|j: int| 0 <= j < k + 1 && metadata_gives(query, #[trigger] post.metadata@[j], t)) by {
                            if metadata_gives(query, post.metadata@[k as int], t) {
                            }
                        }
                    }
                    k = k + 1;
                }
                proof {
                    assert forall|t: TagView| has_tag(collected@, t) <==> (has_tag(old(collected)@, t)
                        || (exists|j: int| 0 <= j < txn.metadata@.len() && metadata_gives(query, #[trigger] txn.metadata@[j], t))
                        || exists|q: int, j: int| 0 <= q < p + 1 && 0 <= j < txn.posts@[q].value.metadata@.len() && metadata_gives(query, #[trigger] txn.posts@[q].value.metadata@[j], t)) by {
                        if exists|j: int| 0 <= j < post.metadata@.len() && metadata_gives(query, #[trigger] post.metadata@[j], t) {
                            let j = choose|j: int| 0 <= j < post.metadata@.len() && metadata_gives(query, #[trigger] post.metadata@[j], t);
                            assert(metadata_gives(query, txn.posts@[p as int].value.metadata@[j], t));
                        }
                        if exists|q: int, j: int| 0 <= q < p + 1 && 0 <= j < txn.posts@[q].value.metadata@.len() && metadata_gives(query, #[trigger] txn.posts@[q].value.metadata@[j], t) {
                            let (q, j) = choose|q: int, j: int| 0 <= q < p + 1 && 0 <= j < txn.posts@[q].value.metadata@.len() && metadata_gives(query, #[trigger] txn.posts@[q].value.metadata@[j], t);
                            if q == p {
                                assert(metadata_gives(query, post.metadata@[j], t));
                            }
                        }
                    }
                }
                p = p + 1;
            }
        },
        _ => {},
    }
}

/// The tags of the entries, sorted and without duplicates: those of `apply tag` directives
/// and of the metadata of transactions and postings.
pub fn tags(entries: &Vec<LedgerEntry>, query: TagQuery) -> (r: Vec<Tag>)
    ensures
        tags_sorted(r@),
        forall|t: TagView| has_tag(r@, t) <==> exists|i: int| 0 <= i < entries@.len() && entry_gives(query, #[trigger] entries@[i], t),
{
    let mut collected: Vec<Tag> = Vec::new();
    let mut i: usize = 0;
    while i < entries.len()
        invariant
            i <= entries@.len(),
            tags_sorted(collected@),
            forall|t: TagView| has_tag(collected@, t) <==> exists|j: int| 0 <= j < i && entry_gives(query, #[trigger] entries@[j], t),
        decreases entries@.len() - i,
    {
        collect_entry(&mut collected, query, &entries[i]);
        proof {
            assert forall|t: TagView| has_tag(collected@, t) <==> exists|j: int| 0 <= j < i + 1 && entry_gives(query, #[trigger] entries@[j], t) by {
                if entry_gives(query, entries@[i as int], t) {
                }
            }
        }
        i = i + 1;
    }
    collected
}

} // verus!
