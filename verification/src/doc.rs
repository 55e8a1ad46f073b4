//! A generic structured-document value: the shape the configuration schema
//! is validated against.
//!
//! A document is a table of named values; a value is a string, a boolean, a
//! nested table, or some other scalar the schema has no use for (a number, a
//! date, an array), kept only so that its presence can be rejected.  Tables
//! keep their entries in document order; a key is looked up at its first
//! occurrence.

use vstd::prelude::*;

verus! {

/// Mathematical model of a document value.
#[verifier::ext_equal]
pub ghost enum DocNode {
    Str(Seq<char>),
    Bool(bool),
    Table(Seq<(Seq<char>, DocNode)>),
    Other,
}

/// A structured-document value.
#[derive(Debug)]
pub enum DocValue {
    /// A string scalar.
    Str(String),
    /// A boolean scalar.
    Bool(bool),
    /// A table of named values, in document order.
    Table(Vec<(String, DocValue)>),
    /// Any other scalar: present only to be rejected by a schema.
    Other,
}

/// Model of a document value.
pub open spec fn doc_view(d: DocValue) -> DocNode
    decreases d,
{
    match d {
        DocValue::Str(s) => DocNode::Str(s@),
        DocValue::Bool(b) => DocNode::Bool(b),
        DocValue::Table(entries) => DocNode::Table(entries_view(entries@)),
        DocValue::Other => DocNode::Other,
    }
}

/// Model of a table's entries, in order.
pub open spec fn entries_view(entries: Seq<(String, DocValue)>) -> Seq<(Seq<char>, DocNode)>
    decreases entries,
{
    if entries.len() == 0 {
        Seq::<(Seq<char>, DocNode)>::empty()
    } else {
        entries_view(entries.drop_last()).push(
            (entries.last().0@, doc_view(entries.last().1)),
        )
    }
}

/// Each modelled entry is the model of the entry at its index.
pub proof fn lemma_entries_view(entries: Seq<(String, DocValue)>)
    ensures
        entries_view(entries).len() == entries.len(),
        forall|i: int| 0 <= i < entries.len() ==> #[trigger] entries_view(entries)[i] == (
        entries[i].0@, doc_view(entries[i].1)),
    decreases entries.len(),
{
    if entries.len() > 0 {
        lemma_entries_view(entries.drop_last());
    }
}

impl View for DocValue {
    type V = DocNode;

    open spec fn view(&self) -> DocNode {
        doc_view(*self)
    }
}

// ---------------------------------------------------------------------------
// Looking up keys in a table
// ---------------------------------------------------------------------------

/// Index of the first entry at or after `i` whose key is `k`, or the
/// table's length when there is none.
pub open spec fn key_index_from(t: Seq<(Seq<char>, DocNode)>, k: Seq<char>, i: int) -> int
    decreases t.len() - i,
{
    if i < 0 || i >= t.len() {
        t.len() as int
    } else if t[i].0 == k {
        i
    } else {
        key_index_from(t, k, i + 1)
    }
}

/// Index of the first entry whose key is `k`, or the table's length.
pub open spec fn tbl_key_index(t: Seq<(Seq<char>, DocNode)>, k: Seq<char>) -> int {
    key_index_from(t, k, 0)
}

/// Whether some entry has the key `k`.
pub open spec fn tbl_has(t: Seq<(Seq<char>, DocNode)>, k: Seq<char>) -> bool {
    tbl_key_index(t, k) < t.len()
}

/// Value of the first entry with key `k`.
pub open spec fn tbl_get(t: Seq<(Seq<char>, DocNode)>, k: Seq<char>) -> DocNode {
    t[tbl_key_index(t, k)].1
}

// ---------------------------------------------------------------------------
// The first key outside an allowed set
// ---------------------------------------------------------------------------

/// The first key at or after `i` that is not in `allowed`, if any.
pub open spec fn unknown_key_from(
    t: Seq<(Seq<char>, DocNode)>,
    allowed: Set<Seq<char>>,
    i: int,
) -> Option<Seq<char>>
    decreases t.len() - i,
{
    if i < 0 || i >= t.len() {
        Option::None
    } else if !allowed.contains(t[i].0) {
        Option::Some(t[i].0)
    } else {
        unknown_key_from(t, allowed, i + 1)
    }
}

/// The first key of the table that is not in `allowed`, if any.
pub open spec fn first_unknown_key(
    t: Seq<(Seq<char>, DocNode)>,
    allowed: Set<Seq<char>>,
) -> Option<Seq<char>> {
    unknown_key_from(t, allowed, 0)
}

/// When no key is unknown, every key is in the allowed set.
pub proof fn lemma_no_unknown_key(t: Seq<(Seq<char>, DocNode)>, allowed: Set<Seq<char>>, i: int)
    requires
        0 <= i <= t.len(),
        unknown_key_from(t, allowed, i) is None,
    ensures
        forall|j: int| i <= j < t.len() ==> allowed.contains((#[trigger] t[j]).0),
    decreases t.len() - i,
{
    if i < t.len() {
        lemma_no_unknown_key(t, allowed, i + 1);
    }
}

// ---------------------------------------------------------------------------
// Executable lookup
// ---------------------------------------------------------------------------

/// Value of the first entry with the given key, if any.
pub fn tbl_find<'a>(entries: &'a Vec<(String, DocValue)>, key: &String) -> (r: Option<
    &'a DocValue,
>)
    ensures
        match r {
            Option::Some(v) => {
                &&& tbl_has(entries_view(entries@), key@)
                &&& v@ == tbl_get(entries_view(entries@), key@)
            },
            Option::None => !tbl_has(entries_view(entries@), key@),
        },
{
    let ghost t = entries_view(entries@);
    proof {
        lemma_entries_view(entries@);
    }
    let mut i: usize = 0;
    while i < entries.len()
        invariant
            0 <= i <= entries.len(),
            t == entries_view(entries@),
            t.len() == entries@.len(),
            forall|j: int| 0 <= j < entries@.len() ==> #[trigger] t[j] == (entries@[j].0@,
            doc_view(entries@[j].1)),
            key_index_from(t, key@, 0) == key_index_from(t, key@, i as int),
        decreases entries.len() - i,
    {
        if entries[i].0 == *key {
            proof {
                assert(t[i as int].0 == key@);
                assert(key_index_from(t, key@, i as int) == i);
            }
            return Option::Some(&entries[i].1);
        }
        proof {
            assert(t[i as int].0 != key@);
        }
        i = i + 1;
    }
    Option::None
}

// ---------------------------------------------------------------------------
// What the TOML encoder accepts
// ---------------------------------------------------------------------------

/// Every entry of the table is a string or boolean scalar.
pub open spec fn scalar_entries_only(t: Seq<(Seq<char>, DocNode)>) -> bool {
    forall|i: int| 0 <= i < t.len() ==> ((#[trigger] t[i]).1 is Str || t[i].1 is Bool)
}

/// A document of sections: a table whose values are tables of string and
/// boolean scalars.  This is the shape the schema serializes, and the shape
/// the TOML encoder is relied on to accept.
pub open spec fn doc_encodable(d: DocNode) -> bool {
    match d {
        DocNode::Table(t) => forall|i: int| 0 <= i < t.len() ==> ((#[trigger] t[i]).1 matches
            DocNode::Table(inner) && scalar_entries_only(inner)),
        _ => false,
    }
}

} // verus!
