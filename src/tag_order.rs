//! The order in which an instance's tags are shown: a `Name` tag first, the
//! others by key, and how an instance is built from the raw parts that the
//! directory lookup returns.
use crate::aws::{tag_views, Instance, Tag, TagView};
use crate::text::copy_string;
use vstd::prelude::*;
use vstd::seq_lib::to_multiset_insert;

verus! {

pub open spec fn is_name_key(k: Seq<char>) -> bool {
    k == seq!['N', 'a', 'm', 'e']
}

/// Lexicographic order on character sequences, by code point.
pub open spec fn chars_le(a: Seq<char>, b: Seq<char>) -> bool
    decreases a.len(),
{
    if a.len() == 0 {
        true
    } else if b.len() == 0 {
        false
    } else if (a[0] as u32) < (b[0] as u32) {
        true
    } else if (a[0] as u32) == (b[0] as u32) {
        chars_le(a.drop_first(), b.drop_first())
    } else {
        false
    }
}

/// Whether a tag with key `a` may be shown before one with key `b`: `Name`
/// comes first, and the other keys follow in lexicographic order.
pub open spec fn key_order(a: Seq<char>, b: Seq<char>) -> bool {
    if is_name_key(a) {
        true
    } else if is_name_key(b) {
        false
    } else {
        chars_le(a, b)
    }
}

/// The tags are in display order.
pub open spec fn tags_in_order(tags: Seq<TagView>) -> bool {
    forall|i: int, j: int| 0 <= i < j < tags.len() ==> key_order(#[trigger] tags[i].0, #[trigger] tags[j].0)
}

/// The tags among raw key/value pairs that have both a key and a value, in
/// their order.
pub open spec fn complete_tags(raw: Seq<(Option<String>, Option<String>)>) -> Seq<TagView>
    decreases raw.len(),
{
    if raw.len() == 0 {
        Seq::empty()
    } else {
        let prev = complete_tags(raw.drop_last());
        match raw.last() {
            (Some(k), Some(v)) => prev.push((k@, v@)),
            _ => prev,
        }
    }
}

proof fn lemma_chars_le_total(a: Seq<char>, b: Seq<char>)
    ensures
        chars_le(a, b) || chars_le(b, a),
    decreases a.len(),
{
    if a.len() > 0 && b.len() > 0 && (a[0] as u32) == (b[0] as u32) {
        lemma_chars_le_total(a.drop_first(), b.drop_first());
    }
}

proof fn lemma_chars_le_trans(a: Seq<char>, b: Seq<char>, c: Seq<char>)
    requires
        chars_le(a, b),
        chars_le(b, c),
    ensures
        chars_le(a, c),
    decreases a.len(),
{
    if a.len() > 0 && b.len() > 0 && c.len() > 0 && (a[0] as u32) == (b[0] as u32) && (b[0] as u32)
        == (c[0] as u32) {
        lemma_chars_le_trans(a.drop_first(), b.drop_first(), c.drop_first());
    }
}

proof fn lemma_key_order_total(a: Seq<char>, b: Seq<char>)
    ensures
        key_order(a, b) || key_order(b, a),
{
    lemma_chars_le_total(a, b);
}

proof fn lemma_key_order_trans(a: Seq<char>, b: Seq<char>, c: Seq<char>)
    requires
        key_order(a, b),
        key_order(b, c),
    ensures
        key_order(a, c),
{
    if !is_name_key(a) && !is_name_key(b) && !is_name_key(c) {
        lemma_chars_le_trans(a, b, c);
    }
}

fn is_name(s: &str) -> (r: bool)
    ensures
        r == is_name_key(s@),
{
    if s.unicode_len() != 4 {
        return false;
    }
    let r = s.get_char(0) == 'N' && s.get_char(1) == 'a' && s.get_char(2) == 'm' && s.get_char(3)
        == 'e';
    if r {
        assert(s@ =~= seq!['N', 'a', 'm', 'e']);
    }
    r
}

fn lexicographic_le(a: &str, b: &str) -> (r: bool)
    ensures
        r == chars_le(a@, b@),
{
    let alen = a.unicode_len();
    let blen = b.unicode_len();
    let mut i: usize = 0;
    assert(a@.skip(0) =~= a@ && b@.skip(0) =~= b@);
    while i < alen
        invariant
            i <= alen,
            alen == a@.len(),
            blen == b@.len(),
            i <= blen,
            chars_le(a@, b@) == chars_le(a@.skip(i as int), b@.skip(i as int)),
        decreases alen - i,
    {
        if i == blen {
            return false;
        }
        let ca = a.get_char(i);
        let cb = b.get_char(i);
        assert(a@.skip(i as int)[0] == ca && b@.skip(i as int)[0] == cb);
        if (ca as u32) < (cb as u32) {
            return true;
        }
        if (ca as u32) != (cb as u32) {
            return false;
        }
        assert(a@.skip(i as int).drop_first() =~= a@.skip(i as int + 1));
        assert(b@.skip(i as int).drop_first() =~= b@.skip(i as int + 1));
        i = i + 1;
    }
    assert(a@.skip(i as int).len() == 0);
    true
}

/// Whether a tag keyed `a` may be shown before one keyed `b`.
pub fn key_precedes(a: &str, b: &str) -> (r: bool)
    ensures
        r == key_order(a@, b@),
{
    if is_name(a) {
        true
    } else if is_name(b) {
        false
    } else {
        lexicographic_le(a, b)
    }
}

/// The tags in display order: a `Name` tag first, the rest by key.
pub fn sort_tags(tags: Vec<Tag>) -> (r: Vec<Tag>)
    ensures
        tags_in_order(tag_views(r@)),
        tag_views(r@).to_multiset() == tag_views(tags@).to_multiset(),
{
    let mut out: Vec<Tag> = Vec::new();
    let mut i: usize = 0;
    assert(tag_views(out@) =~= tag_views(tags@.take(0)));
    while i < tags.len()
        invariant
            i <= tags@.len(),
            tags_in_order(tag_views(out@)),
            tag_views(out@).to_multiset() == tag_views(tags@.take(i as int)).to_multiset(),
        decreases tags@.len() - i,
    {
        let t = tags[i].copy_tag();
        let mut j: usize = 0;
        while j < out.len() && key_precedes(out[j].key.as_str(), t.key.as_str())
            invariant
                j <= out@.len(),
                i < tags@.len(),
                t@ == tags@[i as int]@,
                forall|k: int| 0 <= k < j ==> key_order(#[trigger] out@[k].key@, t.key@),
            decreases out@.len() - j,
        {
            j = j + 1;
        }
        let ghost before = tag_views(out@);
        proof {
            if j < out@.len() {
                assert(!key_order(out@[j as int].key@, t.key@));
                lemma_key_order_total(out@[j as int].key@, t.key@);
            }
        }
        out.insert(j, t);
        proof {
            let after = tag_views(out@);
            assert(after =~= before.insert(j as int, tags@[i as int]@));
            assert forall|a: int, b: int| 0 <= a < b < after.len() implies key_order(
                #[trigger] after[a].0,
                #[trigger] after[b].0,
            ) by {
                if b < j {
                    assert(after[a] == before[a] && after[b] == before[b]);
                    assert(before[a].0 == out@[a].key@);
                } else if b == j {
                    assert(after[a] == before[a]);
                } else if a == j {
                    assert(after[b] == before[b - 1]);
                    if b - 1 > j {
                        lemma_key_order_trans(t.key@, before[j as int].0, before[b - 1].0);
                    }
                } else if a < j {
                    assert(after[a] == before[a] && after[b] == before[b - 1]);
                } else {
                    assert(after[a] == before[a - 1] && after[b] == before[b - 1]);
                }
            }
            to_multiset_insert(before, j as int, tags@[i as int]@);
            assert(tag_views(tags@.take(i as int + 1)) =~= tag_views(tags@.take(i as int)).push(
                tags@[i as int]@,
            ));
            vstd::seq_lib::to_multiset_build(tag_views(tags@.take(i as int)), tags@[i as int]@);
        }
        i = i + 1;
    }
    assert(tags@.take(tags@.len() as int) =~= tags@);
    out
}

/// An instance from the parts that the directory lookup returns: none
/// without an identifier; otherwise the tags that have both a key and a
/// value, in display order.
pub fn build_instance(
    instance_id: Option<String>,
    raw_tags: Vec<(Option<String>, Option<String>)>,
) -> (r: Option<Instance>)
    ensures
        instance_id is None ==> r is None,
        instance_id matches Some(id) ==> r matches Some(inst) && inst.instance_id == id
            && tags_in_order(tag_views(inst.tags@)) && tag_views(inst.tags@).to_multiset()
            == complete_tags(raw_tags@).to_multiset(),
{
    let id = match instance_id {
        Some(id) => id,
        None => return None,
    };
    let mut kept: Vec<Tag> = Vec::new();
    let mut i: usize = 0;
    assert(tag_views(kept@) =~= complete_tags(raw_tags@.take(0)));
    while i < raw_tags.len()
        invariant
            i <= raw_tags@.len(),
            tag_views(kept@) =~= complete_tags(raw_tags@.take(i as int)),
        decreases raw_tags@.len() - i,
    {
        let ghost before = kept@;
        assert(raw_tags@.take(i as int + 1).drop_last() =~= raw_tags@.take(i as int));
        match (&raw_tags[i].0, &raw_tags[i].1) {
            (Some(k), Some(v)) => {
                kept.push(Tag::new(copy_string(k), copy_string(v)));
                assert(tag_views(kept@) =~= tag_views(before).push((k@, v@)));
            },
            _ => {},
        }
        i = i + 1;
    }
    assert(raw_tags@.take(raw_tags@.len() as int) =~= raw_tags@);
    Some(Instance { instance_id: id, tags: sort_tags(kept) })
}

} // verus!
