//! Instances and their tags, how an instance is shown, and the fuzzy search
//! over a list of them.
use crate::matcher::{
    fuzzy_matches, has_ascii_upper, is_subsequence, lemma_case_sensitive_accepted_is_subsequence,
    lemma_empty_query_accepted, lemma_subsequence_accepted, skim_accepts,
};
use crate::text::copy_string;
use vstd::string::StringExecFns;
use vstd::prelude::*;

verus! {

/// A key/value tag of an instance.
#[derive(Debug, Clone)]
pub struct Tag {
    pub key: String,
    pub value: String,
}

/// A selectable instance: its identifier and its tags.
#[derive(Debug, Clone)]
pub struct Instance {
    pub instance_id: String,
    pub tags: Vec<Tag>,
}

/// A tag as two character sequences, key and value.
pub type TagView = (Seq<char>, Seq<char>);

/// An instance as its identifier and its tags.
pub type InstanceView = (Seq<char>, Seq<TagView>);

impl View for Tag {
    type V = TagView;

    open spec fn view(&self) -> TagView {
        (self.key@, self.value@)
    }
}

impl View for Instance {
    type V = InstanceView;

    open spec fn view(&self) -> InstanceView {
        (self.instance_id@, tag_views(self.tags@))
    }
}

pub open spec fn tag_views(s: Seq<Tag>) -> Seq<TagView> {
    s.map_values(|t: Tag| t@)
}

pub open spec fn views_of(s: Seq<Instance>) -> Seq<InstanceView> {
    s.map_values(|i: Instance| i@)
}

/// A record matches a query when its identifier, or the key or the value of
/// one of its tags, does.
pub open spec fn record_matches(r: InstanceView, q: Seq<char>) -> bool {
    skim_accepts(r.0, q) || exists|j: int| 0 <= j < r.1.len() && tag_matches(#[trigger] r.1[j], q)
}

pub open spec fn tag_matches(t: TagView, q: Seq<char>) -> bool {
    skim_accepts(t.0, q) || skim_accepts(t.1, q)
}

/// The records of `s` that match `q`, in their order in `s`.
pub open spec fn matching(s: Seq<InstanceView>, q: Seq<char>) -> Seq<InstanceView>
    decreases s.len(),
{
    if s.len() == 0 {
        Seq::empty()
    } else {
        let prev = matching(s.drop_last(), q);
        if record_matches(s.last(), q) {
            prev.push(s.last())
        } else {
            prev
        }
    }
}

pub open spec fn tag_text(t: TagView) -> Seq<char> {
    t.0 + seq![':', ' '] + t.1
}

/// The tags shown as `key: value`, separated by `, `.
pub open spec fn tags_text(tags: Seq<TagView>) -> Seq<char>
    decreases tags.len(),
{
    if tags.len() == 0 {
        Seq::empty()
    } else if tags.len() == 1 {
        tag_text(tags[0])
    } else {
        tags_text(tags.drop_last()) + seq![',', ' '] + tag_text(tags.last())
    }
}

/// An instance shown as its identifier, a space, and its tags.
pub open spec fn display_text(r: InstanceView) -> Seq<char> {
    r.0 + seq![' '] + tags_text(r.1)
}

impl Tag {
    pub fn new(key: String, value: String) -> (r: Tag)
        ensures
            r@ == (key@, value@),
    {
        Tag { key, value }
    }

    /// A copy of this tag.
    pub fn copy_tag(&self) -> (r: Tag)
        ensures
            r@ == self@,
    {
        Tag { key: copy_string(&self.key), value: copy_string(&self.value) }
    }
}

impl Instance {
    /// The line that shows this instance in a list.
    pub fn display(&self) -> (r: String)
        ensures
            r@ == display_text(self@),
    {
        let mut out = copy_string(&self.instance_id);
        out.append(" ");
        proof {
            reveal_strlit(" ");
            reveal_strlit(", ");
            reveal_strlit(": ");
        }
        let ghost tags = self@.1;
        let ghost head = out@;
        let mut i: usize = 0;
        while i < self.tags.len()
            invariant
                i <= self.tags.len(),
                tags == self@.1,
                tags.len() == self.tags@.len(),
                head == self@.0 + seq![' '],
                out@ == head + tags_text(tags.take(i as int)),
            decreases self.tags.len() - i,
        {
            let ghost before = out@;
            if i > 0 {
                out.append(", ");
            }
            let ghost with_sep = out@;
            out.append(self.tags[i].key.as_str());
            out.append(": ");
            out.append(self.tags[i].value.as_str());
            proof {
                reveal_strlit(", ");
                reveal_strlit(": ");
                assert(", "@ =~= seq![',', ' ']);
                assert(": "@ =~= seq![':', ' ']);
                let t = tags.take(i as int + 1);
                let tv = self.tags@[i as int]@;
                assert(out@ =~= with_sep + tag_text(tv));
                if i > 0 {
                    assert(with_sep =~= before + seq![',', ' ']);
                } else {
                    assert(with_sep =~= before);
                }
                assert(t.drop_last() =~= tags.take(i as int));
                assert(t.last() == self.tags@[i as int]@);
                if i == 0 {
                    assert(tags.take(0) =~= Seq::<TagView>::empty());
                    assert(tags_text(t) == tag_text(t[0]));
                } else {
                    assert(tags_text(t) == tags_text(t.drop_last()) + seq![',', ' '] + tag_text(
                        t.last(),
                    ));
                }
                assert(out@ =~= head + tags_text(t));
            }
            i = i + 1;
        }
        assert(tags.take(self.tags.len() as int) =~= tags);
        out
    }

    /// A copy of this instance, field for field.
    pub fn copy_instance(&self) -> (r: Instance)
        ensures
            r@ == self@,
    {
        let mut tags: Vec<Tag> = Vec::new();
        let mut i: usize = 0;
        while i < self.tags.len()
            invariant
                i <= self.tags.len(),
                tag_views(tags@) =~= tag_views(self.tags@.take(i as int)),
            decreases self.tags.len() - i,
        {
            let ghost prev = tags@;
            tags.push(self.tags[i].copy_tag());
            assert(tags@ == prev.push(tags@.last()));
            assert(tag_views(tags@) =~= tag_views(prev).push(self.tags@[i as int]@));
            assert(self.tags@.take(i as int + 1) =~= self.tags@.take(i as int).push(
                self.tags@[i as int],
            ));
            i = i + 1;
        }
        assert(self.tags@.take(self.tags.len() as int) =~= self.tags@);
        Instance { instance_id: copy_string(&self.instance_id), tags }
    }

    /// Whether `search_term` matches this instance's identifier or one of its
    /// tag keys or values.
    pub fn matches(&self, search_term: &str) -> (r: bool)
        ensures
            r == record_matches(self@, search_term@),
    {
        if fuzzy_matches(self.instance_id.as_str(), search_term) {
            return true;
        }
        let mut i: usize = 0;
        while i < self.tags.len()
            invariant
                i <= self.tags.len(),
                self@.1.len() == self.tags@.len(),
                !skim_accepts(self@.0, search_term@),
                forall|j: int| 0 <= j < i ==> !tag_matches(#[trigger] self@.1[j], search_term@),
            decreases self.tags.len() - i,
        {
            assert(self@.1[i as int] == self.tags@[i as int]@);
            if fuzzy_matches(self.tags[i].key.as_str(), search_term) || fuzzy_matches(
                self.tags[i].value.as_str(),
                search_term,
            ) {
                assert(tag_matches(self@.1[i as int], search_term@));
                return true;
            }
            i = i + 1;
        }
        false
    }
}

/// The instances that match `search_term`, as copies, in their given order.
pub fn fuzzy_search_instances(instances: &[Instance], search_term: &str) -> (r: Vec<Instance>)
    ensures
        views_of(r@) == matching(views_of(instances@), search_term@),
{
    let mut matched: Vec<Instance> = Vec::new();
    let ghost all = views_of(instances@);
    let mut i: usize = 0;
    while i < instances.len()
        invariant
            i <= instances@.len(),
            all == views_of(instances@),
            views_of(matched@) == matching(all.take(i as int), search_term@),
        decreases instances@.len() - i,
    {
        let ghost before = matched@;
        if instances[i].matches(search_term) {
            matched.push(instances[i].copy_instance());
            assert(views_of(matched@) =~= views_of(before).push(instances@[i as int]@));
        }
        assert(all.take(i as int + 1).drop_last() =~= all.take(i as int));
        i = i + 1;
    }
    assert(all.take(instances@.len() as int) =~= all);
    matched
}

/// With the empty query every record matches, so the search keeps the whole
/// list in its order.
pub proof fn lemma_empty_query_keeps_all(s: Seq<InstanceView>)
    ensures
        matching(s, Seq::empty()) == s,
    decreases s.len(),
{
    if s.len() > 0 {
        lemma_empty_query_keeps_all(s.drop_last());
        lemma_empty_query_accepted(s.last().0);
        assert(s.drop_last().push(s.last()) =~= s);
    }
}

/// The search keeps exactly the records that match: each one kept matches
/// and comes from the list, and each record of the list that matches is kept.
pub proof fn lemma_matching_exact(s: Seq<InstanceView>, q: Seq<char>)
    ensures
        forall|r: InstanceView| #[trigger] matching(s, q).contains(r) <==> s.contains(r) && record_matches(r, q),
    decreases s.len(),
{
    if s.len() > 0 {
        lemma_matching_exact(s.drop_last(), q);
        assert forall|r: InstanceView| #[trigger] matching(s, q).contains(r) <==> s.contains(r)
            && record_matches(r, q) by {
            if s.contains(r) && r != s.last() {
                let k = choose|k: int| 0 <= k < s.len() && s[k] == r;
                assert(s.drop_last()[k] == r);
            }
            if s.drop_last().contains(r) {
                let k = choose|k: int| 0 <= k < s.drop_last().len() && s.drop_last()[k] == r;
                assert(s[k] == r);
            }
            if record_matches(s.last(), q) {
                let prev = matching(s.drop_last(), q);
                if prev.contains(r) {
                    let k = choose|k: int| 0 <= k < prev.len() && prev[k] == r;
                    assert(prev.push(s.last())[k] == r);
                }
                if r == s.last() {
                    assert(prev.push(s.last())[prev.len() as int] == r);
                }
                if prev.push(s.last()).contains(r) && r != s.last() {
                    let k = choose|k: int| 0 <= k < prev.len() + 1 && prev.push(s.last())[k] == r;
                    assert(prev[k] == r);
                }
            }
            if r == s.last() {
                assert(s[s.len() - 1] == r);
            }
        }
    }
}

pub open spec fn tag_holds_subsequence(t: TagView, q: Seq<char>) -> bool {
    is_subsequence(q, t.0) || is_subsequence(q, t.1)
}

/// A record whose identifier, or a tag key or value of which, holds the
/// query as an ordered subsequence, contiguous or not, is kept by the search.
pub proof fn lemma_subsequence_kept(s: Seq<InstanceView>, q: Seq<char>, r: InstanceView)
    requires
        s.contains(r),
        is_subsequence(q, r.0) || exists|j: int|
            0 <= j < r.1.len() && tag_holds_subsequence(#[trigger] r.1[j], q),
    ensures
        matching(s, q).contains(r),
{
    lemma_matching_exact(s, q);
    if is_subsequence(q, r.0) {
        lemma_subsequence_accepted(r.0, q);
    } else {
        let j = choose|j: int| 0 <= j < r.1.len() && tag_holds_subsequence(#[trigger] r.1[j], q);
        let t = r.1[j];
        assert(is_subsequence(q, t.0) || is_subsequence(q, t.1));
        if is_subsequence(q, t.0) {
            lemma_subsequence_accepted(t.0, q);
        } else {
            lemma_subsequence_accepted(t.1, q);
        }
        assert(tag_matches(r.1[j], q));
    }
}

/// Under case-sensitive matching (a query with an ASCII capital letter), a
/// record that the search keeps holds the query as an ordered subsequence of
/// its identifier or of a tag key or value.
pub proof fn lemma_kept_holds_subsequence(s: Seq<InstanceView>, q: Seq<char>, r: InstanceView)
    requires
        has_ascii_upper(q),
        matching(s, q).contains(r),
    ensures
        s.contains(r),
        is_subsequence(q, r.0) || exists|j: int|
            0 <= j < r.1.len() && tag_holds_subsequence(#[trigger] r.1[j], q),
{
    lemma_matching_exact(s, q);
    if skim_accepts(r.0, q) {
        lemma_case_sensitive_accepted_is_subsequence(r.0, q);
    } else {
        let j = choose|j: int| 0 <= j < r.1.len() && tag_matches(#[trigger] r.1[j], q);
        let t = r.1[j];
        if skim_accepts(t.0, q) {
            lemma_case_sensitive_accepted_is_subsequence(t.0, q);
        } else {
            lemma_case_sensitive_accepted_is_subsequence(t.1, q);
        }
        assert(tag_holds_subsequence(r.1[j], q));
    }
}

} // verus!
