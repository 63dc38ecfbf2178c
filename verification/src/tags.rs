//! Per-request context tags: an ordered key/value mapping for indexed,
//! low-cardinality tags, plus a second mapping for free-form values, with
//! a right-biased merge.

use vstd::prelude::*;
use vstd::string::StringExecFns;

verus! {

/// No two entries share a key.
pub open spec fn keys_unique(s: Seq<(String, String)>) -> bool {
    forall|i: int, j: int| 0 <= i < j < s.len() ==> s[i].0@ != s[j].0@
}

/// The mapping an entry list denotes: later entries win, though under
/// `keys_unique` every key occurs once.
pub open spec fn entries_map(s: Seq<(String, String)>) -> Map<Seq<char>, Seq<char>>
    decreases s.len(),
{
    if s.len() == 0 {
        Map::empty()
    } else {
        entries_map(s.drop_last()).insert(s.last().0@, s.last().1@)
    }
}

proof fn lemma_entries_map_dom(s: Seq<(String, String)>, k: Seq<char>)
    ensures
        entries_map(s).dom().contains(k) <==> exists|i: int| 0 <= i < s.len() && s[i].0@ == k,
    decreases s.len(),
{
    if s.len() > 0 {
        lemma_entries_map_dom(s.drop_last(), k);
        if s.last().0@ == k {
            assert(s[s.len() - 1].0@ == k);
        } else {
            if exists|i: int| 0 <= i < s.len() && s[i].0@ == k {
                let i = choose|i: int| 0 <= i < s.len() && s[i].0@ == k;
                assert(s.drop_last()[i] == s[i]);
            }
            if exists|i: int| 0 <= i < s.drop_last().len() && s.drop_last()[i].0@ == k {
                let i = choose|i: int| 0 <= i < s.drop_last().len() && s.drop_last()[i].0@ == k;
                assert(s[i] == s.drop_last()[i]);
            }
        }
    }
}

proof fn lemma_entries_map_index(s: Seq<(String, String)>, i: int)
    requires
        keys_unique(s),
        0 <= i < s.len(),
    ensures
        entries_map(s).dom().contains(s[i].0@),
        entries_map(s)[s[i].0@] == s[i].1@,
    decreases s.len(),
{
    if i < s.len() - 1 {
        assert(keys_unique(s.drop_last())) by {
            assert forall|p: int, q: int| 0 <= p < q < s.drop_last().len() implies s.drop_last()[
                p
            ].0@ != s.drop_last()[q].0@ by {
                assert(s.drop_last()[p] == s[p]);
                assert(s.drop_last()[q] == s[q]);
            }
        }
        lemma_entries_map_index(s.drop_last(), i);
        assert(s.drop_last()[i] == s[i]);
        assert(s[i].0@ != s.last().0@);
    }
}

/// The indexed or the free-form half of a request's tags: an ordered
/// list of key/value pairs in which every key occurs at most once,
/// denoting a finite string-to-string mapping.
pub struct TagMap {
    entries: Vec<(String, String)>,
}

impl View for TagMap {
    type V = Map<Seq<char>, Seq<char>>;

    closed spec fn view(&self) -> Map<Seq<char>, Seq<char>> {
        entries_map(self.entries@)
    }
}

impl TagMap {
    /// The key-uniqueness invariant every operation preserves.
    pub closed spec fn wf(&self) -> bool {
        keys_unique(self.entries@)
    }

    pub fn new() -> (r: TagMap)
        ensures
            r.wf(),
            r@ == Map::<Seq<char>, Seq<char>>::empty(),
    {
        TagMap { entries: Vec::new() }
    }

    /// The index of the entry holding `key`, if any.
    fn find(&self, key: &String) -> (r: Option<usize>)
        ensures
            match r {
                Some(i) => i < self.entries@.len() && self.entries@[i as int].0@ == key@,
                None => forall|i: int| 0 <= i < self.entries@.len() ==> self.entries@[i].0@ != key@,
            },
    {
        let n = self.entries.len();
        let mut idx: usize = 0;
        while idx < n
            invariant
                idx <= n,
                n == self.entries@.len(),
                forall|i: int| 0 <= i < idx ==> self.entries@[i].0@ != key@,
            decreases n - idx,
        {
            if self.entries[idx].0 == *key {
                return Some(idx);
            }
            idx += 1;
        }
        None
    }

    /// Look a key up.
    pub fn get(&self, key: &String) -> (r: Option<&String>)
        requires
            self.wf(),
        ensures
            match r {
                Some(v) => self@.dom().contains(key@) && self@[key@] == v@,
                None => !self@.dom().contains(key@),
            },
    {
        match self.find(key) {
            Some(i) => {
                proof {
                    lemma_entries_map_index(self.entries@, i as int);
                }
                Some(&self.entries[i].1)
            },
            None => {
                proof {
                    lemma_entries_map_dom(self.entries@, key@);
                }
                None
            },
        }
    }

    /// Bind `key` to `value`, overwriting any earlier binding.
    pub fn insert(&mut self, key: String, value: String)
        requires
            old(self).wf(),
        ensures
            final(self).wf(),
            final(self)@ == old(self)@.insert(key@, value@),
    {
        let found = self.find(&key);
        let ghost s0 = self.entries@;
        match found {
            Some(i) => {
                self.entries.remove(i);
                let ghost s1 = self.entries@;
                self.entries.push((key, value));
                proof {
                    lemma_tagmap_insert_found(s0, s1, self.entries@, i as int, key@, value@);
                }
            },
            None => {
                self.entries.push((key, value));
                proof {
                    assert(self.entries@.drop_last() =~= s0);
                    assert(entries_map(self.entries@) == entries_map(s0).insert(key@, value@));
                    assert forall|p: int, q: int|
                        0 <= p < q < self.entries@.len() implies self.entries@[p].0@
                        != self.entries@[q].0@ by {
                        if q < self.entries@.len() - 1 {
                            assert(self.entries@[p] == s0[p]);
                            assert(self.entries@[q] == s0[q]);
                        } else {
                            assert(self.entries@[p] == s0[p]);
                        }
                    }
                }
            },
        }
    }

    /// A copy with the same contents.
    pub fn duplicate(&self) -> (r: TagMap)
        requires
            self.wf(),
        ensures
            r.wf(),
            r@ == self@,
    {
        let n = self.entries.len();
        let mut out: Vec<(String, String)> = Vec::new();
        let mut idx: usize = 0;
        while idx < n
            invariant
                idx <= n,
                n == self.entries@.len(),
                out@ =~= self.entries@.subrange(0, idx as int),
            decreases n - idx,
        {
            let k = self.entries[idx].0.clone();
            let v = self.entries[idx].1.clone();
            out.push((k, v));
            proof {
                assert(out@ =~= self.entries@.subrange(0, idx + 1));
            }
            idx += 1;
        }
        proof {
            assert(out@ =~= self.entries@);
        }
        TagMap { entries: out }
    }

    /// Right-biased union: a key bound in `overrides` takes its value
    /// from there; a key bound only in `self` keeps its value.
    pub fn merge(&self, overrides: &TagMap) -> (r: TagMap)
        requires
            self.wf(),
            overrides.wf(),
        ensures
            r.wf(),
            r@ == self@.union_prefer_right(overrides@),
            forall|k: Seq<char>| overrides@.dom().contains(k) ==> r@.dom().contains(k) && r@[k]
                == overrides@[k],
            forall|k: Seq<char>|
                self@.dom().contains(k) && !overrides@.dom().contains(k) ==> r@.dom().contains(k)
                    && r@[k] == self@[k],
            forall|k: Seq<char>|
                r@.dom().contains(k) ==> self@.dom().contains(k) || overrides@.dom().contains(k),
    {
        let mut r = self.duplicate();
        let n = overrides.entries.len();
        let mut idx: usize = 0;
        while idx < n
            invariant
                idx <= n,
                n == overrides.entries@.len(),
                overrides.wf(),
                r.wf(),
                r@ == self@.union_prefer_right(
                    entries_map(overrides.entries@.subrange(0, idx as int)),
                ),
            decreases n - idx,
        {
            let k = overrides.entries[idx].0.clone();
            let v = overrides.entries[idx].1.clone();
            proof {
                assert(overrides.entries@.subrange(0, idx + 1).drop_last() =~= overrides.entries@
                    .subrange(0, idx as int));
                assert(entries_map(overrides.entries@.subrange(0, idx + 1)) == entries_map(
                    overrides.entries@.subrange(0, idx as int),
                ).insert(overrides.entries@[idx as int].0@, overrides.entries@[idx as int].1@));
            }
            r.insert(k, v);
            proof {
                assert(r@ =~= self@.union_prefer_right(
                    entries_map(overrides.entries@.subrange(0, idx + 1)),
                ));
            }
            idx += 1;
        }
        proof {
            assert(overrides.entries@.subrange(0, n as int) =~= overrides.entries@);
            assert(r@ == self@.union_prefer_right(overrides@));
        }
        r
    }

    /// The entry list itself, for callers outside the verified core that
    /// hand the tags to a sink client.
    pub fn pairs(&self) -> (r: &Vec<(String, String)>)
        ensures
            entries_map(r@) == self@,
            keys_unique(r@) == self.wf(),
    {
        &self.entries
    }
}

/// Replacing the entry at `i` by a same-keyed pair pushed at the end
/// keeps the keys unique and updates the denoted mapping in place.
proof fn lemma_tagmap_insert_found(
    s0: Seq<(String, String)>,
    s1: Seq<(String, String)>,
    s2: Seq<(String, String)>,
    i: int,
    k: Seq<char>,
    v: Seq<char>,
)
    requires
        keys_unique(s0),
        0 <= i < s0.len(),
        s0[i].0@ == k,
        s1 == s0.remove(i),
        s2.len() == s1.len() + 1,
        s2.drop_last() =~= s1,
        s2.last().0@ == k,
        s2.last().1@ == v,
    ensures
        keys_unique(s2),
        entries_map(s2) == entries_map(s0).insert(k, v),
{
    assert(keys_unique(s1)) by {
        assert forall|p: int, q: int| 0 <= p < q < s1.len() implies s1[p].0@ != s1[q].0@ by {
            assert(s1[p] == if p < i {
                s0[p]
            } else {
                s0[p + 1]
            });
            assert(s1[q] == if q < i {
                s0[q]
            } else {
                s0[q + 1]
            });
        }
    }
    assert(forall|j: int| 0 <= j < s1.len() ==> s1[j].0@ != k) by {
        assert forall|j: int| 0 <= j < s1.len() implies s1[j].0@ != k by {
            assert(s1[j] == if j < i {
                s0[j]
            } else {
                s0[j + 1]
            });
        }
    }
    assert(keys_unique(s2)) by {
        assert forall|p: int, q: int| 0 <= p < q < s2.len() implies s2[p].0@ != s2[q].0@ by {
            if q < s2.len() - 1 {
                assert(s2[p] == s1[p]);
                assert(s2[q] == s1[q]);
            } else {
                assert(s2[p] == s1[p]);
            }
        }
    }
    lemma_entries_map_remove(s0, i);
    assert(entries_map(s2) == entries_map(s1).insert(k, v));
    assert(entries_map(s2) =~= entries_map(s0).insert(k, v));
}

/// What the framework hands the middleware about an inbound request:
/// the plain values the tags are built from.
pub struct RequestHead {
    pub method: String,
    pub path: String,
    pub user_agent: Option<String>,
}

/// The base tags a request head yields: its method, its path, and the
/// user agent when that allowlisted header is present.
pub open spec fn spec_request_tags(head: RequestHead) -> Map<Seq<char>, Seq<char>> {
    let base = Map::<Seq<char>, Seq<char>>::empty().insert("uri.method"@, head.method@).insert(
        "uri.path"@,
        head.path@,
    );
    match head.user_agent {
        Some(ua) => base.insert("user_agent"@, ua@),
        None => base,
    }
}

/// A request's context tags: the indexed `tags` mapping and the
/// free-form, unindexed `extra` mapping. One instance exists per
/// in-flight request.
pub struct Tags {
    pub tags: TagMap,
    pub extra: TagMap,
}

impl Tags {
    pub open spec fn wf(&self) -> bool {
        self.tags.wf() && self.extra.wf()
    }

    /// Build the base tags from request metadata: method, path, and the
    /// allowlisted user-agent header; the extra mapping starts empty.
    /// Pure: no I/O, total over every head.
    pub fn from_request_head(head: &RequestHead) -> (r: Tags)
        ensures
            r.wf(),
            r.tags@ == spec_request_tags(*head),
            r.extra@ == Map::<Seq<char>, Seq<char>>::empty(),
    {
        let mut tags = TagMap::new();
        tags.insert(String::from_str("uri.method"), head.method.clone());
        tags.insert(String::from_str("uri.path"), head.path.clone());
        match &head.user_agent {
            Some(ua) => {
                tags.insert(String::from_str("user_agent"), ua.clone());
            },
            None => {},
        }
        Tags { tags, extra: TagMap::new() }
    }

    /// Key-wise right-biased union of both mappings: a key bound in
    /// `overrides` wins, a key bound only in `self` remains.
    pub fn merge(&self, overrides: &Tags) -> (r: Tags)
        requires
            self.wf(),
            overrides.wf(),
        ensures
            r.wf(),
            r.tags@ == self.tags@.union_prefer_right(overrides.tags@),
            r.extra@ == self.extra@.union_prefer_right(overrides.extra@),
    {
        Tags { tags: self.tags.merge(&overrides.tags), extra: self.extra.merge(&overrides.extra) }
    }

    /// A copy with the same contents.
    pub fn duplicate(&self) -> (r: Tags)
        requires
            self.wf(),
        ensures
            r.wf(),
            r.tags@ == self.tags@,
            r.extra@ == self.extra@,
    {
        Tags { tags: self.tags.duplicate(), extra: self.extra.duplicate() }
    }

    /// The indexed mapping, as handed to the external sink.
    pub fn to_report_tags(&self) -> (r: TagMap)
        requires
            self.wf(),
        ensures
            r.wf(),
            r@ == self.tags@,
    {
        self.tags.duplicate()
    }

    /// The unindexed mapping, as handed to the external sink.
    pub fn to_report_extra(&self) -> (r: TagMap)
        requires
            self.wf(),
        ensures
            r.wf(),
            r@ == self.extra@,
    {
        self.extra.duplicate()
    }
}

/// Removing the entry at `i` removes exactly its key from the denoted
/// mapping, when keys are unique.
proof fn lemma_entries_map_remove(s: Seq<(String, String)>, i: int)
    requires
        keys_unique(s),
        0 <= i < s.len(),
    ensures
        entries_map(s.remove(i)) =~= entries_map(s).remove(s[i].0@),
    decreases s.len(),
{
    if i == s.len() - 1 {
        assert(s.remove(i) =~= s.drop_last());
        lemma_entries_map_dom(s.drop_last(), s[i].0@);
        assert forall|j: int| 0 <= j < s.drop_last().len() implies s.drop_last()[j].0@
            != s[i].0@ by {
            assert(s.drop_last()[j] == s[j]);
        }
        assert(!entries_map(s.drop_last()).dom().contains(s[i].0@));
        assert(entries_map(s.remove(i)) =~= entries_map(s).remove(s[i].0@));
    } else {
        assert(keys_unique(s.drop_last())) by {
            assert forall|p: int, q: int| 0 <= p < q < s.drop_last().len() implies s.drop_last()[
                p
            ].0@ != s.drop_last()[q].0@ by {
                assert(s.drop_last()[p] == s[p]);
                assert(s.drop_last()[q] == s[q]);
            }
        }
        lemma_entries_map_remove(s.drop_last(), i);
        assert(s.remove(i).drop_last() =~= s.drop_last().remove(i));
        assert(s.remove(i).last() == s.last());
        assert(s[i].0@ != s.last().0@);
        assert(entries_map(s.remove(i)) == entries_map(s.drop_last().remove(i)).insert(
            s.last().0@,
            s.last().1@,
        ));
        assert(entries_map(s.remove(i)) =~= entries_map(s).remove(s[i].0@));
    }
}

} // verus!
