//! What the installer knows of each release beyond its tag, keyed by tag.

use vstd::prelude::*;

use crate::app::{FetchStatus, TagMeta};
use crate::disk::opt_view;
use crate::text;

verus! {

/// What is known of one release, by the characters of its strings.
pub struct MetaModel {
    pub created: Option<Seq<char>>,
    pub status: FetchStatus,
}

pub open spec fn meta_model(m: TagMeta) -> MetaModel {
    MetaModel { created: opt_view(m.created), status: m.status }
}

/// The map that a list of entries stands for; a later entry wins.
pub open spec fn map_of(s: Seq<(String, TagMeta)>) -> Map<Seq<char>, MetaModel>
    decreases s.len(),
{
    if s.len() == 0 {
        Map::empty()
    } else {
        map_of(s.drop_last()).insert(s.last().0@, meta_model(s.last().1))
    }
}

/// No tag occurs twice.
pub open spec fn distinct_keys(s: Seq<(String, TagMeta)>) -> bool {
    forall|i: int, j: int| 0 <= i < j < s.len() ==> (#[trigger] s[i]).0@ != (#[trigger] s[j]).0@
}

proof fn lemma_map_of_contains(s: Seq<(String, TagMeta)>, k: Seq<char>)
    ensures
        map_of(s).contains_key(k) <==> exists|i: int| 0 <= i < s.len() && (#[trigger] s[i]).0@ == k,
    decreases s.len(),
{
    if s.len() > 0 {
        let t = s.drop_last();
        lemma_map_of_contains(t, k);
        if map_of(s).contains_key(k) {
            if s.last().0@ != k {
                let i = choose|i: int| 0 <= i < t.len() && (#[trigger] t[i]).0@ == k;
                assert(s[i] == t[i]);
            }
        }
        if exists|i: int| 0 <= i < s.len() && (#[trigger] s[i]).0@ == k {
            let i = choose|i: int| 0 <= i < s.len() && (#[trigger] s[i]).0@ == k;
            if i < s.len() - 1 {
                assert(t[i] == s[i]);
            }
        }
    }
}

proof fn lemma_map_of_value(s: Seq<(String, TagMeta)>, i: int)
    requires
        distinct_keys(s),
        0 <= i < s.len(),
    ensures
        map_of(s).contains_key(s[i].0@),
        map_of(s)[s[i].0@] == meta_model(s[i].1),
    decreases s.len(),
{
    if i < s.len() - 1 {
        let t = s.drop_last();
        assert(t[i] == s[i]);
        assert(distinct_keys(t)) by {
            assert forall|a: int, b: int| 0 <= a < b < t.len() implies (#[trigger] t[a]).0@ != (
            #[trigger] t[b]).0@ by {
                assert(t[a] == s[a] && t[b] == s[b]);
            }
        }
        lemma_map_of_value(t, i);
        assert(s[i].0@ != s[s.len() - 1].0@);
    }
}

proof fn lemma_map_of_update(s: Seq<(String, TagMeta)>, i: int, e: (String, TagMeta))
    requires
        distinct_keys(s),
        0 <= i < s.len(),
        e.0@ == s[i].0@,
    ensures
        map_of(s.update(i, e)) == map_of(s).insert(e.0@, meta_model(e.1)),
    decreases s.len(),
{
    let u = s.update(i, e);
    if i == s.len() - 1 {
        assert(u.drop_last() =~= s.drop_last());
        assert(map_of(u) =~= map_of(s).insert(e.0@, meta_model(e.1)));
    } else {
        let t = s.drop_last();
        assert(distinct_keys(t)) by {
            assert forall|a: int, b: int| 0 <= a < b < t.len() implies (#[trigger] t[a]).0@ != (
            #[trigger] t[b]).0@ by {
                assert(t[a] == s[a] && t[b] == s[b]);
            }
        }
        assert(t[i] == s[i]);
        lemma_map_of_update(t, i, e);
        assert(u.drop_last() =~= t.update(i, e));
        assert(s[i].0@ != s[s.len() - 1].0@);
        assert(map_of(u) =~= map_of(s).insert(e.0@, meta_model(e.1)));
    }
}

/// The releases' metadata: at most one entry per tag. The entries are a
/// `Vec` with distinct tags rather than a `HashMap` keyed by `String`:
/// with `String` keys, vstd's specification of `HashMap` did not let even
/// its length be proved, so lookups and updates are proved on the view here.
pub struct TagMetas {
    entries: Vec<(String, TagMeta)>,
}

impl View for TagMetas {
    type V = Map<Seq<char>, MetaModel>;

    closed spec fn view(&self) -> Map<Seq<char>, MetaModel> {
        map_of(self.entries@)
    }
}

impl TagMetas {
    pub closed spec fn wf(&self) -> bool {
        distinct_keys(self.entries@)
    }

    /// No metadata at all.
    pub fn new() -> (res: TagMetas)
        ensures
            res.wf(),
            res@ == Map::<Seq<char>, MetaModel>::empty(),
    {
        TagMetas { entries: Vec::new() }
    }

    fn position(&self, tag: &str) -> (res: Option<usize>)
        requires
            self.wf(),
        ensures
            match res {
                Some(i) => i < self.entries@.len() && self.entries@[i as int].0@ == tag@,
                None => !self@.contains_key(tag@),
            },
    {
        let mut i: usize = 0;
        while i < self.entries.len()
            invariant
                i <= self.entries@.len(),
                forall|j: int| 0 <= j < i ==> (#[trigger] self.entries@[j]).0@ != tag@,
            decreases self.entries@.len() - i,
        {
            if text::str_eq(self.entries[i].0.as_str(), tag) {
                return Some(i);
            }
            i = i + 1;
        }
        proof {
            lemma_map_of_contains(self.entries@, tag@);
        }
        None
    }

    /// The metadata of `tag`, if there is any.
    pub fn get(&self, tag: &str) -> (res: Option<&TagMeta>)
        requires
            self.wf(),
        ensures
            match res {
                Some(m) => self@.contains_key(tag@) && meta_model(*m) == self@[tag@],
                None => !self@.contains_key(tag@),
            },
    {
        match self.position(tag) {
            Some(i) => {
                proof {
                    lemma_map_of_value(self.entries@, i as int);
                }
                Some(&self.entries[i].1)
            },
            None => None,
        }
    }

    /// Sets the metadata of `tag`.
    pub fn set(&mut self, tag: &str, meta: TagMeta)
        requires
            old(self).wf(),
        ensures
            final(self).wf(),
            final(self)@ == old(self)@.insert(tag@, meta_model(meta)),
    {
        let key = tag.to_owned();
        match self.position(tag) {
            Some(i) => {
                proof {
                    lemma_map_of_update(self.entries@, i as int, (key, meta));
                }
                self.entries.set(i, (key, meta));
                proof {
                    assert forall|a: int, b: int| 0 <= a < b < self.entries@.len() implies (
                    #[trigger] self.entries@[a]).0@ != (#[trigger] self.entries@[b]).0@ by {
                        if a != i && b != i {
                            assert(self.entries@[a] == old(self).entries@[a]);
                            assert(self.entries@[b] == old(self).entries@[b]);
                        }
                    }
                }
            },
            None => {
                proof {
                    lemma_map_of_contains(self.entries@, tag@);
                }
                self.entries.push((key, meta));
                proof {
                    assert(self.entries@.drop_last() =~= old(self).entries@);
                    assert forall|a: int, b: int| 0 <= a < b < self.entries@.len() implies (
                    #[trigger] self.entries@[a]).0@ != (#[trigger] self.entries@[b]).0@ by {
                        assert(self.entries@[a] == old(self).entries@[a]);
                        if b < self.entries@.len() - 1 {
                            assert(self.entries@[b] == old(self).entries@[b]);
                        }
                    }
                }
            },
        }
    }
}

} // verus!
