//! A cache of entity tags: for each key the tag of what was last served
//! under it.

use vstd::prelude::*;

verus! {

/// One entry of the cache.
#[derive(Clone, Debug)]
struct Entry {
    key: String,
    etag: String,
}

/// The tags that `entries` hold, by key. Where a key occurs more than once
/// the last entry counts.
spec fn tags_of(entries: Seq<Entry>) -> Map<Seq<char>, Seq<char>>
    decreases entries.len(),
{
    if entries.len() == 0 {
        Map::empty()
    } else {
        tags_of(entries.drop_last()).insert(entries.last().key@, entries.last().etag@)
    }
}

/// A key that no entry has is not among the tags.
proof fn lemma_absent_key(entries: Seq<Entry>, key: Seq<char>)
    requires
        forall|i: int| 0 <= i < entries.len() ==> (#[trigger] entries[i]).key@ != key,
    ensures
        !tags_of(entries).contains_key(key),
    decreases entries.len(),
{
    if entries.len() > 0 {
        lemma_absent_key(entries.drop_last(), key);
    }
}

/// The tag of a key is the tag of the last entry that has the key.
proof fn lemma_last_entry_counts(entries: Seq<Entry>, at: int)
    requires
        0 <= at < entries.len(),
        forall|i: int| at < i < entries.len() ==> (#[trigger] entries[i]).key@ != entries[at].key@,
    ensures
        tags_of(entries).contains_key(entries[at].key@),
        tags_of(entries)[entries[at].key@] == entries[at].etag@,
    decreases entries.len(),
{
    if at < entries.len() - 1 {
        lemma_last_entry_counts(entries.drop_last(), at);
    }
}

/// Changing the tag of the last entry that has a key changes the tag of
/// that key and no other.
proof fn lemma_replace_last_entry(entries: Seq<Entry>, at: int, entry: Entry)
    requires
        0 <= at < entries.len(),
        entry.key@ == entries[at].key@,
        forall|i: int| at < i < entries.len() ==> (#[trigger] entries[i]).key@ != entries[at].key@,
    ensures
        tags_of(entries.update(at, entry)) == tags_of(entries).insert(entry.key@, entry.etag@),
    decreases entries.len(),
{
    let changed = entries.update(at, entry);
    if at == entries.len() - 1 {
        assert(changed.drop_last() =~= entries.drop_last());
        assert(tags_of(changed) =~= tags_of(entries).insert(entry.key@, entry.etag@));
    } else {
        lemma_replace_last_entry(entries.drop_last(), at, entry);
        assert(changed.drop_last() =~= entries.drop_last().update(at, entry));
        assert(changed.last() == entries.last());
        assert(tags_of(changed) =~= tags_of(entries).insert(entry.key@, entry.etag@));
    }
}

/// The cache.
#[derive(Clone, Debug)]
pub struct Cache {
    entries: Vec<Entry>,
}

impl Cache {
    /// The tags in the cache, by key.
    pub closed spec fn etags(&self) -> Map<Seq<char>, Seq<char>> {
        tags_of(self.entries@)
    }

    /// An empty cache.
    pub fn new() -> (cache: Self)
        ensures
            cache.etags() == Map::<Seq<char>, Seq<char>>::empty(),
    {
        Self { entries: Vec::new() }
    }

    /// The position of the last entry that has the key `key`.
    fn position(&self, key: &str) -> (found: Option<usize>)
        ensures
            match found {
                Some(at) => {
                    &&& at < self.entries@.len()
                    &&& self.entries@[at as int].key@ == key@
                    &&& forall|i: int|
                        at < i < self.entries@.len() ==> (#[trigger] self.entries@[i]).key@
                            != key@
                    &&& self.etags().contains_key(key@)
                    &&& self.etags()[key@] == self.entries@[at as int].etag@
                },
                None => !self.etags().contains_key(key@),
            },
    {
        let wanted: String = key.to_owned();
        let mut i: usize = self.entries.len();
        while i > 0
            invariant
                i <= self.entries@.len(),
                wanted@ == key@,
                forall|k: int| i <= k < self.entries@.len() ==> (#[trigger] self.entries@[k]).key@
                    != key@,
            decreases i,
        {
            i -= 1;
            if self.entries[i].key == wanted {
                proof {
                    lemma_last_entry_counts(self.entries@, i as int);
                }
                return Some(i);
            }
        }
        proof {
            lemma_absent_key(self.entries@, key@);
        }
        None
    }

    /// The tag cached under `key`, if there is one.
    pub fn get_etag(&self, key: &str) -> (found: Option<&str>)
        ensures
            match found {
                Some(etag) => self.etags().contains_key(key@) && self.etags()[key@] == etag@,
                None => !self.etags().contains_key(key@),
            },
    {
        match self.position(key) {
            Some(at) => Some(self.entries[at].etag.as_str()),
            None => None,
        }
    }

    /// Whether the tag cached under `key` is `etag`. False where nothing is
    /// cached under `key`.
    pub fn etag_matches(&self, key: &str, etag: &str) -> (matches: bool)
        ensures
            matches == (self.etags().contains_key(key@) && self.etags()[key@] == etag@),
    {
        match self.position(key) {
            Some(at) => {
                let given: String = etag.to_owned();
                self.entries[at].etag == given
            },
            None => false,
        }
    }

    /// Caches `etag` under `key`, in place of any tag cached under it
    /// before.
    pub fn set_etag(&mut self, key: &str, etag: &str)
        ensures
            final(self).etags() == old(self).etags().insert(key@, etag@),
    {
        let entry = Entry { key: key.to_owned(), etag: etag.to_owned() };
        match self.position(key) {
            Some(at) => {
                proof {
                    lemma_replace_last_entry(self.entries@, at as int, entry);
                }
                self.entries.set(at, entry);
            },
            None => {
                self.entries.push(entry);
                assert(self.entries@.drop_last() =~= old(self).entries@);
            },
        }
    }
}

} // verus!
