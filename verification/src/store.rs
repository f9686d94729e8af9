//! An in-memory file store: the model of the file system that the
//! modification applier and the analyser work against.
//!
//! The store maps paths to text contents. Its mathematical view is a
//! `Map<Seq<char>, Seq<char>>`, and every operation is specified against
//! that map. Callers that work against a real file system load the files
//! they care about into a store, run the verified logic, and write the
//! store's changes back out.

use vstd::prelude::*;

verus! {

/// One file of the store: a path and its text content.
struct FileEntry {
    path: String,
    content: String,
}

/// The map described by a sequence of entries; later entries win.
spec fn entries_map(s: Seq<FileEntry>) -> Map<Seq<char>, Seq<char>>
    decreases s.len(),
{
    if s.len() == 0 {
        Map::empty()
    } else {
        entries_map(s.drop_last()).insert(s.last().path@, s.last().content@)
    }
}

/// No two entries share a path.
spec fn entries_unique(s: Seq<FileEntry>) -> bool {
    forall|i: int, j: int| 0 <= i < j < s.len() ==> s[i].path@ != s[j].path@
}

/// A key is in the map exactly when some entry holds it.
proof fn lemma_map_dom(s: Seq<FileEntry>, p: Seq<char>)
    ensures
        entries_map(s).dom().contains(p) <==> exists|i: int|
            0 <= i < s.len() && s[i].path@ == p,
    decreases s.len(),
{
    if s.len() > 0 {
        lemma_map_dom(s.drop_last(), p);
        if s.last().path@ == p {
            assert(s[s.len() - 1].path@ == p);
        } else if entries_map(s).dom().contains(p) {
            let i = choose|i: int| 0 <= i < s.drop_last().len() && s.drop_last()[i].path@ == p;
            assert(s[i].path@ == p);
        } else {
            assert(forall|i: int|
                0 <= i < s.drop_last().len() ==> s.drop_last()[i].path@ == #[trigger] s[i].path@);
        }
    }
}

/// Under uniqueness, the map sends each entry's path to its content.
proof fn lemma_map_at(s: Seq<FileEntry>, i: int)
    requires
        entries_unique(s),
        0 <= i < s.len(),
    ensures
        entries_map(s).dom().contains(s[i].path@),
        entries_map(s)[s[i].path@] == s[i].content@,
    decreases s.len(),
{
    if i == s.len() - 1 {
    } else {
        assert(entries_unique(s.drop_last()));
        lemma_map_at(s.drop_last(), i);
        assert(s.drop_last()[i] == s[i]);
        assert(s[i].path@ != s.last().path@);
    }
}

/// Updating the content of the entry at `i` updates the map at its path.
proof fn lemma_map_update(s: Seq<FileEntry>, i: int, e: FileEntry)
    requires
        entries_unique(s),
        0 <= i < s.len(),
        e.path@ == s[i].path@,
    ensures
        entries_map(s.update(i, e)) == entries_map(s).insert(e.path@, e.content@),
    decreases s.len(),
{
    let t = s.update(i, e);
    if i == s.len() - 1 {
        assert(t.drop_last() =~= s.drop_last());
        assert(entries_map(t) =~= entries_map(s).insert(e.path@, e.content@));
    } else {
        assert(entries_unique(s.drop_last()));
        assert(s.drop_last()[i] == s[i]);
        lemma_map_update(s.drop_last(), i, e);
        assert(t.drop_last() =~= s.drop_last().update(i, e));
        assert(t.last() == s.last());
        assert(s[i].path@ != s.last().path@);
        assert(entries_map(t) =~= entries_map(s).insert(e.path@, e.content@));
    }
}

/// Removing the entry at `i` removes its path from the map.
proof fn lemma_map_remove(s: Seq<FileEntry>, i: int)
    requires
        entries_unique(s),
        0 <= i < s.len(),
    ensures
        entries_map(s.remove(i)) == entries_map(s).remove(s[i].path@),
    decreases s.len(),
{
    let p = s[i].path@;
    if i == s.len() - 1 {
        assert(s.remove(i) =~= s.drop_last());
        lemma_map_dom(s.drop_last(), p);
        assert(forall|k: int|
            0 <= k < s.drop_last().len() ==> s.drop_last()[k].path@ == #[trigger] s[k].path@);
        assert(!entries_map(s.drop_last()).dom().contains(p));
        assert(entries_map(s.remove(i)) =~= entries_map(s).remove(p));
    } else {
        assert(entries_unique(s.drop_last()));
        assert(s.drop_last()[i] == s[i]);
        lemma_map_remove(s.drop_last(), i);
        assert(s.remove(i).drop_last() =~= s.drop_last().remove(i));
        assert(s.remove(i).last() == s.last());
        assert(p != s.last().path@);
        assert(entries_map(s.remove(i)) =~= entries_map(s).remove(p));
    }
}

/// An in-memory file store mapping paths to text contents.
pub struct FileStore {
    files: Vec<FileEntry>,
}

impl View for FileStore {
    type V = Map<Seq<char>, Seq<char>>;

    closed spec fn view(&self) -> Map<Seq<char>, Seq<char>> {
        entries_map(self.files@)
    }
}

impl FileStore {
    /// Well-formedness: no two entries of the store share a path.
    /// Constructors establish it and every operation preserves it.
    pub closed spec fn wf(&self) -> bool {
        entries_unique(self.files@)
    }

    /// An empty store.
    pub fn new() -> (r: FileStore)
        ensures
            r.wf(),
            r@ == Map::<Seq<char>, Seq<char>>::empty(),
    {
        FileStore { files: Vec::new() }
    }

    /// The index of the entry holding `path`, if any.
    fn index_of(&self, path: &str) -> (r: Option<usize>)
        ensures
            match r {
                Some(i) => i < self.files@.len() && self.files@[i as int].path@ == path@,
                None => forall|i: int| 0 <= i < self.files@.len() ==> self.files@[i].path@ != path@,
            },
    {
        let mut i: usize = 0;
        while i < self.files.len()
            invariant
                i <= self.files@.len(),
                forall|j: int| 0 <= j < i ==> self.files@[j].path@ != path@,
            decreases self.files@.len() - i,
        {
            if self.files[i].path.as_str().eq(path) {
                return Some(i);
            }
            i = i + 1;
        }
        None
    }

    /// Whether the store holds a file at `path`.
    pub fn contains_path(&self, path: &str) -> (r: bool)
        ensures
            r == self@.dom().contains(path@),
    {
        proof {
            lemma_map_dom(self.files@, path@);
        }
        match self.index_of(path) {
            Some(_) => true,
            None => false,
        }
    }

    /// The content at `path`, when the store holds it.
    pub fn read_file(&self, path: &str) -> (r: Option<String>)
        requires
            self.wf(),
        ensures
            match r {
                Some(c) => self@.dom().contains(path@) && c@ == self@[path@],
                None => !self@.dom().contains(path@),
            },
    {
        proof {
            lemma_map_dom(self.files@, path@);
        }
        match self.index_of(path) {
            Some(i) => {
                proof {
                    lemma_map_at(self.files@, i as int);
                }
                Some(self.files[i].content.clone())
            },
            None => None,
        }
    }

    /// Write `content` at `path`, creating the file when absent.
    pub fn write_file(&mut self, path: &str, content: String)
        requires
            old(self).wf(),
        ensures
            final(self).wf(),
            final(self)@ == old(self)@.insert(path@, content@),
    {
        proof {
            lemma_map_dom(self.files@, path@);
        }
        match self.index_of(path) {
            Some(i) => {
                let ghost s = self.files@;
                let entry = FileEntry { path: self.files[i].path.clone(), content };
                proof {
                    lemma_map_update(s, i as int, entry);
                }
                self.files[i] = entry;
                proof {
                    assert(entries_unique(self.files@));
                }
            },
            None => {
                let ghost s = self.files@;
                let entry = FileEntry { path: path.to_owned(), content };
                self.files.push(entry);
                proof {
                    assert(self.files@.drop_last() =~= s);
                    assert(entries_unique(self.files@));
                }
            },
        }
    }

    /// Remove the file at `path`; report whether it was there.
    pub fn remove_file(&mut self, path: &str) -> (r: bool)
        requires
            old(self).wf(),
        ensures
            final(self).wf(),
            final(self)@ == old(self)@.remove(path@),
            r == old(self)@.dom().contains(path@),
    {
        proof {
            lemma_map_dom(self.files@, path@);
        }
        match self.index_of(path) {
            Some(i) => {
                let ghost s = self.files@;
                proof {
                    lemma_map_remove(s, i as int);
                }
                self.files.remove(i);
                proof {
                    assert(forall|a: int, b: int|
                        0 <= a < b < self.files@.len() ==> #[trigger] self.files@[a].path@
                            != #[trigger] self.files@[b].path@) by {
                        assert(forall|a: int|
                            0 <= a < self.files@.len() ==> self.files@[a] == if a < i as int {
                                s[a]
                            } else {
                                s[a + 1]
                            });
                    }
                }
                true
            },
            None => {
                proof {
                    assert(!old(self)@.dom().contains(path@));
                    assert(final(self)@ =~= old(self)@.remove(path@));
                }
                false
            },
        }
    }
}

} // verus!
