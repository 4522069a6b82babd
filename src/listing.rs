//! Enumeration of the keys held in a store. The walk over the directory tree
//! is driven from outside, one directory listing at a time; the decisions of
//! the walk and the mapping of file paths back to keys are made here.
use vstd::prelude::*;
use vstd::string::{StrSliceExecFns, StringExecFns};
use crate::key::{secret_ext, valid_key, lemma_valid_key_ends};

verus! {

/// The text of each string, in order.
pub open spec fn texts(v: Seq<String>) -> Seq<Seq<char>> {
    v.map_values(|s: String| s@)
}

/// A path relative to the store root names a secret file when it ends in the
/// secret extension after a non-empty file stem.
pub open spec fn is_secret_file(rel: Seq<char>) -> bool {
    &&& rel.len() > secret_ext().len()
    &&& rel.subrange(rel.len() - secret_ext().len(), rel.len() as int) == secret_ext()
    &&& rel[rel.len() - secret_ext().len() - 1] != '/'
}

/// The key that a secret file's relative path stands for: the path without
/// its extension.
pub open spec fn key_of_file(rel: Seq<char>) -> Seq<char> {
    rel.take(rel.len() - secret_ext().len())
}

/// The keys of the secret files among `files`, in their order.
pub open spec fn listed_keys(files: Seq<Seq<char>>) -> Seq<Seq<char>>
    decreases files.len(),
{
    if files.len() == 0 {
        Seq::empty()
    } else {
        let rest = listed_keys(files.drop_last());
        if is_secret_file(files.last()) {
            rest.push(key_of_file(files.last()))
        } else {
            rest
        }
    }
}

/// Tells whether `rel` names a secret file, and if so gives its key.
pub fn file_key(rel: &str) -> (r: Option<String>)
    ensures
        r is Some <==> is_secret_file(rel@),
        r is Some ==> r->Some_0@ == key_of_file(rel@),
{
    let n = rel.unicode_len();
    if n <= 4 {
        return None;
    }
    if rel.get_char(n - 4) == '.' && rel.get_char(n - 3) == 'g' && rel.get_char(n - 2) == 'p'
        && rel.get_char(n - 1) == 'g' && rel.get_char(n - 5) != '/' {
        assert(rel@.subrange(n - 4, n as int) =~= secret_ext());
        Some(String::from_str(rel.substring_char(0, n - 4)))
    } else {
        proof {
            if rel@.subrange(n - 4, n as int) == secret_ext() {
                assert(rel@.subrange(n - 4, n as int)[0] == rel@[n - 4]);
                assert(rel@.subrange(n - 4, n as int)[1] == rel@[n - 3]);
                assert(rel@.subrange(n - 4, n as int)[2] == rel@[n - 2]);
                assert(rel@.subrange(n - 4, n as int)[3] == rel@[n - 1]);
            }
        }
        None
    }
}

/// The keys of the secret files among `files` (paths relative to the store
/// root, with `/` between components), in the order the files are given.
/// Files of any other kind are passed over.
pub fn list_keys(files: &Vec<String>) -> (r: Vec<String>)
    ensures
        texts(r@) == listed_keys(texts(files@)),
{
    let mut out: Vec<String> = Vec::new();
    let mut i: usize = 0;
    while i < files.len()
        invariant
            i <= files@.len(),
            texts(out@) == listed_keys(texts(files@.take(i as int))),
        decreases files@.len() - i,
    {
        proof {
            assert(files@.take(i + 1).drop_last() =~= files@.take(i as int));
            assert(texts(files@.take(i + 1)).drop_last() =~= texts(files@.take(i as int)));
            assert(texts(files@.take(i + 1)).last() == files@[i as int]@);
        }
        match file_key(files[i].as_str()) {
            Some(k) => {
                let ghost before = out@;
                out.push(k);
                proof {
                    assert(texts(out@) =~= texts(before).push(k@));
                }
            },
            None => {},
        }
        i += 1;
    }
    proof {
        assert(files@.take(files@.len() as int) =~= files@);
    }
    out
}

/// One entry of a directory listing: its name and whether it is a directory.
pub struct DirEntryInfo {
    pub name: String,
    pub is_dir: bool,
}

/// The path of entry `name` inside directory `dir`, both relative to the root
/// (the root itself is the empty path).
pub open spec fn join_rel(dir: Seq<char>, name: Seq<char>) -> Seq<char> {
    if dir.len() == 0 {
        name
    } else {
        dir + seq!['/'] + name
    }
}

/// The relative paths of the entries of `dir` that are directories (when
/// `dirs` holds) or files (when it does not), in listing order.
pub open spec fn entries_of_kind(dir: Seq<char>, entries: Seq<DirEntryInfo>, dirs: bool) -> Seq<
    Seq<char>,
>
    decreases entries.len(),
{
    if entries.len() == 0 {
        Seq::empty()
    } else {
        let rest = entries_of_kind(dir, entries.drop_last(), dirs);
        if entries.last().is_dir == dirs {
            rest.push(join_rel(dir, entries.last().name@))
        } else {
            rest
        }
    }
}

/// The state of a walk over the store: directories still to be listed and
/// files found so far, all relative to the root.
pub struct Walker {
    pub pending: Vec<String>,
    pub files: Vec<String>,
}

fn join_entry(dir: &str, name: &str) -> (r: String)
    ensures
        r@ == join_rel(dir@, name@),
{
    if dir.unicode_len() == 0 {
        String::from_str(name)
    } else {
        proof {
            reveal_strlit("/");
        }
        let mut r = String::from_str(dir);
        r.append("/");
        r.append(name);
        r
    }
}

impl Walker {
    /// A walk that starts at the root, with nothing found yet.
    pub fn new() -> (w: Walker)
        ensures
            texts(w.pending@) == seq![Seq::<char>::empty()],
            w.files@.len() == 0,
    {
        let mut pending: Vec<String> = Vec::new();
        pending.push(String::new());
        proof {
            assert(texts(pending@) =~= seq![Seq::<char>::empty()]);
        }
        Walker { pending, files: Vec::new() }
    }

    /// The next directory to list, if any is left; it leaves the pending set.
    pub fn next_dir(&mut self) -> (r: Option<String>)
        ensures
            old(self).pending@.len() == 0 ==> r is None && final(self).pending@ == old(self).pending@,
            final(self).files@ == old(self).files@,
            old(self).pending@.len() > 0 ==> {
                &&& r is Some
                &&& r->Some_0 == old(self).pending@.last()
                &&& final(self).pending@ == old(self).pending@.drop_last()
            },
    {
        self.pending.pop()
    }

    /// Takes in the listing of directory `dir`: its subdirectories join the
    /// pending set and its files the found ones, in listing order.
    pub fn visit(&mut self, dir: &str, entries: &Vec<DirEntryInfo>)
        ensures
            texts(final(self).pending@) == texts(old(self).pending@) + entries_of_kind(
                dir@,
                entries@,
                true,
            ),
            texts(final(self).files@) == texts(old(self).files@) + entries_of_kind(
                dir@,
                entries@,
                false,
            ),
    {
        let ghost p0 = texts(self.pending@);
        let ghost f0 = texts(self.files@);
        let mut i: usize = 0;
        while i < entries.len()
            invariant
                i <= entries@.len(),
                texts(self.pending@) == p0 + entries_of_kind(dir@, entries@.take(i as int), true),
                texts(self.files@) == f0 + entries_of_kind(dir@, entries@.take(i as int), false),
            decreases entries@.len() - i,
        {
            proof {
                assert(entries@.take(i + 1).drop_last() =~= entries@.take(i as int));
            }
            let e = &entries[i];
            let path = join_entry(dir, e.name.as_str());
            if e.is_dir {
                let ghost before = self.pending@;
                self.pending.push(path);
                proof {
                    assert(texts(self.pending@) =~= texts(before).push(path@));
                }
            } else {
                let ghost before = self.files@;
                self.files.push(path);
                proof {
                    assert(texts(self.files@) =~= texts(before).push(path@));
                }
            }
            i += 1;
        }
        proof {
            assert(entries@.take(entries@.len() as int) =~= entries@);
        }
    }

    /// The keys of the secret files found by the walk.
    pub fn keys(&self) -> (r: Vec<String>)
        ensures
            texts(r@) == listed_keys(texts(self.files@)),
    {
        list_keys(&self.files)
    }
}

/// Listing gives back the key a secret was stored under: the relative path
/// of a valid key's secret file is a secret file, and its key is that key.
pub proof fn lemma_listing_recovers_key(k: Seq<char>)
    requires
        valid_key(k),
    ensures
        is_secret_file(k + secret_ext()),
        key_of_file(k + secret_ext()) == k,
{
    lemma_valid_key_ends(k);
    let rel = k + secret_ext();
    assert(rel.subrange(rel.len() - 4, rel.len() as int) =~= secret_ext());
    assert(rel[rel.len() - 5] == k.last());
    assert(key_of_file(rel) =~= k);
}

} // verus!
