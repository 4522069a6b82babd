//! Mapping of logical keys (slash-separated names) to file paths inside the
//! store root, with the sanitization that keeps every path under the root.
use vstd::prelude::*;
use vstd::string::{StrSliceExecFns, StringExecFns};
use crate::error::StoreError;

verus! {

/// The extension that marks an encrypted secret file, dot included.
pub open spec fn secret_ext() -> Seq<char> {
    seq!['.', 'g', 'p', 'g']
}

/// The suffix appended to a secret file's path to name its temporary sibling.
pub open spec fn temp_suffix() -> Seq<char> {
    seq!['.', 't', 'm', 'p']
}

/// A segment may stand as one path component: it is not empty, not `.` or
/// `..`, and holds neither a separator nor a null character.
pub open spec fn valid_segment(s: Seq<char>) -> bool {
    &&& s.len() > 0
    &&& s != seq!['.']
    &&& s != seq!['.', '.']
    &&& forall|i: int| 0 <= i < s.len() ==> s[i] != '/' && s[i] != '\0'
}

/// The pieces of `s` between its `/` characters, as `str::split('/')` gives
/// them: `n` slashes give `n + 1` pieces, empty ones included.
pub open spec fn segments(s: Seq<char>) -> Seq<Seq<char>>
    decreases s.len(),
{
    if s.len() == 0 {
        seq![Seq::<char>::empty()]
    } else {
        let prev = segments(s.drop_last());
        if s.last() == '/' {
            prev.push(Seq::<char>::empty())
        } else {
            prev.update(prev.len() - 1, prev.last().push(s.last()))
        }
    }
}

/// A logical key: every one of its segments is valid.
pub open spec fn valid_key(k: Seq<char>) -> bool {
    forall|j: int| 0 <= j < segments(k).len() ==> valid_segment(#[trigger] segments(k)[j])
}

/// The file that holds the secret of key `k` under `root`.
pub open spec fn secret_file(root: Seq<char>, k: Seq<char>) -> Seq<char> {
    root + seq!['/'] + k + secret_ext()
}

/// The temporary sibling a new secret for key `k` is written to before it is
/// renamed over the secret file.
pub open spec fn temp_file(root: Seq<char>, k: Seq<char>) -> Seq<char> {
    secret_file(root, k) + temp_suffix()
}

/// The key without its last segment and the slash before it (empty for a
/// key of one segment).
pub open spec fn key_dir(k: Seq<char>) -> Seq<char> {
    if segments(k).len() > 1 {
        k.take(k.len() - segments(k).last().len() - 1)
    } else {
        Seq::empty()
    }
}

/// The directory that holds the secret file of key `k`.
pub open spec fn parent_dir(root: Seq<char>, k: Seq<char>) -> Seq<char> {
    if segments(k).len() > 1 {
        root + seq!['/'] + key_dir(k)
    } else {
        root
    }
}

/// Where a secret lives on disk, with its temporary sibling and the directory
/// that must exist before it is written.
pub struct StorePath {
    pub file: String,
    pub temp: String,
    pub parent: String,
}

/// Every split yields at least one piece.
pub proof fn lemma_segments_nonempty(s: Seq<char>)
    ensures
        segments(s).len() >= 1,
    decreases s.len(),
{
    if s.len() > 0 {
        lemma_segments_nonempty(s.drop_last());
    }
}

/// Checks one segment of a key: `Ok` exactly when the segment is valid.
pub fn sanitize_key_part(part: &str) -> (r: Result<(), StoreError>)
    ensures
        r is Ok <==> valid_segment(part@),
        r is Err ==> r == Err::<(), StoreError>(StoreError::InvalidKey),
{
    let n = part.unicode_len();
    if n == 0 {
        return Err(StoreError::InvalidKey);
    }
    if n == 1 && part.get_char(0) == '.' {
        assert(part@ =~= seq!['.']);
        return Err(StoreError::InvalidKey);
    }
    if n == 2 && part.get_char(0) == '.' && part.get_char(1) == '.' {
        assert(part@ =~= seq!['.', '.']);
        return Err(StoreError::InvalidKey);
    }
    let mut i: usize = 0;
    while i < n
        invariant
            n == part@.len(),
            i <= n,
            forall|j: int| 0 <= j < i ==> part@[j] != '/' && part@[j] != '\0',
        decreases n - i,
    {
        let c = part.get_char(i);
        if c == '/' || c == '\0' {
            return Err(StoreError::InvalidKey);
        }
        i += 1;
    }
    proof {
        if n == 1 {
            assert(part@[0] != '.');
            assert(part@ != seq!['.']) by {
                if part@ == seq!['.'] {
                    assert(part@[0] == '.');
                }
            }
        }
        if n == 2 {
            assert(part@ != seq!['.', '.']) by {
                if part@ == seq!['.', '.'] {
                    assert(part@[0] == '.' && part@[1] == '.');
                }
            }
        }
    }
    Ok(())
}

/// One more character extends the last piece, or opens a new one at a slash.
proof fn lemma_segments_step(s: Seq<char>, i: int)
    requires
        0 <= i < s.len(),
    ensures
        s.take(i + 1).drop_last() == s.take(i),
        s.take(i + 1).last() == s[i],
{
    assert(s.take(i + 1).drop_last() =~= s.take(i));
}

/// `root/key.gpg`, `root/key.gpg.tmp` and the directory above them.
fn build_store_path(root: &str, key: &str, dir_end: usize, has_dir: bool) -> (p: StorePath)
    requires
        has_dir ==> dir_end <= key@.len(),
    ensures
        p.file@ == secret_file(root@, key@),
        p.temp@ == temp_file(root@, key@),
        has_dir ==> p.parent@ == root@ + seq!['/'] + key@.take(dir_end as int),
        !has_dir ==> p.parent@ == root@,
{
    proof {
        reveal_strlit("/");
        reveal_strlit(".gpg");
        reveal_strlit(".tmp");
    }
    let mut file = String::from_str(root);
    file.append("/");
    file.append(key);
    file.append(".gpg");
    let mut temp = file.clone();
    temp.append(".tmp");
    let mut parent = String::from_str(root);
    if has_dir {
        parent.append("/");
        parent.append(key.substring_char(0, dir_end));
    }
    assert(file@ =~= secret_file(root@, key@));
    assert(temp@ =~= temp_file(root@, key@));
    assert(has_dir ==> parent@ =~= root@ + seq!['/'] + key@.take(dir_end as int));
    StorePath { file, temp, parent }
}

/// Resolves `key` to its place under `root`. The whole key is rejected with
/// `InvalidKey` when any segment is invalid; nothing is resolved in part.
/// The caller creates `parent` only after success.
pub fn key_to_path(root: &str, key: &str) -> (r: Result<StorePath, StoreError>)
    ensures
        r is Ok <==> valid_key(key@),
        r is Err ==> r->Err_0 == StoreError::InvalidKey,
        r is Ok ==> r->Ok_0.file@ == secret_file(root@, key@),
        r is Ok ==> r->Ok_0.temp@ == temp_file(root@, key@),
        r is Ok ==> r->Ok_0.parent@ == parent_dir(root@, key@),
{
    let n = key.unicode_len();
    let mut start: usize = 0;
    let mut i: usize = 0;
    let mut ok = true;
    let mut slashes: usize = 0;
    proof {
        assert(key@.take(0) =~= Seq::<char>::empty());
    }
    while i < n
        invariant
            n == key@.len(),
            start <= i <= n,
            slashes <= i,
            segments(key@.take(i as int)).len() == slashes + 1,
            segments(key@.take(i as int)).last() == key@.subrange(start as int, i as int),
            slashes == 0 ==> start == 0,
            slashes > 0 ==> start >= 1,
            ok == (forall|j: int|
                0 <= j < slashes ==> valid_segment(#[trigger] segments(key@.take(i as int))[j])),
        decreases n - i,
    {
        proof {
            lemma_segments_step(key@, i as int);
        }
        let ghost prev = segments(key@.take(i as int));
        let c = key.get_char(i);
        if c == '/' {
            let part = key.substring_char(start, i);
            let good = sanitize_key_part(part).is_ok();
            ok = ok && good;
            proof {
                let next = segments(key@.take(i + 1));
                assert(next == prev.push(Seq::<char>::empty()));
                assert(next[slashes as int] == part@);
                if ok {
                    assert forall|j: int| 0 <= j < slashes + 1 implies valid_segment(
                        #[trigger] next[j],
                    ) by {
                        if j < slashes {
                            assert(next[j] == prev[j]);
                        }
                    }
                } else if !good {
                    assert(!valid_segment(next[slashes as int]));
                } else {
                    let j = choose|j: int| 0 <= j < slashes && !valid_segment(#[trigger] prev[j]);
                    assert(next[j] == prev[j]);
                }
            }
            slashes += 1;
            start = i + 1;
            proof {
                assert(segments(key@.take(i + 1)).last() =~= key@.subrange(start as int, i + 1));
            }
        } else {
            proof {
                let next = segments(key@.take(i + 1));
                assert(next == prev.update(prev.len() - 1, prev.last().push(c)));
                assert(next.last() =~= key@.subrange(start as int, i + 1));
                assert forall|j: int| 0 <= j < slashes implies #[trigger] next[j] == prev[j] by {}
                if !ok {
                    let j = choose|j: int| 0 <= j < slashes && !valid_segment(#[trigger] prev[j]);
                    assert(next[j] == prev[j]);
                }
            }
        }
        i += 1;
    }
    let last = key.substring_char(start, n);
    let good = sanitize_key_part(last).is_ok();
    proof {
        assert(key@.take(n as int) =~= key@);
    }
    if ok && good {
        proof {
            assert forall|j: int| 0 <= j < segments(key@).len() implies
                valid_segment(#[trigger] segments(key@)[j]) by {
                if j == slashes {
                    assert(segments(key@)[j] == segments(key@).last());
                }
            }
        }
        let has_dir = slashes > 0;
        let dir_end: usize = if has_dir { start - 1 } else { 0 };
        let p = build_store_path(root, key, dir_end, has_dir);
        proof {
            if has_dir {
                assert(key_dir(key@) == key@.take(dir_end as int));
            }
        }
        Ok(p)
    } else {
        proof {
            if !good {
                assert(!valid_segment(segments(key@)[slashes as int]));
            } else {
                let j = choose|j: int| 0 <= j < slashes && !valid_segment(#[trigger] segments(key@)[j]);
                assert(!valid_segment(segments(key@)[j]));
            }
        }
        Err(StoreError::InvalidKey)
    }
}

/// A key with an empty segment, or a segment `.` or `..`, is no valid key;
/// so `key_to_path` refuses it with `InvalidKey` and gives no path whose
/// directories could be created.
pub proof fn lemma_dot_segments_rejected(k: Seq<char>, j: int)
    requires
        0 <= j < segments(k).len(),
        segments(k)[j] == Seq::<char>::empty() || segments(k)[j] == seq!['.'] || segments(k)[j]
            == seq!['.', '.'],
    ensures
        !valid_key(k),
{
    assert(!valid_segment(segments(k)[j]));
}

/// Appending characters without a slash extends the last piece only.
proof fn lemma_segments_append(s: Seq<char>, t: Seq<char>)
    requires
        forall|i: int| 0 <= i < t.len() ==> t[i] != '/',
    ensures
        segments(s + t) == segments(s).update(
            segments(s).len() - 1,
            segments(s).last() + t,
        ),
    decreases t.len(),
{
    lemma_segments_nonempty(s);
    if t.len() == 0 {
        assert(s + t =~= s);
        assert(segments(s).last() + t =~= segments(s).last());
        assert(segments(s).update(segments(s).len() - 1, segments(s).last()) =~= segments(s));
    } else {
        let u = t.drop_last();
        lemma_segments_append(s, u);
        assert((s + t).drop_last() =~= s + u);
        assert((s + t).last() == t.last());
        assert(segments(s).last() + u + seq![t.last()] =~= segments(s).last() + t);
        assert((segments(s).last() + u).push(t.last()) =~= segments(s).last() + t);
        assert(segments(s + t) =~= segments(s).update(
            segments(s).len() - 1,
            segments(s).last() + t,
        ));
    }
}

/// A valid key neither starts nor ends with a slash, and is not empty.
pub proof fn lemma_valid_key_ends(k: Seq<char>)
    requires
        valid_key(k),
    ensures
        k.len() > 0,
        k.last() != '/',
{
    lemma_segments_nonempty(k);
    let n = segments(k).len();
    assert(valid_segment(segments(k)[n - 1]));
    if k.len() > 0 && k.last() == '/' {
        lemma_segments_nonempty(k.drop_last());
        assert(segments(k).last() == Seq::<char>::empty());
    }
}

/// Resolving is a function of the root and the key: two resolutions of the
/// same key under the same root name the same files. It is also one to one:
/// under one root, two valid keys never share a secret file. And the secret
/// file lies inside the root: after `root/` come only valid path segments.
pub proof fn lemma_resolve_deterministic(root: Seq<char>, k1: Seq<char>, k2: Seq<char>)
    requires
        valid_key(k1),
        valid_key(k2),
    ensures
        k1 == k2 ==> secret_file(root, k1) == secret_file(root, k2) && temp_file(root, k1)
            == temp_file(root, k2) && parent_dir(root, k1) == parent_dir(root, k2),
        secret_file(root, k1) == secret_file(root, k2) ==> k1 == k2,
        secret_file(root, k1) == root + seq!['/'] + (k1 + secret_ext()),
        valid_key(k1 + secret_ext()),
{
    let f1 = secret_file(root, k1);
    let f2 = secret_file(root, k2);
    if f1 == f2 {
        let a = root.len() + 1int;
        assert(k1 =~= f1.subrange(a, f1.len() - 4int));
        assert(k2 =~= f2.subrange(a, f2.len() - 4int));
    }
    assert(secret_file(root, k1) =~= root + seq!['/'] + (k1 + secret_ext()));
    let e = secret_ext();
    lemma_segments_append(k1, e);
    lemma_segments_nonempty(k1);
    let s1 = segments(k1);
    let s2 = segments(k1 + e);
    assert forall|j: int| 0 <= j < s2.len() implies valid_segment(#[trigger] s2[j]) by {
        assert(valid_segment(s1[j]));
        if j == s1.len() - 1 {
            let seg = s1.last() + e;
            assert(s2[j] == seg);
            assert(seg.len() >= 4);
            assert(seg != seq!['.']);
            if seg == seq!['.', '.'] {
                assert(seg.len() == 2);
            }
            assert forall|i: int| 0 <= i < seg.len() implies seg[i] != '/' && seg[i] != '\0' by {
                if i < s1.last().len() {
                    assert(seg[i] == s1.last()[i]);
                } else {
                    assert(seg[i] == e[i - s1.last().len()]);
                }
            }
        }
    }
}

/// The temporary sibling is never the secret file itself.
pub proof fn lemma_temp_is_not_secret(root: Seq<char>, k: Seq<char>)
    ensures
        temp_file(root, k) != secret_file(root, k),
{
    assert(temp_file(root, k).len() == secret_file(root, k).len() + 4);
}

} // verus!
