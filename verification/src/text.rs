//! Byte-sequence utilities shared by the record codec, the classifier
//! and the extractor. All text handled by the library is UTF-8 bytes.

use vstd::prelude::*;

verus! {

/// Bytes recognised as whitespace when a field text is trimmed
/// (the ASCII whitespace characters).
pub open spec fn is_space(b: u8) -> bool {
    b == 32 || (9 <= b && b <= 13)
}

/// Executable counterpart of [`is_space`].
pub fn byte_is_space(b: u8) -> (r: bool)
    ensures
        r == is_space(b),
{
    b == 32 || (9 <= b && b <= 13)
}

/// Equality of two byte vectors.
pub fn bytes_eq(a: &Vec<u8>, b: &Vec<u8>) -> (r: bool)
    ensures
        r == (a@ == b@),
{
    if a.len() != b.len() {
        return false;
    }
    let mut i: usize = 0;
    while i < a.len()
        invariant
            i <= a.len(),
            a.len() == b.len(),
            forall|j: int| 0 <= j < i ==> a@[j] == b@[j],
        decreases a.len() - i,
    {
        if a[i] != b[i] {
            return false;
        }
        i += 1;
    }
    proof {
        assert(a@ =~= b@);
    }
    true
}

/// The needle occurs in the haystack starting at position `i`.
pub open spec fn matches_at(hay: Seq<u8>, needle: Seq<u8>, i: int) -> bool {
    &&& 0 <= i
    &&& i + needle.len() <= hay.len()
    &&& hay.subrange(i, i + needle.len() as int) == needle
}

/// The needle occurs somewhere in the haystack.
pub open spec fn contains_seq(hay: Seq<u8>, needle: Seq<u8>) -> bool {
    exists|i: int| matches_at(hay, needle, i)
}

/// Substring search: does `needle` occur anywhere in `hay`?
pub fn contains_bytes(hay: &Vec<u8>, needle: &Vec<u8>) -> (r: bool)
    ensures
        r == contains_seq(hay@, needle@),
{
    if needle.len() > hay.len() {
        return false;
    }
    if needle.len() == 0 {
        proof {
            assert(hay@.subrange(0, 0) =~= needle@);
            assert(matches_at(hay@, needle@, 0));
        }
        return true;
    }
    let last_start: usize = hay.len() - needle.len();
    let mut i: usize = 0;
    while i <= last_start
        invariant
            1 <= needle.len() <= hay.len(),
            last_start == hay.len() - needle.len(),
            i <= last_start + 1,
            forall|j: int| 0 <= j < i ==> !matches_at(hay@, needle@, j),
        decreases last_start - i + 1,
    {
        let mut k: usize = 0;
        let mut hit = true;
        while k < needle.len()
            invariant
                i + needle.len() <= hay.len(),
                k <= needle.len(),
                hit ==> forall|m: int| 0 <= m < k ==> hay@[i + m] == needle@[m],
                !hit ==> !matches_at(hay@, needle@, i as int),
            decreases needle.len() - k,
        {
            if hay[i + k] != needle[k] {
                proof {
                    if matches_at(hay@, needle@, i as int) {
                        assert(hay@.subrange(i as int, i + needle@.len())[k as int]
                            == needle@[k as int]);
                    }
                }
                hit = false;
                k = needle.len();
            } else {
                k += 1;
            }
        }
        if hit {
            proof {
                assert(hay@.subrange(i as int, i + needle@.len()) =~= needle@);
                assert(matches_at(hay@, needle@, i as int));
            }
            return true;
        }
        i += 1;
    }
    proof {
        assert forall|j: int| !matches_at(hay@, needle@, j) by {
            if 0 <= j <= last_start {
                assert(!matches_at(hay@, needle@, j));
            }
        }
    }
    false
}

/// Position of the first occurrence of byte `b` in `s` at or after `from`.
pub open spec fn find_byte(s: Seq<u8>, b: u8, from: int) -> Option<int>
    decreases s.len() - from,
{
    if from < 0 || from >= s.len() {
        None
    } else if s[from] == b {
        Some(from)
    } else {
        find_byte(s, b, from + 1)
    }
}

/// Scan for the first occurrence of `b` at or after `from`.
pub fn find_byte_from(s: &Vec<u8>, b: u8, from: usize) -> (r: Option<usize>)
    ensures
        match r {
            Some(i) => from <= i < s.len() && find_byte(s@, b, from as int) == Some(i as int),
            None => find_byte(s@, b, from as int).is_none(),
        },
{
    let mut i: usize = from;
    while i < s.len()
        invariant
            from <= i,
            find_byte(s@, b, from as int) == find_byte(s@, b, i as int),
        decreases s.len() - i,
    {
        if s[i] == b {
            return Some(i);
        }
        i += 1;
    }
    None
}

/// No byte of `s` equals `b`.
pub open spec fn free_of(s: Seq<u8>, b: u8) -> bool {
    forall|i: int| 0 <= i < s.len() ==> (#[trigger] s[i]) != b
}

/// Where the first occurrence of a byte is known pointwise, `find_byte`
/// returns it: nothing before `i` matches, and `i` (when in range) does.
pub proof fn lemma_find_first_at(s: Seq<u8>, b: u8, from: int, i: int)
    requires
        0 <= from <= i <= s.len(),
        forall|j: int| from <= j < i ==> (#[trigger] s[j]) != b,
        i < s.len() ==> s[i] == b,
    ensures
        find_byte(s, b, from) == if i < s.len() {
            Some(i)
        } else {
            None::<int>
        },
    decreases i - from,
{
    if from < i {
        lemma_find_first_at(s, b, from + 1, i);
    }
}

/// Concatenation of `parts` with a single separator byte between
/// consecutive parts; the empty sequence of parts yields empty text.
pub open spec fn join_with(parts: Seq<Seq<u8>>, sep: u8) -> Seq<u8>
    decreases parts.len(),
{
    if parts.len() == 0 {
        Seq::empty()
    } else if parts.len() == 1 {
        parts[0]
    } else {
        parts[0] + seq![sep] + join_with(parts.drop_first(), sep)
    }
}

/// Appending one more part extends the join by a separator and the part.
pub proof fn lemma_join_push(parts: Seq<Seq<u8>>, x: Seq<u8>, sep: u8)
    ensures
        join_with(parts.push(x), sep) == if parts.len() == 0 {
            x
        } else {
            (join_with(parts, sep) + seq![sep] + x)
        },
    decreases parts.len(),
{
    if parts.len() == 0 {
        assert(parts.push(x) =~= seq![x]);
        assert(join_with(seq![x], sep) == x);
    } else {
        assert(parts.push(x).drop_first() =~= parts.drop_first().push(x));
        lemma_join_push(parts.drop_first(), x, sep);
        if parts.len() == 1 {
            assert(parts.drop_first().len() == 0);
            assert(join_with(parts, sep) == parts[0]);
        }
    }
}

/// A join of parts that are free of `b`, with a separator other than
/// `b`, is itself free of `b`.
pub proof fn lemma_join_free(parts: Seq<Seq<u8>>, sep: u8, b: u8)
    requires
        sep != b,
        forall|i: int| 0 <= i < parts.len() ==> free_of(#[trigger] parts[i], b),
    ensures
        free_of(join_with(parts, sep), b),
    decreases parts.len(),
{
    if parts.len() == 0 {
    } else if parts.len() == 1 {
        assert(free_of(parts[0], b));
    } else {
        assert(forall|i: int|
            0 <= i < parts.drop_first().len() ==> free_of(
                #[trigger] parts.drop_first()[i],
                b,
            )) by {
            assert(forall|i: int|
                0 <= i < parts.drop_first().len() ==> parts.drop_first()[i] == parts[i + 1]);
        }
        lemma_join_free(parts.drop_first(), sep, b);
        let head = parts[0];
        let rest = join_with(parts.drop_first(), sep);
        assert(free_of(head, b));
        assert forall|k: int| 0 <= k < join_with(parts, sep).len() implies (#[trigger] join_with(
            parts,
            sep,
        )[k]) != b by {
            let whole = head + seq![sep] + rest;
            assert(join_with(parts, sep) == whole);
            if k < head.len() {
                assert(whole[k] == head[k]);
            } else if k == head.len() {
                assert(whole[k] == sep);
            } else {
                assert(whole[k] == rest[k - head.len() - 1]);
            }
        }
    }
}

/// Join the parts with the separator byte.
pub fn join_bytes(parts: &Vec<Vec<u8>>, sep: u8) -> (r: Vec<u8>)
    ensures
        r@ == join_with(parts@.map_values(|p: Vec<u8>| p@), sep),
{
    let ghost view = parts@.map_values(|p: Vec<u8>| p@);
    let mut r: Vec<u8> = Vec::new();
    let mut i: usize = 0;
    while i < parts.len()
        invariant
            i <= parts.len(),
            view == parts@.map_values(|p: Vec<u8>| p@),
            r@ == join_with(view.take(i as int), sep),
        decreases parts.len() - i,
    {
        if i > 0 {
            r.push(sep);
        }
        let mut k: usize = 0;
        while k < parts[i].len()
            invariant
                i < parts.len(),
                k <= parts@[i as int].len(),
                view == parts@.map_values(|p: Vec<u8>| p@),
                r@ == if i == 0 {
                    view[i as int].take(k as int)
                } else {
                    (join_with(view.take(i as int), sep) + seq![sep] + view[i as int].take(
                        k as int,
                    ))
                },
            decreases parts@[i as int].len() - k,
        {
            let x = parts[i][k];
            r.push(x);
            proof {
                assert(view[i as int].take(k + 1) =~= view[i as int].take(k as int).push(x));
            }
            k += 1;
        }
        proof {
            assert(view[i as int].take(view[i as int].len() as int) =~= view[i as int]);
            assert(view.take(i + 1) =~= view.take(i as int).push(view[i as int]));
            lemma_join_push(view.take(i as int), view[i as int], sep);
        }
        i += 1;
    }
    proof {
        assert(view.take(parts@.len() as int) =~= view);
    }
    r
}

/// Append a copy of `src` to `dst`.
pub fn append_copy(dst: &mut Vec<u8>, src: &Vec<u8>)
    ensures
        final(dst)@ == old(dst)@ + src@,
{
    let mut i: usize = 0;
    while i < src.len()
        invariant
            i <= src.len(),
            dst@ == old(dst)@ + src@.take(i as int),
        decreases src.len() - i,
    {
        let x = src[i];
        dst.push(x);
        proof {
            assert(src@.take(i + 1) =~= src@.take(i as int).push(x));
            assert(dst@ =~= old(dst)@ + src@.take(i + 1));
        }
        i += 1;
    }
    proof {
        assert(src@.take(src@.len() as int) =~= src@);
    }
}

/// The fields obtained by cutting `s` at every separator byte from
/// position `from`, with `cur` the part read so far.
pub open spec fn split_from(s: Seq<u8>, sep: u8, from: int, cur: Seq<u8>) -> Seq<Seq<u8>>
    decreases s.len() - from,
{
    if from < 0 || from >= s.len() {
        seq![cur]
    } else if s[from] == sep {
        seq![cur] + split_from(s, sep, from + 1, Seq::empty())
    } else {
        split_from(s, sep, from + 1, cur.push(s[from]))
    }
}

/// The fields obtained by cutting `s` at every separator byte.
pub open spec fn split_on(s: Seq<u8>, sep: u8) -> Seq<Seq<u8>> {
    split_from(s, sep, 0, Seq::empty())
}

/// Cut `s` at every separator byte.
pub fn split_bytes(s: &Vec<u8>, sep: u8) -> (r: Vec<Vec<u8>>)
    ensures
        r@.map_values(|p: Vec<u8>| p@) == split_on(s@, sep),
{
    let mut out: Vec<Vec<u8>> = Vec::new();
    let mut cur: Vec<u8> = Vec::new();
    proof {
        assert(out@.map_values(|p: Vec<u8>| p@) + split_from(s@, sep, 0, cur@) =~= split_from(
            s@,
            sep,
            0,
            cur@,
        ));
    }
    let mut i: usize = 0;
    while i < s.len()
        invariant
            i <= s.len(),
            split_on(s@, sep) == out@.map_values(|p: Vec<u8>| p@) + split_from(
                s@,
                sep,
                i as int,
                cur@,
            ),
        decreases s.len() - i,
    {
        let b = s[i];
        if b == sep {
            let ghost prev = out@.map_values(|p: Vec<u8>| p@);
            let ghost curv = cur@;
            out.push(cur);
            cur = Vec::new();
            proof {
                assert(out@.map_values(|p: Vec<u8>| p@) =~= prev + seq![curv]);
                assert(prev + seq![curv] + split_from(s@, sep, i + 1, cur@) =~= prev + (seq![curv]
                    + split_from(s@, sep, i + 1, cur@)));
            }
        } else {
            cur.push(b);
        }
        i += 1;
    }
    let ghost prev = out@.map_values(|p: Vec<u8>| p@);
    let ghost curv = cur@;
    out.push(cur);
    proof {
        assert(split_from(s@, sep, s@.len() as int, curv) == seq![curv]);
        assert(out@.map_values(|p: Vec<u8>| p@) =~= prev + seq![curv]);
    }
    out
}

/// `s` with leading whitespace removed.
pub open spec fn trim_start(s: Seq<u8>) -> Seq<u8>
    decreases s.len(),
{
    if s.len() > 0 && is_space(s[0]) {
        trim_start(s.drop_first())
    } else {
        s
    }
}

/// `s` with trailing whitespace removed.
pub open spec fn trim_end(s: Seq<u8>) -> Seq<u8>
    decreases s.len(),
{
    if s.len() > 0 && is_space(s[s.len() - 1]) {
        trim_end(s.drop_last())
    } else {
        s
    }
}

/// `s` with whitespace removed from both ends.
pub open spec fn trim_spec(s: Seq<u8>) -> Seq<u8> {
    trim_end(trim_start(s))
}

/// Copy of `s` with ASCII whitespace removed from both ends.
pub fn trim_bytes(s: &Vec<u8>) -> (r: Vec<u8>)
    ensures
        r@ == trim_spec(s@),
{
    proof {
        assert(s@.subrange(0, s@.len() as int) =~= s@);
    }
    let mut lo: usize = 0;
    while lo < s.len() && byte_is_space(s[lo])
        invariant
            lo <= s.len(),
            trim_start(s@) == trim_start(s@.subrange(lo as int, s@.len() as int)),
        decreases s.len() - lo,
    {
        proof {
            assert(s@.subrange(lo as int, s@.len() as int).drop_first() =~= s@.subrange(
                lo + 1,
                s@.len() as int,
            ));
        }
        lo += 1;
    }
    proof {
        assert(trim_start(s@) =~= s@.subrange(lo as int, s@.len() as int));
    }
    let mut hi: usize = s.len();
    while hi > lo && byte_is_space(s[hi - 1])
        invariant
            lo <= hi <= s.len(),
            trim_start(s@) == s@.subrange(lo as int, s@.len() as int),
            trim_end(trim_start(s@)) == trim_end(s@.subrange(lo as int, hi as int)),
        decreases hi,
    {
        proof {
            assert(s@.subrange(lo as int, hi as int).drop_last() =~= s@.subrange(
                lo as int,
                hi - 1,
            ));
        }
        hi -= 1;
    }
    proof {
        assert(trim_end(s@.subrange(lo as int, hi as int)) =~= s@.subrange(lo as int, hi as int));
    }
    let mut r: Vec<u8> = Vec::new();
    let mut i: usize = lo;
    while i < hi
        invariant
            lo <= i <= hi <= s.len(),
            r@ == s@.subrange(lo as int, i as int),
        decreases hi - i,
    {
        let x = s[i];
        r.push(x);
        proof {
            assert(s@.subrange(lo as int, i + 1) =~= s@.subrange(lo as int, i as int).push(x));
        }
        i += 1;
    }
    proof {
        assert(r@ == s@.subrange(lo as int, hi as int));
    }
    r
}

} // verus!
