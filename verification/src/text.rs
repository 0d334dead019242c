//! Character-level text helpers: newline search, prefix stripping, and the
//! lemmas that relate them to concatenation.

use vstd::prelude::*;
use vstd::string::StrSliceExecFns;

verus! {

/// Holds when the text contains no line break.
pub open spec fn no_newline(s: Seq<char>) -> bool {
    forall|i: int| 0 <= i < s.len() ==> s[i] != '\n'
}

/// Index of the first line break in the text, or -1 if there is none.
pub open spec fn find_newline(t: Seq<char>) -> int
    decreases t.len(),
{
    if t.len() == 0 {
        -1
    } else if t[0] == '\n' {
        0
    } else if find_newline(t.drop_first()) == -1 {
        -1
    } else {
        1 + find_newline(t.drop_first())
    }
}

/// The first line of the text and everything after its line break.
pub open spec fn split_line(t: Seq<char>) -> Option<(Seq<char>, Seq<char>)> {
    let k = find_newline(t);
    if k == -1 {
        None
    } else {
        Some((t.take(k), t.skip(k + 1)))
    }
}

/// The text with the given prefix removed, if the prefix is there.
pub open spec fn strip_prefix(t: Seq<char>, prefix: Seq<char>) -> Option<Seq<char>> {
    if t.len() >= prefix.len() && t.take(prefix.len() as int) == prefix {
        Some(t.skip(prefix.len() as int))
    } else {
        None
    }
}

/// `find_newline` finds the least index holding a line break, and -1 exactly
/// when there is none.
pub proof fn lemma_find_newline(t: Seq<char>)
    ensures
        find_newline(t) == -1 ==> no_newline(t),
        find_newline(t) != -1 ==> 0 <= find_newline(t) < t.len() && t[find_newline(t)] == '\n'
            && no_newline(t.take(find_newline(t))),
    decreases t.len(),
{
    if t.len() == 0 {
    } else if t[0] == '\n' {
        assert(t.take(0) =~= Seq::<char>::empty());
    } else {
        lemma_find_newline(t.drop_first());
        let k = find_newline(t.drop_first());
        if k == -1 {
            assert forall|i: int| 0 <= i < t.len() implies t[i] != '\n' by {
                if i > 0 {
                    assert(t.drop_first()[i - 1] == t[i]);
                }
            }
        } else {
            assert(t[1 + k] == t.drop_first()[k]);
            assert forall|i: int| 0 <= i < 1 + k implies #[trigger] t.take(1 + k)[i] != '\n' by {
                if i > 0 {
                    assert(t.drop_first().take(k)[i - 1] == t[i]);
                }
            }
        }
    }
}

/// In `x + '\n' + r` with `x` free of line breaks, the first line break
/// stands exactly after `x`.
pub proof fn lemma_find_newline_concat(x: Seq<char>, r: Seq<char>)
    requires
        no_newline(x),
    ensures
        find_newline(x + seq!['\n'] + r) == x.len(),
    decreases x.len(),
{
    let t = x + seq!['\n'] + r;
    if x.len() == 0 {
        assert(t[0] == '\n');
    } else {
        assert(t[0] == x[0]);
        assert(no_newline(x.drop_first()));
        lemma_find_newline_concat(x.drop_first(), r);
        assert(t.drop_first() =~= x.drop_first() + seq!['\n'] + r);
    }
}

/// Splitting `x + '\n' + r` at the first line break gives back `x` and `r`.
pub proof fn lemma_split_line_concat(x: Seq<char>, r: Seq<char>)
    requires
        no_newline(x),
    ensures
        split_line(x + seq!['\n'] + r) == Some((x, r)),
{
    let t = x + seq!['\n'] + r;
    lemma_find_newline_concat(x, r);
    assert(t.take(x.len() as int) =~= x);
    assert(t.skip(x.len() as int + 1) =~= r);
}

/// Stripping a prefix from `p + v` gives back `v`.
pub proof fn lemma_strip_prefix_concat(p: Seq<char>, v: Seq<char>)
    ensures
        strip_prefix(p + v, p) == Some(v),
{
    let t = p + v;
    assert(t.take(p.len() as int) =~= p);
    assert(t.skip(p.len() as int) =~= v);
}

/// Character-by-character string equality.
pub fn str_eq(a: &str, b: &str) -> (r: bool)
    ensures
        r == (a@ == b@),
{
    let alen = a.unicode_len();
    let blen = b.unicode_len();
    if alen != blen {
        return false;
    }
    let mut i: usize = 0;
    while i < alen
        invariant
            i <= alen,
            alen == a@.len(),
            alen == b@.len(),
            forall|j: int| 0 <= j < i ==> a@[j] == b@[j],
        decreases alen - i,
    {
        if a.get_char(i) != b.get_char(i) {
            return false;
        }
        i = i + 1;
    }
    proof {
        assert(a@ =~= b@);
    }
    true
}

/// Index of the first line break at or after `pos`, if any.
pub fn find_newline_from(s: &str, pos: usize) -> (r: Option<usize>)
    requires
        pos <= s@.len(),
    ensures
        match r {
            Some(k) => pos <= k < s@.len() && find_newline(s@.skip(pos as int)) == k - pos,
            None => find_newline(s@.skip(pos as int)) == -1,
        },
{
    let ghost t = s@.skip(pos as int);
    let len = s.unicode_len();
    let mut i: usize = pos;
    while i < len
        invariant
            pos <= i <= len,
            len == s@.len(),
            t == s@.skip(pos as int),
            forall|j: int| 0 <= j < i - pos ==> t[j] != '\n',
        decreases len - i,
    {
        let c = s.get_char(i);
        if c == '\n' {
            proof {
                lemma_find_newline(t);
                assert(t[i - pos] == s@[i as int]);
                let k = find_newline(t);
                if k == -1 {
                    assert(t[i - pos] != '\n');
                } else {
                    if k < i - pos {
                        assert(t.take(i - pos)[k] != '\n') by {
                            assert(forall|j: int| 0 <= j < i - pos ==> t[j] != '\n');
                        }
                        assert(false);
                    }
                    if k > i - pos {
                        assert(t.take(k)[i - pos] == t[i - pos]);
                        assert(false);
                    }
                }
            }
            return Some(i);
        }
        proof {
            assert(t[i - pos] == s@[i as int]);
        }
        i = i + 1;
    }
    proof {
        assert forall|j: int| 0 <= j < t.len() implies t[j] != '\n' by {}
        lemma_find_newline(t);
        if find_newline(t) != -1 {
            assert(t[find_newline(t)] == '\n');
        }
    }
    None
}

/// The rest of the line after the given prefix, if the line starts with it.
pub fn strip_prefix_str(line: &str, prefix: &str) -> (r: Option<String>)
    ensures
        match r {
            Some(v) => strip_prefix(line@, prefix@) == Some(v@),
            None => strip_prefix(line@, prefix@) is None,
        },
{
    let llen = line.unicode_len();
    let plen = prefix.unicode_len();
    if llen < plen {
        return None;
    }
    let head = line.substring_char(0, plen);
    if !str_eq(head, prefix) {
        return None;
    }
    proof {
        assert(line@.take(plen as int) =~= line@.subrange(0, plen as int));
    }
    let tail = line.substring_char(plen, llen);
    let owned = tail.to_owned();
    proof {
        assert(line@.skip(plen as int) =~= line@.subrange(plen as int, llen as int));
    }
    Some(owned)
}

} // verus!
