//! Byte-level text helpers: ASCII whitespace, substring search, blank-line
//! block splitting, trimming, and last-token extraction. Listings and command
//! arguments are handled as byte sequences; the unverified shell converts
//! them to and from strings at the process boundary.

use vstd::prelude::*;
use vstd::string::StringSliceAdditionalSpecFns;

verus! {

/// ASCII whitespace, as `char::is_whitespace` classifies the ASCII range:
/// tab, line feed, vertical tab, form feed, carriage return, space.
pub open spec fn is_ws_byte(b: u8) -> bool {
    b == 9 || b == 10 || b == 11 || b == 12 || b == 13 || b == 32
}

/// Runtime test for `is_ws_byte`.
pub fn ws_byte(b: u8) -> (r: bool)
    ensures
        r == is_ws_byte(b),
{
    b == 9 || b == 10 || b == 11 || b == 12 || b == 13 || b == 32
}

/// The views of a sequence of byte vectors.
pub open spec fn seq_views(v: Seq<Vec<u8>>) -> Seq<Seq<u8>> {
    Seq::new(v.len(), |i: int| v[i]@)
}

/// `needle` occurs contiguously somewhere in `hay`.
pub open spec fn contains_seq(hay: Seq<u8>, needle: Seq<u8>) -> bool {
    exists|i: int|
        0 <= i && i + needle.len() <= hay.len() && #[trigger] hay.subrange(
            i,
            i + needle.len() as int,
        ) == needle
}

/// Substring search by scanning every starting offset.
pub fn contains_bytes(hay: &[u8], needle: &[u8]) -> (r: bool)
    ensures
        r == contains_seq(hay@, needle@),
{
    if needle.len() > hay.len() {
        assert(!contains_seq(hay@, needle@));
        return false;
    }
    let mut i: usize = 0;
    while i <= hay.len() - needle.len()
        invariant
            needle.len() <= hay.len(),
            i <= hay.len() - needle.len() + 1,
            forall|m: int|
                0 <= m < i ==> #[trigger] hay@.subrange(m, m + needle@.len() as int) != needle@,
        decreases hay.len() - i,
    {
        let mut j: usize = 0;
        while j < needle.len() && hay[i + j] == needle[j]
            invariant
                i + needle.len() <= hay.len(),
                j <= needle.len(),
                forall|m: int| 0 <= m < j ==> hay@[i + m] == needle@[m],
            decreases needle.len() - j,
        {
            j += 1;
        }
        if j == needle.len() {
            assert(hay@.subrange(i as int, i + needle@.len() as int) =~= needle@);
            assert(contains_seq(hay@, needle@));
            return true;
        }
        assert(hay@.subrange(i as int, i + needle@.len() as int) != needle@) by {
            assert(hay@.subrange(i as int, i + needle@.len() as int)[j as int] == hay@[i + j]);
        }
        i += 1;
    }
    assert forall|m: int| !(0 <= m && m + needle@.len() <= hay@.len() && #[trigger] hay@.subrange(
        m,
        m + needle@.len() as int,
    ) == needle@) by {
        if 0 <= m && m + needle@.len() <= hay@.len() {
            assert(m < i);
        }
    }
    false
}

/// A listing splits on each blank line (two consecutive line feeds) into
/// blocks, leftmost separator first; the result always has at least one
/// (possibly empty) block.
pub open spec fn split_blocks(s: Seq<u8>) -> Seq<Seq<u8>>
    decreases s.len(),
{
    if s.len() >= 2 && s[0] == 10 && s[1] == 10 {
        seq![Seq::<u8>::empty()] + split_blocks(s.skip(2))
    } else if s.len() == 0 {
        seq![Seq::<u8>::empty()]
    } else {
        let rest = split_blocks(s.skip(1));
        seq![seq![s[0]] + rest[0]] + rest.skip(1)
    }
}

pub proof fn lemma_split_blocks_nonempty(s: Seq<u8>)
    ensures
        split_blocks(s).len() >= 1,
    decreases s.len(),
{
    if s.len() >= 2 && s[0] == 10 && s[1] == 10 {
    } else if s.len() == 0 {
    } else {
        lemma_split_blocks_nonempty(s.skip(1));
    }
}

/// The first block extended at the front by `p`, other blocks unchanged.
pub open spec fn prepend_first(p: Seq<u8>, bs: Seq<Seq<u8>>) -> Seq<Seq<u8>>
    recommends
        bs.len() >= 1,
{
    seq![p + bs[0]] + bs.skip(1)
}

/// Splits `s` into its blank-line-separated blocks.
pub fn split_on_blank_lines(s: &[u8]) -> (r: Vec<Vec<u8>>)
    ensures
        seq_views(r@) == split_blocks(s@),
{
    let mut done: Vec<Vec<u8>> = Vec::new();
    let mut cur: Vec<u8> = Vec::new();
    let mut i: usize = 0;
    proof {
        assert(s@.skip(0) =~= s@);
        assert(prepend_first(cur@, split_blocks(s@)) =~= split_blocks(s@)) by {
            lemma_split_blocks_nonempty(s@);
            assert(cur@ + split_blocks(s@)[0] =~= split_blocks(s@)[0]);
        }
        assert(seq_views(done@) + prepend_first(cur@, split_blocks(s@.skip(0))) =~= split_blocks(
            s@,
        ));
    }
    while i < s.len()
        invariant
            i <= s.len(),
            seq_views(done@) + prepend_first(cur@, split_blocks(s@.skip(i as int))) == split_blocks(
                s@,
            ),
        decreases s.len() - i,
    {
        let ghost tail = s@.skip(i as int);
        proof {
            lemma_split_blocks_nonempty(tail);
        }
        if i + 1 < s.len() && s[i] == 10 && s[i + 1] == 10 {
            proof {
                assert(tail.len() >= 2);
                assert(tail[0] == 10 && tail[1] == 10);
                assert(tail.skip(2) =~= s@.skip(i + 2));
                assert(split_blocks(tail) == seq![Seq::<u8>::empty()] + split_blocks(
                    s@.skip(i + 2),
                ));
                lemma_split_blocks_nonempty(s@.skip(i + 2));
                assert(prepend_first(cur@, split_blocks(tail)) =~= seq![cur@] + split_blocks(
                    s@.skip(i + 2),
                )) by {
                    assert((seq![Seq::<u8>::empty()] + split_blocks(s@.skip(i + 2))).skip(1)
                        =~= split_blocks(s@.skip(i + 2)));
                    assert(cur@ + Seq::<u8>::empty() =~= cur@);
                }
            }
            done.push(cur);
            cur = Vec::new();
            proof {
                assert(seq_views(done@) =~= seq_views(done@.drop_last()).push(
                    done@.last()@,
                ));
                lemma_split_blocks_nonempty(s@.skip(i + 2));
                assert(prepend_first(cur@, split_blocks(s@.skip(i + 2))) =~= split_blocks(
                    s@.skip(i + 2),
                )) by {
                    assert(cur@ + split_blocks(s@.skip(i + 2))[0] =~= split_blocks(
                        s@.skip(i + 2),
                    )[0]);
                }
                assert(seq_views(done@) + prepend_first(cur@, split_blocks(s@.skip(i + 2)))
                    =~= split_blocks(s@));
            }
            i += 2;
        } else {
            proof {
                assert(tail.len() >= 1);
                assert(tail[0] == s@[i as int]);
                let rest = split_blocks(tail.skip(1));
                assert(tail.skip(1) =~= s@.skip(i + 1));
                assert(!(tail.len() >= 2 && tail[0] == 10 && tail[1] == 10)) by {
                    if tail.len() >= 2 {
                        assert(tail[1] == s@[i + 1]);
                    }
                }
                assert(split_blocks(tail) == seq![seq![tail[0]] + rest[0]] + rest.skip(1));
                lemma_split_blocks_nonempty(tail.skip(1));
                assert(prepend_first(cur@, split_blocks(tail)) =~= prepend_first(
                    cur@.push(s@[i as int]),
                    split_blocks(s@.skip(i + 1)),
                )) by {
                    assert(cur@ + (seq![tail[0]] + rest[0]) =~= cur@.push(s@[i as int])
                        + split_blocks(s@.skip(i + 1))[0]);
                    assert((seq![seq![tail[0]] + rest[0]] + rest.skip(1)).skip(1) =~= split_blocks(
                        s@.skip(i + 1),
                    ).skip(1));
                }
            }
            let b = s[i];
            cur.push(b);
            i += 1;
        }
        proof {
            assert(seq_views(done@) + prepend_first(cur@, split_blocks(s@.skip(i as int)))
                =~= split_blocks(s@));
        }
    }
    proof {
        assert(s@.skip(i as int) =~= Seq::<u8>::empty());
        assert(split_blocks(s@.skip(i as int)) == seq![Seq::<u8>::empty()]);
        assert(prepend_first(cur@, seq![Seq::<u8>::empty()]) =~= seq![cur@]) by {
            assert(cur@ + Seq::<u8>::empty() =~= cur@);
        }
    }
    done.push(cur);
    proof {
        assert(seq_views(done@) =~= seq_views(done@.drop_last()) + seq![done@.last()@]);
    }
    done
}

/// `s` with every trailing ASCII-whitespace byte removed.
pub open spec fn strip_trailing_ws(s: Seq<u8>) -> Seq<u8>
    decreases s.len(),
{
    if s.len() == 0 {
        s
    } else if is_ws_byte(s.last()) {
        strip_trailing_ws(s.drop_last())
    } else {
        s
    }
}

/// `s` with every leading ASCII-whitespace byte removed.
pub open spec fn strip_leading_ws(s: Seq<u8>) -> Seq<u8>
    decreases s.len(),
{
    if s.len() == 0 {
        s
    } else if is_ws_byte(s[0]) {
        strip_leading_ws(s.skip(1))
    } else {
        s
    }
}

/// `s` trimmed of ASCII whitespace on both ends.
pub open spec fn trim_spec(s: Seq<u8>) -> Seq<u8> {
    strip_leading_ws(strip_trailing_ws(s))
}

/// The maximal run of non-whitespace bytes at the end of `s`.
pub open spec fn trailing_token(s: Seq<u8>) -> Seq<u8>
    decreases s.len(),
{
    if s.len() == 0 || is_ws_byte(s.last()) {
        Seq::empty()
    } else {
        trailing_token(s.drop_last()).push(s.last())
    }
}

/// The last whitespace-separated token of `s`, or the empty sequence when `s`
/// holds no non-whitespace byte.
pub open spec fn last_token_spec(s: Seq<u8>) -> Seq<u8> {
    trailing_token(strip_trailing_ws(s))
}

/// Extracts the last whitespace-separated token of `b`.
pub fn last_token(b: &[u8]) -> (r: Vec<u8>)
    ensures
        r@ == last_token_spec(b@),
{
    let mut j: usize = b.len();
    proof {
        assert(b@.take(j as int) =~= b@);
    }
    while j > 0 && ws_byte(b[j - 1])
        invariant
            j <= b.len(),
            strip_trailing_ws(b@) == strip_trailing_ws(b@.take(j as int)),
        decreases j,
    {
        proof {
            let t = b@.take(j as int);
            assert(t.last() == b@[j - 1]);
            assert(t.drop_last() =~= b@.take(j - 1));
        }
        j -= 1;
    }
    proof {
        let t = b@.take(j as int);
        if j == 0 {
            assert(t =~= Seq::<u8>::empty());
            assert(strip_trailing_ws(t) == t);
        } else {
            assert(t.last() == b@[j - 1]);
            assert(strip_trailing_ws(t) == t);
        }
        assert(strip_trailing_ws(b@) == b@.take(j as int));
    }
    let mut k: usize = j;
    proof {
        assert(trailing_token(b@.take(j as int)) =~= trailing_token(b@.take(k as int))
            + b@.subrange(k as int, j as int));
    }
    while k > 0 && !ws_byte(b[k - 1])
        invariant
            k <= j <= b.len(),
            strip_trailing_ws(b@) == b@.take(j as int),
            trailing_token(b@.take(j as int)) == trailing_token(b@.take(k as int)) + b@.subrange(
                k as int,
                j as int,
            ),
        decreases k,
    {
        proof {
            let t = b@.take(k as int);
            assert(t.last() == b@[k - 1]);
            assert(t.drop_last() =~= b@.take(k - 1));
            assert(trailing_token(t) == trailing_token(b@.take(k - 1)).push(b@[k - 1]));
            assert(trailing_token(b@.take(k - 1)) + b@.subrange(k - 1, j as int)
                =~= trailing_token(t) + b@.subrange(k as int, j as int));
        }
        k -= 1;
    }
    proof {
        let t = b@.take(k as int);
        if k == 0 {
            assert(t =~= Seq::<u8>::empty());
            assert(trailing_token(t) == Seq::<u8>::empty());
        } else {
            assert(t.last() == b@[k - 1]);
            assert(trailing_token(t) == Seq::<u8>::empty());
        }
        assert(trailing_token(b@.take(j as int)) =~= b@.subrange(k as int, j as int));
    }
    let mut out: Vec<u8> = Vec::new();
    let mut idx: usize = k;
    while idx < j
        invariant
            k <= idx <= j <= b.len(),
            out@ == b@.subrange(k as int, idx as int),
        decreases j - idx,
    {
        let v = b[idx];
        out.push(v);
        proof {
            assert(b@.subrange(k as int, idx + 1) =~= b@.subrange(k as int, idx as int).push(
                b@[idx as int],
            ));
        }
        idx += 1;
    }
    out
}

/// Trims ASCII whitespace from both ends of `b`.
pub fn trim_ascii_ws(b: &[u8]) -> (r: Vec<u8>)
    ensures
        r@ == trim_spec(b@),
{
    let mut hi: usize = b.len();
    proof {
        assert(b@.take(hi as int) =~= b@);
    }
    while hi > 0 && ws_byte(b[hi - 1])
        invariant
            hi <= b.len(),
            strip_trailing_ws(b@) == strip_trailing_ws(b@.take(hi as int)),
        decreases hi,
    {
        proof {
            let t = b@.take(hi as int);
            assert(t.last() == b@[hi - 1]);
            assert(t.drop_last() =~= b@.take(hi - 1));
        }
        hi -= 1;
    }
    proof {
        let t = b@.take(hi as int);
        if hi == 0 {
            assert(t =~= Seq::<u8>::empty());
        } else {
            assert(t.last() == b@[hi - 1]);
        }
        assert(strip_trailing_ws(b@) == b@.take(hi as int));
    }
    let mut lo: usize = 0;
    proof {
        assert(b@.subrange(lo as int, hi as int) =~= b@.take(hi as int));
    }
    while lo < hi && ws_byte(b[lo])
        invariant
            lo <= hi <= b.len(),
            strip_trailing_ws(b@) == b@.take(hi as int),
            strip_leading_ws(b@.take(hi as int)) == strip_leading_ws(
                b@.subrange(lo as int, hi as int),
            ),
        decreases hi - lo,
    {
        proof {
            let t = b@.subrange(lo as int, hi as int);
            assert(t[0] == b@[lo as int]);
            assert(t.skip(1) =~= b@.subrange(lo + 1, hi as int));
        }
        lo += 1;
    }
    proof {
        let t = b@.subrange(lo as int, hi as int);
        if lo == hi {
            assert(t =~= Seq::<u8>::empty());
            assert(strip_leading_ws(t) == t);
        } else {
            assert(t[0] == b@[lo as int]);
            assert(strip_leading_ws(t) == t);
        }
        assert(trim_spec(b@) == b@.subrange(lo as int, hi as int));
    }
    let mut out: Vec<u8> = Vec::new();
    let mut idx: usize = lo;
    while idx < hi
        invariant
            lo <= idx <= hi <= b.len(),
            out@ == b@.subrange(lo as int, idx as int),
        decreases hi - idx,
    {
        let v = b[idx];
        out.push(v);
        proof {
            assert(b@.subrange(lo as int, idx + 1) =~= b@.subrange(lo as int, idx as int).push(
                b@[idx as int],
            ));
        }
        idx += 1;
    }
    out
}

/// The UTF-8 bytes of a string, as a fresh vector.
pub fn bytes_of_str(s: &str) -> (r: Vec<u8>)
    ensures
        r@ == s.spec_bytes(),
{
    vstd::slice::slice_to_vec(s.as_bytes())
}

} // verus!

