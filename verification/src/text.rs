//! Verified byte-string helpers for the level parser: splitting on a
//! separator and trimming ASCII whitespace.

use vstd::prelude::*;

verus! {

/// ASCII whitespace: space, tab, line feed, vertical tab, form feed,
/// carriage return.
pub open spec fn is_space(c: u8) -> bool {
    c == 32 || 9 <= c <= 13
}

/// Splitting on a separator, from the front: the empty string yields one
/// empty piece, a leading separator prepends an empty piece, any other
/// leading byte extends the first piece.
pub open spec fn split_spec(s: Seq<u8>, sep: u8) -> Seq<Seq<u8>>
    decreases s.len(),
{
    if s.len() == 0 {
        seq![Seq::empty()]
    } else if s.first() == sep {
        seq![Seq::<u8>::empty()] + split_spec(s.drop_first(), sep)
    } else {
        let rest = split_spec(s.drop_first(), sep);
        seq![seq![s.first()] + rest.first()] + rest.drop_first()
    }
}

pub proof fn lemma_split_nonempty(s: Seq<u8>, sep: u8)
    ensures
        split_spec(s, sep).len() >= 1,
    decreases s.len(),
{
    if s.len() > 0 {
        lemma_split_nonempty(s.drop_first(), sep);
    }
}

/// Splits a byte string on a separator; piece `i` of the result is piece
/// `i` of `split_spec`.
pub fn split_bytes(s: &Vec<u8>, sep: u8) -> (r: Vec<Vec<u8>>)
    ensures
        r@.len() == split_spec(s@, sep).len(),
        forall|i: int| 0 <= i < r@.len() ==> #[trigger] r@[i]@ == split_spec(s@, sep)[i],
{
    let ghost whole = split_spec(s@, sep);
    let mut parts: Vec<Vec<u8>> = Vec::new();
    let mut piece: Vec<u8> = Vec::new();
    let n = s.len();
    proof {
        assert(s@.skip(0) =~= s@);
    }
    for i in 0..n
        invariant
            n == s@.len(),
            whole == split_spec(s@, sep),
            parts@.len() + split_spec(s@.skip(i as int), sep).len() == whole.len(),
            forall|j: int| 0 <= j < parts@.len() ==> #[trigger] parts@[j]@ == whole[j],
            piece@ + split_spec(s@.skip(i as int), sep).first() == whole[
                parts@.len() as int],
            forall|j: int| parts@.len() < j < whole.len() ==> #[trigger] whole[j]
                == split_spec(s@.skip(i as int), sep)[j - parts@.len()],
    {
        proof {
            lemma_split_nonempty(s@.skip(i as int), sep);
            assert(s@.skip(i as int).len() > 0);
            assert(s@.skip(i as int).first() == s@[i as int]);
            assert(s@.skip(i as int).drop_first() =~= s@.skip(i + 1));
        }
        let c = s[i];
        if c == sep {
            let ghost rest = split_spec(s@.skip(i as int), sep);
            let ghost rest2 = split_spec(s@.skip(i + 1), sep);
            proof {
                assert(rest =~= seq![Seq::<u8>::empty()] + rest2);
                assert(rest.first() =~= Seq::<u8>::empty());
                assert(piece@ + rest.first() =~= piece@);
                lemma_split_nonempty(s@.skip(i + 1), sep);
            }
            parts.push(piece);
            piece = Vec::new();
            proof {
                assert(piece@ + rest2.first() =~= rest2.first());
                assert(rest2.first() == rest[1]);
                assert(forall|j: int| 0 < j < rest2.len() ==> #[trigger] rest2[j] == rest[
                    j + 1]);
                assert(piece@ + rest2.first() == whole[parts@.len() as int]);
                assert(forall|j: int| parts@.len() < j < whole.len() ==> #[trigger] whole[j]
                    == rest2[j - parts@.len()]);
            }
        } else {
            let ghost rest = split_spec(s@.skip(i as int), sep);
            let ghost rest2 = split_spec(s@.skip(i + 1), sep);
            let ghost oldpiece = piece@;
            piece.push(c);
            proof {
                assert(rest =~= seq![seq![s@[i as int]] + rest2.first()] + rest2.drop_first());
                assert(rest.first() =~= seq![s@[i as int]] + rest2.first());
                assert(piece@ + rest2.first() =~= oldpiece + rest.first());
                assert(rest.len() == rest2.len());
                assert(forall|j: int| 0 < j < rest2.len() ==> #[trigger] rest2[j] == rest[j]);
                assert(piece@ + rest2.first() == whole[parts@.len() as int]);
                assert(forall|j: int| parts@.len() < j < whole.len() ==> #[trigger] whole[j]
                    == rest2[j - parts@.len()]);
            }
        }
    }
    proof {
        let rest = split_spec(s@.skip(n as int), sep);
        assert(s@.skip(n as int) =~= Seq::<u8>::empty());
        assert(rest =~= seq![Seq::<u8>::empty()]);
        assert(piece@ + rest.first() =~= piece@);
    }
    parts.push(piece);
    parts
}

/// Trimming from the front: drop leading whitespace.
pub open spec fn trim_front_spec(s: Seq<u8>) -> Seq<u8>
    decreases s.len(),
{
    if s.len() > 0 && is_space(s.first()) {
        trim_front_spec(s.drop_first())
    } else {
        s
    }
}

/// Trimming from the back: drop trailing whitespace.
pub open spec fn trim_back_spec(s: Seq<u8>) -> Seq<u8>
    decreases s.len(),
{
    if s.len() > 0 && is_space(s.last()) {
        trim_back_spec(s.drop_last())
    } else {
        s
    }
}

/// ASCII whitespace trimmed from both ends.
pub open spec fn trim_spec(s: Seq<u8>) -> Seq<u8> {
    trim_back_spec(trim_front_spec(s))
}

proof fn lemma_trim_front_skip(s: Seq<u8>, k: int)
    requires
        0 <= k <= s.len(),
        forall|i: int| 0 <= i < k ==> is_space(#[trigger] s[i]),
        k < s.len() ==> !is_space(s[k]),
    ensures
        trim_front_spec(s) == s.skip(k),
    decreases k,
{
    if k == 0 {
        assert(s.skip(0) =~= s);
    } else {
        assert(is_space(s.first()));
        lemma_trim_front_skip(s.drop_first(), k - 1);
        assert(s.drop_first().skip(k - 1) =~= s.skip(k));
    }
}

proof fn lemma_trim_back_take(s: Seq<u8>, k: int)
    requires
        0 <= k <= s.len(),
        forall|i: int| k <= i < s.len() ==> is_space(#[trigger] s[i]),
        k > 0 ==> !is_space(s[k - 1]),
    ensures
        trim_back_spec(s) == s.take(k),
    decreases s.len() - k,
{
    if k == s.len() as int {
        if s.len() > 0 {
            assert(s.take(k) =~= s);
        } else {
            assert(s.take(0) =~= s);
        }
    } else {
        assert(is_space(s.last()));
        lemma_trim_back_take(s.drop_last(), k);
        assert(s.drop_last().take(k) =~= s.take(k));
    }
}

fn is_space_exec(c: u8) -> (r: bool)
    ensures
        r == is_space(c),
{
    c == 32 || (9 <= c && c <= 13)
}

/// ASCII whitespace trimmed from both ends of a byte string.
pub fn trim_bytes(s: &Vec<u8>) -> (r: Vec<u8>)
    ensures
        r@ == trim_spec(s@),
{
    let mut start: usize = 0;
    while start < s.len() && is_space_exec(s[start])
        invariant
            0 <= start <= s@.len(),
            forall|i: int| 0 <= i < start ==> is_space(#[trigger] s@[i]),
        decreases s@.len() - start,
    {
        start = start + 1;
    }
    proof {
        lemma_trim_front_skip(s@, start as int);
    }
    let ghost front = s@.skip(start as int);
    let mut end: usize = s.len();
    while end > start && is_space_exec(s[end - 1])
        invariant
            start <= end <= s@.len(),
            forall|i: int| end <= i < s@.len() ==> is_space(#[trigger] s@[i]),
        decreases end,
    {
        end = end - 1;
    }
    proof {
        assert(forall|i: int| end - start <= i < front.len() ==> is_space(
            #[trigger] front[i]));
        lemma_trim_back_take(front, end - start);
    }
    let mut out: Vec<u8> = Vec::new();
    let mut i = start;
    while i < end
        invariant
            start <= i <= end <= s@.len(),
            out@ =~= s@.subrange(start as int, i as int),
        decreases end - i,
    {
        out.push(s[i]);
        proof {
            assert(out@ =~= s@.subrange(start as int, i + 1));
        }
        i = i + 1;
    }
    proof {
        assert(front.take(end - start) =~= s@.subrange(start as int, end as int));
    }
    out
}

} // verus!
