//! Splitting of character sequences, the only string surgery the header
//! parser needs.

use vstd::prelude::*;

verus! {

/// The remaining pieces of `s` split on `sep`, with `cur` the piece that is
/// already under construction. Splitting never drops characters: an empty
/// input yields one empty piece, and `n` separators yield `n + 1` pieces.
pub open spec fn split_acc(s: Seq<char>, cur: Seq<char>, sep: char) -> Seq<Seq<char>>
    decreases s.len(),
{
    if s.len() == 0 {
        seq![cur]
    } else if s[0] == sep {
        seq![cur] + split_acc(s.skip(1), Seq::empty(), sep)
    } else {
        split_acc(s.skip(1), cur.push(s[0]), sep)
    }
}

/// The pieces of `s` split on `sep`.
pub open spec fn split_chars(s: Seq<char>, sep: char) -> Seq<Seq<char>> {
    split_acc(s, Seq::empty(), sep)
}

/// Scanning separator-free text only lengthens the piece under construction.
pub proof fn lemma_split_acc_clean(a: Seq<char>, b: Seq<char>, cur: Seq<char>, sep: char)
    requires
        forall|i: int| 0 <= i < a.len() ==> a[i] != sep,
    ensures
        split_acc(a + b, cur, sep) == split_acc(b, cur + a, sep),
    decreases a.len(),
{
    if a.len() == 0 {
        assert(a + b =~= b);
        assert(cur + a =~= cur);
    } else {
        let s = a + b;
        assert(s.len() > 0);
        assert(s[0] == a[0]);
        assert(s[0] != sep);
        assert(s.skip(1) =~= a.skip(1) + b);
        assert(forall|i: int| 0 <= i < a.skip(1).len() ==> a.skip(1)[i] == a[i + 1] && a.skip(1)[i]
            != sep);
        lemma_split_acc_clean(a.skip(1), b, cur.push(a[0]), sep);
        assert(cur.push(a[0]) + a.skip(1) =~= cur + a);
    }
}

/// Splitting separator-free text yields that text as the one piece.
pub proof fn lemma_split_clean(s: Seq<char>, sep: char)
    requires
        forall|i: int| 0 <= i < s.len() ==> s[i] != sep,
    ensures
        split_chars(s, sep) == seq![s],
    decreases s.len(),
{
    lemma_split_acc_clean(s, Seq::empty(), Seq::empty(), sep);
    assert(s + Seq::<char>::empty() =~= s);
    assert(Seq::<char>::empty() + s =~= s);
    assert(split_acc(Seq::empty(), s, sep) == seq![s]);
}

/// Splitting around one separator that the left side does not contain cuts
/// exactly there.
pub proof fn lemma_split_at_sep(a: Seq<char>, b: Seq<char>, sep: char)
    requires
        forall|i: int| 0 <= i < a.len() ==> a[i] != sep,
    ensures
        split_chars(a + seq![sep] + b, sep) == seq![a] + split_chars(b, sep),
{
    assert(a + seq![sep] + b =~= a + (seq![sep] + b));
    lemma_split_acc_clean(a, seq![sep] + b, Seq::empty(), sep);
    assert(Seq::<char>::empty() + a =~= a);
    let m = seq![sep] + b;
    assert(m[0] == sep);
    assert(m.skip(1) =~= b);
    assert(split_acc(m, a, sep) == seq![a] + split_acc(b, Seq::empty(), sep));
}

/// Splits `s` on `sep`, keeping empty pieces, as the provider's header
/// format requires.
pub fn split_str(s: &str, sep: char) -> (r: Vec<String>)
    ensures
        r.deep_view() == split_chars(s@, sep),
{
    let len = s.unicode_len();
    let mut parts: Vec<String> = Vec::new();
    let mut start: usize = 0;
    let mut i: usize = 0;
    proof {
        assert(s@.skip(0) =~= s@);
        assert(s@.subrange(0, 0) =~= Seq::<char>::empty());
        assert(parts.deep_view() + split_acc(s@, Seq::empty(), sep) =~= split_chars(s@, sep));
    }
    while i < len
        invariant
            start <= i <= len,
            len == s@.len(),
            split_chars(s@, sep) == parts.deep_view() + split_acc(
                s@.skip(i as int),
                s@.subrange(start as int, i as int),
                sep,
            ),
        decreases len - i,
    {
        let c = s.get_char(i);
        if c == sep {
            let piece = s.substring_char(start, i).to_owned();
            let ghost prev = parts.deep_view();
            parts.push(piece);
            proof {
                assert(parts.deep_view() =~= prev.push(piece@));
                assert(s@.skip(i as int)[0] == sep);
                assert(s@.skip(i as int).skip(1) =~= s@.skip(i + 1));
                assert(s@.subrange(i + 1, i + 1) =~= Seq::<char>::empty());
                assert(prev.push(piece@) + split_acc(s@.skip(i + 1), Seq::empty(), sep) =~= prev
                    + (seq![piece@] + split_acc(s@.skip(i + 1), Seq::empty(), sep)));
            }
            start = i + 1;
        } else {
            proof {
                assert(s@.skip(i as int)[0] == s@[i as int]);
                assert(s@.skip(i as int).skip(1) =~= s@.skip(i + 1));
                assert(s@.subrange(start as int, i as int).push(s@[i as int]) =~= s@.subrange(
                    start as int,
                    i + 1,
                ));
            }
        }
        i = i + 1;
    }
    let piece = s.substring_char(start, len).to_owned();
    let ghost prev = parts.deep_view();
    parts.push(piece);
    proof {
        assert(s@.skip(len as int) =~= Seq::<char>::empty());
        assert(parts.deep_view() =~= prev.push(piece@));
        assert(prev.push(piece@) =~= prev + seq![piece@]);
    }
    parts
}

} // verus!
