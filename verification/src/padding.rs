//! Base64 padding in front of the `@` of a URI, and its removal.

use crate::text::{chars_of, push_range, trim, trim_end, trimmed_end, trimmed_start};
use vstd::prelude::*;

verus! {

/// Whether the two characters `=@` stand at position `i` of `s`.
pub open spec fn pad_at(s: Seq<char>, i: int) -> bool {
    0 <= i && i + 1 < s.len() && s[i] == '=' && s[i + 1] == '@'
}

/// The position of the first `=@` in `s`, if there is one.
pub open spec fn first_pad(s: Seq<char>) -> Option<int>
    decreases s.len(),
{
    if s.len() < 2 {
        None
    } else if s[0] == '=' && s[1] == '@' {
        Some(0)
    } else {
        match first_pad(s.drop_first()) {
            Some(i) => Some(i + 1),
            None => None,
        }
    }
}

/// The pieces of `s` between its occurrences of `=@`, each without the `=`
/// at its two ends, joined by `@`.
pub open spec fn rejoined(s: Seq<char>) -> Seq<char>
    decreases s.len(),
{
    match first_pad(s) {
        Some(i) => if 0 <= i && i + 2 <= s.len() {
            trim(s.take(i), '=') + seq!['@'] + rejoined(s.skip(i + 2))
        } else {
            trim(s, '=')
        },
        None => trim(s, '='),
    }
}

/// A URI text without padding in front of `@`: a text that holds `=@` is
/// cut at every `=@`, each piece loses the `=` at its ends, and the pieces
/// are joined by `@`. A text without `=@` stays as it is.
pub open spec fn without_unsafe_padding(s: Seq<char>) -> Seq<char> {
    if first_pad(s) is Some {
        rejoined(s)
    } else {
        s
    }
}

/// A run of `k` padding characters.
pub open spec fn padding(k: nat) -> Seq<char> {
    Seq::new(k, |i: int| '=')
}

/// What `first_pad` returns is the least position of `=@`, and it returns
/// nothing exactly when `=@` does not occur.
pub proof fn lemma_first_pad(s: Seq<char>)
    ensures
        match first_pad(s) {
            Some(i) => pad_at(s, i) && forall|j: int| 0 <= j < i ==> !pad_at(s, j),
            None => forall|j: int| !pad_at(s, j),
        },
    decreases s.len(),
{
    if s.len() >= 2 && !(s[0] == '=' && s[1] == '@') {
        let t = s.drop_first();
        lemma_first_pad(t);
        assert forall|j: int| pad_at(s, j) implies j > 0 && pad_at(t, j - 1) by {
            if j > 0 {
                assert(t[j - 1] == s[j]);
                assert(t[j] == s[j + 1]);
            }
        }
        match first_pad(t) {
            Some(i) => {
                assert(t[i] == s[i + 1]);
                assert(t[i + 1] == s[i + 2]);
            },
            None => {},
        }
    }
}

/// A position of `=@` with none before it is the first.
pub proof fn lemma_first_pad_is(s: Seq<char>, i: int)
    requires
        pad_at(s, i),
        forall|j: int| 0 <= j < i ==> !pad_at(s, j),
    ensures
        first_pad(s) == Some(i),
{
    lemma_first_pad(s);
}

/// Where `=@` does not occur there is no first position.
pub proof fn lemma_first_pad_none(s: Seq<char>)
    requires
        forall|j: int| !pad_at(s, j),
    ensures
        first_pad(s) is None,
{
    lemma_first_pad(s);
    if first_pad(s) is Some {
        assert(pad_at(s, first_pad(s)->0));
    }
}

/// A run of padding behind a text is trimmed away with the end of the
/// text.
pub proof fn lemma_trim_end_padding(s: Seq<char>, k: nat)
    ensures
        trim_end(s + padding(k), '=') == trim_end(s, '='),
    decreases k,
{
    if k == 0 {
        assert(s + padding(0) =~= s);
    } else {
        let t = s + padding(k);
        assert(t.last() == '=');
        assert(t.drop_last() =~= s + padding((k - 1) as nat));
        lemma_trim_end_padding(s, (k - 1) as nat);
    }
}

/// A text that neither starts nor ends with `=` is its own trimming.
pub proof fn lemma_trim_nothing(s: Seq<char>)
    requires
        s.len() > 0 ==> s[0] != '=' && s.last() != '=',
    ensures
        trim(s, '=') == s,
{
}

/// Padding in front of `@` is removed, and the text without it stays as it
/// is: for texts `a` and `b` that hold no `=@` and neither start nor end
/// with `=`, `a`, any padding, `@` and `b` become `a`, `@` and `b`.
pub proof fn lemma_padding_removed(a: Seq<char>, k: nat, b: Seq<char>)
    requires
        first_pad(a) is None,
        first_pad(b) is None,
        a.len() > 0 ==> a[0] != '=' && a.last() != '=',
        b.len() > 0 ==> b[0] != '=' && b.last() != '=',
    ensures
        without_unsafe_padding(a + padding(k) + seq!['@'] + b) == a + seq!['@'] + b,
{
    let plain = a + seq!['@'] + b;
    let padded = a + padding(k) + seq!['@'] + b;
    let n = a.len() as int;
    lemma_first_pad(a);
    lemma_first_pad(b);
    if k == 0 {
        assert(padded =~= plain);
        assert forall|j: int| !pad_at(plain, j) by {
            if pad_at(plain, j) {
                if j + 1 < n {
                    assert(pad_at(a, j));
                } else if j > n {
                    assert(pad_at(b, j - n - 1));
                }
            }
        }
        lemma_first_pad_none(plain);
    } else {
        let i = n + k - 1;
        assert forall|j: int| 0 <= j < i implies !pad_at(padded, j) by {
            if pad_at(padded, j) {
                if j + 1 < n {
                    assert(pad_at(a, j));
                }
            }
        }
        lemma_first_pad_is(padded, i);
        assert(padded.take(i) =~= a + padding((k - 1) as nat));
        assert(padded.skip(i + 2) =~= b);
        lemma_trim_end_padding(a, (k - 1) as nat);
        lemma_trim_nothing(a);
        lemma_trim_nothing(b);
        assert(rejoined(b) == b);
        assert(rejoined(padded) == a + seq!['@'] + b);
    }
}

fn find_pad(v: &Vec<char>, from: usize) -> (r: Option<usize>)
    requires
        from <= v@.len(),
    ensures
        match r {
            Some(i) => from <= i && i + 2 <= v@.len() && first_pad(v@.skip(from as int))
                == Some(i - from),
            None => first_pad(v@.skip(from as int)) is None,
        },
{
    let ghost s = v@.skip(from as int);
    let mut i: usize = from;
    while i < v.len() && i + 1 < v.len()
        invariant
            from <= i <= v@.len(),
            s == v@.skip(from as int),
            forall|j: int| 0 <= j < i - from ==> !pad_at(s, j),
        decreases v@.len() - i,
    {
        if v[i] == '=' && v[i + 1] == '@' {
            proof {
                lemma_first_pad_is(s, i - from);
            }
            return Some(i);
        }
        i += 1;
    }
    proof {
        lemma_first_pad_none(s);
    }
    None
}

fn push_trimmed(out: &mut String, v: &Vec<char>, from: usize, to: usize)
    requires
        from <= to <= v@.len(),
    ensures
        final(out)@ == old(out)@ + trim(v@.subrange(from as int, to as int), '='),
{
    let end = trimmed_end(v, from, to, '=');
    let start = trimmed_start(v, from, end, '=');
    push_range(out, v, start, end);
}

/// Removes base64 padding that stands directly in front of an `@`.
pub fn remove_unsafe_padding(s: &str) -> (r: String)
    ensures
        r@ == without_unsafe_padding(s@),
{
    let v = chars_of(s);
    assert(v@.skip(0) =~= v@);
    if find_pad(&v, 0).is_none() {
        return s.to_owned();
    }
    let n: usize = v.len();
    let mut out = String::new();
    let mut pos: usize = 0;
    assert(out@ + rejoined(v@.skip(0)) =~= rejoined(v@));
    loop
        invariant_except_break
            pos <= n == v@.len(),
            out@ + rejoined(v@.skip(pos as int)) == rejoined(v@),
        ensures
            out@ == rejoined(v@),
        decreases v@.len() - pos,
    {
        let ghost rest = v@.skip(pos as int);
        let ghost done = out@;
        match find_pad(&v, pos) {
            Some(i) => {
                push_trimmed(&mut out, &v, pos, i);
                out.push('@');
                proof {
                    assert(rest.take(i - pos) =~= v@.subrange(pos as int, i as int));
                    assert(rest.skip(i - pos + 2) =~= v@.skip(i + 2));
                    assert(out@ + rejoined(v@.skip(i + 2)) =~= done + rejoined(rest));
                }
                pos = i + 2;
            },
            None => {
                push_trimmed(&mut out, &v, pos, n);
                proof {
                    assert(rest =~= v@.subrange(pos as int, v@.len() as int));
                    assert(out@ =~= done + rejoined(rest));
                }
                break ;
            },
        }
    }
    out
}

} // verus!
