//! Splitting of path texts and parsing of the tokens that index sequences.

use crate::data::model;
use vstd::prelude::*;

verus! {

/// The views of a list of strings.
pub open spec fn texts(v: Seq<String>) -> Seq<Seq<char>> {
    Seq::new(v.len(), |i: int| v[i]@)
}

/// Splits a path at every `.`; the empty text gives one empty token.
pub fn split_path(path: &str) -> (r: Vec<String>)
    ensures
        texts(r@) == model::split_path(path@),
{
    let n = path.unicode_len();
    let mut tokens: Vec<String> = Vec::new();
    let mut start: usize = 0;
    let mut i: usize = 0;
    proof {
        assert(path@.take(0) =~= Seq::<char>::empty());
        assert(texts(tokens@).push(path@.subrange(0, 0)) =~= model::split_path(path@.take(0)));
    }
    while i < n
        invariant
            n == path@.len(),
            start <= i <= n,
            texts(tokens@).push(path@.subrange(start as int, i as int)) == model::split_path(
                path@.take(i as int),
            ),
        decreases n - i,
    {
        let c = path.get_char(i);
        proof {
            assert(path@.take(i as int + 1).drop_last() =~= path@.take(i as int));
            assert(path@.take(i as int + 1).last() == c);
        }
        if c == '.' {
            let tok = path.substring_char(start, i).to_owned();
            let ghost old_tokens = tokens@;
            tokens.push(tok);
            start = i + 1;
            i = i + 1;
            proof {
                assert(path@.subrange(start as int, i as int) =~= Seq::<char>::empty());
                assert(texts(tokens@) =~= texts(old_tokens).push(tok@));
            }
        } else {
            proof {
                assert(path@.subrange(start as int, i as int + 1) =~= path@.subrange(
                    start as int,
                    i as int,
                ).push(c));
                let prev = texts(tokens@).push(path@.subrange(start as int, i as int));
                assert(texts(tokens@).push(path@.subrange(start as int, i as int + 1)) =~= prev.update(
                    prev.len() - 1,
                    prev.last().push(c),
                ));
            }
            i = i + 1;
        }
    }
    let last = path.substring_char(start, n).to_owned();
    let ghost old_tokens = tokens@;
    tokens.push(last);
    proof {
        assert(path@.take(n as int) =~= path@);
        assert(texts(tokens@) =~= texts(old_tokens).push(last@));
    }
    tokens
}

/// Parses a token that indexes a sequence: decimal digits, no sign, no leading zero.
pub fn parse_index(s: &str) -> (r: Option<usize>)
    ensures
        match r {
            Some(x) => model::parse_index(s@) == Some(x as int),
            None => model::parse_index(s@) is None,
        },
{
    let n = s.unicode_len();
    if n == 0 {
        return None;
    }
    let c0 = s.get_char(0);
    if c0 == '+' || (c0 == '0' && n != 1) {
        return None;
    }
    let mut acc: usize = 0;
    let mut i: usize = 0;
    while i < n
        invariant
            n == s@.len(),
            i <= n,
            model::all_digits(s@.take(i as int)),
            acc == model::digits_value(s@.take(i as int)),
        decreases n - i,
    {
        let c = s.get_char(i);
        proof {
            assert(s@.take(i as int + 1).drop_last() =~= s@.take(i as int));
            model::lemma_digits_value_nonneg(s@.take(i as int));
        }
        if !('0' <= c && c <= '9') {
            proof {
                assert(!model::is_digit(s@[i as int]));
            }
            return None;
        }
        let d = (c as u32 - '0' as u32) as usize;
        match acc.checked_mul(10) {
            Some(m) => match m.checked_add(d) {
                Some(a) => {
                    acc = a;
                },
                None => {
                    proof {
                        lemma_digits_value_monotone(s@, i as int + 1);
                    }
                    return None;
                },
            },
            None => {
                proof {
                    lemma_digits_value_monotone(s@, i as int + 1);
                }
                return None;
            },
        }
        i = i + 1;
        proof {
            assert forall|j: int| 0 <= j < i implies model::is_digit(#[trigger] s@.take(i as int)[j]) by {
                if j < i - 1 {
                    assert(s@.take(i as int)[j] == s@.take(i as int - 1)[j]);
                }
            }
        }
    }
    proof {
        assert(s@.take(n as int) =~= s@);
    }
    Some(acc)
}

/// A longer prefix of digits denotes a number at least as large.
pub proof fn lemma_digits_value_monotone(s: Seq<char>, k: int)
    requires
        0 <= k <= s.len(),
        model::all_digits(s.take(k)),
    ensures
        model::all_digits(s) ==> model::digits_value(s.take(k)) <= model::digits_value(s),
    decreases s.len() - k,
{
    if model::all_digits(s) && k < s.len() {
        assert(s.take(k + 1).drop_last() =~= s.take(k));
        assert(model::all_digits(s.take(k + 1)));
        model::lemma_digits_value_nonneg(s.take(k));
        lemma_digits_value_monotone(s, k + 1);
    }
    if k == s.len() {
        assert(s.take(k) =~= s);
    }
}

} // verus!
