//! Small verified helpers over `String` values: equality against other
//! strings and against literals, and substring search (questionnaire search
//! matches a needle anywhere in a title or description).

use vstd::prelude::*;
use vstd::string::StrSliceExecFns;

verus! {

/// True when `needle` occurs contiguously inside `hay`.
pub open spec fn contains_seq(hay: Seq<char>, needle: Seq<char>) -> bool {
    exists|i: int|
        0 <= i && i + needle.len() <= hay.len() && #[trigger] hay.subrange(i, i + needle.len())
            == needle
}

/// Equality of two strings, usable from verified code.
pub fn string_eq(a: &String, b: &String) -> (r: bool)
    ensures
        r == (a@ == b@),
{
    a.eq(b)
}

/// Equality of a string against a literal.
pub fn string_eq_lit(a: &String, lit: &str) -> (r: bool)
    ensures
        r == (a@ == lit@),
{
    let owned: String = lit.to_owned();
    a.eq(&owned)
}

/// Whether the characters of `needle` occur contiguously inside `hay`.
pub fn string_contains(hay: &String, needle: &String) -> (r: bool)
    ensures
        r == contains_seq(hay@, needle@),
{
    let hay_len: usize = hay.as_str().unicode_len();
    let needle_len: usize = needle.as_str().unicode_len();
    if needle_len > hay_len {
        assert(!contains_seq(hay@, needle@));
        return false;
    }
    let mut start: usize = 0;
    while start <= hay_len - needle_len
        invariant
            needle_len <= hay_len,
            0 <= start <= hay_len - needle_len + 1,
            forall|i: int|
                0 <= i < start ==> #[trigger] hay@.subrange(i, i + needle@.len() as int)
                    != needle@,
        decreases hay_len - needle_len - start + 1,
    {
        let mut k: usize = 0;
        let mut matched: bool = true;
        proof {
            assert(hay@.subrange(start as int, start as int) =~= needle@.subrange(0, 0));
        }
        while matched && k < needle_len
            invariant
                0 <= k <= needle_len,
                start + needle_len <= hay_len,
                matched <==> hay@.subrange(start as int, start + k) == needle@.subrange(
                    0,
                    k as int,
                ),
            decreases needle_len - k,
        {
            let hc = hay.as_str().get_char(start + k);
            let nc = needle.as_str().get_char(k);
            proof {
                assert(hay@.subrange(start as int, start + k + 1) =~= hay@.subrange(
                    start as int,
                    start + k,
                ).push(hay@[start + k]));
                assert(needle@.subrange(0, k as int + 1) =~= needle@.subrange(0, k as int).push(
                    needle@[k as int],
                ));
            }
            if hc != nc {
                assert(hay@.subrange(start as int, start + k + 1)[k as int] != needle@.subrange(
                    0,
                    k as int + 1,
                )[k as int]);
                matched = false;
            }
            k = k + 1;
        }
        if matched {
            proof {
                assert(needle@.subrange(0, needle@.len() as int) =~= needle@);
                assert(hay@.subrange(start as int, start + needle@.len()) == needle@);
            }
            return true;
        }
        proof {
            assert(hay@.subrange(start as int, start + needle@.len() as int) != needle@) by {
                if hay@.subrange(start as int, start + needle@.len() as int) == needle@ {
                    assert(hay@.subrange(start as int, start + k) =~= hay@.subrange(
                        start as int,
                        start + needle@.len() as int,
                    ).subrange(0, k as int));
                    assert(needle@.subrange(0, k as int) =~= hay@.subrange(start as int, start + k));
                }
            }
        }
        start = start + 1;
    }
    proof {
        assert forall|i: int|
            0 <= i && i + needle@.len() <= hay@.len() implies #[trigger] hay@.subrange(
            i,
            i + needle@.len() as int,
        ) != needle@ by {
            assert(i < start);
        }
    }
    false
}

} // verus!
