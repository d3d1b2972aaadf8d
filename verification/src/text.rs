//! Character-level text helpers: whitespace trimming, substring search, and
//! conversions between `String`/`&str` and `Vec<char>`.

use vstd::prelude::*;
use vstd::string::StrSliceExecFns;

verus! {

/// The characters with the Unicode `White_Space` property, the set that
/// `char::is_whitespace` recognizes.
pub open spec fn is_wspace(c: char) -> bool {
    ||| c == '\u{0009}'
    ||| c == '\u{000A}'
    ||| c == '\u{000B}'
    ||| c == '\u{000C}'
    ||| c == '\u{000D}'
    ||| c == ' '
    ||| c == '\u{0085}'
    ||| c == '\u{00A0}'
    ||| c == '\u{1680}'
    ||| ('\u{2000}' <= c && c <= '\u{200A}')
    ||| c == '\u{2028}'
    ||| c == '\u{2029}'
    ||| c == '\u{202F}'
    ||| c == '\u{205F}'
    ||| c == '\u{3000}'
}

/// Decides `is_wspace` on a concrete character.
pub fn wspace_char(c: char) -> (r: bool)
    ensures
        r == is_wspace(c),
{
    c == '\u{0009}' || c == '\u{000A}' || c == '\u{000B}' || c == '\u{000C}' || c == '\u{000D}'
        || c == ' ' || c == '\u{0085}' || c == '\u{00A0}' || c == '\u{1680}' || ('\u{2000}' <= c
        && c <= '\u{200A}') || c == '\u{2028}' || c == '\u{2029}' || c == '\u{202F}' || c
        == '\u{205F}' || c == '\u{3000}'
}

/// Number of leading whitespace characters of `s`.
pub open spec fn ws_prefix_len(s: Seq<char>) -> nat
    decreases s.len(),
{
    if s.len() == 0 || !is_wspace(s[0]) {
        0
    } else {
        1 + ws_prefix_len(s.drop_first())
    }
}

/// Number of trailing whitespace characters of `s`.
pub open spec fn ws_suffix_len(s: Seq<char>) -> nat
    decreases s.len(),
{
    if s.len() == 0 || !is_wspace(s.last()) {
        0
    } else {
        1 + ws_suffix_len(s.drop_last())
    }
}

/// `s` with leading and trailing whitespace removed: the meaning of
/// `str::trim`.
pub open spec fn trim_spec(s: Seq<char>) -> Seq<char> {
    if ws_prefix_len(s) == s.len() {
        Seq::empty()
    } else {
        s.subrange(ws_prefix_len(s) as int, s.len() - ws_suffix_len(s))
    }
}

proof fn lemma_ws_prefix_le_len(s: Seq<char>)
    ensures
        ws_prefix_len(s) <= s.len(),
        forall|i: int| 0 <= i < ws_prefix_len(s) ==> is_wspace(s[i]),
        ws_prefix_len(s) < s.len() ==> !is_wspace(s[ws_prefix_len(s) as int]),
    decreases s.len(),
{
    if s.len() == 0 || !is_wspace(s[0]) {
    } else {
        lemma_ws_prefix_le_len(s.drop_first());
        assert forall|i: int| 0 <= i < ws_prefix_len(s) implies is_wspace(s[i]) by {
            if i > 0 {
                assert(s.drop_first()[i - 1] == s[i]);
            }
        }
        if ws_prefix_len(s) < s.len() {
            assert(s.drop_first()[ws_prefix_len(s.drop_first()) as int] == s[ws_prefix_len(
                s,
            ) as int]);
        }
    }
}

proof fn lemma_ws_suffix_le_len(s: Seq<char>)
    ensures
        ws_suffix_len(s) <= s.len(),
        forall|i: int| s.len() - ws_suffix_len(s) <= i < s.len() ==> is_wspace(s[i]),
        ws_suffix_len(s) < s.len() ==> !is_wspace(s[s.len() - ws_suffix_len(s) - 1]),
    decreases s.len(),
{
    if s.len() == 0 || !is_wspace(s.last()) {
    } else {
        lemma_ws_suffix_le_len(s.drop_last());
        assert forall|i: int| s.len() - ws_suffix_len(s) <= i < s.len() implies is_wspace(
            s[i],
        ) by {
            if i < s.len() - 1 {
                assert(s.drop_last()[i] == s[i]);
            }
        }
        if ws_suffix_len(s) < s.len() {
            assert(s.drop_last()[s.len() - ws_suffix_len(s) - 1] == s[s.len() - ws_suffix_len(s)
                - 1]);
        }
    }
}

/// Removes leading and trailing whitespace from a character vector.
pub fn trim_chars(s: &Vec<char>) -> (r: Vec<char>)
    ensures
        r@ == trim_spec(s@),
{
    proof {
        lemma_ws_prefix_le_len(s@);
        lemma_ws_suffix_le_len(s@);
    }
    let mut start: usize = 0;
    while start < s.len() && wspace_char(s[start])
        invariant
            start <= s@.len(),
            forall|i: int| 0 <= i < start ==> is_wspace(s@[i]),
            start <= ws_prefix_len(s@),
        decreases s@.len() - start,
    {
        proof {
            lemma_ws_prefix_step(s@, start as int);
        }
        start = start + 1;
    }
    proof {
        lemma_ws_prefix_exact(s@, start as int);
    }
    if start == s.len() {
        let r: Vec<char> = Vec::new();
        assert(r@ =~= trim_spec(s@));
        return r;
    }
    let mut end: usize = s.len();
    while start < end && wspace_char(s[end - 1])
        invariant
            start <= end <= s@.len(),
            forall|i: int| end <= i < s@.len() ==> is_wspace(s@[i]),
            s@.len() - end <= ws_suffix_len(s@),
            start < s@.len() && !is_wspace(s@[start as int]),
            start == ws_prefix_len(s@),
        decreases end,
    {
        proof {
            lemma_ws_suffix_step(s@, end - 1);
        }
        end = end - 1;
    }
    proof {
        lemma_ws_suffix_exact(s@, end as int, start as int);
    }
    let mut r: Vec<char> = Vec::new();
    let mut i: usize = start;
    while i < end
        invariant
            start <= i <= end <= s@.len(),
            r@ == s@.subrange(start as int, i as int),
        decreases end - i,
    {
        r.push(s[i]);
        proof {
            assert(r@ =~= s@.subrange(start as int, i + 1));
        }
        i = i + 1;
    }
    proof {
        assert(r@ =~= trim_spec(s@));
    }
    r
}

/// If the first `k` characters are whitespace and `s[k]` is whitespace too,
/// the whitespace prefix extends past `k`.
proof fn lemma_ws_prefix_step(s: Seq<char>, k: int)
    requires
        0 <= k < s.len(),
        forall|i: int| 0 <= i < k ==> is_wspace(s[i]),
        is_wspace(s[k]),
    ensures
        ws_prefix_len(s) >= k + 1,
    decreases k,
{
    if k == 0 {
    } else {
        assert(is_wspace(s[0]));
        assert forall|i: int| 0 <= i < k - 1 implies is_wspace(s.drop_first()[i]) by {
            assert(s.drop_first()[i] == s[i + 1]);
        }
        assert(s.drop_first()[k - 1] == s[k]);
        lemma_ws_prefix_step(s.drop_first(), k - 1);
    }
}

/// A run of `k` whitespace characters followed by the end or a
/// non-whitespace character pins the whitespace prefix at exactly `k`.
proof fn lemma_ws_prefix_exact(s: Seq<char>, k: int)
    requires
        0 <= k <= s.len(),
        forall|i: int| 0 <= i < k ==> is_wspace(s[i]),
        k < s.len() ==> !is_wspace(s[k]),
    ensures
        ws_prefix_len(s) == k,
{
    lemma_ws_prefix_le_len(s);
    if k < ws_prefix_len(s) {
        assert(!is_wspace(s[k]));
        assert(is_wspace(s[k]));
    }
    if ws_prefix_len(s) < k {
        assert(is_wspace(s[ws_prefix_len(s) as int]));
    }
}

/// Mirror of `lemma_ws_prefix_step` for the suffix.
proof fn lemma_ws_suffix_step(s: Seq<char>, k: int)
    requires
        0 <= k < s.len(),
        forall|i: int| k < i < s.len() ==> is_wspace(s[i]),
        is_wspace(s[k]),
    ensures
        ws_suffix_len(s) >= s.len() - k,
    decreases s.len() - k,
{
    if k == s.len() - 1 {
    } else {
        assert(is_wspace(s.last()));
        assert forall|i: int| k < i < s.drop_last().len() implies is_wspace(s.drop_last()[i]) by {
            assert(s.drop_last()[i] == s[i]);
        }
        assert(s.drop_last()[k] == s[k]);
        lemma_ws_suffix_step(s.drop_last(), k);
    }
}

/// A run of trailing whitespace from `e` to the end, preceded by a
/// non-whitespace character, pins the whitespace suffix at `s.len() - e`.
proof fn lemma_ws_suffix_exact(s: Seq<char>, e: int, start: int)
    requires
        0 <= start <= e <= s.len(),
        forall|i: int| e <= i < s.len() ==> is_wspace(s[i]),
        start < e ==> !is_wspace(s[e - 1]),
        start == ws_prefix_len(s),
        start < s.len(),
    ensures
        ws_suffix_len(s) == s.len() - e,
        e > start,
    decreases s.len(),
{
    lemma_ws_prefix_le_len(s);
    lemma_ws_suffix_le_len(s);
    if e == start {
        assert(is_wspace(s[start]) || s.len() == start);
        assert(false);
    }
    if ws_suffix_len(s) > s.len() - e {
        assert(is_wspace(s[s.len() - (s.len() - e) - 1]));
        assert(false);
    }
    if ws_suffix_len(s) < s.len() - e {
        assert(!is_wspace(s[s.len() - ws_suffix_len(s) - 1]));
        assert(is_wspace(s[s.len() - ws_suffix_len(s) - 1]));
    }
}

/// The characters of a string slice, as a vector.
pub(crate) fn str_to_chars(s: &str) -> (r: Vec<char>)
    ensures
        r@ == s@,
{
    let n = s.unicode_len();
    let mut r: Vec<char> = Vec::new();
    let mut i: usize = 0;
    while i < n
        invariant
            i <= n,
            n == s@.len(),
            r@ == s@.subrange(0, i as int),
        decreases n - i,
    {
        r.push(s.get_char(i));
        proof {
            assert(r@ =~= s@.subrange(0, i + 1));
        }
        i = i + 1;
    }
    proof {
        assert(r@ =~= s@);
    }
    r
}

/// Relies on `String::from_iter` over `char`: collecting characters yields a
/// string whose characters are exactly the collected ones.
#[verifier::external_body]
pub(crate) fn chars_to_string(v: &Vec<char>) -> (r: String)
    ensures
        r@ == v@,
{
    v.iter().collect()
}

/// The lowercase form of a character sequence, as `str::to_lowercase`
/// computes it: a function of the characters alone.
pub uninterp spec fn lower_of(s: Seq<char>) -> Seq<char>;

/// Relies on `str::to_lowercase`: the result depends on the characters of
/// the input alone, and an empty input yields an empty result.
#[verifier::external_body]
pub(crate) fn lowercase(s: &str) -> (r: String)
    ensures
        r@ == lower_of(s@),
        s@.len() == 0 ==> r@.len() == 0,
{
    s.to_lowercase()
}

/// `needle` occurs as a contiguous run inside `hay`: the meaning of
/// `str::contains` with a string pattern. An empty needle always occurs.
pub open spec fn contains_seq(hay: Seq<char>, needle: Seq<char>) -> bool {
    exists|i: int|
        0 <= i && i + needle.len() <= hay.len() && #[trigger] hay.subrange(i, i + needle.len())
            == needle
}

/// Decides `contains_seq` by direct search.
pub fn contains_chars(hay: &Vec<char>, needle: &Vec<char>) -> (r: bool)
    ensures
        r == contains_seq(hay@, needle@),
{
    if needle.len() > hay.len() {
        proof {
            assert(!contains_seq(hay@, needle@));
        }
        return false;
    }
    let last_start = hay.len() - needle.len();
    let mut i: usize = 0;
    while i <= last_start
        invariant
            hay@.len() <= usize::MAX,
            last_start == hay@.len() - needle@.len(),
            i <= last_start + 1,
            forall|k: int|
                0 <= k < i ==> #[trigger] hay@.subrange(k, k + needle@.len()) != needle@,
        decreases last_start - i + 1,
    {
        let mut j: usize = 0;
        let mut matched = true;
        while j < needle.len()
            invariant
                hay@.len() <= usize::MAX,
                i + needle@.len() <= hay@.len(),
                j <= needle@.len(),
                matched <==> hay@.subrange(i as int, i + j) =~= needle@.subrange(0, j as int),
            decreases needle@.len() - j,
        {
            if hay[i + j] != needle[j] {
                matched = false;
                proof {
                    assert(hay@.subrange(i as int, i + j + 1)[j as int] != needle@.subrange(
                        0,
                        j + 1,
                    )[j as int]);
                }
            } else {
                proof {
                    if matched {
                        assert(hay@.subrange(i as int, i + j + 1) =~= needle@.subrange(0, j + 1));
                    } else {
                        lemma_subrange_mismatch(hay@, needle@, i as int, j as int);
                    }
                }
            }
            j = j + 1;
        }
        if matched {
            proof {
                assert(needle@.subrange(0, needle@.len() as int) =~= needle@);
                assert(contains_seq(hay@, needle@));
            }
            return true;
        }
        proof {
            assert(needle@.subrange(0, needle@.len() as int) =~= needle@);
            if needle@.len() == 0 {
                assert(hay@.subrange(i as int, i as int) =~= needle@.subrange(0, 0));
            }
        }
        i = i + 1;
    }
    proof {
        assert(!contains_seq(hay@, needle@));
    }
    false
}

/// A mismatch inside a window survives extending the window by one.
proof fn lemma_subrange_mismatch(hay: Seq<char>, needle: Seq<char>, i: int, j: int)
    requires
        0 <= i,
        0 <= j < needle.len(),
        i + needle.len() <= hay.len(),
        hay.subrange(i, i + j) != needle.subrange(0, j),
    ensures
        hay.subrange(i, i + j + 1) != needle.subrange(0, j + 1),
{
    if hay.subrange(i, i + j + 1) == needle.subrange(0, j + 1) {
        assert(hay.subrange(i, i + j) =~= hay.subrange(i, i + j + 1).subrange(0, j));
        assert(needle.subrange(0, j) =~= needle.subrange(0, j + 1).subrange(0, j));
    }
}

} // verus!
