//! Character-level text primitives: whitespace classification, searching for
//! a character or a two-character separator, splitting on a separator, and
//! trimming.  The variant-spec grammar is built entirely from these.

use vstd::prelude::*;
use vstd::string::*;

verus! {

/// A whitespace character: the characters with the Unicode `White_Space`
/// property, the set that `str::trim` removes.
pub open spec fn is_space(c: char) -> bool {
    ||| c == ' '
    ||| c == '\t'
    ||| c == '\n'
    ||| c == '\u{b}'
    ||| c == '\u{c}'
    ||| c == '\r'
    ||| c == '\u{85}'
    ||| c == '\u{a0}'
    ||| c == '\u{1680}'
    ||| ('\u{2000}' as u32 <= c as u32 && c as u32 <= '\u{200a}' as u32)
    ||| c == '\u{2028}'
    ||| c == '\u{2029}'
    ||| c == '\u{202f}'
    ||| c == '\u{205f}'
    ||| c == '\u{3000}'
}

/// Decides `is_space`.
pub fn space_char(c: char) -> (r: bool)
    ensures
        r == is_space(c),
{
    c == ' ' || c == '\t' || c == '\n' || c == '\u{b}' || c == '\u{c}' || c == '\r'
        || c == '\u{85}' || c == '\u{a0}' || c == '\u{1680}'
        || (('\u{2000}' as u32) <= (c as u32) && (c as u32) <= ('\u{200a}' as u32))
        || c == '\u{2028}' || c == '\u{2029}' || c == '\u{202f}' || c == '\u{205f}'
        || c == '\u{3000}'
}

/// The position of the first occurrence of `c` in `s`, if any.
pub open spec fn find_char(s: Seq<char>, c: char) -> Option<int>
    decreases s.len(),
{
    if s.len() == 0 {
        None
    } else if s[0] == c {
        Some(0int)
    } else {
        match find_char(s.drop_first(), c) {
            None => None,
            Some(i) => Some(i + 1),
        }
    }
}

/// `find_char` returns the first occurrence: a position holding `c` with no
/// earlier one, or `None` when `c` does not occur at all.
pub proof fn lemma_find_char(s: Seq<char>, c: char)
    ensures
        match find_char(s, c) {
            Some(i) => 0 <= i < s.len() && s[i] == c && (forall|j: int| 0 <= j < i ==> s[j] != c),
            None => forall|j: int| 0 <= j < s.len() ==> s[j] != c,
        },
    decreases s.len(),
{
    if s.len() == 0 {
    } else if s[0] == c {
    } else {
        lemma_find_char(s.drop_first(), c);
        match find_char(s.drop_first(), c) {
            None => {
                assert forall|j: int| 0 <= j < s.len() implies s[j] != c by {
                    if j > 0 {
                        assert(s.drop_first()[j - 1] == s[j]);
                    }
                }
            },
            Some(i) => {
                assert(s.drop_first()[i] == s[i + 1]);
                assert forall|j: int| 0 <= j < i + 1 implies s[j] != c by {
                    if j > 0 {
                        assert(s.drop_first()[j - 1] == s[j]);
                    }
                }
            },
        }
    }
}

/// A match of `c` at a known first position pins `find_char` down.
pub proof fn lemma_find_char_is(s: Seq<char>, c: char, i: int)
    requires
        0 <= i < s.len(),
        s[i] == c,
        forall|j: int| 0 <= j < i ==> s[j] != c,
    ensures
        find_char(s, c) == Some(i),
{
    lemma_find_char(s, c);
    match find_char(s, c) {
        None => {
            assert(false);
        },
        Some(k) => {
            if k < i {
                assert(s[k] != c);
            }
            if i < k {
                assert(s[i] != c);
            }
        },
    }
}

/// The two-character pattern `c1 c2` stands at position `i` of `s`.
pub open spec fn is_pair_at(s: Seq<char>, c1: char, c2: char, i: int) -> bool {
    &&& 0 <= i
    &&& i + 2 <= s.len()
    &&& s[i] == c1
    &&& s[i + 1] == c2
}

/// The pattern `c1 c2` occurs somewhere in `s`.
pub open spec fn has_pair(s: Seq<char>, c1: char, c2: char) -> bool {
    exists|i: int| is_pair_at(s, c1, c2, i)
}

/// The position of the first occurrence of the pattern `c1 c2` in `s`.
pub open spec fn find_pair(s: Seq<char>, c1: char, c2: char) -> Option<int>
    decreases s.len(),
{
    if s.len() < 2 {
        None
    } else if s[0] == c1 && s[1] == c2 {
        Some(0int)
    } else {
        match find_pair(s.drop_first(), c1, c2) {
            None => None,
            Some(i) => Some(i + 1),
        }
    }
}

/// `find_pair` returns the first occurrence of the pattern, or `None` when
/// the pattern does not occur.
pub proof fn lemma_find_pair(s: Seq<char>, c1: char, c2: char)
    ensures
        match find_pair(s, c1, c2) {
            Some(i) => is_pair_at(s, c1, c2, i) && (forall|j: int|
                0 <= j < i ==> !is_pair_at(s, c1, c2, j)),
            None => forall|j: int| !is_pair_at(s, c1, c2, j),
        },
    decreases s.len(),
{
    if s.len() < 2 {
    } else if s[0] == c1 && s[1] == c2 {
    } else {
        lemma_find_pair(s.drop_first(), c1, c2);
        assert forall|j: int| is_pair_at(s, c1, c2, j) implies j >= 1 && is_pair_at(
            s.drop_first(),
            c1,
            c2,
            j - 1,
        ) by {
            assert(s.drop_first()[j - 1] == s[j]);
            assert(s.drop_first()[j] == s[j + 1]);
        }
        match find_pair(s.drop_first(), c1, c2) {
            None => {},
            Some(i) => {
                assert(s.drop_first()[i] == s[i + 1]);
                assert(s.drop_first()[i + 1] == s[i + 2]);
            },
        }
    }
}

/// A match of the pattern at a known first position pins `find_pair` down.
pub proof fn lemma_find_pair_is(s: Seq<char>, c1: char, c2: char, i: int)
    requires
        is_pair_at(s, c1, c2, i),
        forall|j: int| 0 <= j < i ==> !is_pair_at(s, c1, c2, j),
    ensures
        find_pair(s, c1, c2) == Some(i),
{
    lemma_find_pair(s, c1, c2);
    match find_pair(s, c1, c2) {
        None => {
            assert(!is_pair_at(s, c1, c2, i));
        },
        Some(k) => {
            if k < i {
                assert(!is_pair_at(s, c1, c2, k));
            }
            if i < k {
                assert(!is_pair_at(s, c1, c2, i));
            }
        },
    }
}

/// The pieces of `s` between occurrences of the separator `c1 c2`: splitting
/// an input with no occurrence yields the input itself as the one piece, and
/// each occurrence ends a piece.  There is always at least one piece; an
/// empty input yields one empty piece.
pub open spec fn split_pair(s: Seq<char>, c1: char, c2: char) -> Seq<Seq<char>>
    decreases s.len(),
{
    match find_pair(s, c1, c2) {
        None => seq![s],
        Some(i) => if 0 <= i && i + 2 <= s.len() {
            seq![s.subrange(0, i)] + split_pair(s.subrange(i + 2, s.len() as int), c1, c2)
        } else {
            seq![s]
        },
    }
}

/// Splitting always yields at least one piece.
pub proof fn lemma_split_pair_len(s: Seq<char>, c1: char, c2: char)
    ensures
        split_pair(s, c1, c2).len() >= 1,
    decreases s.len(),
{
    lemma_find_pair(s, c1, c2);
    match find_pair(s, c1, c2) {
        None => {},
        Some(i) => {
            lemma_split_pair_len(s.subrange(i + 2, s.len() as int), c1, c2);
        },
    }
}

/// A separator occurrence at `i`, with no comma anywhere before it, ends
/// the first piece there.
pub proof fn lemma_split_at(body: Seq<char>, i: int)
    requires
        0 <= i,
        i + 2 <= body.len(),
        body[i] == ',',
        body[i + 1] == ' ',
        forall|j: int| 0 <= j < i ==> body[j] != ',',
    ensures
        split_pair(body, ',', ' ') == seq![body.subrange(0, i)] + split_pair(
            body.subrange(i + 2, body.len() as int),
            ',',
            ' ',
        ),
{
    lemma_find_pair_is(body, ',', ' ', i);
}

/// A text without any comma is one single piece.
pub proof fn lemma_split_whole(body: Seq<char>)
    requires
        forall|j: int| 0 <= j < body.len() ==> body[j] != ',',
    ensures
        split_pair(body, ',', ' ') == seq![body],
{
    lemma_find_pair(body, ',', ' ');
    match find_pair(body, ',', ' ') {
        None => {},
        Some(i) => {
            assert(is_pair_at(body, ',', ' ', i));
            assert(false);
        },
    }
}

/// What remains of `s` after the leading whitespace.
pub open spec fn trim_front(s: Seq<char>) -> Seq<char>
    decreases s.len(),
{
    if s.len() > 0 && is_space(s[0]) {
        trim_front(s.drop_first())
    } else {
        s
    }
}

/// What remains of `s` after the trailing whitespace.
pub open spec fn trim_back(s: Seq<char>) -> Seq<char>
    decreases s.len(),
{
    if s.len() > 0 && is_space(s.last()) {
        trim_back(s.drop_last())
    } else {
        s
    }
}

/// `s` without its leading and trailing whitespace: what `str::trim` keeps.
pub open spec fn trimmed(s: Seq<char>) -> Seq<char> {
    trim_back(trim_front(s))
}

/// Finds the first occurrence of `c` in `s`.
pub fn find_char_in(s: &str, c: char) -> (r: Option<usize>)
    ensures
        match r {
            Some(i) => find_char(s@, c) == Some(i as int),
            None => find_char(s@, c) is None,
        },
{
    let n = s.unicode_len();
    let mut i: usize = 0;
    while i < n
        invariant
            i <= n,
            n == s@.len(),
            forall|j: int| 0 <= j < i ==> s@[j] != c,
        decreases n - i,
    {
        if s.get_char(i) == c {
            proof {
                lemma_find_char_is(s@, c, i as int);
            }
            return Some(i);
        }
        i = i + 1;
    }
    proof {
        lemma_find_char(s@, c);
    }
    None
}

/// Finds the first occurrence of the pattern `c1 c2` in `s`.
pub fn find_pair_in(s: &str, c1: char, c2: char) -> (r: Option<usize>)
    ensures
        match r {
            Some(i) => find_pair(s@, c1, c2) == Some(i as int) && i + 2 <= s@.len(),
            None => find_pair(s@, c1, c2) is None,
        },
{
    let n = s.unicode_len();
    if n < 2 {
        proof {
            lemma_find_pair(s@, c1, c2);
            assert(forall|j: int| !is_pair_at(s@, c1, c2, j));
        }
        return None;
    }
    let mut i: usize = 0;
    while i + 1 < n
        invariant
            i + 1 <= n,
            n == s@.len(),
            forall|j: int| 0 <= j < i ==> !is_pair_at(s@, c1, c2, j),
        decreases n - i,
    {
        if s.get_char(i) == c1 && s.get_char(i + 1) == c2 {
            proof {
                lemma_find_pair_is(s@, c1, c2, i as int);
            }
            return Some(i);
        }
        i = i + 1;
    }
    proof {
        assert(forall|j: int| i <= j ==> !is_pair_at(s@, c1, c2, j));
        lemma_find_pair(s@, c1, c2);
    }
    None
}

/// Removes leading and trailing whitespace, as `trimmed` describes.
pub fn trim_in(s: &str) -> (r: &str)
    ensures
        r@ == trimmed(s@),
{
    let n = s.unicode_len();
    let mut a: usize = 0;
    proof {
        assert(s@.skip(0) =~= s@);
    }
    while a < n && space_char(s.get_char(a))
        invariant
            a <= n,
            n == s@.len(),
            trim_front(s@) == trim_front(s@.skip(a as int)),
        decreases n - a,
    {
        proof {
            assert(s@.skip(a as int)[0] == s@[a as int]);
            assert(s@.skip(a as int).drop_first() =~= s@.skip(a as int + 1));
        }
        a = a + 1;
    }
    proof {
        if a < n {
            assert(s@.skip(a as int)[0] == s@[a as int]);
        }
        assert(trim_front(s@) == s@.skip(a as int));
    }
    let mut b: usize = n;
    proof {
        assert(s@.skip(a as int) =~= s@.subrange(a as int, n as int));
    }
    while b > a && space_char(s.get_char(b - 1))
        invariant
            a <= b <= n,
            n == s@.len(),
            trim_front(s@) == s@.skip(a as int),
            trim_back(s@.skip(a as int)) == trim_back(s@.subrange(a as int, b as int)),
        decreases b,
    {
        proof {
            let t = s@.subrange(a as int, b as int);
            assert(t.last() == s@[b as int - 1]);
            assert(t.drop_last() =~= s@.subrange(a as int, b as int - 1));
        }
        b = b - 1;
    }
    proof {
        let t = s@.subrange(a as int, b as int);
        if b > a {
            assert(t.last() == s@[b as int - 1]);
        }
        assert(trim_back(s@.subrange(a as int, b as int)) == s@.subrange(a as int, b as int));
        assert(trimmed(s@) == s@.subrange(a as int, b as int));
    }
    s.substring_char(a, b)
}

} // verus!
