//! What counts as the whitespace around a text, and what is left of the text
//! without it.

use vstd::prelude::*;
use vstd::std_specs::iter::IteratorSpec;

verus! {

/// The characters that trimming removes: the code points with the Unicode
/// `White_Space` property.
pub open spec fn is_space(c: char) -> bool {
    let u = c as u32;
    ||| 0x09 <= u <= 0x0D
    ||| u == 0x20
    ||| u == 0x85
    ||| u == 0xA0
    ||| u == 0x1680
    ||| 0x2000 <= u <= 0x200A
    ||| u == 0x2028
    ||| u == 0x2029
    ||| u == 0x202F
    ||| u == 0x205F
    ||| u == 0x3000
}

/// `s` without its leading whitespace.
pub open spec fn trim_start(s: Seq<char>) -> Seq<char>
    decreases s.len(),
{
    if s.len() > 0 && is_space(s.first()) {
        trim_start(s.drop_first())
    } else {
        s
    }
}

/// `s` without its trailing whitespace.
pub open spec fn trim_end(s: Seq<char>) -> Seq<char>
    decreases s.len(),
{
    if s.len() > 0 && is_space(s.last()) {
        trim_end(s.drop_last())
    } else {
        s
    }
}

/// `s` without leading and trailing whitespace.
pub open spec fn trimmed(s: Seq<char>) -> Seq<char> {
    trim_end(trim_start(s))
}

/// Every character of `s` from position `from` up to (not including) `to` is
/// whitespace.
pub open spec fn all_space(s: Seq<char>, from: int, to: int) -> bool {
    forall|i: int| from <= i < to ==> is_space(#[trigger] s[i])
}

/// Leading whitespace ends at `k`: everything before `k` is whitespace and
/// `k` is the end of the text or holds a visible character.
pub proof fn lemma_trim_start_at(s: Seq<char>, k: int)
    requires
        0 <= k <= s.len(),
        all_space(s, 0, k),
        k < s.len() ==> !is_space(s[k]),
    ensures
        trim_start(s) == s.subrange(k, s.len() as int),
    decreases k,
{
    if k > 0 {
        assert(all_space(s.drop_first(), 0, k - 1));
        lemma_trim_start_at(s.drop_first(), k - 1);
    }
}

/// Trailing whitespace starts at `k`: everything from `k` on is whitespace
/// and `k` is the start of the text or follows a visible character.
pub proof fn lemma_trim_end_at(s: Seq<char>, k: int)
    requires
        0 <= k <= s.len(),
        all_space(s, k, s.len() as int),
        k > 0 ==> !is_space(s[k - 1]),
    ensures
        trim_end(s) == s.subrange(0, k),
    decreases s.len() - k,
{
    if k < s.len() {
        assert(all_space(s.drop_last(), k, s.len() - 1));
        lemma_trim_end_at(s.drop_last(), k);
    }
}

/// The number of whitespace characters that `s` starts with.
pub open spec fn leading_spaces(s: Seq<char>) -> nat
    decreases s.len(),
{
    if s.len() > 0 && is_space(s.first()) {
        1 + leading_spaces(s.drop_first())
    } else {
        0
    }
}

/// The number of whitespace characters that `s` ends with.
pub open spec fn trailing_spaces(s: Seq<char>) -> nat
    decreases s.len(),
{
    if s.len() > 0 && is_space(s.last()) {
        1 + trailing_spaces(s.drop_last())
    } else {
        0
    }
}

/// Trimming at the start cuts off the leading whitespace and nothing else.
pub proof fn lemma_leading_spaces(s: Seq<char>)
    ensures
        leading_spaces(s) <= s.len(),
        all_space(s, 0, leading_spaces(s) as int),
        leading_spaces(s) < s.len() ==> !is_space(s[leading_spaces(s) as int]),
        trim_start(s) == s.subrange(leading_spaces(s) as int, s.len() as int),
    decreases s.len(),
{
    if s.len() > 0 && is_space(s.first()) {
        let t = s.drop_first();
        lemma_leading_spaces(t);
        assert forall|i: int| 0 < i < leading_spaces(s) implies is_space(#[trigger] s[i]) by {
            assert(t[i - 1] == s[i]);
        }
    }
    lemma_trim_start_at(s, leading_spaces(s) as int);
}

/// Trimming at the end cuts off the trailing whitespace and nothing else.
pub proof fn lemma_trailing_spaces(s: Seq<char>)
    ensures
        trailing_spaces(s) <= s.len(),
        all_space(s, s.len() - trailing_spaces(s), s.len() as int),
        trailing_spaces(s) < s.len() ==> !is_space(s[s.len() - trailing_spaces(s) - 1]),
        trim_end(s) == s.subrange(0, s.len() - trailing_spaces(s)),
    decreases s.len(),
{
    if s.len() > 0 && is_space(s.last()) {
        let t = s.drop_last();
        lemma_trailing_spaces(t);
        assert forall|i: int|
            s.len() - trailing_spaces(s) <= i < t.len() implies is_space(#[trigger] s[i]) by {
            assert(t[i] == s[i]);
        }
    }
    lemma_trim_end_at(s, s.len() - trailing_spaces(s));
}

/// `s` holds characters that are not whitespace at the two positions
/// `first < second`.
pub open spec fn is_visible_pair(s: Seq<char>, first: int, second: int) -> bool {
    &&& 0 <= first < second < s.len()
    &&& !is_space(s[first])
    &&& !is_space(s[second])
}

/// `s` holds at least two characters that are not whitespace.
pub open spec fn has_two_visible(s: Seq<char>) -> bool {
    exists|first: int, second: int| is_visible_pair(s, first, second)
}

/// Trimming never adds a character.
pub proof fn lemma_trimmed_is_shorter(s: Seq<char>)
    ensures
        trimmed(s).len() <= s.len(),
{
    lemma_leading_spaces(s);
    lemma_trailing_spaces(trim_start(s));
}

/// More than one character is left after trimming exactly when the text
/// holds two characters that are not whitespace: trimming stops at the first
/// and at the last of them.
pub proof fn lemma_trimmed_len_visible(s: Seq<char>)
    ensures
        trimmed(s).len() > 1 <==> has_two_visible(s),
{
    lemma_leading_spaces(s);
    let a = leading_spaces(s) as int;
    let t = trim_start(s);
    lemma_trailing_spaces(t);
    let kept = t.len() - trailing_spaces(t);
    if trimmed(s).len() > 1 {
        assert(is_visible_pair(s, a, a + kept - 1));
    }
    if has_two_visible(s) {
        let (first, second) = choose|first: int, second: int| is_visible_pair(s, first, second);
        assert(t[second - a] == s[second]);
    }
}

/// Whether `c` is a character that trimming removes.
pub fn is_space_char(c: char) -> (b: bool)
    ensures
        b == is_space(c),
{
    let u: u32 = c as u32;
    (0x09 <= u && u <= 0x0D) || u == 0x20 || u == 0x85 || u == 0xA0 || u == 0x1680 || (0x2000 <= u
        && u <= 0x200A) || u == 0x2028 || u == 0x2029 || u == 0x202F || u == 0x205F || u == 0x3000
}

/// The characters of `text`, in order.
pub fn chars_of(text: &str) -> (v: Vec<char>)
    ensures
        v@ == text@,
{
    let mut v: Vec<char> = Vec::new();
    let mut it = text.chars();
    proof {
        vstd::string::axiom_spec_iter(text);
    }
    loop
        invariant
            it.obeys_prophetic_iter_laws(),
            it.decrease() is Some,
            v@ + it.remaining() == text@,
        ensures
            v@ == text@,
        decreases it.decrease()->0,
    {
        broadcast use vstd::string::next_postcondition;

        let ghost before = it.remaining();
        let ghost taken = v@;
        match it.next() {
            Some(c) => {
                v.push(c);
                assert(v@ + it.remaining() =~= taken + before);
            },
            None => {
                break;
            },
        }
    }
    v
}

/// The number of characters left once leading and trailing whitespace is
/// removed.
pub fn trimmed_len(v: &Vec<char>) -> (n: usize)
    ensures
        n == trimmed(v@).len(),
{
    let len: usize = v.len();
    let mut start: usize = 0;
    while start < len && is_space_char(v[start])
        invariant
            len == v@.len(),
            start <= len,
            all_space(v@, 0, start as int),
        decreases len - start,
    {
        start = start + 1;
    }
    let mut end: usize = len;
    while end > start && is_space_char(v[end - 1])
        invariant
            len == v@.len(),
            start <= end <= len,
            all_space(v@, end as int, len as int),
        decreases end,
    {
        end = end - 1;
    }
    proof {
        lemma_trim_start_at(v@, start as int);
        let rest = v@.subrange(start as int, len as int);
        assert(all_space(rest, end - start, rest.len() as int));
        lemma_trim_end_at(rest, end - start);
    }
    end - start
}

} // verus!
