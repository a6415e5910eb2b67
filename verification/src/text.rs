//! Text as a sequence of characters: white space, trimming, and the blank
//! line that ends a frame of an event stream.

use vstd::prelude::*;

verus! {

/// Whether a character has the Unicode property White_Space.
pub open spec fn is_whitespace(c: char) -> bool {
    let u = c as u32;
    ||| 0x09 <= u <= 0x0D
    ||| u == 0x20
    ||| u == 0x85
    ||| u == 0xA0
    ||| u == 0x1680
    ||| 0x2000 <= u <= 0x200A
    ||| u == 0x2028
    ||| u == 0x2029
    ||| u == 0x202F
    ||| u == 0x205F
    ||| u == 0x3000
}

/// The text without its leading white space.
pub open spec fn trimmed_start(s: Seq<char>) -> Seq<char>
    decreases s.len(),
{
    if s.len() > 0 && is_whitespace(s.first()) {
        trimmed_start(s.drop_first())
    } else {
        s
    }
}

/// The text without its trailing white space.
pub open spec fn trimmed_end(s: Seq<char>) -> Seq<char>
    decreases s.len(),
{
    if s.len() > 0 && is_whitespace(s.last()) {
        trimmed_end(s.drop_last())
    } else {
        s
    }
}

/// The text without the white space around it.
pub open spec fn trimmed(s: Seq<char>) -> Seq<char> {
    trimmed_end(trimmed_start(s))
}

/// Whether two line feeds stand at positions `i` and `i + 1`.
pub open spec fn delimiter_at(s: Seq<char>, i: int) -> bool {
    0 <= i && i + 1 < s.len() && s[i] == '\n' && s[i + 1] == '\n'
}

/// Whether `i` is the place of the first blank line in `s`.
pub open spec fn is_first_delimiter(s: Seq<char>, i: int) -> bool {
    delimiter_at(s, i) && forall|j: int| 0 <= j < i ==> !delimiter_at(s, j)
}

/// The place of the first blank line in `s`, if it holds one.
pub open spec fn first_delimiter(s: Seq<char>) -> Option<int> {
    if exists|i: int| delimiter_at(s, i) {
        Some(choose|i: int| is_first_delimiter(s, i))
    } else {
        None
    }
}

proof fn lemma_least_delimiter_exists(s: Seq<char>, i: int)
    requires
        delimiter_at(s, i),
    ensures
        exists|k: int| is_first_delimiter(s, k),
    decreases i,
{
    if exists|j: int| 0 <= j < i && delimiter_at(s, j) {
        let j = choose|j: int| 0 <= j < i && delimiter_at(s, j);
        lemma_least_delimiter_exists(s, j);
    } else {
        assert(is_first_delimiter(s, i));
    }
}

/// `first_delimiter` names a blank line before which there is none, and
/// names none only where there is none.
pub proof fn lemma_first_delimiter(s: Seq<char>)
    ensures
        match first_delimiter(s) {
            Some(i) => is_first_delimiter(s, i),
            None => forall|i: int| !delimiter_at(s, i),
        },
{
    if exists|i: int| delimiter_at(s, i) {
        let i = choose|i: int| delimiter_at(s, i);
        lemma_least_delimiter_exists(s, i);
    }
}

/// A blank line before which there is none is the first one.
pub proof fn lemma_first_delimiter_unique(s: Seq<char>, i: int)
    requires
        is_first_delimiter(s, i),
    ensures
        first_delimiter(s) == Some(i),
{
    lemma_first_delimiter(s);
    let k = first_delimiter(s).unwrap();
    if k < i {
        assert(!delimiter_at(s, k));
    } else if i < k {
        assert(!delimiter_at(s, i));
    }
}

/// What is appended to a text neither moves nor hides its first blank line.
pub proof fn lemma_first_delimiter_append(a: Seq<char>, b: Seq<char>)
    requires
        first_delimiter(a) is Some,
    ensures
        first_delimiter(a + b) == first_delimiter(a),
{
    lemma_first_delimiter(a);
    let i = first_delimiter(a).unwrap();
    assert(delimiter_at(a + b, i));
    assert forall|j: int| 0 <= j < i implies !delimiter_at(a + b, j) by {
        assert(!delimiter_at(a, j));
    }
    lemma_first_delimiter_unique(a + b, i);
}

/// Whether every character of the text is white space.
pub open spec fn all_whitespace(s: Seq<char>) -> bool {
    forall|i: int| 0 <= i < s.len() ==> is_whitespace(#[trigger] s[i])
}

/// White space before a text is trimmed away.
pub proof fn lemma_trimmed_start_padding(padding: Seq<char>, s: Seq<char>)
    requires
        all_whitespace(padding),
    ensures
        trimmed_start(padding + s) == trimmed_start(s),
    decreases padding.len(),
{
    if padding.len() == 0 {
        assert(padding + s =~= s);
    } else {
        assert(is_whitespace(padding[0]));
        assert((padding + s).drop_first() =~= padding.drop_first() + s);
        lemma_trimmed_start_padding(padding.drop_first(), s);
    }
}

/// White space after a text is trimmed away.
pub proof fn lemma_trimmed_end_padding(s: Seq<char>, padding: Seq<char>)
    requires
        all_whitespace(padding),
    ensures
        trimmed_end(s + padding) == trimmed_end(s),
    decreases padding.len(),
{
    if padding.len() == 0 {
        assert(s + padding =~= s);
    } else {
        assert(is_whitespace(padding.last()));
        assert((s + padding).drop_last() =~= s + padding.drop_last());
        lemma_trimmed_end_padding(s, padding.drop_last());
    }
}

/// Trimming takes the white space around a text away and leaves a text
/// that neither begins nor ends with white space as it is.
pub proof fn lemma_trimmed_padding(before: Seq<char>, core: Seq<char>, after: Seq<char>)
    requires
        all_whitespace(before),
        all_whitespace(after),
        core.len() > 0 ==> !is_whitespace(core.first()) && !is_whitespace(core.last()),
    ensures
        trimmed(before + core + after) == core,
{
    assert(before + core + after =~= before + (core + after));
    lemma_trimmed_start_padding(before, core + after);
    if core.len() == 0 {
        assert(core + after =~= after + core);
        lemma_trimmed_start_padding(after, core);
    } else {
        assert((core + after).first() == core.first());
        lemma_trimmed_end_padding(core, after);
    }
}

/// Whether a character has the Unicode property White_Space.
pub fn char_is_whitespace(c: char) -> (b: bool)
    ensures
        b == is_whitespace(c),
{
    let u: u32 = c as u32;
    (0x09 <= u && u <= 0x0D) || u == 0x20 || u == 0x85 || u == 0xA0 || u == 0x1680 || (0x2000 <= u
        && u <= 0x200A) || u == 0x2028 || u == 0x2029 || u == 0x202F || u == 0x205F || u == 0x3000
}

/// The characters of a string, in order.
pub fn chars_of(text: &str) -> (chars: Vec<char>)
    ensures
        chars@ == text@,
{
    let mut chars: Vec<char> = Vec::new();
    for c in it: text.chars()
        invariant
            chars@ == it.seq().take(it.index()),
            it.seq() == text@,
    {
        chars.push(c);
    }
    chars
}

/// The place of the first blank line among the characters.
pub fn find_delimiter(chars: &Vec<char>) -> (found: Option<usize>)
    ensures
        match found {
            Some(i) => first_delimiter(chars@) == Some(i as int),
            None => first_delimiter(chars@) is None,
        },
{
    let n = chars.len();
    if n < 2 {
        proof {
            lemma_first_delimiter(chars@);
        }
        return None;
    }
    let mut i: usize = 0;
    while i < n - 1
        invariant
            n == chars@.len(),
            n >= 2,
            i <= n - 1,
            forall|j: int| 0 <= j < i ==> !delimiter_at(chars@, j),
        decreases n - i,
    {
        if chars[i] == '\n' && chars[i + 1] == '\n' {
            proof {
                lemma_first_delimiter_unique(chars@, i as int);
            }
            return Some(i);
        }
        i += 1;
    }
    proof {
        lemma_first_delimiter(chars@);
    }
    None
}

/// Within `lo..hi`, the bounds of what is left when the white space at both
/// ends is taken away.
pub fn trim_bounds(chars: &Vec<char>, lo: usize, hi: usize) -> (bounds: (usize, usize))
    requires
        lo <= hi <= chars@.len(),
    ensures
        lo <= bounds.0 <= bounds.1 <= hi,
        chars@.subrange(bounds.0 as int, bounds.1 as int) == trimmed(
            chars@.subrange(lo as int, hi as int),
        ),
{
    let mut start = lo;
    while start < hi && char_is_whitespace(chars[start])
        invariant
            lo <= start <= hi <= chars@.len(),
            trimmed_start(chars@.subrange(lo as int, hi as int)) == trimmed_start(
                chars@.subrange(start as int, hi as int),
            ),
        decreases hi - start,
    {
        assert(chars@.subrange(start as int, hi as int).drop_first() == chars@.subrange(
            start as int + 1,
            hi as int,
        ));
        start += 1;
    }
    let mut end = hi;
    while start < end && char_is_whitespace(chars[end - 1])
        invariant
            lo <= start <= end <= hi <= chars@.len(),
            trimmed(chars@.subrange(lo as int, hi as int)) == trimmed_end(
                chars@.subrange(start as int, end as int),
            ),
        decreases end - start,
    {
        assert(chars@.subrange(start as int, end as int).drop_last() == chars@.subrange(
            start as int,
            end as int - 1,
        ));
        end -= 1;
    }
    (start, end)
}

/// Whether the characters begin with the characters of `prefix`.
pub fn has_prefix(chars: &Vec<char>, prefix: &str) -> (b: bool)
    ensures
        b == prefix@.is_prefix_of(chars@),
{
    let pattern = chars_of(prefix);
    if pattern.len() > chars.len() {
        return false;
    }
    let mut i: usize = 0;
    while i < pattern.len()
        invariant
            pattern@ == prefix@,
            i <= pattern@.len() <= chars@.len(),
            forall|k: int| 0 <= k < i ==> chars@[k] == pattern@[k],
        decreases pattern@.len() - i,
    {
        if chars[i] != pattern[i] {
            assert(chars@.subrange(0, pattern@.len() as int)[i as int] != pattern@[i as int]);
            return false;
        }
        i += 1;
    }
    assert(pattern@ =~= chars@.subrange(0, pattern@.len() as int));
    true
}

/// Whether the characters in `lo..hi` are the characters of `pattern`.
pub fn range_equals(chars: &Vec<char>, lo: usize, hi: usize, pattern: &str) -> (b: bool)
    requires
        lo <= hi <= chars@.len(),
    ensures
        b == (chars@.subrange(lo as int, hi as int) == pattern@),
{
    let wanted = chars_of(pattern);
    if wanted.len() != hi - lo {
        return false;
    }
    let mut i: usize = 0;
    while i < wanted.len()
        invariant
            lo <= hi <= chars@.len(),
            wanted@ == pattern@,
            i <= wanted@.len() == hi - lo,
            forall|k: int| 0 <= k < i ==> chars@[lo + k] == wanted@[k],
        decreases wanted@.len() - i,
    {
        if chars[lo + i] != wanted[i] {
            assert(chars@.subrange(lo as int, hi as int)[i as int] != pattern@[i as int]);
            return false;
        }
        i += 1;
    }
    assert(pattern@ =~= chars@.subrange(lo as int, hi as int));
    true
}

} // verus!
