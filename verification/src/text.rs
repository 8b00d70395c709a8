//! Character-level text primitives shared by the policy parser and the extractor.

use vstd::prelude::*;
use vstd::slice::slice_subrange;

verus! {

/// The characters that count as white space: the Unicode `White_Space` set.
pub open spec fn is_space(c: char) -> bool {
    let n = c as u32;
    ||| 0x09 <= n <= 0x0D
    ||| n == 0x20
    ||| n == 0x85
    ||| n == 0xA0
    ||| n == 0x1680
    ||| 0x2000 <= n <= 0x200A
    ||| n == 0x2028
    ||| n == 0x2029
    ||| n == 0x202F
    ||| n == 0x205F
    ||| n == 0x3000
}

/// Tells whether `c` is white space.
pub fn is_whitespace(c: char) -> (r: bool)
    ensures
        r == is_space(c),
{
    let n: u32 = c as u32;
    (0x09 <= n && n <= 0x0D) || n == 0x20 || n == 0x85 || n == 0xA0 || n == 0x1680 || (0x2000 <= n
        && n <= 0x200A) || n == 0x2028 || n == 0x2029 || n == 0x202F || n == 0x205F || n == 0x3000
}

/// The characters of `s`, in order.
pub fn chars_of(s: &str) -> (v: Vec<char>)
    ensures
        v@ == s@,
{
    let mut v: Vec<char> = Vec::new();
    for c in it: s.chars()
        invariant
            it.seq() == s@,
            v@ == s@.take(it.index()),
    {
        v.push(c);
    }
    v
}

/// Builds the string made of `chars`, in order.
///
/// Trusted: `String::from_iter` over a slice of characters appends each
/// character in turn, so the result reads exactly as the slice does.
#[verifier::external_body]
pub(crate) fn string_of(chars: &[char]) -> (s: String)
    ensures
        s@ == chars@,
{
    String::from_iter(chars)
}

/// First index at or after `from` whose character is not white space; the
/// length of `s` when there is none.
pub open spec fn skip_space(s: Seq<char>, from: int) -> int
    decreases s.len() - from,
{
    if 0 <= from < s.len() && is_space(s[from]) {
        skip_space(s, from + 1)
    } else {
        from
    }
}

/// Where the text before `to` ends once its trailing white space is dropped;
/// never below `floor`.
pub open spec fn drop_space(s: Seq<char>, floor: int, to: int) -> int
    decreases to - floor,
{
    if floor < to <= s.len() && is_space(s[to - 1]) {
        drop_space(s, floor, to - 1)
    } else {
        to
    }
}

/// `s` without its leading and trailing white space.
pub open spec fn trimmed(s: Seq<char>) -> Seq<char> {
    let start = skip_space(s, 0);
    s.subrange(start, drop_space(s, start, s.len() as int))
}

/// The bounds of `skip_space`, and what lies before its result.
pub proof fn lemma_skip_space(s: Seq<char>, from: int)
    requires
        0 <= from <= s.len(),
    ensures
        from <= skip_space(s, from) <= s.len(),
        forall|i: int| from <= i < skip_space(s, from) ==> is_space(#[trigger] s[i]),
        skip_space(s, from) < s.len() ==> !is_space(s[skip_space(s, from)]),
    decreases s.len() - from,
{
    if from < s.len() && is_space(s[from]) {
        lemma_skip_space(s, from + 1);
    }
}

/// The bounds of `drop_space`, and what lies after its result.
pub proof fn lemma_drop_space(s: Seq<char>, floor: int, to: int)
    requires
        0 <= floor <= to <= s.len(),
    ensures
        floor <= drop_space(s, floor, to) <= to,
        forall|i: int| drop_space(s, floor, to) <= i < to ==> is_space(#[trigger] s[i]),
        floor < drop_space(s, floor, to) ==> !is_space(s[drop_space(s, floor, to) - 1]),
    decreases to - floor,
{
    if floor < to && is_space(s[to - 1]) {
        lemma_drop_space(s, floor, to - 1);
    }
}

/// Trimming removes white space at both ends and nothing else: the result is
/// a stretch of `s` that neither starts nor ends with white space, and all
/// that lies outside it is white space.
pub proof fn lemma_trimmed(s: Seq<char>)
    ensures
        exists|a: int, b: int|
            {
                &&& 0 <= a <= b <= s.len()
                &&& #[trigger] s.subrange(a, b) == trimmed(s)
                &&& forall|i: int| 0 <= i < a ==> is_space(#[trigger] s[i])
                &&& forall|i: int| b <= i < s.len() ==> is_space(#[trigger] s[i])
            },
        trimmed(s).len() > 0 ==> !is_space(trimmed(s).first()) && !is_space(trimmed(s).last()),
{
    let a = skip_space(s, 0);
    lemma_skip_space(s, 0);
    let b = drop_space(s, a, s.len() as int);
    lemma_drop_space(s, a, s.len() as int);
    assert(s.subrange(a, b) == trimmed(s));
}

/// The slice of `s` that is left once white space is removed at both ends.
pub fn trim(s: &[char]) -> (r: &[char])
    ensures
        r@ == trimmed(s@),
{
    let mut start: usize = 0;
    while start < s.len() && is_whitespace(s[start])
        invariant
            start <= s.len(),
            skip_space(s@, 0) == skip_space(s@, start as int),
        decreases s.len() - start,
    {
        start += 1;
    }
    let mut end: usize = s.len();
    while end > start && is_whitespace(s[end - 1])
        invariant
            start <= end <= s.len(),
            drop_space(s@, start as int, s.len() as int) == drop_space(
                s@,
                start as int,
                end as int,
            ),
        decreases end,
    {
        end -= 1;
    }
    slice_subrange(s, start, end)
}

/// Tells whether `s` begins with `prefix`.
pub fn starts_with(s: &[char], prefix: &[char]) -> (r: bool)
    ensures
        r == prefix@.is_prefix_of(s@),
{
    if prefix.len() > s.len() {
        return false;
    }
    let mut i: usize = 0;
    while i < prefix.len()
        invariant
            i <= prefix.len() <= s.len(),
            forall|j: int| 0 <= j < i ==> prefix@[j] == s@[j],
        decreases prefix.len() - i,
    {
        if prefix[i] != s[i] {
            assert(s@.subrange(0, prefix@.len() as int)[i as int] != prefix@[i as int]);
            return false;
        }
        i += 1;
    }
    assert(prefix@ =~= s@.subrange(0, prefix@.len() as int));
    true
}

/// First index at or after `from` at which `s` holds `sep`; the length of
/// `s` when there is none.
pub open spec fn next_index_of(s: Seq<char>, sep: char, from: int) -> int
    decreases s.len() - from,
{
    if 0 <= from < s.len() && s[from] != sep {
        next_index_of(s, sep, from + 1)
    } else {
        from
    }
}

/// The bounds of `next_index_of`, and what lies before its result.
pub proof fn lemma_next_index_of(s: Seq<char>, sep: char, from: int)
    requires
        0 <= from <= s.len(),
    ensures
        from <= next_index_of(s, sep, from) <= s.len(),
        forall|i: int| from <= i < next_index_of(s, sep, from) ==> #[trigger] s[i] != sep,
        next_index_of(s, sep, from) < s.len() ==> s[next_index_of(s, sep, from)] == sep,
    decreases s.len() - from,
{
    if from < s.len() && s[from] != sep {
        lemma_next_index_of(s, sep, from + 1);
    }
}

/// The pieces of `s` from index `from` on that `sep` separates: one more
/// than the number of separators found, none of them holding `sep`.
pub open spec fn fields_from(s: Seq<char>, sep: char, from: int) -> Seq<Seq<char>>
    decreases s.len() - from + 1,
    via fields_from_decreases
{
    if from < 0 || from > s.len() {
        Seq::empty()
    } else {
        let end = next_index_of(s, sep, from);
        seq![s.subrange(from, end)] + fields_from(s, sep, end + 1)
    }
}

#[via_fn]
proof fn fields_from_decreases(s: Seq<char>, sep: char, from: int) {
    if 0 <= from <= s.len() {
        lemma_next_index_of(s, sep, from);
    }
}

/// The pieces of `s` that `sep` separates, in order. A text without `sep` is
/// its own single piece; a text that ends with `sep` has an empty last piece.
pub open spec fn fields(s: Seq<char>, sep: char) -> Seq<Seq<char>> {
    fields_from(s, sep, 0)
}

/// What follows the first `sep` of `s`; nothing when `s` holds no `sep`.
pub open spec fn after_first(s: Seq<char>, sep: char) -> Seq<char> {
    let at = next_index_of(s, sep, 0);
    if at < s.len() {
        s.subrange(at + 1, s.len() as int)
    } else {
        Seq::empty()
    }
}

/// First index at or after `from` at which `s` holds `sep`, or the length
/// of `s`.
pub fn find_char(s: &[char], sep: char, from: usize) -> (r: usize)
    requires
        from <= s.len(),
    ensures
        r == next_index_of(s@, sep, from as int),
        from <= r <= s.len(),
{
    let mut i: usize = from;
    while i < s.len() && s[i] != sep
        invariant
            from <= i <= s.len(),
            next_index_of(s@, sep, from as int) == next_index_of(s@, sep, i as int),
        decreases s.len() - i,
    {
        i += 1;
    }
    i
}

/// The part of `s` that follows its first `sep`.
pub fn rest_after(s: &[char], sep: char) -> (r: &[char])
    ensures
        r@ == after_first(s@, sep),
{
    let at = find_char(s, sep, 0);
    if at < s.len() {
        slice_subrange(s, at + 1, s.len())
    } else {
        slice_subrange(s, at, at)
    }
}

/// The lower-case form of a text: what `str::to_lowercase` makes of it.
pub uninterp spec fn lowercase(s: Seq<char>) -> Seq<char>;

/// The lower-case form of `s`.
///
/// Trusted: `str::to_lowercase` maps a text to its Unicode lower-case form,
/// which depends on the text alone; the contract only gives that form its
/// name and claims nothing else of it.
#[verifier::external_body]
pub(crate) fn to_lowercase(s: &str) -> (r: String)
    ensures
        r@ == lowercase(s@),
{
    s.to_lowercase()
}

/// Whether two texts read the same.
pub fn same_text(a: &str, b: &str) -> (r: bool)
    ensures
        r == (a@ == b@),
{
    let left = chars_of(a);
    let right = chars_of(b);
    if left.len() != right.len() {
        return false;
    }
    let mut i: usize = 0;
    while i < left.len()
        invariant
            left@ == a@,
            right@ == b@,
            i <= left.len() == right.len(),
            forall|j: int| 0 <= j < i ==> left@[j] == right@[j],
        decreases left.len() - i,
    {
        if left[i] != right[i] {
            assert(a@[i as int] != b@[i as int]);
            return false;
        }
        i += 1;
    }
    assert(left@ =~= right@);
    true
}

/// The character that writes the digit `d`.
pub open spec fn digit_char(d: int) -> char {
    if d == 0 {
        '0'
    } else if d == 1 {
        '1'
    } else if d == 2 {
        '2'
    } else if d == 3 {
        '3'
    } else if d == 4 {
        '4'
    } else if d == 5 {
        '5'
    } else if d == 6 {
        '6'
    } else if d == 7 {
        '7'
    } else if d == 8 {
        '8'
    } else {
        '9'
    }
}

/// The decimal notation of `n`, without leading zeros.
pub open spec fn decimal(n: nat) -> Seq<char>
    decreases n,
{
    if n < 10 {
        seq![digit_char(n as int)]
    } else {
        decimal(n / 10).push(digit_char((n % 10) as int))
    }
}

/// The character that writes the digit `d`.
fn digit_of(d: u64) -> (c: char)
    requires
        d < 10,
    ensures
        c == digit_char(d as int),
{
    if d == 0 {
        '0'
    } else if d == 1 {
        '1'
    } else if d == 2 {
        '2'
    } else if d == 3 {
        '3'
    } else if d == 4 {
        '4'
    } else if d == 5 {
        '5'
    } else if d == 6 {
        '6'
    } else if d == 7 {
        '7'
    } else if d == 8 {
        '8'
    } else {
        '9'
    }
}

/// Appends the decimal notation of `n` to `buffer`.
pub fn push_decimal(buffer: &mut Vec<char>, n: u64)
    ensures
        final(buffer)@ == old(buffer)@ + decimal(n as nat),
    decreases n,
{
    if n >= 10 {
        push_decimal(buffer, n / 10);
    }
    buffer.push(digit_of(n % 10));
}

/// Appends the characters of `text` to `buffer`.
pub fn push_text(buffer: &mut Vec<char>, text: &str)
    ensures
        final(buffer)@ == old(buffer)@ + text@,
{
    let ghost start = buffer@;
    for c in it: text.chars()
        invariant
            it.seq() == text@,
            buffer@ == start + text@.take(it.index()),
    {
        buffer.push(c);
        assert(text@.take(it.index() + 1) =~= text@.take(it.index()).push(c));
    }
    assert(text@.take(text@.len() as int) =~= text@);
}

/// A text trims to nothing exactly when it holds nothing but white space.
pub proof fn lemma_trimmed_blank(s: Seq<char>)
    ensures
        trimmed(s).len() == 0 <==> forall|i: int| 0 <= i < s.len() ==> is_space(#[trigger] s[i]),
{
    let a = skip_space(s, 0);
    lemma_skip_space(s, 0);
    let b = drop_space(s, a, s.len() as int);
    lemma_drop_space(s, a, s.len() as int);
    if forall|i: int| 0 <= i < s.len() ==> is_space(#[trigger] s[i]) {
        if a < s.len() {
            assert(is_space(s[a]));
        }
    }
}

} // verus!
