//! Identifier transliteration: mixed-case identifiers to snake_case,
//! SCREAMING_SNAKE_CASE, and the prefixed enum-constant spelling.
//!
//! The algorithm is a deterministic state machine over a three-character
//! sliding window (previous, current, next). Case classification is ASCII
//! only; characters outside the ASCII letter and digit ranges pass through
//! unchanged.

use vstd::prelude::*;

verus! {

/// An ASCII uppercase letter.
pub open spec fn is_upper(c: char) -> bool {
    'A' <= c && c <= 'Z'
}

/// An ASCII lowercase letter.
pub open spec fn is_lower(c: char) -> bool {
    'a' <= c && c <= 'z'
}

/// An ASCII decimal digit.
pub open spec fn is_digit(c: char) -> bool {
    '0' <= c && c <= '9'
}

/// ASCII lowercasing: uppercase letters move down by 32, everything else is
/// unchanged.
pub open spec fn lower_char(c: char) -> char {
    if is_upper(c) {
        ((c as u32) + 32) as char
    } else {
        c
    }
}

/// ASCII uppercasing: lowercase letters move up by 32, everything else is
/// unchanged.
pub open spec fn upper_char(c: char) -> char {
    if is_lower(c) {
        ((c as u32) - 32) as char
    } else {
        c
    }
}

/// Whether a `_` separator is inserted before position `i` of `s`.
///
/// Never before the first character. Otherwise, before an uppercase letter
/// that follows a lowercase letter or precedes one (the trailing boundary of
/// an all-caps run), unless the previous character is a digit, which
/// suppresses those two rules; and always before a digit that follows a
/// non-digit.
pub open spec fn splits_before(s: Seq<char>, i: int) -> bool {
    &&& 0 < i < s.len()
    &&& {
        ||| (!is_digit(s[i - 1]) && is_upper(s[i]) && (is_lower(s[i - 1]) || (i + 1 < s.len()
            && is_lower(s[i + 1]))))
        ||| (is_digit(s[i]) && !is_digit(s[i - 1]))
    }
}

/// The snake_case rendering of the first `n` characters of `s`: each
/// character lowercased, with a `_` inserted wherever `splits_before` holds.
pub open spec fn snake_prefix(s: Seq<char>, n: int) -> Seq<char>
    decreases n,
{
    if n <= 0 {
        Seq::empty()
    } else if splits_before(s, n - 1) {
        snake_prefix(s, n - 1) + seq!['_', lower_char(s[n - 1])]
    } else {
        snake_prefix(s, n - 1) + seq![lower_char(s[n - 1])]
    }
}

/// The snake_case rendering of a whole identifier.
pub open spec fn snake_of(s: Seq<char>) -> Seq<char> {
    snake_prefix(s, s.len() as int)
}

/// The SCREAMING_SNAKE_CASE rendering: snake_case, uppercased.
pub open spec fn shout_of(s: Seq<char>) -> Seq<char> {
    snake_of(s).map_values(|c: char| upper_char(c))
}

/// The enum-constant rendering: a fixed prefix before the shouted form.
pub open spec fn enum_constant_of(s: Seq<char>) -> Seq<char> {
    "LIBCAMERA_CONTROL_ID_"@ + shout_of(s)
}

fn is_upper_exec(c: char) -> (b: bool)
    ensures
        b == is_upper(c),
{
    'A' <= c && c <= 'Z'
}

fn is_lower_exec(c: char) -> (b: bool)
    ensures
        b == is_lower(c),
{
    'a' <= c && c <= 'z'
}

fn is_digit_exec(c: char) -> (b: bool)
    ensures
        b == is_digit(c),
{
    '0' <= c && c <= '9'
}

fn lower_char_exec(c: char) -> (r: char)
    ensures
        r == lower_char(c),
{
    if 'A' <= c && c <= 'Z' {
        ((c as u8) + 32) as char
    } else {
        c
    }
}

fn upper_char_exec(c: char) -> (r: char)
    ensures
        r == upper_char(c),
{
    if 'a' <= c && c <= 'z' {
        ((c as u8) - 32) as char
    } else {
        c
    }
}

/// Relies on std's String::push: appends exactly one character.
#[verifier::external_body]
pub(crate) fn push_char(s: &mut String, c: char)
    ensures
        final(s)@ == old(s)@.push(c),
{
    s.push(c)
}

proof fn lemma_snake_prefix_props(s: Seq<char>, n: int)
    requires
        0 <= n <= s.len(),
    ensures
        snake_prefix(s, n).len() >= n,
        forall|j: int| 0 <= j < snake_prefix(s, n).len() ==> !is_upper(#[trigger] snake_prefix(
            s,
            n,
        )[j]),
        n > 0 ==> snake_prefix(s, n)[0] == lower_char(s[0]),
    decreases n,
{
    if n > 0 {
        lemma_snake_prefix_props(s, n - 1);
        assert(!is_upper('_'));
        assert(!is_upper(lower_char(s[n - 1])));
    }
}

/// For every non-empty identifier, the snake_case form is non-empty and
/// contains no uppercase character; and unless the identifier itself begins
/// with `_`, the snake_case form does not begin with `_` (no separator is
/// ever inserted before the first character).
pub proof fn lemma_snake_no_upper_no_leading_separator(s: Seq<char>)
    requires
        s.len() > 0,
    ensures
        snake_of(s).len() > 0,
        forall|j: int| 0 <= j < snake_of(s).len() ==> !is_upper(#[trigger] snake_of(s)[j]),
        s[0] != '_' ==> snake_of(s)[0] != '_',
{
    lemma_snake_prefix_props(s, s.len() as int);
    assert(lower_char(s[0]) == '_' ==> s[0] == '_');
}

/// A string with no uppercase character, in which no digit follows a
/// non-digit, is a fixed point of the snake_case transliteration.
pub proof fn lemma_snake_fixed_point(t: Seq<char>)
    requires
        forall|j: int| 0 <= j < t.len() ==> !is_upper(#[trigger] t[j]),
        forall|j: int| 0 < j < t.len() ==> !(is_digit(#[trigger] t[j]) && !is_digit(t[j - 1])),
    ensures
        snake_of(t) == t,
{
    lemma_snake_prefix_is_take(t, t.len() as int);
    assert(snake_of(t) =~= t);
}

proof fn lemma_snake_prefix_is_take(t: Seq<char>, n: int)
    requires
        0 <= n <= t.len(),
        forall|j: int| 0 <= j < t.len() ==> !is_upper(#[trigger] t[j]),
        forall|j: int| 0 < j < t.len() ==> !(is_digit(#[trigger] t[j]) && !is_digit(t[j - 1])),
    ensures
        snake_prefix(t, n) == t.take(n),
    decreases n,
{
    if n <= 0 {
        assert(snake_prefix(t, n) =~= t.take(n));
    } else {
        lemma_snake_prefix_is_take(t, n - 1);
        assert(!splits_before(t, n - 1));
        assert(lower_char(t[n - 1]) == t[n - 1]);
        assert(snake_prefix(t, n) =~= t.take(n));
    }
}

/// Transliterating to snake_case twice gives the same result as doing it
/// once, provided the first pass produces no digit directly after a
/// non-digit (a digit run in the result is otherwise split a second time,
/// behind the `_` the first pass put before it).
pub proof fn lemma_to_snake_idempotent(s: Seq<char>)
    requires
        forall|j: int| 0 < j < snake_of(s).len() ==> !(is_digit(#[trigger] snake_of(s)[j])
            && !is_digit(snake_of(s)[j - 1])),
    ensures
        snake_of(snake_of(s)) == snake_of(s),
{
    lemma_snake_prefix_props(s, s.len() as int);
    lemma_snake_fixed_point(snake_of(s));
}

/// Converts `ExampleName` to `example_name`.
pub fn to_type_name(s: &str) -> (r: String)
    requires
        s@.len() > 0,
    ensures
        r@ == snake_of(s@),
{
    let n = s.unicode_len();
    let mut out = String::new();
    let mut i: usize = 0;
    while i < n
        invariant
            n == s@.len(),
            i <= n,
            out@ == snake_prefix(s@, i as int),
        decreases n - i,
    {
        let c = s.get_char(i);
        if i > 0 {
            let prev = s.get_char(i - 1);
            let mut split = false;
            if is_upper_exec(c) && is_lower_exec(prev) {
                split = true;
            }
            if is_upper_exec(c) && i + 1 < n && is_lower_exec(s.get_char(i + 1)) {
                split = true;
            }
            if is_digit_exec(prev) {
                split = false;
            }
            if is_digit_exec(c) && !is_digit_exec(prev) {
                split = true;
            }
            assert(split == splits_before(s@, i as int));
            if split {
                push_char(&mut out, '_');
            }
        }
        push_char(&mut out, lower_char_exec(c));
        assert(out@ =~= snake_prefix(s@, i + 1));
        i += 1;
    }
    out
}

/// Converts `ExampleName` to `EXAMPLE_NAME`.
pub fn to_const_name(s: &str) -> (r: String)
    requires
        s@.len() > 0,
    ensures
        r@ == shout_of(s@),
{
    let snake = to_type_name(s);
    let m = snake.as_str().unicode_len();
    let mut out = String::new();
    let mut j: usize = 0;
    while j < m
        invariant
            m == snake@.len(),
            j <= m,
            out@.len() == j,
            forall|t: int| 0 <= t < j ==> out@[t] == upper_char(snake@[t]),
        decreases m - j,
    {
        push_char(&mut out, upper_char_exec(snake.as_str().get_char(j)));
        j += 1;
    }
    assert(out@ =~= shout_of(s@));
    out
}

/// Converts `ExampleName` to `LIBCAMERA_CONTROL_ID_EXAMPLE_NAME`.
pub fn to_enum_name(s: &str) -> (r: String)
    requires
        s@.len() > 0,
    ensures
        r@ == enum_constant_of(s@),
{
    let mut out = String::new();
    out.append("LIBCAMERA_CONTROL_ID_");
    let shouted = to_const_name(s);
    out.append(shouted.as_str());
    out
}

} // verus!
