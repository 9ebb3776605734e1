//! Small operations on text that the rest of the library shares.

use vstd::prelude::*;
use vstd::string::*;

verus! {

/// The text that `{:?}` prints for a string: the string between double quotes,
/// with quotes, backslashes and unprintable characters escaped.
pub uninterp spec fn debug_text(s: Seq<char>) -> Seq<char>;

/// Whether two string slices hold the same characters in the same order.
/// The slices are compared as owned strings, whose equality is specified.
pub(crate) fn str_eq(a: &str, b: &str) -> (r: bool)
    ensures
        r == (a@ == b@),
{
    a.to_owned() == b.to_owned()
}

/// Formats a string with `{:?}` (`<str as Debug>::fmt`). Trusted: the result
/// is a function of the characters alone, named `debug_text`.
#[verifier::external_body]
pub(crate) fn debug_quoted(s: &str) -> (r: String)
    ensures
        r@ == debug_text(s@),
{
    format!("{:?}", s)
}

/// Index just behind the last occurrence of `sep` in `s`; zero when `sep`
/// does not occur.
pub open spec fn cut_point(s: Seq<char>, sep: char) -> int
    decreases s.len(),
{
    if s.len() == 0 {
        0
    } else if s.last() == sep {
        s.len() as int
    } else {
        cut_point(s.drop_last(), sep)
    }
}

/// What follows the last `sep` in `s`; all of `s` when `sep` does not occur.
pub open spec fn last_segment(s: Seq<char>, sep: char) -> Seq<char> {
    s.subrange(cut_point(s, sep), s.len() as int)
}

/// `cut_point` lies inside the text, nothing behind it is a separator, and
/// the character in front of it, if there is one, is the separator.
pub proof fn lemma_cut_point(s: Seq<char>, sep: char)
    ensures
        0 <= cut_point(s, sep) <= s.len(),
        forall|i: int| cut_point(s, sep) <= i < s.len() ==> s[i] != sep,
        cut_point(s, sep) > 0 ==> s[cut_point(s, sep) - 1] == sep,
        cut_point(s, sep) == 0 ==> !s.contains(sep),
    decreases s.len(),
{
    if s.len() == 0 {
    } else if s.last() == sep {
    } else {
        let t = s.drop_last();
        lemma_cut_point(t, sep);
        assert(forall|i: int| 0 <= i < t.len() ==> t[i] == s[i]);
        if cut_point(s, sep) == 0 {
            assert forall|i: int| 0 <= i < s.len() implies s[i] != sep by {
                if i < t.len() {
                    assert(t[i] == s[i]);
                    assert(!t.contains(sep));
                }
            }
        }
    }
}

/// The last segment holds no separator, and the text is what precedes the
/// cut followed by the last segment.
pub proof fn lemma_last_segment(s: Seq<char>, sep: char)
    ensures
        !last_segment(s, sep).contains(sep),
        s == s.subrange(0, cut_point(s, sep)) + last_segment(s, sep),
        !s.contains(sep) ==> last_segment(s, sep) == s,
{
    lemma_cut_point(s, sep);
    let c = cut_point(s, sep);
    let seg = last_segment(s, sep);
    assert forall|i: int| 0 <= i < seg.len() implies seg[i] != sep by {
        assert(seg[i] == s[c + i]);
    }
    assert(s =~= s.subrange(0, c) + seg);
    if !s.contains(sep) {
        if c > 0 {
            assert(s[c - 1] == sep);
            assert(s.contains(sep));
        }
        assert(seg =~= s);
    }
}

/// Returns what follows the last `sep` in `s`, as `str::split(sep).last()`
/// does: the whole text when there is no separator, the empty text when the
/// separator comes last.
pub fn after_last(s: &str, sep: char) -> (r: String)
    ensures
        r@ == last_segment(s@, sep),
{
    let n: usize = s.unicode_len();
    let mut cut: usize = 0;
    let mut i: usize = 0;
    while i < n
        invariant
            n == s@.len(),
            i <= n,
            cut <= i,
            cut == cut_point(s@.subrange(0, i as int), sep),
        decreases n - i,
    {
        let c = s.get_char(i);
        proof {
            let prev = s@.subrange(0, i as int);
            let next = s@.subrange(0, i + 1);
            assert(next.last() == s@[i as int]);
            assert(next.drop_last() =~= prev);
        }
        i = i + 1;
        if c == sep {
            cut = i;
        }
    }
    assert(s@.subrange(0, n as int) =~= s@);
    let tail = s.substring_char(cut, n);
    String::from_str(tail)
}

/// White space: the characters that Unicode gives the property White_Space,
/// which are those that `char::is_whitespace` knows.
pub open spec fn is_space(c: char) -> bool {
    let n = c as u32;
    ||| 0x09 <= n <= 0x0D
    ||| n == 0x20
    ||| n == 0x85
    ||| n == 0xA0
    ||| n == 0x1680
    ||| 0x2000 <= n <= 0x200A
    ||| n == 0x2028
    ||| n == 0x2029
    ||| n == 0x202F
    ||| n == 0x205F
    ||| n == 0x3000
}

/// Whether `c` is white space.
pub fn is_whitespace(c: char) -> (r: bool)
    ensures
        r == is_space(c),
{
    let n = c as u32;
    (0x09 <= n && n <= 0x0D) || n == 0x20 || n == 0x85 || n == 0xA0 || n == 0x1680 || (0x2000 <= n
        && n <= 0x200A) || n == 0x2028 || n == 0x2029 || n == 0x202F || n == 0x205F || n == 0x3000
}

/// Index just behind the last white space in `s`; zero when there is none.
pub open spec fn space_cut(s: Seq<char>) -> int
    decreases s.len(),
{
    if s.len() == 0 {
        0
    } else if is_space(s.last()) {
        s.len() as int
    } else {
        space_cut(s.drop_last())
    }
}

/// Index just behind the last character of `s` that is no white space; zero
/// when there is none.
pub open spec fn token_end(s: Seq<char>) -> int
    decreases s.len(),
{
    if s.len() == 0 {
        0
    } else if !is_space(s.last()) {
        s.len() as int
    } else {
        token_end(s.drop_last())
    }
}

/// The last token of `s`: the last run of characters that are no white
/// space. It is empty when `s` holds nothing but white space.
pub open spec fn last_token(s: Seq<char>) -> Seq<char> {
    let end = token_end(s);
    s.subrange(space_cut(s.subrange(0, end)), end)
}

/// The cut lies inside the text, and nothing behind it is white space.
pub proof fn lemma_space_cut(s: Seq<char>)
    ensures
        0 <= space_cut(s) <= s.len(),
        forall|i: int| space_cut(s) <= i < s.len() ==> !is_space(s[i]),
        space_cut(s) > 0 ==> is_space(s[space_cut(s) - 1]),
    decreases s.len(),
{
    if s.len() > 0 && !is_space(s.last()) {
        let rest = s.drop_last();
        lemma_space_cut(rest);
        assert forall|i: int| space_cut(s) <= i < s.len() implies !is_space(s[i]) by {
            if i < rest.len() {
                assert(rest[i] == s[i]);
            }
        }
        if space_cut(s) > 0 {
            assert(rest[space_cut(s) - 1] == s[space_cut(s) - 1]);
        }
    }
}

/// The end of the last token lies inside the text, everything behind it is
/// white space, and the character in front of it is none.
pub proof fn lemma_token_end(s: Seq<char>)
    ensures
        0 <= token_end(s) <= s.len(),
        forall|i: int| token_end(s) <= i < s.len() ==> is_space(s[i]),
        token_end(s) > 0 ==> !is_space(s[token_end(s) - 1]),
    decreases s.len(),
{
    if s.len() > 0 && is_space(s.last()) {
        let rest = s.drop_last();
        lemma_token_end(rest);
        assert forall|i: int| token_end(s) <= i < s.len() implies is_space(s[i]) by {
            if i < rest.len() {
                assert(rest[i] == s[i]);
            }
        }
        if token_end(s) > 0 {
            assert(rest[token_end(s) - 1] == s[token_end(s) - 1]);
        }
    }
}

/// Law of the last token: it holds no white space; white space, or the
/// start of the text, stands in front of it; nothing but white space
/// follows it; and it is empty only when the text holds nothing else.
pub proof fn lemma_last_token(s: Seq<char>)
    ensures
        forall|i: int| 0 <= i < last_token(s).len() ==> !is_space(last_token(s)[i]),
        last_token(s).len() == 0 <==> (forall|i: int| 0 <= i < s.len() ==> is_space(s[i])),
        0 <= space_cut(s.subrange(0, token_end(s))) <= token_end(s) <= s.len(),
        space_cut(s.subrange(0, token_end(s))) > 0 ==> is_space(
            s[space_cut(s.subrange(0, token_end(s))) - 1],
        ),
        forall|i: int| token_end(s) <= i < s.len() ==> is_space(s[i]),
{
    lemma_token_end(s);
    let end = token_end(s);
    let front = s.subrange(0, end);
    lemma_space_cut(front);
    let start = space_cut(front);
    assert forall|i: int| 0 <= i < last_token(s).len() implies !is_space(last_token(s)[i]) by {
        assert(last_token(s)[i] == front[start + i]);
    }
    if end > 0 {
        assert(front[end - 1] == s[end - 1]);
        assert(start < end);
    }
    if start > 0 {
        assert(front[start - 1] == s[start - 1]);
    }
}

/// Law of the scheme word: when a text without white space stands behind
/// white space, or alone, it is the last token, whatever precedes the white
/// space.
pub proof fn lemma_token_behind_space(head: Seq<char>, token: Seq<char>)
    requires
        token.len() > 0,
        forall|i: int| 0 <= i < token.len() ==> !is_space(token[i]),
        head.len() == 0 || is_space(head.last()),
    ensures
        last_token(head + token) == token,
        last_token(token) == token,
{
    let s = head + token;
    assert(s.last() == token.last());
    assert(token_end(s) == s.len());
    assert(s.subrange(0, s.len() as int) =~= s);
    lemma_cut_behind_head(head, token);
    assert(s.subrange(head.len() as int, s.len() as int) =~= token);
    assert(token_end(token) == token.len());
    assert(token.subrange(0, token.len() as int) =~= token);
    assert(Seq::<char>::empty() + token =~= token);
    lemma_cut_behind_head(Seq::empty(), token);
}

/// Behind a head that ends in white space, or is empty, a text without
/// white space moves no cut.
proof fn lemma_cut_behind_head(head: Seq<char>, token: Seq<char>)
    requires
        forall|i: int| 0 <= i < token.len() ==> !is_space(token[i]),
        head.len() == 0 || is_space(head.last()),
    ensures
        space_cut(head + token) == head.len(),
    decreases token.len(),
{
    let s = head + token;
    if token.len() == 0 {
        assert(s =~= head);
    } else {
        assert(s.last() == token.last());
        assert(s.drop_last() =~= head + token.drop_last());
        assert forall|i: int| 0 <= i < token.drop_last().len() implies !is_space(
            token.drop_last()[i],
        ) by {
            assert(token.drop_last()[i] == token[i]);
        }
        lemma_cut_behind_head(head, token.drop_last());
    }
}

/// Law of trailing white space: white space behind a text does not change
/// its last token.
pub proof fn lemma_token_before_space(s: Seq<char>, c: char)
    requires
        is_space(c),
    ensures
        last_token(s.push(c)) == last_token(s),
{
    let t = s.push(c);
    assert(t.last() == c);
    assert(t.drop_last() =~= s);
    assert(token_end(t) == token_end(s));
    lemma_token_end(s);
    let front = s.subrange(0, token_end(s));
    assert(t.subrange(0, token_end(s)) =~= front);
    lemma_space_cut(front);
    assert(t.subrange(space_cut(front), token_end(s)) =~= s.subrange(
        space_cut(front),
        token_end(s),
    ));
}

/// Returns the last token of `s`, as `str::split_whitespace().last()` does;
/// the empty text when there is none.
pub fn last_token_of(s: &str) -> (r: String)
    ensures
        r@ == last_token(s@),
{
    let n: usize = s.unicode_len();
    let mut cut: usize = 0;
    let mut start: usize = 0;
    let mut end: usize = 0;
    let mut i: usize = 0;
    proof {
        assert(s@.subrange(0, 0).subrange(0, 0) =~= s@.subrange(0, 0));
    }
    while i < n
        invariant
            n == s@.len(),
            i <= n,
            start <= end <= i,
            cut <= i,
            cut == space_cut(s@.subrange(0, i as int)),
            end == token_end(s@.subrange(0, i as int)),
            start == space_cut(s@.subrange(0, i as int).subrange(0, end as int)),
        decreases n - i,
    {
        let c = s.get_char(i);
        proof {
            let prev = s@.subrange(0, i as int);
            let next = s@.subrange(0, i + 1);
            assert(next.last() == s@[i as int]);
            assert(next.drop_last() =~= prev);
            assert(next.subrange(0, end as int) =~= prev.subrange(0, end as int));
            assert(next.subrange(0, i + 1) =~= next);
            lemma_space_cut(prev);
        }
        i = i + 1;
        if is_whitespace(c) {
            cut = i;
        } else {
            start = cut;
            end = i;
        }
    }
    assert(s@.subrange(0, n as int) =~= s@);
    let token = s.substring_char(start, end);
    String::from_str(token)
}

/// Appends `tail` to a copy of `head`.
pub fn join(head: &str, tail: &str) -> (r: String)
    ensures
        r@ == head@ + tail@,
{
    let mut out = String::from_str(head);
    out.append(tail);
    out
}

/// Copies an optional string.
pub fn copy_opt(s: &Option<String>) -> (r: Option<String>)
    ensures
        r == *s,
{
    match s {
        Some(t) => Some(t.clone()),
        None => None,
    }
}

} // verus!
