//! Character-level helpers: collecting, comparing, trimming and escaping text.

use vstd::prelude::*;

verus! {

/// `String::push` appends one character at the end of the string.
pub assume_specification[ String::push ](s: &mut String, ch: char)
    ensures
        final(s)@ == old(s)@.push(ch),
;

/// What HTML escaping turns one character into: `&`, `<` and `>` become
/// entities, every other character stays as it is.
pub open spec fn escape_char(c: char) -> Seq<char> {
    if c == '&' {
        "&amp;"@
    } else if c == '<' {
        "&lt;"@
    } else if c == '>' {
        "&gt;"@
    } else {
        seq![c]
    }
}

/// The HTML-escaped form of a text: each character escaped in turn.
pub open spec fn escape_text(s: Seq<char>) -> Seq<char>
    decreases s.len(),
{
    if s.len() == 0 {
        Seq::empty()
    } else {
        escape_text(s.drop_last()) + escape_char(s.last())
    }
}

/// The white-space characters of Unicode (the `White_Space` property),
/// the set that `char::is_whitespace` and `str::trim` use.
pub open spec fn is_unicode_whitespace(c: char) -> bool {
    ||| ('\u{9}' <= c && c <= '\u{d}')
    ||| c == ' '
    ||| c == '\u{85}'
    ||| c == '\u{a0}'
    ||| c == '\u{1680}'
    ||| ('\u{2000}' <= c && c <= '\u{200a}')
    ||| c == '\u{2028}'
    ||| c == '\u{2029}'
    ||| c == '\u{202f}'
    ||| c == '\u{205f}'
    ||| c == '\u{3000}'
}

/// Number of white-space characters at the start of `s`.
pub open spec fn leading_whitespace(s: Seq<char>) -> nat
    decreases s.len(),
{
    if s.len() > 0 && is_unicode_whitespace(s[0]) {
        1 + leading_whitespace(s.drop_first())
    } else {
        0
    }
}

/// Number of white-space characters at the end of `s`.
pub open spec fn trailing_whitespace(s: Seq<char>) -> nat
    decreases s.len(),
{
    if s.len() > 0 && is_unicode_whitespace(s.last()) {
        1 + trailing_whitespace(s.drop_last())
    } else {
        0
    }
}

/// `s` without its leading and trailing white space.
pub open spec fn trim_text(s: Seq<char>) -> Seq<char> {
    let front = leading_whitespace(s);
    if front == s.len() {
        Seq::empty()
    } else {
        s.subrange(front as int, s.len() - trailing_whitespace(s))
    }
}

/// Whether `s` ends with `suffix`.
pub open spec fn ends_with(s: Seq<char>, suffix: Seq<char>) -> bool {
    suffix.len() <= s.len() && s.subrange(s.len() - suffix.len(), s.len() as int) == suffix
}

/// The characters of `s`, in order.
pub fn chars_of(s: &str) -> (v: Vec<char>)
    ensures
        v@ == s@,
{
    let mut v: Vec<char> = Vec::new();
    for c in it: s.chars()
        invariant
            it.seq() == s@,
            v@ == it.seq().take(it.index() as int),
    {
        v.push(c);
    }
    v
}

/// Whether `a` and `b` hold the same characters.
pub fn same_text(a: &str, b: &str) -> (res: bool)
    ensures
        res == (a@ == b@),
{
    let x = chars_of(a);
    let y = chars_of(b);
    if x.len() != y.len() {
        return false;
    }
    let n = x.len();
    for i in 0..n
        invariant
            n == x@.len(),
            n == y@.len(),
            x@ == a@,
            y@ == b@,
            forall|j: int| 0 <= j < i ==> x@[j] == y@[j],
    {
        if x[i] != y[i] {
            return false;
        }
    }
    assert(x@ =~= y@);
    true
}

/// Whether `s` ends with `suffix`, as `str::ends_with` answers for a string pattern.
pub fn has_suffix(s: &str, suffix: &str) -> (res: bool)
    ensures
        res == ends_with(s@, suffix@),
{
    let x = chars_of(s);
    let y = chars_of(suffix);
    if y.len() > x.len() {
        return false;
    }
    let off = x.len() - y.len();
    let n = y.len();
    for i in 0..n
        invariant
            n == y@.len(),
            off + n == x.len(),
            x@ == s@,
            y@ == suffix@,
            forall|j: int| 0 <= j < i ==> x@[off + j] == y@[j],
    {
        if x[off + i] != y[i] {
            assert(x@.subrange(off as int, x@.len() as int)[i as int] != y@[i as int]);
            return false;
        }
    }
    assert(x@.subrange(off as int, x@.len() as int) =~= y@);
    true
}

/// Whether the character is Unicode white space.
pub fn is_whitespace_char(c: char) -> (res: bool)
    ensures
        res == is_unicode_whitespace(c),
{
    ('\u{9}' <= c && c <= '\u{d}') || c == ' ' || c == '\u{85}' || c == '\u{a0}' || c == '\u{1680}'
        || ('\u{2000}' <= c && c <= '\u{200a}') || c == '\u{2028}' || c == '\u{2029}'
        || c == '\u{202f}' || c == '\u{205f}' || c == '\u{3000}'
}

/// Counting white space from the front of `s` and stopping at the first
/// other character gives `leading_whitespace(s)`.
proof fn lemma_leading_is_first_other(s: Seq<char>, k: int)
    requires
        0 <= k <= s.len(),
        forall|j: int| 0 <= j < k ==> is_unicode_whitespace(#[trigger] s[j]),
        k < s.len() ==> !is_unicode_whitespace(s[k]),
    ensures
        leading_whitespace(s) == k,
    decreases s.len(),
{
    if k > 0 {
        assert(is_unicode_whitespace(s[0]));
        assert forall|j: int| 0 <= j < k - 1 implies is_unicode_whitespace(#[trigger] s.drop_first()[j]) by {
            assert(s.drop_first()[j] == s[j + 1]);
        }
        lemma_leading_is_first_other(s.drop_first(), k - 1);
    }
}

/// Counting white space from the back of `s` and stopping at the first
/// other character gives `trailing_whitespace(s)`.
proof fn lemma_trailing_is_last_other(s: Seq<char>, k: int)
    requires
        0 <= k <= s.len(),
        forall|j: int| s.len() - k <= j < s.len() ==> is_unicode_whitespace(#[trigger] s[j]),
        k < s.len() ==> !is_unicode_whitespace(s[s.len() - 1 - k]),
    ensures
        trailing_whitespace(s) == k,
    decreases s.len(),
{
    if k > 0 {
        assert(is_unicode_whitespace(s.last()));
        assert forall|j: int| s.len() - 1 - (k - 1) <= j < s.len() - 1 implies is_unicode_whitespace(#[trigger] s.drop_last()[j]) by {
            assert(s.drop_last()[j] == s[j]);
        }
        lemma_trailing_is_last_other(s.drop_last(), k - 1);
    }
}

/// `s` without leading and trailing white space, as `str::trim` gives it.
pub fn trim(s: &str) -> (res: String)
    ensures
        res@ == trim_text(s@),
{
    let v = chars_of(s);
    let n = v.len();
    let mut start: usize = 0;
    while start < n && is_whitespace_char(v[start])
        invariant
            n == v@.len(),
            start <= n,
            forall|j: int| 0 <= j < start ==> is_unicode_whitespace(#[trigger] v@[j]),
        decreases n - start,
    {
        start = start + 1;
    }
    proof {
        lemma_leading_is_first_other(v@, start as int);
    }
    let mut res = String::new();
    if start == n {
        return res;
    }
    let mut end: usize = n;
    while end > start && is_whitespace_char(v[end - 1])
        invariant
            n == v@.len(),
            start < n,
            !is_unicode_whitespace(v@[start as int]),
            start <= end <= n,
            forall|j: int| end <= j < n ==> is_unicode_whitespace(#[trigger] v@[j]),
        decreases end - start,
    {
        end = end - 1;
    }
    proof {
        lemma_trailing_is_last_other(v@, (n - end) as int);
    }
    let mut i = start;
    while i < end
        invariant
            start <= i <= end <= n,
            n == v@.len(),
            res@ == v@.subrange(start as int, i as int),
        decreases end - i,
    {
        res.push(v[i]);
        assert(v@.subrange(start as int, i + 1) =~= v@.subrange(start as int, i as int).push(v@[i as int]));
        i = i + 1;
    }
    res
}

/// The text with `&`, `<` and `>` replaced by their HTML entities.
///
/// No `<` or `>` is left in the result, so escaped text can never open or close a tag.
pub fn escape_html(s: &str) -> (out: String)
    ensures
        out@ == escape_text(s@),
        forall|i: int| 0 <= i < out@.len() ==> out@[i] != '<' && out@[i] != '>',
{
    let mut out = String::new();
    for c in it: s.chars()
        invariant
            it.seq() == s@,
            out@ == escape_text(it.seq().take(it.index() as int)),
    {
        let ghost done = it.seq().take(it.index() as int);
        if c == '&' {
            out.append("&amp;");
        } else if c == '<' {
            out.append("&lt;");
        } else if c == '>' {
            out.append("&gt;");
        } else {
            out.push(c);
        }
        assert(it.seq().take(it.index() + 1).drop_last() =~= done);
    }
    assert(s@.take(s@.len() as int) =~= s@);
    proof {
        lemma_escape_has_no_angle(s@);
    }
    out
}

/// Escaped text holds no `<` and no `>`.
pub proof fn lemma_escape_has_no_angle(s: Seq<char>)
    ensures
        forall|i: int| 0 <= i < escape_text(s).len() ==> escape_text(s)[i] != '<' && escape_text(s)[i] != '>',
    decreases s.len(),
{
    reveal_strlit("&amp;");
    reveal_strlit("&lt;");
    reveal_strlit("&gt;");
    if s.len() > 0 {
        lemma_escape_has_no_angle(s.drop_last());
        let a = escape_text(s.drop_last());
        let b = escape_char(s.last());
        assert forall|i: int| 0 <= i < escape_text(s).len() implies escape_text(s)[i] != '<' && escape_text(s)[i] != '>' by {
            if i >= a.len() {
                assert(escape_text(s)[i] == b[i - a.len()]);
            } else {
                assert(escape_text(s)[i] == a[i]);
            }
        }
    }
}

/// Escaping a text in pieces gives the same as escaping it whole, so text
/// split over several events is escaped just as one run of it would be.
pub proof fn lemma_escape_concat(a: Seq<char>, b: Seq<char>)
    ensures
        escape_text(a + b) == escape_text(a) + escape_text(b),
    decreases b.len(),
{
    if b.len() == 0 {
        assert(a + b =~= a);
        assert(escape_text(a) + escape_text(b) =~= escape_text(a));
    } else {
        lemma_escape_concat(a, b.drop_last());
        assert((a + b).drop_last() =~= a + b.drop_last());
        assert((a + b).last() == b.last());
        assert(escape_text(a + b) =~= escape_text(a) + escape_text(b));
    }
}

/// Reading escaped HTML text back: `&amp;`, `&lt;` and `&gt;` become `&`,
/// `<` and `>` again, every other character stays as it is.
pub open spec fn unescape_text(s: Seq<char>) -> Seq<char>
    decreases s.len(),
{
    if s.len() == 0 {
        Seq::empty()
    } else if s.len() >= 5 && s.take(5) == "&amp;"@ {
        seq!['&'] + unescape_text(s.skip(5))
    } else if s.len() >= 4 && s.take(4) == "&lt;"@ {
        seq!['<'] + unescape_text(s.skip(4))
    } else if s.len() >= 4 && s.take(4) == "&gt;"@ {
        seq!['>'] + unescape_text(s.skip(4))
    } else {
        seq![s[0]] + unescape_text(s.drop_first())
    }
}

/// Escaping the first character and then the rest is escaping the whole.
proof fn lemma_escape_first(s: Seq<char>)
    requires
        s.len() > 0,
    ensures
        escape_text(s) == escape_char(s[0]) + escape_text(s.drop_first()),
{
    let first = seq![s[0]];
    assert(first + s.drop_first() =~= s);
    lemma_escape_concat(first, s.drop_first());
    assert(first.drop_last() =~= Seq::<char>::empty());
    assert(escape_text(first.drop_last()) == Seq::<char>::empty());
    assert(escape_text(first) == escape_text(first.drop_last()) + escape_char(first.last()));
    assert(escape_text(first) =~= escape_char(s[0]));
}

/// Escaped text reads back as the text it came from: escaping loses nothing.
pub proof fn lemma_unescape_escape(s: Seq<char>)
    ensures
        unescape_text(escape_text(s)) == s,
    decreases s.len(),
{
    reveal_strlit("&amp;");
    reveal_strlit("&lt;");
    reveal_strlit("&gt;");
    if s.len() == 0 {
        assert(escape_text(s) =~= Seq::<char>::empty());
    } else {
        let c = s[0];
        let rest = escape_text(s.drop_first());
        let e = escape_text(s);
        lemma_escape_first(s);
        lemma_unescape_escape(s.drop_first());
        assert(e == escape_char(c) + rest);
        if c == '&' {
            assert(e.take(5) =~= "&amp;"@);
            assert(e.skip(5) =~= rest);
        } else if c == '<' {
            assert(e.take(5) != "&amp;"@ || e.len() < 5) by {
                if e.len() >= 5 {
                    assert(e.take(5)[1] == 'l');
                }
            }
            assert(e.take(4) =~= "&lt;"@);
            assert(e.skip(4) =~= rest);
        } else if c == '>' {
            assert(e.take(5) != "&amp;"@ || e.len() < 5) by {
                if e.len() >= 5 {
                    assert(e.take(5)[1] == 'g');
                }
            }
            assert(e.take(4) != "&lt;"@ || e.len() < 4) by {
                if e.len() >= 4 {
                    assert(e.take(4)[1] == 'g');
                }
            }
            assert(e.take(4) =~= "&gt;"@);
            assert(e.skip(4) =~= rest);
        } else {
            assert(e[0] == c);
            assert(e.take(5) != "&amp;"@ || e.len() < 5) by {
                if e.len() >= 5 {
                    assert(e.take(5)[0] == c);
                }
            }
            assert(e.take(4) != "&lt;"@ || e.len() < 4) by {
                if e.len() >= 4 {
                    assert(e.take(4)[0] == c);
                }
            }
            assert(e.take(4) != "&gt;"@ || e.len() < 4) by {
                if e.len() >= 4 {
                    assert(e.take(4)[0] == c);
                }
            }
            assert(e.drop_first() =~= rest);
        }
        assert(unescape_text(e) =~= s);
    }
}

} // verus!
