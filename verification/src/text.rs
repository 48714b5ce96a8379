use vstd::prelude::*;
use vstd::std_specs::iter::IteratorSpec;
use vstd::string::*;

verus! {

/// What `char::is_whitespace` answers for a character.
pub uninterp spec fn char_is_whitespace(c: char) -> bool;

/// Whether a character is in the ASCII range.
pub open spec fn is_ascii_char(c: char) -> bool {
    (c as u32) < 0x80
}

/// White space within ASCII: the space, and the characters from tab to
/// carriage return.
pub open spec fn ascii_white_space(c: char) -> bool {
    c == ' ' || 0x09 <= (c as u32) <= 0x0d
}

/// Whether a character is white space: within ASCII the space and the
/// characters from tab to carriage return, beyond ASCII what
/// `char::is_whitespace` answers.
pub open spec fn white_space(c: char) -> bool {
    if is_ascii_char(c) {
        ascii_white_space(c)
    } else {
        char_is_whitespace(c)
    }
}

/// `String::push`: appends one character to the end of the string.
#[verifier::external_body]
pub(crate) fn push_char(s: &mut String, c: char)
    ensures
        final(s)@ == old(s)@.push(c),
{
    s.push(c)
}

/// `char::is_whitespace`: the answer is given the name `char_is_whitespace`.
/// Of an ASCII character it is claimed besides that the answer is true for
/// the space and for the characters from tab to carriage return, and for no
/// other; beyond ASCII nothing more is claimed.
#[verifier::external_body]
pub(crate) fn is_whitespace(c: char) -> (b: bool)
    ensures
        b == char_is_whitespace(c),
        is_ascii_char(c) ==> b == ascii_white_space(c),
{
    c.is_whitespace()
}

/// Whether two string slices hold the same characters.
pub fn str_eq(a: &str, b: &str) -> (r: bool)
    ensures
        r == (a@ == b@),
{
    let mut left = a.chars();
    let mut right = b.chars();
    let ghost mut n: int = 0;
    loop
        invariant
            0 <= n <= a@.len(),
            n <= b@.len(),
            left.obeys_prophetic_iter_laws(),
            right.obeys_prophetic_iter_laws(),
            left.remaining() == a@.skip(n),
            right.remaining() == b@.skip(n),
            a@.take(n) == b@.take(n),
            left.decrease() is Some,
        decreases left.decrease()->0,
    {
        let x = left.next();
        let y = right.next();
        match (x, y) {
            (None, None) => {
                assert(a@.take(n) =~= a@);
                assert(b@.take(n) =~= b@);
                return true;
            },
            (Some(p), Some(q)) => {
                if p != q {
                    assert(a@[n] != b@[n]);
                    return false;
                }
                proof {
                    assert(a@.skip(n).drop_first() =~= a@.skip(n + 1));
                    assert(b@.skip(n).drop_first() =~= b@.skip(n + 1));
                    assert(a@.take(n + 1) =~= a@.take(n).push(p));
                    assert(b@.take(n + 1) =~= b@.take(n).push(q));
                    n = n + 1;
                }
            },
            _ => {
                assert(a@.len() != b@.len());
                return false;
            },
        }
    }
}

/// What is left of `s` once its leading white space is gone.
pub open spec fn trim_start(s: Seq<char>) -> Seq<char>
    decreases s.len(),
{
    if s.len() > 0 && white_space(s[0]) {
        trim_start(s.drop_first())
    } else {
        s
    }
}

/// What is left of `s` once its trailing white space is gone.
pub open spec fn trim_end(s: Seq<char>) -> Seq<char>
    decreases s.len(),
{
    if s.len() > 0 && white_space(s.last()) {
        trim_end(s.drop_last())
    } else {
        s
    }
}

/// The characters of each string of a sequence of strings.
pub open spec fn views(v: Seq<String>) -> Seq<Seq<char>> {
    Seq::new(v.len(), |i: int| v[i]@)
}

/// The characters of a string that may be absent.
pub open spec fn text_of(s: Option<String>) -> Option<Seq<char>> {
    match s {
        Some(s) => Some(s@),
        None => None,
    }
}

/// `s` without its leading and trailing white space.
pub open spec fn trimmed(s: Seq<char>) -> Seq<char> {
    trim_end(trim_start(s))
}

/// The parts written one after another, with `sep` between each two.
pub open spec fn joined(parts: Seq<Seq<char>>, sep: Seq<char>) -> Seq<char>
    decreases parts.len(),
{
    if parts.len() == 0 {
        Seq::empty()
    } else if parts.len() == 1 {
        parts[0]
    } else {
        joined(parts.drop_last(), sep) + sep + parts.last()
    }
}

/// Leading white space ends at the first character that is none.
pub proof fn lemma_trim_start_skips(s: Seq<char>, lo: int)
    requires
        0 <= lo <= s.len(),
        forall|k: int| 0 <= k < lo ==> white_space(s[k]),
        lo < s.len() ==> !white_space(s[lo]),
    ensures
        trim_start(s) == s.skip(lo),
    decreases lo,
{
    if lo == 0 {
        assert(s.skip(0) =~= s);
    } else {
        lemma_trim_start_skips(s.drop_first(), lo - 1);
        assert(s.drop_first().skip(lo - 1) =~= s.skip(lo));
    }
}

/// Trailing white space begins after the last character that is none.
pub proof fn lemma_trim_end_takes(s: Seq<char>, hi: int)
    requires
        0 <= hi <= s.len(),
        forall|k: int| hi <= k < s.len() ==> white_space(s[k]),
        hi > 0 ==> !white_space(s[hi - 1]),
    ensures
        trim_end(s) == s.take(hi),
    decreases s.len() - hi,
{
    if hi == s.len() {
        assert(s.take(hi) =~= s);
    } else {
        lemma_trim_end_takes(s.drop_last(), hi);
        assert(s.drop_last().take(hi) =~= s.take(hi));
    }
}

/// A string of white space alone trims to nothing.
pub proof fn lemma_trimmed_white_space(s: Seq<char>)
    requires
        forall|k: int| 0 <= k < s.len() ==> white_space(s[k]),
    ensures
        trimmed(s) == Seq::<char>::empty(),
{
    lemma_trim_start_skips(s, s.len() as int);
    assert(s.skip(s.len() as int) =~= Seq::<char>::empty());
}

/// White space around a text that neither begins nor ends with any is what
/// trimming takes away, and all of it.
pub proof fn lemma_trimmed_padding(before: Seq<char>, s: Seq<char>, after: Seq<char>)
    requires
        forall|k: int| 0 <= k < before.len() ==> white_space(before[k]),
        forall|k: int| 0 <= k < after.len() ==> white_space(after[k]),
        s.len() > 0 ==> !white_space(s[0]) && !white_space(s.last()),
    ensures
        trimmed(before + s + after) == s,
{
    let t = before + s + after;
    if s.len() == 0 {
        lemma_trimmed_white_space(t);
        assert(s =~= Seq::<char>::empty());
    } else {
        lemma_trim_start_skips(t, before.len() as int);
        assert(t.skip(before.len() as int) =~= s + after);
        lemma_trim_end_takes(s + after, s.len() as int);
        assert((s + after).take(s.len() as int) =~= s);
    }
}

/// Joining can be read from the front: the first part, the separator, and
/// the other parts joined.
pub proof fn lemma_joined_front(first: Seq<char>, rest: Seq<Seq<char>>, sep: Seq<char>)
    requires
        rest.len() > 0,
    ensures
        joined(seq![first] + rest, sep) == first + sep + joined(rest, sep),
    decreases rest.len(),
{
    let all = seq![first] + rest;
    if rest.len() == 1 {
        assert(all.drop_last() =~= seq![first]);
        assert(joined(seq![first], sep) == first);
        assert(all.last() == rest[0]);
    } else {
        lemma_joined_front(first, rest.drop_last(), sep);
        assert(all.drop_last() =~= seq![first] + rest.drop_last());
        assert(joined(all, sep) =~= first + sep + joined(rest, sep));
    }
}

/// The views of a sequence of strings grow with the sequence.
pub proof fn lemma_views_push(v: Seq<String>, s: String)
    ensures
        views(v.push(s)) == views(v).push(s@),
{
    assert(views(v.push(s)) =~= views(v).push(s@));
}

/// The string slice without its leading and trailing white space, as
/// `str::trim` gives it.
pub fn trim(s: &str) -> (r: &str)
    ensures
        r@ == trimmed(s@),
{
    let n = s.unicode_len();
    let mut lo: usize = 0;
    let mut hi: usize = 0;
    let mut seen = false;
    let mut i: usize = 0;
    for c in it: s.chars()
        invariant
            it.seq() == s@,
            n == s@.len(),
            i == it.index(),
            i <= n,
            seen ==> lo < hi <= i && !white_space(s@[lo as int]) && !white_space(s@[hi - 1]),
            seen ==> forall|k: int| 0 <= k < lo ==> white_space(s@[k]),
            seen ==> forall|k: int| hi <= k < i ==> white_space(s@[k]),
            !seen ==> lo == 0 && hi == 0,
            !seen ==> forall|k: int| 0 <= k < i ==> white_space(s@[k]),
    {
        if !is_whitespace(c) {
            if !seen {
                lo = i;
                seen = true;
            }
            hi = i + 1;
        }
        i = i + 1;
    }
    proof {
        if seen {
            lemma_trim_start_skips(s@, lo as int);
            lemma_trim_end_takes(s@.skip(lo as int), hi - lo);
            assert(s@.skip(lo as int).take(hi - lo) =~= s@.subrange(lo as int, hi as int));
        } else {
            lemma_trimmed_white_space(s@);
            assert(s@.subrange(0, 0) =~= Seq::<char>::empty());
        }
    }
    s.substring_char(lo, hi)
}

/// The first character of a string slice, if it has one.
pub fn first_char(s: &str) -> (r: Option<char>)
    ensures
        r == (if s@.len() > 0 {
            Some(s@[0])
        } else {
            None
        }),
{
    let mut chars = s.chars();
    chars.next()
}

/// The last character of a string slice, if it has one.
pub fn last_char(s: &str) -> (r: Option<char>)
    ensures
        r == (if s@.len() > 0 {
            Some(s@.last())
        } else {
            None
        }),
{
    let mut last: Option<char> = None;
    for c in it: s.chars()
        invariant
            it.seq() == s@,
            last == (if it.index() > 0 {
                Some(s@[it.index() - 1])
            } else {
                None
            }),
    {
        last = Some(c);
    }
    last
}

/// `a` followed by `b`, as a new string.
pub fn followed_by(a: &str, b: &str) -> (r: String)
    ensures
        r@ == a@ + b@,
{
    let mut r = a.to_owned();
    r.append(b);
    r
}

/// The strings of `parts` written one after another with `sep` between each
/// two, as `join` on a slice of strings gives them.
pub fn join(parts: &Vec<String>, sep: &str) -> (r: String)
    ensures
        r@ == joined(views(parts@), sep@),
{
    let mut r = String::new();
    let mut i: usize = 0;
    while i < parts.len()
        invariant
            i <= parts.len(),
            r@ == joined(views(parts@).take(i as int), sep@),
        decreases parts.len() - i,
    {
        proof {
            let done = views(parts@).take(i as int);
            let more = views(parts@).take(i + 1);
            assert(more.drop_last() =~= done);
            assert(more.last() == parts@[i as int]@);
            if i == 0 {
                assert(Seq::<char>::empty() + parts@[0]@ =~= parts@[0]@);
            }
        }
        if i > 0 {
            r.append(sep);
        }
        r.append(parts[i].as_str());
        i = i + 1;
    }
    assert(views(parts@).take(parts.len() as int) =~= views(parts@));
    r
}

} // verus!
