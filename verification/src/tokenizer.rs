use crate::text::{lemma_views_push, push_char, views};
use vstd::prelude::*;

verus! {

/// The characters that separate tokens outside quotes: space and tab.
pub open spec fn is_blank(c: char) -> bool {
    c == ' ' || c == '\t'
}

/// The characters that the tokenizer treats specially: the two quotes and the
/// backslash.
pub open spec fn is_special(c: char) -> bool {
    c == '\'' || c == '"' || c == '\\'
}

/// What the tokenizer knows after reading part of a line.
pub struct Scan {
    /// The tokens that are complete.
    pub tokens: Seq<Seq<char>>,
    /// The token under construction.
    pub current: Seq<char>,
    /// Whether the reader is inside single quotes.
    pub single: bool,
    /// Whether the reader is inside double quotes.
    pub double: bool,
}

impl Scan {
    /// The state before the first character.
    pub open spec fn start() -> Scan {
        Scan { tokens: Seq::empty(), current: Seq::empty(), single: false, double: false }
    }

    /// Whether the reader is inside quotes of either kind.
    pub open spec fn quoted(self) -> bool {
        self.single || self.double
    }

    /// Whether `c`, read in this state, is added to the token under
    /// construction as it stands: inside quotes everything but the closing
    /// quote is; outside, everything but blanks, quotes and the backslash.
    pub open spec fn takes_literally(self, c: char) -> bool {
        if self.single {
            c != '\''
        } else if self.double {
            c != '"'
        } else {
            !is_blank(c) && !is_special(c)
        }
    }

    /// Ends the token under construction, if there is one.
    pub open spec fn flush(self) -> Scan {
        if self.current.len() > 0 {
            Scan { tokens: self.tokens.push(self.current), current: Seq::empty(), ..self }
        } else {
            self
        }
    }

    /// The state after one more character.
    pub open spec fn read(self, c: char) -> Scan {
        if c == '\'' && !self.double {
            Scan { single: !self.single, ..self }
        } else if c == '"' && !self.single {
            Scan { double: !self.double, ..self }
        } else if is_blank(c) && !self.quoted() {
            self.flush()
        } else if c == '\\' && !self.quoted() {
            Scan { current: self.current.push(' '), ..self }
        } else {
            Scan { current: self.current.push(c), ..self }
        }
    }

    /// The state after all the characters of `s`, read from left to right.
    pub open spec fn read_all(self, s: Seq<char>) -> Scan
        decreases s.len(),
    {
        if s.len() == 0 {
            self
        } else {
            self.read(s[0]).read_all(s.drop_first())
        }
    }
}

/// The argument list of a line: what a single pass from left to right
/// collects, with the token in progress at the end of the line flushed.
pub open spec fn tokenize(line: Seq<char>) -> Seq<Seq<char>> {
    Scan::start().read_all(line).flush().tokens
}

/// The length of the run of characters at the start of `s` that are not blank.
pub open spec fn word_len(s: Seq<char>) -> nat
    decreases s.len(),
{
    if s.len() == 0 || is_blank(s[0]) {
        0
    } else {
        1 + word_len(s.drop_first())
    }
}

/// `s` split on runs of blanks: its maximal runs of characters that are not
/// blank, from left to right.
pub open spec fn split_blank(s: Seq<char>) -> Seq<Seq<char>>
    decreases s.len(),
{
    if s.len() == 0 {
        Seq::empty()
    } else if is_blank(s[0]) {
        split_blank(s.drop_first())
    } else {
        proof {
            lemma_word_len_bounds(s);
        }
        seq![s.take(word_len(s) as int)] + split_blank(s.skip(word_len(s) as int))
    }
}

/// The first word of `s` ends within `s`, and is not empty where `s` starts with
/// a character that is not blank.
pub proof fn lemma_word_len_bounds(s: Seq<char>)
    ensures
        word_len(s) <= s.len(),
        s.len() > 0 && !is_blank(s[0]) ==> word_len(s) >= 1,
    decreases s.len(),
{
    if s.len() > 0 && !is_blank(s[0]) {
        lemma_word_len_bounds(s.drop_first());
    }
}

/// A word in front of a string adds its length to that of the first word.
proof fn lemma_word_len_prefix(w: Seq<char>, s: Seq<char>)
    requires
        forall|i: int| 0 <= i < w.len() ==> !is_blank(w[i]),
    ensures
        word_len(w + s) == w.len() + word_len(s),
    decreases w.len(),
{
    if w.len() == 0 {
        assert(w + s =~= s);
    } else {
        lemma_word_len_prefix(w.drop_first(), s);
        assert((w + s).drop_first() =~= w.drop_first() + s);
    }
}

/// A word followed by a blank, or by the end, is the first piece of the split.
proof fn lemma_split_after_word(w: Seq<char>, s: Seq<char>)
    requires
        w.len() > 0,
        forall|i: int| 0 <= i < w.len() ==> !is_blank(w[i]),
        s.len() == 0 || is_blank(s[0]),
    ensures
        split_blank(w + s) == seq![w] + split_blank(s),
{
    lemma_word_len_prefix(w, s);
    assert((w + s).take(w.len() as int) =~= w);
    assert((w + s).skip(w.len() as int) =~= s);
}

/// Outside quotes, a scan of plain text collects the pieces of the split.
proof fn lemma_scan_splits(st: Scan, s: Seq<char>)
    requires
        !st.quoted(),
        forall|i: int| 0 <= i < st.current.len() ==> !is_blank(st.current[i]),
        forall|i: int| 0 <= i < s.len() ==> !is_special(s[i]),
    ensures
        st.read_all(s).flush().tokens == st.tokens + split_blank(st.current + s),
    decreases s.len(),
{
    let w = st.current;
    if s.len() == 0 {
        assert(w + s =~= w);
        if w.len() > 0 {
            lemma_split_after_word(w, s);
            assert(st.tokens.push(w) =~= st.tokens + (seq![w] + split_blank(s)));
        } else {
            assert(st.tokens =~= st.tokens + split_blank(w));
        }
    } else {
        let c = s[0];
        let rest = s.drop_first();
        let next = st.read(c);
        assert(!is_special(c));
        assert forall|i: int| 0 <= i < rest.len() implies !is_special(rest[i]) by {
            assert(rest[i] == s[i + 1]);
        }
        lemma_scan_splits(next, rest);
        if is_blank(c) {
            assert(Seq::<char>::empty() + rest =~= rest);
            if w.len() > 0 {
                lemma_split_after_word(w, s);
                assert(st.tokens.push(w) + split_blank(rest) =~= st.tokens + (seq![w]
                    + split_blank(s)));
            } else {
                assert(w + s =~= s);
            }
        } else {
            assert(w.push(c) + rest =~= w + s);
        }
    }
}

/// A line without quotes and backslashes is tokenized by splitting it on runs
/// of blanks.
pub proof fn lemma_plain_line_splits(line: Seq<char>)
    requires
        forall|i: int| 0 <= i < line.len() ==> !is_special(line[i]),
    ensures
        tokenize(line) == split_blank(line),
{
    lemma_scan_splits(Scan::start(), line);
    assert(Seq::<char>::empty() + line =~= line);
    assert(Seq::<Seq<char>>::empty() + split_blank(line) =~= split_blank(line));
}

/// Whether no token of a list is the empty string.
pub open spec fn all_nonempty(tokens: Seq<Seq<char>>) -> bool {
    forall|i: int| 0 <= i < tokens.len() ==> (#[trigger] tokens[i]).len() > 0
}

/// Reading on never leaves an empty token behind.
proof fn lemma_scan_keeps_tokens_nonempty(st: Scan, s: Seq<char>)
    requires
        all_nonempty(st.tokens),
    ensures
        all_nonempty(st.read_all(s).tokens),
        all_nonempty(st.read_all(s).flush().tokens),
    decreases s.len(),
{
    if s.len() > 0 {
        lemma_scan_keeps_tokens_nonempty(st.read(s[0]), s.drop_first());
    }
}

/// No token of a line is the empty string.
pub proof fn lemma_tokens_nonempty(line: Seq<char>)
    ensures
        all_nonempty(tokenize(line)),
{
    lemma_scan_keeps_tokens_nonempty(Scan::start(), line);
}

/// Reading a text of one character is reading that character.
pub proof fn lemma_read_one(st: Scan, c: char)
    ensures
        st.read_all(seq![c]) == st.read(c),
{
    let s = seq![c];
    assert(s.drop_first() =~= Seq::<char>::empty());
    assert(st.read(c).read_all(s.drop_first()) == st.read(c));
    assert(st.read_all(s) == st.read(s[0]).read_all(s.drop_first()));
}

/// Reading two pieces of text in a row is reading the one made of both.
pub proof fn lemma_read_all_concat(st: Scan, a: Seq<char>, b: Seq<char>)
    ensures
        st.read_all(a + b) == st.read_all(a).read_all(b),
    decreases a.len(),
{
    if a.len() == 0 {
        assert(a + b =~= b);
    } else {
        lemma_read_all_concat(st.read(a[0]), a.drop_first(), b);
        assert((a + b).drop_first() =~= a.drop_first() + b);
    }
}

/// Text that is all literal where it is read goes into the token under
/// construction as it stands, and changes nothing else.
pub proof fn lemma_literal_text(st: Scan, s: Seq<char>)
    requires
        forall|i: int| 0 <= i < s.len() ==> st.takes_literally(s[i]),
    ensures
        st.read_all(s) == (Scan { current: st.current + s, ..st }),
    decreases s.len(),
{
    if s.len() == 0 {
        assert(st.current + s =~= st.current);
    } else {
        let next = st.read(s[0]);
        let rest = s.drop_first();
        assert forall|i: int| 0 <= i < rest.len() implies next.takes_literally(rest[i]) by {
            assert(rest[i] == s[i + 1]);
        }
        lemma_literal_text(next, rest);
        assert(st.current.push(s[0]) + rest =~= st.current + s);
    }
}

/// Between a pair of quotes of one kind everything but that quote is literal:
/// blanks, backslashes and quotes of the other kind go into the token as they
/// stand, and the two quotes themselves are dropped.
pub proof fn lemma_quoted_span(st: Scan, quote: char, q: Seq<char>)
    requires
        !st.quoted(),
        quote == '\'' || quote == '"',
        forall|i: int| 0 <= i < q.len() ==> q[i] != quote,
    ensures
        st.read_all(seq![quote] + q + seq![quote]) == (Scan { current: st.current + q, ..st }),
{
    let open = st.read(quote);
    lemma_read_all_concat(st, seq![quote] + q, seq![quote]);
    lemma_read_all_concat(st, seq![quote], q);
    lemma_read_one(st, quote);
    lemma_literal_text(open, q);
    lemma_read_one(open.read_all(q), quote);
}

/// Outside quotes a backslash stands for one space in the token: two words
/// with a backslash between them are one token.
pub proof fn lemma_backslash_joins(left: Seq<char>, right: Seq<char>)
    requires
        forall|i: int| 0 <= i < left.len() ==> !is_blank(left[i]) && !is_special(left[i]),
        forall|i: int| 0 <= i < right.len() ==> !is_blank(right[i]) && !is_special(right[i]),
    ensures
        tokenize(left + seq!['\\'] + right) == seq![left + seq![' '] + right],
{
    let start = Scan::start();
    lemma_read_all_concat(start, left + seq!['\\'], right);
    lemma_read_all_concat(start, left, seq!['\\']);
    lemma_literal_text(start, left);
    let before = start.read_all(left);
    lemma_read_one(before, '\\');
    let after = before.read('\\');
    lemma_literal_text(after, right);
    assert(Seq::<char>::empty() + left =~= left);
    assert(left.push(' ') + right =~= left + seq![' '] + right);
    assert(Seq::<Seq<char>>::empty().push(left + seq![' '] + right) =~= seq![
        left + seq![' '] + right,
    ]);
}

/// Outside quotes and between tokens, blanks change nothing.
proof fn lemma_scan_skips_blanks(st: Scan, s: Seq<char>)
    requires
        !st.quoted(),
        st.current.len() == 0,
        forall|i: int| 0 <= i < s.len() ==> is_blank(s[i]),
    ensures
        st.read_all(s) == st,
    decreases s.len(),
{
    if s.len() > 0 {
        lemma_scan_skips_blanks(st, s.drop_first());
    }
}

/// A line of blanks alone, and the empty line, have no tokens.
pub proof fn lemma_blank_line_has_no_tokens(line: Seq<char>)
    requires
        forall|i: int| 0 <= i < line.len() ==> is_blank(line[i]),
    ensures
        tokenize(line) == Seq::<Seq<char>>::empty(),
{
    lemma_scan_skips_blanks(Scan::start(), line);
}

/// Splits one input line into its argument list. Blanks outside quotes
/// separate tokens; a quote of one kind opens or closes a quoted span unless it
/// stands inside quotes of the other kind, and is not copied; a backslash
/// outside quotes stands for one space; nothing else is special. An open quote
/// at the end of the line is no error.
pub fn parse_arguments(input: &str) -> (tokens: Vec<String>)
    ensures
        views(tokens@) == tokenize(input@),
{
    let mut tokens: Vec<String> = Vec::new();
    let mut current = String::new();
    let mut single = false;
    let mut double = false;
    assert(views(tokens@) =~= Seq::<Seq<char>>::empty());
    assert(input@.skip(0) =~= input@);
    for c in it: input.chars()
        invariant
            it.seq() == input@,
            (Scan { tokens: views(tokens@), current: current@, single, double }).read_all(
                input@.skip(it.index() as int),
            ) == Scan::start().read_all(input@),
    {
        proof {
            assert(input@.skip(it.index() as int).drop_first() =~= input@.skip(it.index() + 1));
        }
        if c == '\'' && !double {
            single = !single;
        } else if c == '"' && !single {
            double = !double;
        } else if (c == ' ' || c == '\t') && !single && !double {
            if !current.as_str().is_empty() {
                proof {
                    lemma_views_push(tokens@, current);
                }
                tokens.push(current);
                current = String::new();
            }
        } else if c == '\\' && !single && !double {
            push_char(&mut current, ' ');
        } else {
            push_char(&mut current, c);
        }
    }
    if !current.as_str().is_empty() {
        proof {
            lemma_views_push(tokens@, current);
        }
        tokens.push(current);
    }
    tokens
}

} // verus!
