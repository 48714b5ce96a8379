use crate::text::{
    first_char, followed_by, joined, last_char, lemma_joined_front, lemma_views_push, push_char,
    text_of, views,
};
use vstd::prelude::*;
use vstd::string::*;

verus! {

/// The number of characters of `s` in front of the first `sep`, or the length
/// of `s` where it holds none.
pub open spec fn first_sep(s: Seq<char>, sep: char) -> nat
    decreases s.len(),
{
    if s.len() == 0 || s[0] == sep {
        0
    } else {
        1 + first_sep(s.drop_first(), sep)
    }
}

/// The pieces of `s` between the occurrences of `sep`. A string without `sep`
/// is one piece, the empty string too; a `sep` at either end, or two in a row,
/// give an empty piece.
pub open spec fn split_on(s: Seq<char>, sep: char) -> Seq<Seq<char>>
    decreases s.len(),
{
    let n = first_sep(s, sep) as int;
    if 0 <= n < s.len() {
        seq![s.take(n)] + split_on(s.skip(n + 1), sep)
    } else {
        seq![s]
    }
}

/// The entries of a search path: the pieces between its colons, in order.
pub open spec fn search_path_entries(value: Seq<char>) -> Seq<Seq<char>> {
    split_on(value, ':')
}

/// The file that a directory of the search path would hold for a command,
/// the name adjoined to the directory as a path is to a path: a name that
/// begins with a slash stands for itself, and so does any name in the empty
/// directory; else the name follows the directory, with one slash between
/// them where the directory does not end in one.
pub open spec fn candidate(dir: Seq<char>, name: Seq<char>) -> Seq<char> {
    if dir.len() == 0 || (name.len() > 0 && name[0] == '/') {
        name
    } else if dir.last() == '/' {
        dir + name
    } else {
        dir + "/"@ + name
    }
}

/// Whether a permission mode lets anybody execute the file: one of the three
/// execute bits, of owner, group or others, is set.
pub open spec fn mode_is_executable(mode: u32) -> bool {
    mode & 0o100 != 0 || mode & 0o010 != 0 || mode & 0o001 != 0
}

/// What the environment holds under the name of the search path.
#[derive(Clone, Debug, PartialEq, Eq)]
pub enum PathVariable {
    /// The variable is not set.
    Unset,
    /// The variable is set to something that is not valid UTF-8.
    NotUnicode,
    /// The variable's value.
    Value(String),
}

/// The search path of a run, and what is to be said of the variable that it
/// was read from.
#[derive(Clone, Debug, PartialEq, Eq)]
pub struct SearchPath {
    /// The directories, in the order in which they are searched.
    pub dirs: Vec<String>,
    /// The diagnostic to write once at startup, if there is one.
    pub warning: Option<String>,
}

/// A `PathVariable`, with the characters of the value in place of the string.
pub enum PathVariableView {
    Unset,
    NotUnicode,
    Value(Seq<char>),
}

/// A `SearchPath`, with the characters of each string in place of the string.
pub struct SearchPathView {
    pub dirs: Seq<Seq<char>>,
    pub warning: Option<Seq<char>>,
}

impl View for PathVariable {
    type V = PathVariableView;

    open spec fn view(&self) -> PathVariableView {
        match *self {
            PathVariable::Unset => PathVariableView::Unset,
            PathVariable::NotUnicode => PathVariableView::NotUnicode,
            PathVariable::Value(value) => PathVariableView::Value(value@),
        }
    }
}

impl View for SearchPath {
    type V = SearchPathView;

    open spec fn view(&self) -> SearchPathView {
        SearchPathView { dirs: views(self.dirs@), warning: text_of(self.warning) }
    }
}

/// The search path that a variable gives: its entries where it has a value;
/// else no directory at all, and a diagnostic that says why.
pub open spec fn search_path_of(variable: PathVariableView) -> SearchPathView {
    match variable {
        PathVariableView::Value(value) => SearchPathView {
            dirs: search_path_entries(value),
            warning: None,
        },
        PathVariableView::Unset => SearchPathView {
            dirs: Seq::empty(),
            warning: Some("PATH is not defined in the environment.\n"@),
        },
        PathVariableView::NotUnicode => SearchPathView {
            dirs: Seq::empty(),
            warning: Some("PATH contains invalid UTF-8\n"@),
        },
    }
}

/// Whether a candidate is an executable file, given what the file system
/// says of it: `None` where nothing exists under the path or it cannot be
/// examined, else the permission mode of the file that it leads to.
pub open spec fn is_executable(status: Option<u32>) -> bool {
    match status {
        Some(mode) => mode_is_executable(mode),
        None => false,
    }
}

/// The first `sep` of `s` lies within `s` or at its end.
pub proof fn lemma_first_sep_bounds(s: Seq<char>, sep: char)
    ensures
        first_sep(s, sep) <= s.len(),
        first_sep(s, sep) < s.len() ==> s[first_sep(s, sep) as int] == sep,
        forall|i: int| 0 <= i < first_sep(s, sep) ==> s[i] != sep,
    decreases s.len(),
{
    if s.len() > 0 && s[0] != sep {
        let rest = s.drop_first();
        lemma_first_sep_bounds(rest, sep);
        assert forall|i: int| 0 <= i < first_sep(s, sep) implies s[i] != sep by {
            if i > 0 {
                assert(s[i] == rest[i - 1]);
            }
        }
    }
}

/// In front of a string, a piece without `sep` moves the first `sep` by its
/// length.
proof fn lemma_first_sep_prefix(w: Seq<char>, s: Seq<char>, sep: char)
    requires
        forall|i: int| 0 <= i < w.len() ==> w[i] != sep,
    ensures
        first_sep(w + s, sep) == w.len() + first_sep(s, sep),
    decreases w.len(),
{
    if w.len() == 0 {
        assert(w + s =~= s);
    } else {
        lemma_first_sep_prefix(w.drop_first(), s, sep);
        assert((w + s).drop_first() =~= w.drop_first() + s);
    }
}

/// A piece without `sep`, then `sep`, then the rest: the piece is the first of
/// the split.
proof fn lemma_split_on_piece(w: Seq<char>, s: Seq<char>, sep: char)
    requires
        forall|i: int| 0 <= i < w.len() ==> w[i] != sep,
    ensures
        split_on(w + seq![sep] + s, sep) == seq![w] + split_on(s, sep),
        split_on(w, sep) == seq![w],
{
    let t = w + seq![sep] + s;
    lemma_first_sep_prefix(w, seq![sep] + s, sep);
    assert(t =~= w + (seq![sep] + s));
    assert(t.take(w.len() as int) =~= w);
    assert(t.skip(w.len() as int + 1) =~= s);
    lemma_first_sep_prefix(w, Seq::empty(), sep);
    assert(w + Seq::<char>::empty() =~= w);
}

/// Splitting loses nothing: the pieces, joined by the separator again, are
/// the string that was split, and no piece holds the separator.
pub proof fn lemma_split_then_join(s: Seq<char>, sep: char)
    ensures
        split_on(s, sep).len() >= 1,
        joined(split_on(s, sep), seq![sep]) == s,
        forall|i: int, j: int|
            0 <= i < split_on(s, sep).len() && 0 <= j < split_on(s, sep)[i].len() ==> split_on(
                s,
                sep,
            )[i][j] != sep,
    decreases s.len(),
{
    let n = first_sep(s, sep) as int;
    lemma_first_sep_bounds(s, sep);
    if n < s.len() {
        let rest = s.skip(n + 1);
        lemma_split_then_join(rest, sep);
        lemma_joined_front(s.take(n), split_on(rest, sep), seq![sep]);
        assert(s.take(n) + seq![sep] + rest =~= s);
        assert forall|i: int, j: int|
            0 <= i < split_on(s, sep).len() && 0 <= j < split_on(s, sep)[i].len() implies split_on(
            s,
            sep,
        )[i][j] != sep by {
            if i > 0 {
                assert(split_on(s, sep)[i] == split_on(rest, sep)[i - 1]);
            }
        }
    }
}

/// Splits the value of the search path variable at its colons.
pub fn parse_search_path(value: &str) -> (dirs: Vec<String>)
    ensures
        views(dirs@) == search_path_entries(value@),
{
    let mut dirs: Vec<String> = Vec::new();
    let mut current = String::new();
    assert(views(dirs@) =~= Seq::<Seq<char>>::empty());
    assert(current@ + value@.skip(0) =~= value@);
    assert(Seq::<Seq<char>>::empty() + split_on(value@, ':') =~= split_on(value@, ':'));
    for c in it: value.chars()
        invariant
            it.seq() == value@,
            forall|i: int| 0 <= i < current@.len() ==> current@[i] != ':',
            views(dirs@) + split_on(current@ + value@.skip(it.index() as int), ':') == split_on(
                value@,
                ':',
            ),
    {
        let ghost rest = value@.skip(it.index() + 1);
        proof {
            assert(value@.skip(it.index() as int) =~= seq![c] + rest);
        }
        if c == ':' {
            proof {
                lemma_split_on_piece(current@, rest, ':');
                lemma_views_push(dirs@, current);
                assert(current@ + (seq![c] + rest) =~= current@ + seq![':'] + rest);
                assert(views(dirs@).push(current@) + split_on(rest, ':') =~= views(dirs@) + (
                seq![current@] + split_on(rest, ':')));
                assert(Seq::<char>::empty() + rest =~= rest);
            }
            dirs.push(current);
            current = String::new();
        } else {
            proof {
                assert(current@.push(c) + rest =~= current@ + (seq![c] + rest));
            }
            push_char(&mut current, c);
        }
    }
    proof {
        assert(current@ + value@.skip(value@.len() as int) =~= current@);
        lemma_split_on_piece(current@, Seq::empty(), ':');
        lemma_views_push(dirs@, current);
        assert(views(dirs@).push(current@) =~= views(dirs@) + seq![current@]);
    }
    dirs.push(current);
    dirs
}

/// The file that the directory `dir` would hold for the command `name`.
pub fn candidate_path(dir: &str, name: &str) -> (r: String)
    ensures
        r@ == candidate(dir@, name@),
{
    if dir.is_empty() || first_char(name) == Some('/') {
        name.to_owned()
    } else if last_char(dir) == Some('/') {
        followed_by(dir, name)
    } else {
        let mut r = followed_by(dir, "/");
        r.append(name);
        r
    }
}

/// Whether a candidate is an executable file, given what the file system
/// says of it: `None` where nothing exists under the path or it cannot be
/// examined, else the permission mode of the file that it leads to.
pub fn file_exists_and_executable(status: Option<u32>) -> (r: bool)
    ensures
        r == is_executable(status),
{
    match status {
        Some(mode) => {
            assert((mode & 0o111 != 0) == (mode & 0o100 != 0 || mode & 0o010 != 0 || mode & 0o001
                != 0)) by (bit_vector);
            mode & 0o111 != 0
        },
        None => false,
    }
}

/// The search path of a run, from what the environment holds.
pub fn search_path_from(variable: PathVariable) -> (r: SearchPath)
    ensures
        r@ == search_path_of(variable@),
{
    match variable {
        PathVariable::Value(value) => SearchPath {
            dirs: parse_search_path(value.as_str()),
            warning: None,
        },
        PathVariable::Unset => {
            let dirs: Vec<String> = Vec::new();
            assert(views(dirs@) =~= Seq::<Seq<char>>::empty());
            SearchPath {
                dirs,
                warning: Some("PATH is not defined in the environment.\n".to_owned()),
            }
        },
        PathVariable::NotUnicode => {
            let dirs: Vec<String> = Vec::new();
            assert(views(dirs@) =~= Seq::<Seq<char>>::empty());
            SearchPath { dirs, warning: Some("PATH contains invalid UTF-8\n".to_owned()) }
        },
    }
}

} // verus!
