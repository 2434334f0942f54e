//! Name casing: splitting an identifier into words and rejoining them in a chosen style.
//!
//! A word starts after a separator (`_`, `-` or a space) and at an upper-case ASCII letter
//! that follows a lower-case ASCII letter or a digit. Separators are dropped and empty
//! words are ignored. Case mapping is ASCII only; other characters are kept as they are.
use vstd::prelude::*;
use crate::text::{join, join_spec, push_char, views, chars_of};

verus! {

/// A naming style.
#[derive(Clone, Copy, Debug, PartialEq, Eq, Structural)]
pub enum Case {
    /// Keep the name exactly as it is.
    Unchanged,
    /// `TYPE NAME`
    Upper,
    /// `type name`
    Lower,
    /// `TypeName`
    UpperCamel,
    /// `typeName`
    LowerCamel,
    /// `TYPE_NAME`
    UpperSnake,
    /// `type_name`
    LowerSnake,
    /// `TYPE-NAME`
    UpperKebab,
    /// `type-name`
    LowerKebab,
}

/// Whether `c` separates words: `_`, `-` or a space.
pub open spec fn is_word_separator(c: char) -> bool {
    c == '_' || c == '-' || c == ' '
}

/// Whether `c` is an ASCII upper-case letter.
pub open spec fn is_upper(c: char) -> bool {
    'A' <= c <= 'Z'
}

/// Whether `c` is an ASCII lower-case letter.
pub open spec fn is_lower(c: char) -> bool {
    'a' <= c <= 'z'
}

/// Whether `c` is an ASCII digit.
pub open spec fn is_digit(c: char) -> bool {
    '0' <= c <= '9'
}

/// `c` opens a new word when it directly follows `prev`.
pub open spec fn starts_word(prev: char, c: char) -> bool {
    is_upper(c) && (is_lower(prev) || is_digit(prev))
}

/// The words of `s`, including empty ones left by separators; never empty itself.
pub open spec fn raw_words(s: Seq<char>) -> Seq<Seq<char>>
    decreases s.len(),
{
    if s.len() == 0 {
        seq![Seq::<char>::empty()]
    } else {
        let prev = raw_words(s.drop_last());
        let c = s.last();
        if is_word_separator(c) {
            prev.push(Seq::<char>::empty())
        } else if s.len() >= 2 && starts_word(s[s.len() - 2], c) {
            prev.push(seq![c])
        } else {
            prev.update(prev.len() - 1, prev.last().push(c))
        }
    }
}

/// `ws` without its empty entries, in order.
pub open spec fn drop_empty(ws: Seq<Seq<char>>) -> Seq<Seq<char>>
    decreases ws.len(),
{
    if ws.len() == 0 {
        ws
    } else if ws.last().len() == 0 {
        drop_empty(ws.drop_last())
    } else {
        drop_empty(ws.drop_last()).push(ws.last())
    }
}

/// The words of `s`.
pub open spec fn words(s: Seq<char>) -> Seq<Seq<char>> {
    drop_empty(raw_words(s))
}

/// `c` in upper case, where it is an ASCII letter.
pub open spec fn upper_char(c: char) -> char {
    if is_lower(c) {
        ((c as int) - 32) as char
    } else {
        c
    }
}

/// `c` in lower case, where it is an ASCII letter.
pub open spec fn lower_char(c: char) -> char {
    if is_upper(c) {
        ((c as int) + 32) as char
    } else {
        c
    }
}

/// `w` with each ASCII letter in upper case.
pub open spec fn upper_word(w: Seq<char>) -> Seq<char> {
    w.map_values(|c: char| upper_char(c))
}

/// `w` with each ASCII letter in lower case.
pub open spec fn lower_word(w: Seq<char>) -> Seq<char> {
    w.map_values(|c: char| lower_char(c))
}

/// First character upper case, the rest lower case.
pub open spec fn capitalized(w: Seq<char>) -> Seq<char> {
    if w.len() == 0 {
        w
    } else {
        seq![upper_char(w[0])] + lower_word(w.skip(1))
    }
}

impl Case {
    /// How the `i`-th word of a name is written in this style.
    pub open spec fn styled_word(self, i: int, w: Seq<char>) -> Seq<char> {
        match self {
            Case::Unchanged => w,
            Case::UpperCamel => capitalized(w),
            Case::LowerCamel => if i == 0 { lower_word(w) } else { capitalized(w) },
            Case::Upper | Case::UpperSnake | Case::UpperKebab => upper_word(w),
            Case::Lower | Case::LowerSnake | Case::LowerKebab => lower_word(w),
        }
    }

    /// What is written between two words in this style.
    pub open spec fn word_separator(self) -> Seq<char> {
        match self {
            Case::UpperSnake | Case::LowerSnake => seq!['_'],
            Case::UpperKebab | Case::LowerKebab => seq!['-'],
            Case::Upper | Case::Lower => seq![' '],
            _ => Seq::<char>::empty(),
        }
    }

    /// `name` written in this style.
    pub open spec fn renamed(self, name: Seq<char>) -> Seq<char> {
        if self == Case::Unchanged {
            name
        } else {
            join_spec(words(name).map(|i: int, w: Seq<char>| self.styled_word(i, w)), self.word_separator())
        }
    }
}

fn upper_char_exec(c: char) -> (r: char)
    ensures
        r == upper_char(c),
{
    if 'a' <= c && c <= 'z' {
        let b: u8 = c as u8;
        (b - 32) as char
    } else {
        c
    }
}

fn lower_char_exec(c: char) -> (r: char)
    ensures
        r == lower_char(c),
{
    if 'A' <= c && c <= 'Z' {
        let b: u8 = c as u8;
        (b + 32) as char
    } else {
        c
    }
}

fn is_word_separator_exec(c: char) -> (r: bool)
    ensures
        r == is_word_separator(c),
{
    c == '_' || c == '-' || c == ' '
}

fn starts_word_exec(prev: char, c: char) -> (r: bool)
    ensures
        r == starts_word(prev, c),
{
    'A' <= c && c <= 'Z' && (('a' <= prev && prev <= 'z') || ('0' <= prev && prev <= '9'))
}

/// The words of `v`, including empty ones.
fn split_raw_words(v: &Vec<char>) -> (r: Vec<Vec<char>>)
    ensures
        r@.map_values(|w: Vec<char>| w@) == raw_words(v@),
{
    let mut done: Vec<Vec<char>> = Vec::new();
    let mut cur: Vec<char> = Vec::new();
    let mut i: usize = 0;
    assert(v@.take(0) =~= Seq::<char>::empty());
    assert(done@.map_values(|w: Vec<char>| w@).push(cur@) =~= raw_words(v@.take(0)));
    while i < v.len()
        invariant
            i <= v.len(),
            done@.map_values(|w: Vec<char>| w@).push(cur@) == raw_words(v@.take(i as int)),
        decreases v.len() - i,
    {
        let c = v[i];
        let ghost prefix = v@.take(i + 1);
        assert(prefix.drop_last() =~= v@.take(i as int));
        if is_word_separator_exec(c) {
            let finished = cur;
            done.push(finished);
            cur = Vec::new();
            assert(done@.map_values(|w: Vec<char>| w@).push(cur@) =~= raw_words(prefix));
        } else if i >= 1 && starts_word_exec(v[i - 1], c) {
            assert(prefix[prefix.len() - 2] == v@[i - 1]);
            let finished = cur;
            done.push(finished);
            cur = Vec::new();
            cur.push(c);
            assert(done@.map_values(|w: Vec<char>| w@).push(cur@) =~= raw_words(prefix));
        } else {
            proof {
                if prefix.len() >= 2 {
                    assert(prefix[prefix.len() - 2] == v@[i - 1]);
                }
            }
            cur.push(c);
            assert(done@.map_values(|w: Vec<char>| w@).push(cur@) =~= raw_words(prefix));
        }
        i = i + 1;
    }
    done.push(cur);
    assert(v@.take(v@.len() as int) =~= v@);
    assert(done@.map_values(|w: Vec<char>| w@) =~= raw_words(v@));
    done
}

/// The words of `v`.
fn split_words(v: &Vec<char>) -> (r: Vec<Vec<char>>)
    ensures
        r@.map_values(|w: Vec<char>| w@) == words(v@),
{
    let raw = split_raw_words(v);
    let ghost raw_v = raw@.map_values(|w: Vec<char>| w@);
    let mut r: Vec<Vec<char>> = Vec::new();
    let mut i: usize = 0;
    assert(raw_v.take(0) =~= Seq::<Seq<char>>::empty());
    while i < raw.len()
        invariant
            i <= raw.len(),
            raw_v == raw@.map_values(|w: Vec<char>| w@),
            r@.map_values(|w: Vec<char>| w@) == drop_empty(raw_v.take(i as int)),
        decreases raw.len() - i,
    {
        assert(raw_v.take(i + 1).drop_last() =~= raw_v.take(i as int));
        assert(raw_v.take(i + 1).last() == raw@[i as int]@);
        if raw[i].len() > 0 {
            r.push(raw[i].clone());
            assert(r@.map_values(|w: Vec<char>| w@) =~= drop_empty(raw_v.take(i + 1)));
        }
        i = i + 1;
    }
    assert(raw_v.take(raw@.len() as int) =~= raw_v);
    r
}

fn string_of_word(w: &Vec<char>, upper_first: bool, upper_rest: bool) -> (r: String)
    ensures
        r@.len() == w@.len(),
        forall|j: int| 0 <= j < w@.len() ==> r@[j] == (
            if (j == 0 && upper_first) || (j > 0 && upper_rest) { upper_char(w@[j]) } else { lower_char(w@[j]) }),
{
    let mut r = String::new();
    let mut j: usize = 0;
    while j < w.len()
        invariant
            j <= w.len(),
            r@.len() == j,
            forall|k: int| 0 <= k < j ==> r@[k] == (
                if (k == 0 && upper_first) || (k > 0 && upper_rest) { upper_char(w@[k]) } else { lower_char(w@[k]) }),
        decreases w.len() - j,
    {
        let c = if (j == 0 && upper_first) || (j > 0 && upper_rest) {
            upper_char_exec(w[j])
        } else {
            lower_char_exec(w[j])
        };
        push_char(&mut r, c);
        j = j + 1;
    }
    r
}

impl Case {
    fn style_word(&self, i: usize, w: &Vec<char>) -> (r: String)
        requires
            *self != Case::Unchanged,
        ensures
            r@ == self.styled_word(i as int, w@),
    {
        let (upper_first, upper_rest) = match self {
            Case::UpperCamel => (true, false),
            Case::LowerCamel => (i > 0, false),
            Case::Upper | Case::UpperSnake | Case::UpperKebab => (true, true),
            _ => (false, false),
        };
        let r = string_of_word(w, upper_first, upper_rest);
        proof {
            let sw = self.styled_word(i as int, w@);
            if w@.len() > 0 && (*self == Case::UpperCamel || (*self == Case::LowerCamel && i > 0)) {
                assert(sw =~= r@);
            } else {
                assert(sw =~= r@);
            }
        }
        r
    }

    fn separator_str(&self) -> (r: &'static str)
        ensures
            r@ == self.word_separator(),
    {
        proof {
            reveal_strlit("_");
            reveal_strlit("-");
            reveal_strlit("");
            reveal_strlit(" ");
        }
        match self {
            Case::UpperSnake | Case::LowerSnake => "_",
            Case::UpperKebab | Case::LowerKebab => "-",
            Case::Upper | Case::Lower => " ",
            _ => "",
        }
    }

    /// Writes `name` in this style.
    pub fn rename(&self, name: &str) -> (r: String)
        ensures
            r@ == self.renamed(name@),
    {
        if *self == Case::Unchanged {
            return name.to_owned();
        }
        let v = chars_of(name);
        let ws = split_words(&v);
        let ghost wv = ws@.map_values(|w: Vec<char>| w@);
        let mut styled: Vec<String> = Vec::new();
        let mut i: usize = 0;
        while i < ws.len()
            invariant
                i <= ws.len(),
                *self != Case::Unchanged,
                wv == ws@.map_values(|w: Vec<char>| w@),
                styled@.len() == i,
                forall|k: int| 0 <= k < i ==> #[trigger] styled@[k]@ == self.styled_word(k, wv[k]),
            decreases ws.len() - i,
        {
            let s = self.style_word(i, &ws[i]);
            styled.push(s);
            i = i + 1;
        }
        let r = join(&styled, self.separator_str());
        assert(views(styled@) =~= wv.map(|k: int, w: Seq<char>| self.styled_word(k, w)));
        r
    }
}

/// `s` with its ASCII upper-case letters made lower case.
pub fn to_ascii_lower(s: &str) -> (r: String)
    ensures
        r@ == lower_word(s@),
{
    let v = chars_of(s);
    let r = string_of_word(&v, false, false);
    assert(r@ =~= lower_word(s@));
    r
}

/// How each style writes a name, word by word: `UpperCamel` capitalizes every word,
/// `LowerCamel` lower-cases the first word and capitalizes every later one, the snake
/// and kebab styles write every word in their letter case joined by `_` or `-`, `Upper`
/// and `Lower` join them by spaces, and `Unchanged` leaves the name as it is.
pub proof fn lemma_rename_by_words(name: Seq<char>)
    ensures
        Case::Unchanged.renamed(name) == name,
        Case::UpperCamel.renamed(name) == join_spec(words(name).map(|i: int, w: Seq<char>| capitalized(w)), Seq::<char>::empty()),
        Case::LowerCamel.renamed(name) == join_spec(
            words(name).map(|i: int, w: Seq<char>| if i == 0 { lower_word(w) } else { capitalized(w) }),
            Seq::<char>::empty(),
        ),
        Case::UpperSnake.renamed(name) == join_spec(words(name).map(|i: int, w: Seq<char>| upper_word(w)), seq!['_']),
        Case::LowerSnake.renamed(name) == join_spec(words(name).map(|i: int, w: Seq<char>| lower_word(w)), seq!['_']),
        Case::UpperKebab.renamed(name) == join_spec(words(name).map(|i: int, w: Seq<char>| upper_word(w)), seq!['-']),
        Case::LowerKebab.renamed(name) == join_spec(words(name).map(|i: int, w: Seq<char>| lower_word(w)), seq!['-']),
        Case::Upper.renamed(name) == join_spec(words(name).map(|i: int, w: Seq<char>| upper_word(w)), seq![' ']),
        Case::Lower.renamed(name) == join_spec(words(name).map(|i: int, w: Seq<char>| lower_word(w)), seq![' ']),
{
    let ws = words(name);
    assert(ws.map(|i: int, w: Seq<char>| Case::UpperCamel.styled_word(i, w)) =~= ws.map(|i: int, w: Seq<char>| capitalized(w)));
    assert(ws.map(|i: int, w: Seq<char>| Case::LowerCamel.styled_word(i, w))
        =~= ws.map(|i: int, w: Seq<char>| if i == 0 { lower_word(w) } else { capitalized(w) }));
    assert(ws.map(|i: int, w: Seq<char>| Case::UpperSnake.styled_word(i, w)) =~= ws.map(|i: int, w: Seq<char>| upper_word(w)));
    assert(ws.map(|i: int, w: Seq<char>| Case::LowerSnake.styled_word(i, w)) =~= ws.map(|i: int, w: Seq<char>| lower_word(w)));
    assert(ws.map(|i: int, w: Seq<char>| Case::UpperKebab.styled_word(i, w)) =~= ws.map(|i: int, w: Seq<char>| upper_word(w)));
    assert(ws.map(|i: int, w: Seq<char>| Case::LowerKebab.styled_word(i, w)) =~= ws.map(|i: int, w: Seq<char>| lower_word(w)));
    assert(ws.map(|i: int, w: Seq<char>| Case::Upper.styled_word(i, w)) =~= ws.map(|i: int, w: Seq<char>| upper_word(w)));
    assert(ws.map(|i: int, w: Seq<char>| Case::Lower.styled_word(i, w)) =~= ws.map(|i: int, w: Seq<char>| lower_word(w)));
    assert(Case::UpperSnake.word_separator() == seq!['_']);
    assert(Case::LowerKebab.word_separator() == seq!['-']);
    assert(Case::Upper.word_separator() == seq![' ']);
}

/// In `LowerCamel` the first word starts in lower case and every later word that starts
/// with a letter starts in upper case; in `UpperCamel` every such word does.
pub proof fn lemma_camel_word_starts(name: Seq<char>, i: int)
    requires
        0 <= i < words(name).len(),
        words(name)[i].len() > 0,
    ensures
        ({
            let lower = words(name).map(|j: int, w: Seq<char>| if j == 0 { lower_word(w) } else { capitalized(w) });
            &&& i > 0 ==> lower[i][0] == upper_char(words(name)[i][0]) && !is_lower(lower[i][0])
            &&& i == 0 ==> lower[i][0] == lower_char(words(name)[i][0]) && !is_upper(lower[i][0])
        }),
{
    let w = words(name)[i];
    if i == 0 {
        assert(lower_word(w)[0] == lower_char(w[0]));
    } else {
        assert(capitalized(w)[0] == upper_char(w[0]));
    }
}

} // verus!
