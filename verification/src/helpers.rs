//! Small helpers that templates and scripts call.
use vstd::prelude::*;
use crate::text::{chars_of, is_whitespace, join, join_spec, split_by, split_spec, string_from, views};

verus! {

/// Whether every character of `line` is whitespace.
pub open spec fn is_blank(line: Seq<char>) -> bool {
    forall|j: int| 0 <= j < line.len() ==> is_whitespace(#[trigger] line[j])
}

/// `n` spaces.
pub open spec fn spaces(n: nat) -> Seq<char> {
    Seq::new(n, |i: int| ' ')
}

/// A line with `n` spaces before it, unless it is blank.
pub open spec fn indented_line(line: Seq<char>, n: nat) -> Seq<char> {
    if is_blank(line) {
        line
    } else {
        spaces(n) + line
    }
}

/// `content` with `n` spaces before each line that is not blank.
pub open spec fn indented(content: Seq<char>, n: nat) -> Seq<char> {
    join_spec(split_spec(content, '\n').map_values(|line: Seq<char>| indented_line(line, n)), seq!['\n'])
}

/// `content` with `num_spaces` spaces before each line that is not blank.
pub fn indent(content: &str, num_spaces: usize) -> (r: String)
    ensures
        r@ == indented(content@, num_spaces as nat),
{
    let mut pad = String::new();
    let mut k: usize = 0;
    while k < num_spaces
        invariant
            k <= num_spaces,
            pad@ == spaces(k as nat),
        decreases num_spaces - k,
    {
        crate::text::push_char(&mut pad, ' ');
        assert(pad@ =~= spaces((k + 1) as nat));
        k = k + 1;
    }
    let lines = split_by(&chars_of(content), '\n');
    let ghost lv = views(lines@);
    let mut out: Vec<String> = Vec::new();
    let mut i: usize = 0;
    while i < lines.len()
        invariant
            i <= lines@.len(),
            lv == views(lines@),
            pad@ == spaces(num_spaces as nat),
            views(out@) == lv.take(i as int).map_values(|line: Seq<char>| indented_line(line, num_spaces as nat)),
        decreases lines.len() - i,
    {
        let v = chars_of(lines[i].as_str());
        let blank = crate::text::all_whitespace(&v);
        let line = if blank {
            lines[i].clone()
        } else {
            let mut l = pad.clone();
            l.append(lines[i].as_str());
            l
        };
        assert(line@ == indented_line(lv[i as int], num_spaces as nat));
        let ghost before = views(out@);
        let ghost lnv = line@;
        out.push(line);
        assert(views(out@) =~= before.push(lnv));
        assert(lv.take(i + 1) =~= lv.take(i as int).push(lv[i as int]));
        assert(views(out@) =~= lv.take(i + 1).map_values(|line: Seq<char>| indented_line(line, num_spaces as nat)));
        i = i + 1;
    }
    assert(lv.take(lv.len() as int) =~= lv);
    proof {
        reveal_strlit("\n");
        assert("\n"@ =~= seq!['\n']);
    }
    join(&out, "\n")
}

/// The template helper that indents what its block renders.
pub struct Indent;

impl Indent {
    /// The rendered block indented by the helper's parameter, or by nothing without one.
    pub fn apply(&self, rendered: &str, num_spaces: Option<u64>) -> (r: String)
        requires
            num_spaces matches Some(n) ==> n <= usize::MAX,
        ensures
            r@ == indented(rendered@, match num_spaces { Some(n) => n as nat, None => 0 }),
    {
        let n: usize = match num_spaces {
            Some(n) => n as usize,
            None => 0,
        };
        indent(rendered, n)
    }
}

/// The template helper that renders its block when two values are equal and its
/// inverse block otherwise.
pub struct IfEquals;

impl IfEquals {
    /// The block to render: the main one when the values are equal, the inverse one
    /// otherwise; nothing when that block is absent.
    pub fn pick<T>(&self, equal: bool, template: Option<T>, inverse: Option<T>) -> (r: Option<T>)
        ensures
            r == (if equal { template } else { inverse }),
    {
        if equal {
            template
        } else {
            inverse
        }
    }
}

/// The items joined with `separator` between each two neighbours.
pub fn array_join(items: &Vec<String>, separator: &str) -> (r: String)
    ensures
        r@ == join_spec(views(items@), separator@),
{
    join(items, separator)
}

} // verus!
