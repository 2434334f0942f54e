//! Protobuf type paths (`package.sub.TypeName`) and how they are written, fully
//! qualified or relative to another package.
use vstd::prelude::*;
use crate::case::Case;
use crate::text::{
    chars_of, join, join_spec, last_index, push_char, rfind_char, split_by, split_spec,
    string_from_range, views,
};

verus! {

/// Separates the components of a protobuf package.
pub const PACKAGE_SEPARATOR: char = '.';
/// The package separator as a string.
pub const PACKAGE_SEPARATOR_STR: &'static str = ".";

/// A type path split into its package components and its type name, with the
/// settings used to write it out.
pub struct TypePath<'a> {
    components: Vec<String>,
    simple_name: Option<String>,
    separator: Option<&'a str>,
    type_name_case: Option<Case>,
    package_case: Option<Case>,
}

/// What a `TypePath` stands for.
pub struct TypePathModel {
    pub components: Seq<Seq<char>>,
    pub simple_name: Option<Seq<char>>,
    /// The separator written between components.
    pub separator: Seq<char>,
    pub type_name_case: Option<Case>,
    pub package_case: Option<Case>,
}

impl<'a> View for TypePath<'a> {
    type V = TypePathModel;

    closed spec fn view(&self) -> TypePathModel {
        TypePathModel {
            components: views(self.components@),
            simple_name: match self.simple_name {
                Some(n) => Some(n@),
                None => None,
            },
            separator: match self.separator {
                Some(s) => s@,
                None => seq!['.'],
            },
            type_name_case: self.type_name_case,
            package_case: self.package_case,
        }
    }
}

/// `path` without one leading package separator.
pub open spec fn normalized(path: Seq<char>) -> Seq<char> {
    if path.len() > 0 && path[0] == '.' {
        path.skip(1)
    } else {
        path
    }
}

/// The components of a package name.
pub open spec fn package_components(package: Seq<char>) -> Seq<Seq<char>> {
    split_spec(normalized(package), '.')
}

/// A type name split at its last separator into package and name.
pub open spec fn package_and_name(qualified: Seq<char>) -> (Option<Seq<char>>, Seq<char>) {
    match last_index(qualified, '.') {
        None => (None, qualified),
        Some(i) => (Some(qualified.take(i)), qualified.skip(i + 1)),
    }
}

/// `name` written in `case`, or as it is.
pub open spec fn with_case(case: Option<Case>, name: Seq<char>) -> Seq<char> {
    match case {
        None => name,
        Some(c) => c.renamed(name),
    }
}

/// The number of leading components that `a` and `b` share.
pub open spec fn common_prefix_len(a: Seq<Seq<char>>, b: Seq<Seq<char>>) -> nat
    decreases a.len(),
{
    if a.len() == 0 || b.len() == 0 || a[0] != b[0] {
        0
    } else {
        1 + common_prefix_len(a.skip(1), b.skip(1))
    }
}

/// Each of `parts` followed by `sep`, all concatenated.
pub open spec fn each_followed_by(parts: Seq<Seq<char>>, sep: Seq<char>) -> Seq<char>
    decreases parts.len(),
{
    if parts.len() == 0 {
        Seq::<char>::empty()
    } else {
        each_followed_by(parts.drop_last(), sep) + parts.last() + sep
    }
}

/// `count` copies of `prefix` joined by `sep`.
pub open spec fn repeated_prefix(prefix: Seq<char>, count: nat, sep: Seq<char>) -> Seq<char> {
    join_spec(Seq::new(count, |i: int| prefix), sep)
}

impl TypePathModel {
    /// The type name written in its configured case.
    pub open spec fn name_with_case(self) -> Option<Seq<char>> {
        match self.simple_name {
            None => None,
            Some(n) => Some(with_case(self.type_name_case, n)),
        }
    }

    /// Everything that is written: package components in their case, then the type name.
    pub open spec fn written_parts(self) -> Seq<Seq<char>> {
        let package = self.components.map_values(|c: Seq<char>| with_case(self.package_case, c));
        match self.name_with_case() {
            None => package,
            Some(n) => package.push(n),
        }
    }

    /// The fully qualified path as text.
    pub open spec fn text(self) -> Seq<char> {
        join_spec(self.written_parts(), self.separator)
    }

    /// The path written below the first `depth` components, after `prefix`.
    pub open spec fn relative_text(self, depth: int, prefix: Seq<char>) -> Seq<char> {
        let head = if prefix.len() == 0 { prefix } else { prefix + self.separator };
        let tail = match self.name_with_case() {
            None => Seq::<char>::empty(),
            Some(n) => n,
        };
        head + each_followed_by(self.components.skip(depth), self.separator) + tail
    }

    /// The path as seen from inside `package`, climbing with `parent_prefix` where given.
    pub open spec fn relative_to(self, package: Option<Seq<char>>, parent_prefix: Option<Seq<char>>) -> Seq<char> {
        match package {
            None => self.text(),
            Some(p) => {
                let pc = package_components(p);
                let depth = common_prefix_len(self.components, pc);
                let full_prefix = if self.components.len() > 0 {
                    match parent_prefix {
                        None => Seq::<char>::empty(),
                        Some(pp) => repeated_prefix(pp, (pc.len() - depth) as nat, self.separator),
                    }
                } else {
                    Seq::<char>::empty()
                };
                if parent_prefix is None && pc.len() > self.components.len() {
                    self.text()
                } else {
                    self.relative_text(depth as int, full_prefix)
                }
            },
        }
    }
}

/// Removes one leading package separator, e.g. `.root.sub.TypeName` becomes
/// `root.sub.TypeName`.
pub fn normalize_prefix(path: &str) -> (r: String)
    ensures
        r@ == normalized(path@),
{
    let v = chars_of(path);
    if v.len() > 0 && v[0] == PACKAGE_SEPARATOR {
        let r = string_from_range(&v, 1, v.len());
        assert(v@.subrange(1, v@.len() as int) =~= v@.skip(1));
        r
    } else {
        path.to_owned()
    }
}

/// Splits a type name at its last separator into its package, if any, and its name.
pub fn extract_package_from_type(qualified: &str) -> (r: (Option<String>, Option<String>))
    ensures
        r.0 matches Some(p) ==> package_and_name(qualified@).0 == Some(p@),
        r.0 is None ==> package_and_name(qualified@).0 is None,
        r.1 matches Some(n) && n@ == package_and_name(qualified@).1,
{
    let v = chars_of(qualified);
    match rfind_char(&v, PACKAGE_SEPARATOR) {
        None => (None, Some(qualified.to_owned())),
        Some(i) => {
            let package = string_from_range(&v, 0, i);
            let name = string_from_range(&v, i + 1, v.len());
            assert(v@.subrange(0, i as int) =~= v@.take(i as int));
            assert(v@.subrange(i + 1, v@.len() as int) =~= v@.skip(i + 1));
            (Some(package), Some(name))
        },
    }
}

/// The components of a package name.
pub fn break_into_components(package: &str) -> (r: Vec<String>)
    ensures
        views(r@) == package_components(package@),
{
    let normal = normalize_prefix(package);
    let v = chars_of(normal.as_str());
    split_by(&v, PACKAGE_SEPARATOR)
}

impl<'a> TypePath<'a> {
    /// A path for `package`, which holds no type name.
    pub fn from_package(package: &str) -> (r: Self)
        ensures
            r@.components == package_components(package@),
            r@.simple_name is None,
            r@.separator == seq!['.'],
            r@.type_name_case is None,
            r@.package_case is None,
    {
        TypePath {
            components: break_into_components(package),
            simple_name: None,
            separator: None,
            type_name_case: None,
            package_case: None,
        }
    }

    /// A path for `simple_name`: what follows its last separator is the type name, what
    /// precedes it the package.
    pub fn from_type(qualified: &str) -> (r: Self)
        ensures
            r@.components == (match package_and_name(qualified@).0 {
                None => Seq::<Seq<char>>::empty(),
                Some(p) => package_components(p),
            }),
            r@.simple_name == Some(package_and_name(qualified@).1),
            r@.separator == seq!['.'],
            r@.type_name_case is None,
            r@.package_case is None,
    {
        let (package, name) = extract_package_from_type(qualified);
        let components = match package {
            None => {
                let c: Vec<String> = Vec::new();
                assert(views(c@) =~= Seq::<Seq<char>>::empty());
                c
            },
            Some(p) => break_into_components(p.as_str()),
        };
        TypePath {
            components,
            simple_name: name,
            separator: None,
            type_name_case: None,
            package_case: None,
        }
    }

    /// The package components, without the type name.
    pub fn components(&self) -> (r: &Vec<String>)
        ensures
            views(r@) == self@.components,
    {
        &self.components
    }

    /// The type name in its configured case.
    pub fn type_name_with_case(&self) -> (r: Option<String>)
        ensures
            r matches Some(n) ==> self@.name_with_case() == Some(n@),
            r is None ==> self@.name_with_case() is None,
    {
        match &self.simple_name {
            None => None,
            Some(name) => match self.type_name_case {
                None => Some(name.clone()),
                Some(case) => Some(case.rename(name.as_str())),
            },
        }
    }

    /// The number of package components.
    pub fn depth(&self) -> (r: usize)
        ensures
            r == self@.components.len(),
    {
        self.components.len()
    }

    /// Sets the separator written between components.
    pub fn set_separator(&mut self, sep: &'a str)
        ensures
            final(self)@.separator == sep@,
            final(self)@.components == old(self)@.components,
            final(self)@.simple_name == old(self)@.simple_name,
            final(self)@.type_name_case == old(self)@.type_name_case,
            final(self)@.package_case == old(self)@.package_case,
    {
        self.separator = Some(sep);
    }

    /// Sets the case in which the type name is written.
    pub fn set_name_case(&mut self, case: Option<Case>)
        ensures
            final(self)@.type_name_case == case,
            final(self)@.components == old(self)@.components,
            final(self)@.simple_name == old(self)@.simple_name,
            final(self)@.separator == old(self)@.separator,
            final(self)@.package_case == old(self)@.package_case,
    {
        self.type_name_case = case;
    }

    /// Sets the case in which package components are written.
    pub fn set_package_case(&mut self, case: Option<Case>)
        ensures
            final(self)@.package_case == case,
            final(self)@.components == old(self)@.components,
            final(self)@.simple_name == old(self)@.simple_name,
            final(self)@.separator == old(self)@.separator,
            final(self)@.type_name_case == old(self)@.type_name_case,
    {
        self.package_case = case;
    }

    /// The separator written between components; `.` unless one was set.
    pub fn separator(&self) -> (r: &str)
        ensures
            r@ == self@.separator,
    {
        match self.separator {
            Some(sep) => sep,
            None => {
                proof {
                    reveal_strlit(".");
                }
                PACKAGE_SEPARATOR_STR
            },
        }
    }

    /// The fully qualified path, components and type name joined by the separator.
    pub fn to_string(&self) -> (r: String)
        ensures
            r@ == self@.text(),
    {
        let mut parts: Vec<String> = Vec::new();
        let mut i: usize = 0;
        let ghost m = self@;
        while i < self.components.len()
            invariant
                i <= self.components.len(),
                m == self@,
                views(parts@) == m.components.take(i as int).map_values(|c: Seq<char>| with_case(m.package_case, c)),
            decreases self.components.len() - i,
        {
            let part = match self.package_case {
                None => self.components[i].clone(),
                Some(case) => case.rename(self.components[i].as_str()),
            };
            assert(part@ == with_case(m.package_case, m.components[i as int]));
            let ghost before = views(parts@);
            parts.push(part);
            assert(views(parts@) =~= before.push(part@));
            assert(m.components.take(i + 1) =~= m.components.take(i as int).push(m.components[i as int]));
            i = i + 1;
            assert(views(parts@) =~= m.components.take(i as int).map_values(|c: Seq<char>| with_case(m.package_case, c)));
        }
        assert(m.components.take(m.components.len() as int) =~= m.components);
        if let Some(name) = self.type_name_with_case() {
            parts.push(name);
        }
        assert(views(parts@) =~= m.written_parts());
        join(&parts, self.separator())
    }
}

/// The shared depth of two component lists is no larger than either list.
pub proof fn lemma_common_prefix_len_bounded(a: Seq<Seq<char>>, b: Seq<Seq<char>>)
    ensures
        common_prefix_len(a, b) <= a.len(),
        common_prefix_len(a, b) <= b.len(),
        forall|i: int| 0 <= i < common_prefix_len(a, b) ==> a[i] == b[i],
    decreases a.len(),
{
    if a.len() == 0 || b.len() == 0 || a[0] != b[0] {
    } else {
        lemma_common_prefix_len_bounded(a.skip(1), b.skip(1));
        assert forall|i: int| 0 <= i < common_prefix_len(a, b) implies a[i] == b[i] by {
            if i > 0 {
                assert(a.skip(1)[i - 1] == b.skip(1)[i - 1]);
            }
        }
    }
}

/// The depth to which two packages match does not depend on which is compared to which.
pub proof fn lemma_common_prefix_len_symmetric(a: Seq<Seq<char>>, b: Seq<Seq<char>>)
    ensures
        common_prefix_len(a, b) == common_prefix_len(b, a),
    decreases a.len(),
{
    if a.len() == 0 || b.len() == 0 || a[0] != b[0] {
    } else {
        lemma_common_prefix_len_symmetric(a.skip(1), b.skip(1));
    }
}

/// How many leading components `a` and `b` share.
fn common_depth(a: &Vec<String>, b: &Vec<String>) -> (r: usize)
    ensures
        r == common_prefix_len(views(a@), views(b@)),
{
    let ghost va = views(a@);
    let ghost vb = views(b@);
    let mut i: usize = 0;
    assert(va.skip(0) =~= va);
    assert(vb.skip(0) =~= vb);
    while i < a.len()
        invariant
            va == views(a@),
            vb == views(b@),
            i <= a.len(),
            i <= b.len(),
            common_prefix_len(va, vb) == i + common_prefix_len(va.skip(i as int), vb.skip(i as int)),
        decreases a.len() - i,
    {
        if i < b.len() && a[i] == b[i] {
            assert(va.skip(i as int)[0] == vb.skip(i as int)[0]);
            assert(va.skip(i as int).skip(1) =~= va.skip(i + 1));
            assert(vb.skip(i as int).skip(1) =~= vb.skip(i + 1));
            i = i + 1;
        } else {
            proof {
                if i < b.len() {
                    assert(va.skip(i as int)[0] != vb.skip(i as int)[0]);
                }
            }
            return i;
        }
    }
    i
}

impl<'a> TypePath<'a> {
    /// Compares the packages of two paths: the number of leading components they share.
    pub fn matching_depth(lhs: &TypePath, rhs: &TypePath) -> (r: i32)
        requires
            common_prefix_len(lhs@.components, rhs@.components) <= i32::MAX,
        ensures
            r == common_prefix_len(lhs@.components, rhs@.components),
    {
        let d = common_depth(&lhs.components, &rhs.components);
        d as i32
    }

    /// `parent_prefix` repeated once for each step up from `from_depth` to
    /// `matching_depth`, joined by `separator`; empty without a parent prefix.
    pub fn create_relative_prefix(
        from_depth: usize,
        matching_depth: usize,
        parent_prefix: Option<&str>,
        separator: &str,
    ) -> (r: String)
        requires
            matching_depth <= from_depth,
        ensures
            r@ == (match parent_prefix {
                None => Seq::<char>::empty(),
                Some(p) => repeated_prefix(p@, (from_depth - matching_depth) as nat, separator@),
            }),
    {
        match parent_prefix {
            None => String::new(),
            Some(p) => {
                let count = from_depth - matching_depth;
                let mut copies: Vec<String> = Vec::new();
                let mut i: usize = 0;
                while i < count
                    invariant
                        i <= count,
                        copies@.len() == i,
                        forall|k: int| 0 <= k < i ==> #[trigger] copies@[k]@ == p@,
                    decreases count - i,
                {
                    copies.push(p.to_owned());
                    i = i + 1;
                }
                assert(views(copies@) =~= Seq::new(count as nat, |k: int| p@));
                join(&copies, separator)
            },
        }
    }

    /// The path written below its first `relative_depth` components, after `prefix`.
    pub fn to_relative_string(&self, relative_depth: usize, prefix: String) -> (r: String)
        requires
            relative_depth <= self@.components.len(),
        ensures
            r@ == self@.relative_text(relative_depth as int, prefix@),
    {
        let ghost m = self@;
        let prefix_empty = prefix.as_str().is_empty();
        let mut result = prefix;
        let ghost head = if prefix@.len() == 0 { prefix@ } else { prefix@ + m.separator };
        if !prefix_empty {
            result.append(self.separator());
        }
        assert(result@ == head) by {
            if prefix@.len() != 0 {
                assert(prefix@.len() > 0);
            }
        }
        let mut j: usize = relative_depth;
        assert(m.components.subrange(relative_depth as int, relative_depth as int) =~= Seq::<Seq<char>>::empty());
        while j < self.components.len()
            invariant
                m == self@,
                relative_depth <= j <= self.components.len(),
                result@ == head + each_followed_by(m.components.subrange(relative_depth as int, j as int), m.separator),
            decreases self.components.len() - j,
        {
            let ghost before = result@;
            result.append(self.components[j].as_str());
            result.append(self.separator());
            assert(m.components.subrange(relative_depth as int, j + 1).drop_last()
                =~= m.components.subrange(relative_depth as int, j as int));
            assert(result@ =~= head + each_followed_by(m.components.subrange(relative_depth as int, j + 1), m.separator));
            j = j + 1;
        }
        assert(m.components.subrange(relative_depth as int, m.components.len() as int)
            =~= m.components.skip(relative_depth as int));
        if let Some(name) = self.type_name_with_case() {
            result.append(name.as_str());
        } else {
            assert(result@ =~= result@ + Seq::<char>::empty());
        }
        result
    }

    /// The path as written from inside `package`. Without a package it is fully
    /// qualified. Components shared with `package` are left out; with a
    /// `parent_prefix`, one prefix is written for each step up from `package` to the
    /// shared depth. Without a parent prefix, a package deeper than this path gets
    /// the fully qualified path.
    pub fn relative_to(&self, package: Option<&str>, parent_prefix: Option<&str>) -> (r: String)
        ensures
            r@ == self@.relative_to(
                match package { None => None, Some(p) => Some(p@) },
                match parent_prefix { None => None, Some(p) => Some(p@) },
            ),
    {
        let package_path = match package {
            None => return self.to_string(),
            Some(package) => TypePath::from_package(package),
        };
        let matching = common_depth(&self.components, &package_path.components);
        proof {
            lemma_common_prefix_len_bounded(self@.components, package_path@.components);
        }
        let full_prefix = if self.components.len() > 0 {
            TypePath::create_relative_prefix(package_path.depth(), matching, parent_prefix, self.separator())
        } else {
            String::new()
        };
        if parent_prefix.is_none() && package_path.depth() > self.depth() {
            return self.to_string();
        }
        self.to_relative_string(matching, full_prefix)
    }
}


/// Every component list shares all of its components with itself.
pub proof fn lemma_common_prefix_len_self(a: Seq<Seq<char>>)
    ensures
        common_prefix_len(a, a) == a.len(),
    decreases a.len(),
{
    if a.len() > 0 {
        lemma_common_prefix_len_self(a.skip(1));
    }
}

/// A type seen from inside its own package is written by its name alone, whether or not
/// a parent prefix is configured.
pub proof fn lemma_relative_to_own_package(m: TypePathModel, package: Seq<char>, parent_prefix: Option<Seq<char>>)
    requires
        m.simple_name is Some,
        package_components(package) == m.components,
    ensures
        m.relative_to(Some(package), parent_prefix) == m.name_with_case().unwrap(),
{
    lemma_common_prefix_len_self(m.components);
    assert(m.components.skip(m.components.len() as int) =~= Seq::<Seq<char>>::empty());
    assert(Seq::new(0, |i: int| parent_prefix.unwrap_or(Seq::<char>::empty())) =~= Seq::<Seq<char>>::empty());
    if parent_prefix is Some {
        assert(repeated_prefix(parent_prefix.unwrap(), 0, m.separator) =~= Seq::<char>::empty()) by {
            assert(Seq::new(0, |i: int| parent_prefix.unwrap()) =~= Seq::<Seq<char>>::empty());
        }
    }
    assert(m.relative_text(m.components.len() as int, Seq::<char>::empty()) =~= m.name_with_case().unwrap());
}

/// The matching depth of two paths is the length of their longest common prefix of
/// components: the components agree up to it and differ just after it, where both go on.
/// It is the same both ways round, never more than either depth, and a path's full depth
/// against itself.
pub proof fn lemma_matching_depth_law(a: TypePath, b: TypePath)
    ensures
        common_prefix_len(a@.components, b@.components) == common_prefix_len(b@.components, a@.components),
        common_prefix_len(a@.components, b@.components) <= a@.components.len(),
        common_prefix_len(a@.components, b@.components) <= b@.components.len(),
        forall|i: int| 0 <= i < common_prefix_len(a@.components, b@.components) ==> a@.components[i] == b@.components[i],
        ({
            let k = common_prefix_len(a@.components, b@.components) as int;
            k < a@.components.len() && k < b@.components.len() ==> a@.components[k] != b@.components[k]
        }),
        common_prefix_len(a@.components, a@.components) == a@.components.len(),
{
    lemma_common_prefix_len_symmetric(a@.components, b@.components);
    lemma_common_prefix_len_bounded(a@.components, b@.components);
    lemma_common_prefix_len_self(a@.components);
    lemma_common_prefix_len_stops(a@.components, b@.components);
}

/// Where the common prefix ends inside both sequences, they differ.
proof fn lemma_common_prefix_len_stops(a: Seq<Seq<char>>, b: Seq<Seq<char>>)
    ensures
        common_prefix_len(a, b) < a.len() && common_prefix_len(a, b) < b.len() ==> a[common_prefix_len(a, b) as int] != b[common_prefix_len(a, b) as int],
    decreases a.len(),
{
    if a.len() == 0 || b.len() == 0 || a[0] != b[0] {
    } else {
        lemma_common_prefix_len_stops(a.skip(1), b.skip(1));
        let k = common_prefix_len(a.skip(1), b.skip(1)) as int;
        if k < a.skip(1).len() && k < b.skip(1).len() {
            assert(a.skip(1)[k] == a[k + 1]);
            assert(b.skip(1)[k] == b[k + 1]);
        }
    }
}

/// Joining `parts` with one more piece puts the separator before it.
proof fn lemma_join_push(parts: Seq<Seq<char>>, x: Seq<char>, sep: Seq<char>)
    requires
        parts.len() > 0,
    ensures
        join_spec(parts.push(x), sep) == join_spec(parts, sep) + sep + x,
{
    assert(parts.push(x).drop_last() =~= parts);
}

/// Each piece followed by the separator, then a last piece, is all of them joined.
proof fn lemma_each_followed_by_join(parts: Seq<Seq<char>>, x: Seq<char>, sep: Seq<char>)
    ensures
        each_followed_by(parts, sep) + x == join_spec(parts.push(x), sep),
    decreases parts.len(),
{
    if parts.len() == 0 {
        assert(Seq::<char>::empty() + x =~= x);
        assert(parts.push(x) =~= seq![x]);
    } else {
        let init = parts.drop_last();
        lemma_each_followed_by_join(init, parts.last(), sep);
        assert(init.push(parts.last()) =~= parts);
        lemma_join_push(parts, x, sep);
        assert(each_followed_by(parts, sep) + x =~= (each_followed_by(init, sep) + parts.last()) + sep + x);
    }
}

/// Two non-empty lists joined, with the separator between, are their concatenation joined.
proof fn lemma_join_concat(a: Seq<Seq<char>>, b: Seq<Seq<char>>, sep: Seq<char>)
    requires
        a.len() > 0,
        b.len() > 0,
    ensures
        join_spec(a + b, sep) == join_spec(a, sep) + sep + join_spec(b, sep),
    decreases b.len(),
{
    if b.len() == 1 {
        assert(a + b =~= a.push(b[0]));
        lemma_join_push(a, b[0], sep);
    } else {
        let bi = b.drop_last();
        lemma_join_concat(a, bi, sep);
        assert(a + b =~= (a + bi).push(b.last()));
        lemma_join_push(a + bi, b.last(), sep);
        assert(bi.push(b.last()) =~= b);
        lemma_join_push(bi, b.last(), sep);
        assert(join_spec(a + b, sep) =~= join_spec(a, sep) + sep + join_spec(b, sep));
    }
}

/// A join is at least as long as its first piece.
proof fn lemma_join_len(parts: Seq<Seq<char>>, sep: Seq<char>)
    requires
        parts.len() > 0,
    ensures
        join_spec(parts, sep).len() >= parts[0].len(),
    decreases parts.len(),
{
    if parts.len() > 1 {
        lemma_join_len(parts.drop_last(), sep);
    }
}

/// A type path seen from inside a package: the parent prefix once for each package
/// component not shared with the type, then the type's components below the shared
/// ones, then its name, every two of them separated by the path's own separator. Without
/// a parent prefix the same holds with no prefix, unless the package lies deeper than
/// the type, which is then written fully qualified. A type without package components is
/// written by its name.
pub proof fn lemma_relative_to_law(m: TypePathModel, package: Seq<char>, parent_prefix: Option<Seq<char>>)
    requires
        m.simple_name is Some,
        parent_prefix matches Some(pp) ==> pp.len() > 0,
    ensures
        ({
            let pc = package_components(package);
            let k = common_prefix_len(m.components, pc);
            let name = m.name_with_case().unwrap();
            let rest = m.components.skip(k as int);
            &&& m.components.len() == 0 ==> m.relative_to(Some(package), parent_prefix) == name
            &&& m.components.len() > 0 && parent_prefix is Some ==> m.relative_to(Some(package), parent_prefix)
                == join_spec(Seq::new((pc.len() - k) as nat, |i: int| parent_prefix.unwrap()) + rest.push(name), m.separator)
            &&& m.components.len() > 0 && parent_prefix is None && pc.len() <= m.components.len()
                ==> m.relative_to(Some(package), parent_prefix) == join_spec(rest.push(name), m.separator)
            &&& parent_prefix is None && pc.len() > m.components.len() ==> m.relative_to(Some(package), parent_prefix) == m.text()
        }),
{
    let pc = package_components(package);
    let k = common_prefix_len(m.components, pc);
    let name = m.name_with_case().unwrap();
    let rest = m.components.skip(k as int);
    let sep = m.separator;
    lemma_common_prefix_len_bounded(m.components, pc);
    lemma_each_followed_by_join(rest, name, sep);
    if m.components.len() == 0 {
        assert(rest =~= Seq::<Seq<char>>::empty());
        assert(rest.push(name) =~= seq![name]);
        assert(m.written_parts() =~= seq![name]);
        assert(m.relative_text(k as int, Seq::<char>::empty()) =~= name);
    } else if parent_prefix is Some {
        let pp = parent_prefix.unwrap();
        let n = (pc.len() - k) as nat;
        let ps = Seq::new(n, |i: int| pp);
        let fp = repeated_prefix(pp, n, sep);
        assert(fp == join_spec(ps, sep));
        if n == 0 {
            assert(ps =~= Seq::<Seq<char>>::empty());
            assert(ps + rest.push(name) =~= rest.push(name));
            assert(m.relative_text(k as int, fp) =~= each_followed_by(rest, sep) + name);
        } else {
            lemma_join_len(ps, sep);
            lemma_join_concat(ps, rest.push(name), sep);
            assert(m.relative_text(k as int, fp) =~= fp + sep + (each_followed_by(rest, sep) + name));
        }
    } else if pc.len() <= m.components.len() {
        assert(m.relative_text(k as int, Seq::<char>::empty()) =~= each_followed_by(rest, sep) + name);
    }
}

} // verus!
