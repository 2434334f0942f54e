//! The text buffer that render scripts write their output into, with indentation and
//! scopes.
use vstd::prelude::*;
use crate::text::{push_char, trim_start, trim_start_spec};

verus! {

/// The character an indentation step is written with.
#[derive(Clone, Copy, Debug, PartialEq, Eq, Structural)]
pub enum IndentChar {
    Space,
    Tab,
}

/// How a scope is opened and closed.
#[derive(Clone, Debug)]
pub struct ScopeConfig {
    /// Text that opens a scope.
    pub open: String,
    /// Text that closes a scope.
    pub close: String,
    /// Indentation steps added inside a scope.
    pub indent: u32,
    /// Whether the opening text goes on a line of its own.
    pub open_on_new_line: bool,
}

/// Settings of the scripted renderer's output.
#[derive(Clone, Debug)]
pub struct ScriptedConfig {
    pub indent_char: IndentChar,
    pub scope: ScopeConfig,
}

impl ScopeConfig {
    /// Scopes opened with `{` on the same line, closed with `}`, indented by four.
    pub fn default() -> (r: Self)
        ensures
            r.open@ == seq!['{'],
            r.close@ == seq!['}'],
            r.indent == 4,
            !r.open_on_new_line,
    {
        proof {
            reveal_strlit("{");
            reveal_strlit("}");
        }
        ScopeConfig {
            open: "{".to_owned(),
            close: "}".to_owned(),
            indent: 4,
            open_on_new_line: false,
        }
    }
}

impl ScriptedConfig {
    /// Indentation with spaces and the default scope settings.
    pub fn default() -> (r: Self)
        ensures
            r.indent_char == IndentChar::Space,
            r.scope.open@ == seq!['{'],
            r.scope.close@ == seq!['}'],
            r.scope.indent == 4,
            !r.scope.open_on_new_line,
    {
        ScriptedConfig { indent_char: IndentChar::Space, scope: ScopeConfig::default() }
    }
}

/// What `unindent::unindent` returns for a text.
pub uninterp spec fn unindented(s: Seq<char>) -> Seq<char>;

/// Removes the common leading indentation of a multi-line text.
///
/// Trusted: calls `unindent::unindent`. Its result is named `unindented`; the contract also
/// states that a text without a line break comes back unchanged, which the crate's source
/// shows (such a text is one line, and the first line is copied as it is).
#[verifier::external_body]
pub(crate) fn unindent_text(s: &str) -> (r: String)
    ensures
        r@ == unindented(s@),
        !s@.contains('\n') ==> r@ == s@,
{
    unindent::unindent(s)
}

/// What an `Output` holds.
pub struct OutputModel {
    pub content: Seq<char>,
    pub current_indent: int,
    pub indent_char: char,
    pub scope_open: Seq<char>,
    pub scope_indent: int,
    pub open_on_new_line: bool,
}

/// Whether `s` is empty or ends with a line break.
pub open spec fn at_line_start(s: Seq<char>) -> bool {
    s.len() == 0 || s.last() == '\n'
}

/// Whether `s` ends with `c`.
pub open spec fn ends_with(s: Seq<char>, c: char) -> bool {
    s.len() > 0 && s.last() == c
}

impl OutputModel {
    /// The indentation written at the start of a line.
    pub open spec fn indentation(self) -> Seq<char> {
        Seq::new(if self.current_indent > 0 { self.current_indent as nat } else { 0 }, |i: int| self.indent_char)
    }

    /// The content after appending `text`: indentation first if at the start of a line,
    /// then `text` with its common indentation and its leading whitespace removed.
    pub open spec fn appended(self, text: Seq<char>) -> Seq<char> {
        (if at_line_start(self.content) { self.content + self.indentation() } else { self.content })
            + trim_start_spec(unindented(text))
    }

    /// The content after `line(text)`.
    pub open spec fn lined(self, text: Seq<char>) -> Seq<char> {
        self.appended(text).push('\n')
    }

    /// The content after opening a scope.
    pub open spec fn scope_opened(self) -> Seq<char> {
        if self.open_on_new_line {
            self.content.push('\n') + self.scope_open
        } else if !ends_with(self.content, ' ') && !ends_with(self.content, '\n') {
            self.content.push(' ') + self.scope_open
        } else {
            self.content + self.scope_open
        }.push('\n')
    }

    /// The indentation after reducing it by `amount`, never below zero.
    pub open spec fn reduced_indent(self, amount: int) -> int {
        if self.current_indent - amount > 0 { self.current_indent - amount } else { 0 }
    }
}

/// A text buffer that keeps track of the indentation of new lines.
#[derive(Clone)]
pub struct Output {
    config: ScriptedConfig,
    content: String,
    current_indent: i64,
}

impl View for Output {
    type V = OutputModel;

    closed spec fn view(&self) -> OutputModel {
        OutputModel {
            content: self.content@,
            current_indent: self.current_indent as int,
            indent_char: match self.config.indent_char {
                IndentChar::Space => ' ',
                IndentChar::Tab => '\t',
            },
            scope_open: self.config.scope.open@,
            scope_indent: self.config.scope.indent as int,
            open_on_new_line: self.config.scope.open_on_new_line,
        }
    }
}

impl Output {
    /// An empty output with the default settings.
    pub fn default() -> (r: Self)
        ensures
            r@.content.len() == 0,
            r@.current_indent == 0,
            r@.indent_char == ' ',
            r@.scope_open == seq!['{'],
            r@.scope_indent == 4,
            !r@.open_on_new_line,
    {
        Output::with_config(ScriptedConfig::default())
    }

    /// An empty output with the given settings.
    pub fn with_config(config: ScriptedConfig) -> (r: Self)
        ensures
            r@.content.len() == 0,
            r@.current_indent == 0,
            r@.indent_char == (match config.indent_char {
                IndentChar::Space => ' ',
                IndentChar::Tab => '\t',
            }),
            r@.scope_open == config.scope.open@,
            r@.scope_indent == config.scope.indent,
            r@.open_on_new_line == config.scope.open_on_new_line,
    {
        Output { config, content: String::new(), current_indent: 0 }
    }

    /// The indentation that the next line starts with, in steps.
    pub fn current_indent(&self) -> (r: i64)
        ensures
            r == self@.current_indent,
    {
        self.current_indent
    }

    /// The indentation steps a scope adds.
    pub fn scope_indent(&self) -> (r: u32)
        ensures
            r == self@.scope_indent,
    {
        self.config.scope.indent
    }

    /// Appends `new_content`, indented if it starts a line. Its common indentation and
    /// its leading whitespace are removed, so scripts can write multi-line strings
    /// indented along with their code.
    pub fn append(&mut self, new_content: &str)
        ensures
            final(self)@ == (OutputModel { content: old(self)@.appended(new_content@), ..old(self)@ }),
    {
        let starts_line = match self.last_char() {
            None => true,
            Some(c) => c == '\n',
        };
        if starts_line {
            self.push_indent();
        }
        let unindented_text = unindent_text(new_content);
        let trimmed = trim_start(unindented_text.as_str());
        self.content.append(trimmed.as_str());
    }

    /// Appends `content` and ends the line.
    pub fn line(&mut self, content: &str)
        ensures
            final(self)@ == (OutputModel { content: old(self)@.lined(content@), ..old(self)@ }),
    {
        self.append(content);
        self.newline();
    }

    /// Ends the current line.
    pub fn newline(&mut self)
        ensures
            final(self)@ == (OutputModel { content: old(self)@.content.push('\n'), ..old(self)@ }),
    {
        push_char(&mut self.content, '\n');
    }

    /// Indents lines started from now on by `amount` more steps.
    pub fn indent(&mut self, amount: i64)
        requires
            i64::MIN <= old(self)@.current_indent + amount <= i64::MAX,
        ensures
            final(self)@ == (OutputModel { current_indent: old(self)@.current_indent + amount, ..old(self)@ }),
    {
        self.current_indent = self.current_indent + amount;
    }

    /// Indents lines started from now on by `amount` fewer steps, but never below zero.
    pub fn unindent(&mut self, amount: i64)
        requires
            i64::MIN <= old(self)@.current_indent - amount <= i64::MAX,
        ensures
            final(self)@ == (OutputModel { current_indent: old(self)@.reduced_indent(amount as int), ..old(self)@ }),
    {
        let reduced = self.current_indent - amount;
        self.current_indent = if reduced > 0 { reduced } else { 0 };
    }

    /// The character an indentation step is written with.
    pub fn indent_char(&self) -> (r: char)
        ensures
            r == self@.indent_char,
    {
        match self.config.indent_char {
            IndentChar::Space => ' ',
            IndentChar::Tab => '\t',
        }
    }

    fn last_char(&self) -> (r: Option<char>)
        ensures
            r matches Some(c) ==> self@.content.len() > 0 && c == self@.content.last(),
            r is None ==> self@.content.len() == 0,
    {
        let s = self.content.as_str();
        let n = s.unicode_len();
        if n == 0 {
            None
        } else {
            Some(s.get_char(n - 1))
        }
    }

    fn push_indent(&mut self)
        ensures
            final(self)@ == (OutputModel { content: old(self)@.content + old(self)@.indentation(), ..old(self)@ }),
    {
        let c = self.indent_char();
        let mut i: i64 = 0;
        let ghost start = self@.content;
        while i < self.current_indent
            invariant
                0 <= i,
                self@.current_indent == old(self)@.current_indent,
                self@.indent_char == c,
                self@ == (OutputModel { content: self@.content, ..old(self)@ }),
                start == old(self)@.content,
                i <= self.current_indent || i == 0,
                self@.content == start + Seq::new(i as nat, |k: int| c),
            decreases self.current_indent - i,
        {
            push_char(&mut self.content, c);
            i = i + 1;
            assert(self@.content =~= start + Seq::new(i as nat, |k: int| c));
        }
        assert(Seq::new(i as nat, |k: int| c) =~= old(self)@.indentation());
    }

    /// Opens a scope: the opening text, on a new line if so configured and otherwise
    /// after a space, then a line break; lines after it are indented one scope deeper.
    pub fn push_scope(&mut self)
        requires
            old(self)@.current_indent + old(self)@.scope_indent <= i64::MAX,
        ensures
            final(self)@ == (OutputModel {
                content: old(self)@.scope_opened(),
                current_indent: old(self)@.current_indent + old(self)@.scope_indent,
                ..old(self)@
            }),
    {
        if self.config.scope.open_on_new_line {
            self.newline();
        } else {
            let last = self.last_char();
            let needs_space = match last {
                None => true,
                Some(c) => c != ' ' && c != '\n',
            };
            if needs_space {
                push_char(&mut self.content, ' ');
            }
        }
        let open = self.config.scope.open.clone();
        self.content.append(open.as_str());
        let amount = self.config.scope.indent as i64;
        self.indent(amount);
        self.newline();
    }

    /// Closes a scope: lines after it are indented one scope less, and a closing `}`
    /// follows on a line of its own.
    pub fn pop_scope(&mut self)
        requires
            old(self)@.current_indent - old(self)@.scope_indent >= i64::MIN,
        ensures
            ({
                let reduced = OutputModel {
                    current_indent: old(self)@.reduced_indent(old(self)@.scope_indent),
                    ..old(self)@
                };
                let broken = if at_line_start(reduced.content) && reduced.content.len() > 0 {
                    reduced
                } else {
                    OutputModel { content: reduced.content.push('\n'), ..reduced }
                };
                final(self)@ == (OutputModel { content: broken.lined(seq!['}']), ..broken })
            }),
    {
        let amount = self.config.scope.indent as i64;
        self.unindent(amount);
        let ends_line = match self.last_char() {
            None => false,
            Some(c) => c == '\n',
        };
        if !ends_line {
            self.newline();
        }
        let ghost broken = self@;
        proof {
            reveal_strlit("}");
            assert("}"@ =~= seq!['}']);
        }
        self.line("}");
        assert(self@ == (OutputModel { content: broken.lined(seq!['}']), ..broken }));
    }

    /// The text written so far.
    pub fn to_string(self) -> (r: String)
        ensures
            r@ == self@.content,
    {
        self.content
    }
}


/// Writing to an output only ever adds to its end: what was written before stays, for
/// `append`, `line`, `newline`, `push_scope` and `pop_scope` alike.
pub proof fn lemma_output_only_grows(m: OutputModel, text: Seq<char>)
    ensures
        m.content.is_prefix_of(m.appended(text)),
        m.content.is_prefix_of(m.lined(text)),
        m.content.is_prefix_of(m.content.push('\n')),
        m.content.is_prefix_of(m.scope_opened()),
{
    let with_indent = if at_line_start(m.content) { m.content + m.indentation() } else { m.content };
    assert(m.content.is_prefix_of(with_indent));
    assert(with_indent.is_prefix_of(m.appended(text)));
    assert(m.appended(text).is_prefix_of(m.lined(text)));
    let opened = if m.open_on_new_line {
        m.content.push('\n') + m.scope_open
    } else if !ends_with(m.content, ' ') && !ends_with(m.content, '\n') {
        m.content.push(' ') + m.scope_open
    } else {
        m.content + m.scope_open
    };
    assert(m.content.is_prefix_of(opened)) by {
        assert forall|i: int| 0 <= i < m.content.len() implies opened[i] == m.content[i] by {}
    }
    assert(opened.is_prefix_of(m.scope_opened()));
}

/// Closing a scope undoes the indentation that opening it added: after `push_scope`
/// then `pop_scope`, lines are indented as before.
pub proof fn lemma_scope_restores_indent(m: OutputModel)
    requires
        m.current_indent >= 0,
        m.scope_indent >= 0,
    ensures
        (OutputModel { content: m.scope_opened(), current_indent: m.current_indent + m.scope_indent, ..m })
            .reduced_indent(m.scope_indent) == m.current_indent,
{
}

/// Unindenting never takes the indentation below zero, and from an indentation of zero
/// or more, `indent(a)` followed by `unindent(a)` with `a` at least zero restores it.
pub proof fn lemma_unindent_undoes_indent(m: OutputModel, a: int)
    ensures
        m.reduced_indent(a) >= 0,
        m.current_indent >= 0 && a >= 0 ==> (OutputModel { current_indent: m.current_indent + a, ..m })
            .reduced_indent(a) == m.current_indent,
{
}

} // verus!
