//! Heuristic section-based parser for Google-style docstrings.
//!
//! A docstring opens with a short description, may continue with a long
//! description, and may then carry sections introduced by headers such as
//! `Args:`, `Examples:` or `Version Changed:`. The parser splits the text
//! into lines, assigns each line to the description or to the open section,
//! and reduces each section's lines to structured values. Its result is
//! pinned exactly by [`spec_parse`].

use vstd::prelude::*;

use crate::chars::{
    char_vec_to_string, copy_chars, dec_chars, extend_chars, join_space, push_item, skip_chars,
    spec_dec_digits, spec_has_prefix, spec_has_prefix_ci, spec_join_space, spec_lines,
    spec_split_once, spec_trim, spec_trim_end_char, split_lines, split_once_char,
    starts_with_chars, starts_with_ci, string_chars, trim_chars, trim_end_matches_char,
};
use vstd::string::StringExecFns;

verus! {

broadcast use crate::chars::lemma_vec_char_deep_view;

/// One documented parameter: its name, the parenthesized type its line
/// carried, and the description its line gave.
#[derive(Debug, Clone)]
pub struct Parameter {
    pub name: String,
    pub param_type: Option<String>,
    pub description: Option<String>,
}

impl View for Parameter {
    type V = (Seq<char>, Option<Seq<char>>, Option<Seq<char>>);

    open spec fn view(&self) -> (Seq<char>, Option<Seq<char>>, Option<Seq<char>>) {
        (self.name@, self.param_type.deep_view(), self.description.deep_view())
    }
}

impl DeepView for Parameter {
    type V = (Seq<char>, Option<Seq<char>>, Option<Seq<char>>);

    open spec fn deep_view(&self) -> (Seq<char>, Option<Seq<char>>, Option<Seq<char>>) {
        self@
    }
}

/// The position of the first entry with key `k`, if any.
pub open spec fn pm_index_of(m: Seq<(Seq<char>, Option<Seq<char>>, Option<Seq<char>>)>, k: Seq<char>) -> Option<
    int,
>
    decreases m.len(),
{
    if m.len() == 0 {
        None
    } else if m[0].0 == k {
        Some(0int)
    } else {
        match pm_index_of(m.drop_first(), k) {
            None => None,
            Some(i) => Some(i + 1),
        }
    }
}

/// Whether some entry has key `k`.
pub open spec fn pm_contains(m: Seq<(Seq<char>, Option<Seq<char>>, Option<Seq<char>>)>, k: Seq<char>) -> bool {
    pm_index_of(m, k) is Some
}

/// The description stored under key `k`, if the key is present.
pub open spec fn pm_desc(m: Seq<(Seq<char>, Option<Seq<char>>, Option<Seq<char>>)>, k: Seq<char>) -> Option<
    Option<Seq<char>>,
> {
    match pm_index_of(m, k) {
        None => None,
        Some(i) => Some(m[i].2),
    }
}

/// The map after storing a type and description under `k`: an entry with
/// that key is replaced in place, a fresh key goes to the end.
pub open spec fn pm_insert(
    m: Seq<(Seq<char>, Option<Seq<char>>, Option<Seq<char>>)>,
    k: Seq<char>,
    ty: Option<Seq<char>>,
    v: Option<Seq<char>>,
) -> Seq<(Seq<char>, Option<Seq<char>>, Option<Seq<char>>)> {
    match pm_index_of(m, k) {
        None => m.push((k, ty, v)),
        Some(i) => m.update(i, (k, ty, v)),
    }
}

proof fn lemma_pm_index_range(m: Seq<(Seq<char>, Option<Seq<char>>, Option<Seq<char>>)>, k: Seq<char>, i: int)
    requires
        0 <= i <= m.len(),
        forall|j: int| 0 <= j < i ==> m[j].0 != k,
        i < m.len() ==> m[i].0 == k,
    ensures
        pm_index_of(m, k) == if i < m.len() {
            Some(i)
        } else {
            None::<int>
        },
    decreases i,
{
    if i == 0 {
    } else {
        let t = m.drop_first();
        assert(forall|j: int| 0 <= j < i - 1 ==> #[trigger] t[j].0 != k);
        lemma_pm_index_range(t, k, i - 1);
    }
}

/// The parameters of a docstring: a mapping from parameter name to optional
/// description, keys unique, insertion order kept.
#[derive(Debug, Clone)]
pub struct ParamMap {
    entries: Vec<Parameter>,
}

impl View for ParamMap {
    type V = Seq<(Seq<char>, Option<Seq<char>>, Option<Seq<char>>)>;

    closed spec fn view(&self) -> Seq<(Seq<char>, Option<Seq<char>>, Option<Seq<char>>)> {
        self.entries.deep_view()
    }
}

impl ParamMap {
    /// An empty map.
    pub fn new() -> (r: ParamMap)
        ensures
            r@ == Seq::<(Seq<char>, Option<Seq<char>>, Option<Seq<char>>)>::empty(),
    {
        let r = ParamMap { entries: Vec::new() };
        proof {
            assert(r@ =~= Seq::<(Seq<char>, Option<Seq<char>>, Option<Seq<char>>)>::empty());
        }
        r
    }

    /// How many parameters are stored.
    pub fn len(&self) -> (r: usize)
        ensures
            r == self@.len(),
    {
        self.entries.len()
    }

    /// Whether no parameter is stored.
    pub fn is_empty(&self) -> (r: bool)
        ensures
            r == (self@.len() == 0),
    {
        self.entries.len() == 0
    }

    /// Whether a parameter of this name is stored.
    pub fn contains_key(&self, name: &str) -> (r: bool)
        ensures
            r == pm_contains(self@, name@),
    {
        self.get(name).is_some()
    }

    /// The description stored for this name, if the name is present.
    pub fn get(&self, name: &str) -> (r: Option<&Option<String>>)
        ensures
            r is Some <==> pm_contains(self@, name@),
            match r {
                Some(d) => pm_desc(self@, name@) == Some(d.deep_view()),
                None => true,
            },
    {
        let key = String::from_str(name);
        let n = self.entries.len();
        let mut i: usize = 0;
        while i < n
            invariant
                0 <= i <= n,
                n == self@.len(),
                n == self.entries@.len(),
                key@ == name@,
                forall|j: int| 0 <= j < i ==> self@[j].0 != name@,
            decreases n - i,
        {
            if self.entries[i].name == key {
                proof {
                    lemma_pm_index_range(self@, name@, i as int);
                }
                return Some(&self.entries[i].description);
            }
            i += 1;
        }
        proof {
            lemma_pm_index_range(self@, name@, n as int);
        }
        None
    }

    /// The parameters in insertion order.
    pub fn entries(&self) -> (r: &Vec<Parameter>)
        ensures
            r.deep_view() == self@,
    {
        &self.entries
    }

    /// Stores a type and description under a name, replacing any entry of
    /// that name.
    pub fn insert(&mut self, name: String, param_type: Option<String>, description: Option<String>)
        ensures
            final(self)@ == pm_insert(
                old(self)@,
                name@,
                param_type.deep_view(),
                description.deep_view(),
            ),
    {
        let n = self.entries.len();
        let mut i: usize = 0;
        while i < n
            invariant
                0 <= i <= n,
                n == self@.len(),
                n == self.entries@.len(),
                *self == *old(self),
                forall|j: int| 0 <= j < i ==> self@[j].0 != name@,
            decreases n - i,
        {
            if self.entries[i].name == name {
                proof {
                    lemma_pm_index_range(self@, name@, i as int);
                }
                self.entries[i] = Parameter { name, param_type, description };
                proof {
                    assert(self@ =~~= pm_insert(
                        old(self)@,
                        name@,
                        param_type.deep_view(),
                        description.deep_view(),
                    ));
                }
                return ;
            }
            i += 1;
        }
        proof {
            lemma_pm_index_range(self@, name@, n as int);
        }
        self.entries.push(Parameter { name, param_type, description });
        proof {
            assert(self@ =~~= pm_insert(
                old(self)@,
                name@,
                param_type.deep_view(),
                description.deep_view(),
            ));
        }
    }
}

/// The mathematical value of one example: its description, the code snippet
/// gathered for it, and the language its fences or prompt marked.
#[verifier::ext_equal]
pub ghost struct ExampleModel {
    pub description: Seq<char>,
    pub snippet: Seq<char>,
    pub syntax: Option<Seq<char>>,
}

/// One example from an `Examples:` section.
#[derive(Debug, Clone)]
pub struct Example {
    /// The heading line that introduced the example.
    pub description: String,
    /// The code gathered from fenced blocks or interpreter-prompt lines.
    pub snippet: String,
    /// The language named by a fence opening, or `python` for prompt lines.
    pub syntax: Option<String>,
}

impl View for Example {
    type V = ExampleModel;

    open spec fn view(&self) -> ExampleModel {
        ExampleModel {
            description: self.description@,
            snippet: self.snippet@,
            syntax: self.syntax.deep_view(),
        }
    }
}

impl DeepView for Example {
    type V = ExampleModel;

    open spec fn deep_view(&self) -> ExampleModel {
        self@
    }
}

/// One entry of a `Version Changed:` section.
#[derive(Debug, Clone)]
pub struct VersionChange {
    pub version: String,
    pub description: String,
}

impl View for VersionChange {
    type V = (Seq<char>, Seq<char>);

    open spec fn view(&self) -> (Seq<char>, Seq<char>) {
        (self.version@, self.description@)
    }
}

impl DeepView for VersionChange {
    type V = (Seq<char>, Seq<char>);

    open spec fn deep_view(&self) -> (Seq<char>, Seq<char>) {
        self@
    }
}

/// A `Returns:` section's value: the return type, when one is recorded, and
/// the description.
#[derive(Debug, Clone)]
pub struct Return {
    pub return_type: Option<String>,
    pub description: String,
}

impl View for Return {
    type V = (Option<Seq<char>>, Seq<char>);

    open spec fn view(&self) -> (Option<Seq<char>>, Seq<char>) {
        (self.return_type.deep_view(), self.description@)
    }
}

impl DeepView for Return {
    type V = (Option<Seq<char>>, Seq<char>);

    open spec fn deep_view(&self) -> (Option<Seq<char>>, Seq<char>) {
        self@
    }
}

/// A `Yields:` section's value: the yield type, when one is recorded, and
/// the description.
#[derive(Debug, Clone)]
pub struct Yield {
    pub yield_type: Option<String>,
    pub description: String,
}

impl View for Yield {
    type V = (Option<Seq<char>>, Seq<char>);

    open spec fn view(&self) -> (Option<Seq<char>>, Seq<char>) {
        (self.yield_type.deep_view(), self.description@)
    }
}

impl DeepView for Yield {
    type V = (Option<Seq<char>>, Seq<char>);

    open spec fn deep_view(&self) -> (Option<Seq<char>>, Seq<char>) {
        self@
    }
}

/// One entry of a `Raises:` section: the exception type and when it is
/// raised.
#[derive(Debug, Clone)]
pub struct Raise {
    pub exception_type: String,
    pub description: String,
}

impl View for Raise {
    type V = (Seq<char>, Seq<char>);

    open spec fn view(&self) -> (Seq<char>, Seq<char>) {
        (self.exception_type@, self.description@)
    }
}

impl DeepView for Raise {
    type V = (Seq<char>, Seq<char>);

    open spec fn deep_view(&self) -> (Seq<char>, Seq<char>) {
        self@
    }
}

/// One entry of an `Attributes:` section: the attribute name, the
/// parenthesized type its line carried, and the description.
#[derive(Debug, Clone)]
pub struct Attribute {
    pub name: String,
    pub attr_type: Option<String>,
    pub description: String,
}

impl View for Attribute {
    type V = (Seq<char>, Option<Seq<char>>, Seq<char>);

    open spec fn view(&self) -> (Seq<char>, Option<Seq<char>>, Seq<char>) {
        (self.name@, self.attr_type.deep_view(), self.description@)
    }
}

impl DeepView for Attribute {
    type V = (Seq<char>, Option<Seq<char>>, Seq<char>);

    open spec fn deep_view(&self) -> (Seq<char>, Option<Seq<char>>, Seq<char>) {
        self@
    }
}

/// The mathematical value of a parsed docstring.
#[verifier::ext_equal]
pub ghost struct DocModel {
    pub short_description: Seq<char>,
    pub long_description: Option<Seq<char>>,
    pub params: Seq<(Seq<char>, Option<Seq<char>>, Option<Seq<char>>)>,
    pub returns: Option<(Option<Seq<char>>, Seq<char>)>,
    pub yields: Option<(Option<Seq<char>>, Seq<char>)>,
    pub raises: Seq<(Seq<char>, Seq<char>)>,
    pub attributes: Seq<(Seq<char>, Option<Seq<char>>, Seq<char>)>,
    pub examples: Seq<ExampleModel>,
    pub notes: Seq<Seq<char>>,
    pub warnings: Seq<Seq<char>>,
    pub see_also: Seq<Seq<char>>,
    pub references: Seq<Seq<char>>,
    pub todo: Seq<Seq<char>>,
    pub deprecated: Option<Seq<char>>,
    pub version_added: Option<Seq<char>>,
    pub version_changed: Seq<(Seq<char>, Seq<char>)>,
}

/// A parsed Google-style docstring.
#[derive(Debug, Clone)]
pub struct Docstring {
    /// The first line of text: the short description.
    pub short_description: String,
    /// The description text that follows, up to the first section header.
    pub long_description: Option<String>,
    /// The `Args:` section, keyed by parameter name.
    pub params: ParamMap,
    /// The `Returns:` section.
    pub returns: Option<Return>,
    /// The `Yields:` section.
    pub yields: Option<Yield>,
    /// The `Raises:` section, one entry per `type: description` line.
    pub raises: Vec<Raise>,
    /// The `Attributes:` section, one entry per `name: description` line.
    pub attributes: Vec<Attribute>,
    /// The `Examples:` section.
    pub examples: Vec<Example>,
    /// The `Notes:` section, one entry per non-blank line.
    pub notes: Vec<String>,
    /// The `Warnings:` section.
    pub warnings: Vec<String>,
    /// The `See Also:` section.
    pub see_also: Vec<String>,
    /// The `References:` section.
    pub references: Vec<String>,
    /// The `Todo:` section.
    pub todo: Vec<String>,
    /// The `Deprecated:` section, joined to one line.
    pub deprecated: Option<String>,
    /// The `Version Added:` section, joined to one line.
    pub version_added: Option<String>,
    /// The `Version Changed:` entries, in order.
    pub version_changed: Vec<VersionChange>,
}

impl View for Docstring {
    type V = DocModel;

    open spec fn view(&self) -> DocModel {
        DocModel {
            short_description: self.short_description@,
            long_description: self.long_description.deep_view(),
            params: self.params@,
            returns: self.returns.deep_view(),
            yields: self.yields.deep_view(),
            raises: self.raises.deep_view(),
            attributes: self.attributes.deep_view(),
            examples: self.examples.deep_view(),
            notes: self.notes.deep_view(),
            warnings: self.warnings.deep_view(),
            see_also: self.see_also.deep_view(),
            references: self.references.deep_view(),
            todo: self.todo.deep_view(),
            deprecated: self.deprecated.deep_view(),
            version_added: self.version_added.deep_view(),
            version_changed: self.version_changed.deep_view(),
        }
    }
}

/// The docstring every parse starts from: all parts empty.
pub open spec fn empty_doc_model() -> DocModel {
    DocModel {
        short_description: Seq::empty(),
        long_description: None,
        params: Seq::empty(),
        returns: None,
        yields: None,
        raises: Seq::empty(),
        attributes: Seq::empty(),
        examples: Seq::empty(),
        notes: Seq::empty(),
        warnings: Seq::empty(),
        see_also: Seq::empty(),
        references: Seq::empty(),
        todo: Seq::empty(),
        deprecated: None,
        version_added: None,
        version_changed: Seq::empty(),
    }
}

/// The text of the listed suggestions, each on its own indented line.
pub open spec fn spec_suggestions_text(ss: Seq<Seq<char>>) -> Seq<char>
    decreases ss.len(),
{
    if ss.len() == 0 {
        Seq::empty()
    } else {
        spec_suggestions_text(ss.drop_last()) + "\n  - "@ + ss.last()
    }
}

/// The rendered text of a parse error: the message, the position parts that
/// are known, and the suggestions.
pub open spec fn spec_error_text(
    message: Seq<char>,
    line: Option<usize>,
    col: Option<usize>,
    suggestions: Seq<Seq<char>>,
) -> Seq<char> {
    message + (match line {
        Some(l) => " at line "@ + spec_dec_digits(l as nat),
        None => Seq::empty(),
    }) + (match col {
        Some(c) => ", column "@ + spec_dec_digits(c as nat),
        None => Seq::empty(),
    }) + (if suggestions.len() > 0 {
        "\nSuggestions:"@ + spec_suggestions_text(suggestions)
    } else {
        Seq::empty()
    })
}

/// A parsing error, with the position and suggestions when they are known.
#[derive(Debug, Clone)]
pub struct ParseError {
    /// The error message.
    pub message: String,
    /// The line number where the error occurred.
    pub line_number: Option<usize>,
    /// The column number where the error occurred.
    pub column_number: Option<usize>,
    /// Suggestions for fixing the error.
    pub suggestions: Vec<String>,
}

impl ParseError {
    /// Renders the error as one message text.
    pub fn to_string(&self) -> (r: String)
        ensures
            r@ == spec_error_text(
                self.message@,
                self.line_number,
                self.column_number,
                self.suggestions.deep_view(),
            ),
    {
        let mut s = String::new();
        s.append(self.message.as_str());
        if let Some(l) = self.line_number {
            s.append(" at line ");
            let d = char_vec_to_string(&dec_chars(l as u64));
            s.append(d.as_str());
        }
        if let Some(c) = self.column_number {
            s.append(", column ");
            let d = char_vec_to_string(&dec_chars(c as u64));
            s.append(d.as_str());
        }
        let n = self.suggestions.len();
        if n > 0 {
            s.append("\nSuggestions:");
            let ghost base = s@;
            let mut i: usize = 0;
            while i < n
                invariant
                    0 <= i <= n,
                    n == self.suggestions@.len(),
                    s@ == base + spec_suggestions_text(self.suggestions.deep_view().subrange(0, i as int)),
                decreases n - i,
            {
                let ghost pre = self.suggestions.deep_view().subrange(0, i as int);
                let ghost post = self.suggestions.deep_view().subrange(0, i + 1 as int);
                proof {
                    assert(post.drop_last() =~= pre);
                    assert(post.last() == self.suggestions@[i as int]@);
                }
                s.append("\n  - ");
                s.append(self.suggestions[i].as_str());
                i += 1;
            }
            proof {
                assert(self.suggestions.deep_view().subrange(0, n as int) =~= self.suggestions.deep_view());
            }
        }
        s
    }
}

/// The trimmed non-blank lines of a section, in order: how the line-list
/// sections (`Notes:`, `Warnings:`, `See Also:`, `References:`, `Todo:`)
/// read their content.
pub open spec fn spec_text_items(lines: Seq<Seq<char>>) -> Seq<Seq<char>>
    decreases lines.len(),
{
    if lines.len() == 0 {
        Seq::empty()
    } else {
        let r = spec_text_items(lines.drop_last());
        let t = spec_trim(lines.last());
        if t.len() > 0 {
            r.push(t)
        } else {
            r
        }
    }
}

/// The name and the parenthesized type of a `name (type)` part: without
/// parentheses the whole part is the name and there is no type; otherwise
/// the name is the text before the parenthesis and the type is what follows
/// it, its closing parentheses stripped.
pub open spec fn spec_name_and_type(np: Seq<char>) -> (Seq<char>, Option<Seq<char>>) {
    match spec_split_once(np, '(') {
        None => (np, None),
        Some(p) => (spec_trim(p.0), Some(spec_trim(spec_trim_end_char(p.1, ')')))),
    }
}

/// One `Args:` line folded into the parameter map: `name (type): description`
/// stores the type and description under the name; a line without a colon is
/// ignored.
pub open spec fn spec_args_step(
    m: Seq<(Seq<char>, Option<Seq<char>>, Option<Seq<char>>)>,
    line: Seq<char>,
) -> Seq<(Seq<char>, Option<Seq<char>>, Option<Seq<char>>)> {
    let t = spec_trim(line);
    if t.len() == 0 {
        m
    } else {
        match spec_split_once(t, ':') {
            None => m,
            Some(p) => {
                let nt = spec_name_and_type(spec_trim(p.0));
                pm_insert(m, nt.0, nt.1, Some(spec_trim(p.1)))
            },
        }
    }
}

/// The parameter map after folding all lines of an `Args:` section into `m`.
pub open spec fn spec_args_fold(
    m: Seq<(Seq<char>, Option<Seq<char>>, Option<Seq<char>>)>,
    lines: Seq<Seq<char>>,
) -> Seq<(Seq<char>, Option<Seq<char>>, Option<Seq<char>>)>
    decreases lines.len(),
{
    if lines.len() == 0 {
        m
    } else {
        spec_args_step(spec_args_fold(m, lines.drop_last()), lines.last())
    }
}

/// The single text of a one-value section (`Deprecated:`, `Version Added:`):
/// the lines joined with spaces and trimmed, or nothing when that is empty.
pub open spec fn spec_joined_opt(lines: Seq<Seq<char>>) -> Option<Seq<char>> {
    let j = spec_trim(spec_join_space(lines));
    if j.len() == 0 {
        None
    } else {
        Some(j)
    }
}

/// The entries of a `Version Changed:` section: `version: description` per
/// line, a line without a colon taken as a version with empty description.
pub open spec fn spec_version_changes(lines: Seq<Seq<char>>) -> Seq<(Seq<char>, Seq<char>)>
    decreases lines.len(),
{
    if lines.len() == 0 {
        Seq::empty()
    } else {
        let r = spec_version_changes(lines.drop_last());
        let t = spec_trim(lines.last());
        if t.len() == 0 {
            r
        } else {
            match spec_split_once(t, ':') {
                Some(p) => r.push((spec_trim(p.0), spec_trim(p.1))),
                None => r.push((t, Seq::empty())),
            }
        }
    }
}

/// The single description of a `Returns:` or `Yields:` section: the lines
/// joined with spaces and trimmed, with a leading `type:` label dropped.
pub open spec fn spec_section_desc(lines: Seq<Seq<char>>) -> Seq<char> {
    let j = spec_trim(spec_join_space(lines));
    match spec_split_once(j, ':') {
        Some(p) => spec_trim(p.1),
        None => j,
    }
}

/// The entries of a `Raises:` section: `type: description` per line, a line
/// without a colon ignored.
pub open spec fn spec_raises(lines: Seq<Seq<char>>) -> Seq<(Seq<char>, Seq<char>)>
    decreases lines.len(),
{
    if lines.len() == 0 {
        Seq::empty()
    } else {
        let r = spec_raises(lines.drop_last());
        let t = spec_trim(lines.last());
        if t.len() == 0 {
            r
        } else {
            match spec_split_once(t, ':') {
                Some(p) => r.push((spec_trim(p.0), spec_trim(p.1))),
                None => r,
            }
        }
    }
}

/// The entries of an `Attributes:` section: `name (type): description` per
/// line, a line without a colon ignored.
pub open spec fn spec_attributes(lines: Seq<Seq<char>>) -> Seq<
    (Seq<char>, Option<Seq<char>>, Seq<char>),
>
    decreases lines.len(),
{
    if lines.len() == 0 {
        Seq::empty()
    } else {
        let r = spec_attributes(lines.drop_last());
        let t = spec_trim(lines.last());
        if t.len() == 0 {
            r
        } else {
            match spec_split_once(t, ':') {
                Some(p) => {
                    let nt = spec_name_and_type(spec_trim(p.0));
                    r.push((nt.0, nt.1, spec_trim(p.1)))
                },
                None => r,
            }
        }
    }
}

/// The state while folding the lines of an `Examples:` section: the examples
/// already closed, the example being built, and whether a code fence is open.
#[verifier::ext_equal]
pub ghost struct ExFold {
    pub done: Seq<ExampleModel>,
    pub cur: ExampleModel,
    pub in_fence: bool,
}

/// An example not yet begun.
pub open spec fn empty_example() -> ExampleModel {
    ExampleModel { description: Seq::empty(), snippet: Seq::empty(), syntax: None }
}

/// Whether the example under construction holds anything worth keeping.
pub open spec fn ex_active(e: ExampleModel) -> bool {
    e.description.len() > 0 || e.snippet.len() > 0
}

/// A snippet line appended, on a line of its own.
pub open spec fn spec_snip_add(s: Seq<char>, t: Seq<char>) -> Seq<char> {
    if s.len() > 0 {
        s + seq!['\n'] + t
    } else {
        t
    }
}

/// Whether the raw line is indented like code shown under an example
/// heading: eight spaces or a tab.
pub open spec fn spec_deep_indent(line: Seq<char>) -> bool {
    spec_has_prefix(line, "        "@) || (line.len() > 0 && line[0] == '\t')
}

/// One line of an `Examples:` section folded into the state. Inside a fence
/// every line joins the snippet until a closing fence. An opening fence may
/// name the snippet's language; an interpreter-prompt line (`>>>`) joins the
/// snippet and marks it as `python`. Any other unindented text begins a new
/// example with that text as its description; blank and code-indented lines
/// outside fences are passed over.
pub open spec fn spec_ex_step(st: ExFold, line: Seq<char>) -> ExFold {
    let t = spec_trim(line);
    if st.in_fence {
        if spec_has_prefix(t, "```"@) {
            ExFold { in_fence: false, ..st }
        } else if t.len() == 0 {
            st
        } else {
            ExFold {
                cur: ExampleModel { snippet: spec_snip_add(st.cur.snippet, t), ..st.cur },
                ..st
            }
        }
    } else if spec_has_prefix(t, "```"@) {
        let rest = spec_trim(t.skip(3));
        ExFold {
            in_fence: true,
            cur: ExampleModel {
                syntax: if rest.len() > 0 {
                    Some(rest)
                } else {
                    st.cur.syntax
                },
                ..st.cur
            },
            ..st
        }
    } else if spec_has_prefix(t, ">>>"@) {
        ExFold {
            cur: ExampleModel {
                snippet: spec_snip_add(st.cur.snippet, t),
                syntax: Some("python"@),
                ..st.cur
            },
            ..st
        }
    } else if t.len() == 0 {
        st
    } else if spec_deep_indent(line) {
        st
    } else {
        ExFold {
            done: if ex_active(st.cur) {
                st.done.push(st.cur)
            } else {
                st.done
            },
            cur: ExampleModel { description: t, snippet: Seq::empty(), syntax: None },
            in_fence: false,
        }
    }
}

/// The state after folding all lines of an `Examples:` section.
pub open spec fn spec_ex_fold(lines: Seq<Seq<char>>) -> ExFold
    decreases lines.len(),
{
    if lines.len() == 0 {
        ExFold { done: Seq::empty(), cur: empty_example(), in_fence: false }
    } else {
        spec_ex_step(spec_ex_fold(lines.drop_last()), lines.last())
    }
}

/// The examples of an `Examples:` section, the last one closed off.
pub open spec fn spec_examples(lines: Seq<Seq<char>>) -> Seq<ExampleModel> {
    let st = spec_ex_fold(lines);
    if ex_active(st.cur) {
        st.done.push(st.cur)
    } else {
        st.done
    }
}

fn make_example(desc: &Vec<char>, snip: &Vec<char>, syn: &Option<Vec<char>>) -> (r: Example)
    ensures
        r@ == (ExampleModel { description: desc@, snippet: snip@, syntax: syn.deep_view() }),
{
    let syntax = match syn {
        Some(v) => Some(char_vec_to_string(v)),
        None => None,
    };
    let r = Example {
        description: char_vec_to_string(desc),
        snippet: char_vec_to_string(snip),
        syntax,
    };
    proof {
        if syn is Some {
            assert(r.syntax.deep_view() == syn.deep_view());
        }
    }
    r
}

fn parse_text_section(content: &Vec<Vec<char>>, out: &mut Vec<String>)
    ensures
        final(out).deep_view() == old(out).deep_view() + spec_text_items(content.deep_view()),
{
    let ghost base = out.deep_view();
    let n = content.len();
    let mut i: usize = 0;
    proof {
        assert(out.deep_view() =~~= base + spec_text_items(content.deep_view().subrange(0, 0)));
    }
    while i < n
        invariant
            0 <= i <= n,
            n == content@.len(),
            out.deep_view() == base + spec_text_items(content.deep_view().subrange(0, i as int)),
        decreases n - i,
    {
        let ghost pre = content.deep_view().subrange(0, i as int);
        let ghost post = content.deep_view().subrange(0, i + 1 as int);
        proof {
            assert(post.drop_last() =~= pre);
            assert(post.last() == content@[i as int]@);
        }
        let t = trim_chars(&content[i]);
        if t.len() > 0 {
            push_item(out, char_vec_to_string(&t));
        }
        proof {
            assert(out.deep_view() =~~= base + spec_text_items(post));
        }
        i += 1;
    }
    proof {
        assert(content.deep_view().subrange(0, n as int) =~= content.deep_view());
        assert(base =~~= old(out).deep_view());
    }
}

fn split_name_and_type(np: &Vec<char>) -> (r: (Vec<char>, Option<Vec<char>>))
    ensures
        r.0@ == spec_name_and_type(np@).0,
        r.1.deep_view() == spec_name_and_type(np@).1,
{
    match split_once_char(np, '(') {
        None => (copy_chars(np), None),
        Some((nm, ty)) => {
            let stripped = trim_end_matches_char(&ty, ')');
            (trim_chars(&nm), Some(trim_chars(&stripped)))
        },
    }
}

fn parse_args_section(content: &Vec<Vec<char>>, params: &mut ParamMap)
    ensures
        final(params)@ == spec_args_fold(old(params)@, content.deep_view()),
{
    let n = content.len();
    let mut i: usize = 0;
    while i < n
        invariant
            0 <= i <= n,
            n == content@.len(),
            params@ == spec_args_fold(old(params)@, content.deep_view().subrange(0, i as int)),
        decreases n - i,
    {
        let ghost pre = content.deep_view().subrange(0, i as int);
        let ghost post = content.deep_view().subrange(0, i + 1 as int);
        proof {
            assert(post.drop_last() =~= pre);
            assert(post.last() == content@[i as int]@);
        }
        let t = trim_chars(&content[i]);
        if t.len() > 0 {
            if let Some((name_part, description)) = split_once_char(&t, ':') {
                let np = trim_chars(&name_part);
                let (key, ty) = split_name_and_type(&np);
                let param_type = match ty {
                    Some(v) => Some(char_vec_to_string(&v)),
                    None => None,
                };
                let d = trim_chars(&description);
                params.insert(
                    char_vec_to_string(&key),
                    param_type,
                    Some(char_vec_to_string(&d)),
                );
            }
        }
        proof {
            assert(params@ == spec_args_fold(old(params)@, post));
        }
        i += 1;
    }
    proof {
        assert(content.deep_view().subrange(0, n as int) =~= content.deep_view());
    }
}

fn parse_joined_section(content: &Vec<Vec<char>>) -> (r: Option<String>)
    ensures
        r.deep_view() == spec_joined_opt(content.deep_view()),
{
    let joined = join_space(content);
    let j = trim_chars(&joined);
    if j.len() == 0 {
        None
    } else {
        Some(char_vec_to_string(&j))
    }
}

fn parse_section_description(content: &Vec<Vec<char>>) -> (r: String)
    ensures
        r@ == spec_section_desc(content.deep_view()),
{
    let joined = join_space(content);
    let j = trim_chars(&joined);
    match split_once_char(&j, ':') {
        Some((_label, d)) => {
            let t = trim_chars(&d);
            char_vec_to_string(&t)
        },
        None => char_vec_to_string(&j),
    }
}

fn parse_returns_section(content: &Vec<Vec<char>>) -> (r: Return)
    ensures
        r@ == ((None::<Seq<char>>, spec_section_desc(content.deep_view()))),
{
    Return { return_type: None, description: parse_section_description(content) }
}

fn parse_yields_section(content: &Vec<Vec<char>>) -> (r: Yield)
    ensures
        r@ == ((None::<Seq<char>>, spec_section_desc(content.deep_view()))),
{
    Yield { yield_type: None, description: parse_section_description(content) }
}

fn parse_raises_section(content: &Vec<Vec<char>>, out: &mut Vec<Raise>)
    ensures
        final(out).deep_view() == old(out).deep_view() + spec_raises(content.deep_view()),
{
    let ghost base = out.deep_view();
    let n = content.len();
    let mut i: usize = 0;
    proof {
        assert(out.deep_view() =~~= base + spec_raises(content.deep_view().subrange(0, 0)));
    }
    while i < n
        invariant
            0 <= i <= n,
            n == content@.len(),
            out.deep_view() == base + spec_raises(content.deep_view().subrange(0, i as int)),
        decreases n - i,
    {
        let ghost pre = content.deep_view().subrange(0, i as int);
        let ghost post = content.deep_view().subrange(0, i + 1 as int);
        proof {
            assert(post.drop_last() =~= pre);
            assert(post.last() == content@[i as int]@);
        }
        let t = trim_chars(&content[i]);
        if t.len() > 0 {
            if let Some((exception_type, description)) = split_once_char(&t, ':') {
                let e = trim_chars(&exception_type);
                let d = trim_chars(&description);
                push_item(
                    out,
                    Raise {
                        exception_type: char_vec_to_string(&e),
                        description: char_vec_to_string(&d),
                    },
                );
            }
        }
        proof {
            assert(out.deep_view() =~~= base + spec_raises(post));
        }
        i += 1;
    }
    proof {
        assert(content.deep_view().subrange(0, n as int) =~= content.deep_view());
        assert(base =~~= old(out).deep_view());
    }
}

fn parse_attributes_section(content: &Vec<Vec<char>>, out: &mut Vec<Attribute>)
    ensures
        final(out).deep_view() == old(out).deep_view() + spec_attributes(content.deep_view()),
{
    let ghost base = out.deep_view();
    let n = content.len();
    let mut i: usize = 0;
    proof {
        assert(out.deep_view() =~~= base + spec_attributes(content.deep_view().subrange(0, 0)));
    }
    while i < n
        invariant
            0 <= i <= n,
            n == content@.len(),
            out.deep_view() == base + spec_attributes(content.deep_view().subrange(0, i as int)),
        decreases n - i,
    {
        let ghost pre = content.deep_view().subrange(0, i as int);
        let ghost post = content.deep_view().subrange(0, i + 1 as int);
        proof {
            assert(post.drop_last() =~= pre);
            assert(post.last() == content@[i as int]@);
        }
        let t = trim_chars(&content[i]);
        if t.len() > 0 {
            if let Some((name_part, description)) = split_once_char(&t, ':') {
                let np = trim_chars(&name_part);
                let (name, ty) = split_name_and_type(&np);
                let attr_type = match ty {
                    Some(v) => Some(char_vec_to_string(&v)),
                    None => None,
                };
                let d = trim_chars(&description);
                push_item(
                    out,
                    Attribute {
                        name: char_vec_to_string(&name),
                        attr_type,
                        description: char_vec_to_string(&d),
                    },
                );
            }
        }
        proof {
            assert(out.deep_view() =~~= base + spec_attributes(post));
        }
        i += 1;
    }
    proof {
        assert(content.deep_view().subrange(0, n as int) =~= content.deep_view());
        assert(base =~~= old(out).deep_view());
    }
}

fn parse_version_changed_section(content: &Vec<Vec<char>>, out: &mut Vec<VersionChange>)
    ensures
        final(out).deep_view() == old(out).deep_view() + spec_version_changes(
            content.deep_view(),
        ),
{
    let ghost base = out.deep_view();
    let n = content.len();
    let mut i: usize = 0;
    proof {
        assert(out.deep_view() =~~= base + spec_version_changes(
            content.deep_view().subrange(0, 0),
        ));
    }
    while i < n
        invariant
            0 <= i <= n,
            n == content@.len(),
            out.deep_view() == base + spec_version_changes(
                content.deep_view().subrange(0, i as int),
            ),
        decreases n - i,
    {
        let ghost pre = content.deep_view().subrange(0, i as int);
        let ghost post = content.deep_view().subrange(0, i + 1 as int);
        proof {
            assert(post.drop_last() =~= pre);
            assert(post.last() == content@[i as int]@);
        }
        let t = trim_chars(&content[i]);
        proof {
            assert(spec_version_changes(post) == ({
                let r = spec_version_changes(pre);
                let tt = spec_trim(post.last());
                if tt.len() == 0 {
                    r
                } else {
                    match spec_split_once(tt, ':') {
                        Some(p) => r.push((spec_trim(p.0), spec_trim(p.1))),
                        None => r.push((tt, Seq::empty())),
                    }
                }
            }));
        }
        if t.len() > 0 {
            match split_once_char(&t, ':') {
                Some((version, description)) => {
                    let v = trim_chars(&version);
                    let d = trim_chars(&description);
                    push_item(
                        out,
                        VersionChange {
                            version: char_vec_to_string(&v),
                            description: char_vec_to_string(&d),
                        },
                    );
                },
                None => {
                    push_item(
                        out,
                        VersionChange { version: char_vec_to_string(&t), description: String::new() },
                    );
                },
            }
        }
        proof {
            assert(out.deep_view() =~~= base + spec_version_changes(post));
        }
        i += 1;
    }
    proof {
        assert(content.deep_view().subrange(0, n as int) =~= content.deep_view());
        assert(base =~~= old(out).deep_view());
    }
}

fn snip_push(snip: &mut Vec<char>, t: &Vec<char>)
    ensures
        final(snip)@ == spec_snip_add(old(snip)@, t@),
{
    if snip.len() > 0 {
        snip.push('\n');
        extend_chars(snip, t);
        proof {
            assert(snip@ =~= old(snip)@ + seq!['\n'] + t@);
        }
    } else {
        extend_chars(snip, t);
        proof {
            assert(snip@ =~= t@);
        }
    }
}

fn parse_examples_section(content: &Vec<Vec<char>>, out: &mut Vec<Example>)
    ensures
        final(out).deep_view() == old(out).deep_view() + spec_examples(content.deep_view()),
{
    proof {
        reveal_strlit("```");
    }
    let ghost base = out.deep_view();
    let n = content.len();
    let mut desc: Vec<char> = Vec::new();
    let mut snip: Vec<char> = Vec::new();
    let mut syn: Option<Vec<char>> = None;
    let mut in_fence: bool = false;
    let mut i: usize = 0;
    proof {
        assert(out.deep_view() =~~= base + spec_ex_fold(
            content.deep_view().subrange(0, 0),
        ).done);
    }
    while i < n
        invariant
            0 <= i <= n,
            n == content@.len(),
            out.deep_view() == base + spec_ex_fold(
                content.deep_view().subrange(0, i as int),
            ).done,
            (ExampleModel { description: desc@, snippet: snip@, syntax: syn.deep_view() })
                == spec_ex_fold(content.deep_view().subrange(0, i as int)).cur,
            in_fence == spec_ex_fold(content.deep_view().subrange(0, i as int)).in_fence,
        decreases n - i,
    {
        proof {
            reveal_strlit("```");
        }
        let ghost pre = content.deep_view().subrange(0, i as int);
        let ghost post = content.deep_view().subrange(0, i + 1 as int);
        let ghost st = spec_ex_fold(pre);
        proof {
            assert(post.drop_last() =~= pre);
            assert(post.last() == content@[i as int]@);
            assert(spec_ex_fold(post) == spec_ex_step(st, post.last()));
        }
        let line = &content[i];
        let t = trim_chars(line);
        if in_fence {
            if starts_with_chars(&t, "```") {
                in_fence = false;
            } else if t.len() == 0 {
            } else {
                snip_push(&mut snip, &t);
            }
        } else if starts_with_chars(&t, "```") {
            in_fence = true;
            let tail = skip_chars(&t, 3);
            let rest = trim_chars(&tail);
            if rest.len() > 0 {
                syn = Some(rest);
            }
        } else if starts_with_chars(&t, ">>>") {
            snip_push(&mut snip, &t);
            syn = Some(string_chars("python"));
        } else if t.len() == 0 {
        } else if starts_with_chars(line, "        ") || (line.len() > 0 && line[0] == '\t') {
        } else {
            if desc.len() > 0 || snip.len() > 0 {
                push_item(out, make_example(&desc, &snip, &syn));
                proof {
                    assert(out.deep_view() =~~= base + st.done.push(st.cur));
                }
            }
            desc = t;
            snip = Vec::new();
            syn = None;
            in_fence = false;
        }
        proof {
            assert(out.deep_view() =~~= base + spec_ex_fold(post).done);
            assert((ExampleModel { description: desc@, snippet: snip@, syntax: syn.deep_view() })
                == spec_ex_fold(post).cur);
        }
        i += 1;
    }
    proof {
        assert(content.deep_view().subrange(0, n as int) =~= content.deep_view());
    }
    if desc.len() > 0 || snip.len() > 0 {
        push_item(out, make_example(&desc, &snip, &syn));
    }
    proof {
        assert(base =~~= old(out).deep_view());
        assert(out.deep_view() =~~= old(out).deep_view() + spec_examples(content.deep_view()));
    }
}

/// The sections a header line can open. A `param `/`attr ` header is
/// recognized, so that its line does not run into the description, but no
/// content is kept for it: its line-format parser in the engine this design
/// comes from could only ever see continuation lines, never the header's own
/// text.
#[derive(Debug, Clone, Copy)]
pub enum Section {
    Args,
    Param,
    Returns,
    Yields,
    Raises,
    Attributes,
    Attr,
    Examples,
    Notes,
    Warnings,
    SeeAlso,
    References,
    Todo,
    Deprecated,
    VersionAdded,
    VersionChanged,
}

/// The section a trimmed line opens, if it is a section header: the header
/// keywords, compared ignoring ASCII case.
pub open spec fn spec_detect(t: Seq<char>) -> Option<Section> {
    if spec_has_prefix_ci(t, "args:"@) || spec_has_prefix_ci(t, "arguments:"@)
        || spec_has_prefix_ci(t, "parameters:"@) {
        Some(Section::Args)
    } else if spec_has_prefix_ci(t, "param "@) || spec_has_prefix_ci(t, "parameter "@) {
        Some(Section::Param)
    } else if spec_has_prefix_ci(t, "returns:"@) || spec_has_prefix_ci(t, "return:"@) {
        Some(Section::Returns)
    } else if spec_has_prefix_ci(t, "yields:"@) || spec_has_prefix_ci(t, "yield:"@) {
        Some(Section::Yields)
    } else if spec_has_prefix_ci(t, "raises:"@) || spec_has_prefix_ci(t, "raise:"@)
        || spec_has_prefix_ci(t, "except:"@) {
        Some(Section::Raises)
    } else if spec_has_prefix_ci(t, "attributes:"@) || spec_has_prefix_ci(t, "attrs:"@) {
        Some(Section::Attributes)
    } else if spec_has_prefix_ci(t, "attr "@) || spec_has_prefix_ci(t, "attribute "@) {
        Some(Section::Attr)
    } else if spec_has_prefix_ci(t, "examples:"@) || spec_has_prefix_ci(t, "example:"@) {
        Some(Section::Examples)
    } else if spec_has_prefix_ci(t, "notes:"@) || spec_has_prefix_ci(t, "note:"@) {
        Some(Section::Notes)
    } else if spec_has_prefix_ci(t, "warnings:"@) || spec_has_prefix_ci(t, "warning:"@) {
        Some(Section::Warnings)
    } else if spec_has_prefix_ci(t, "see also:"@) || spec_has_prefix_ci(t, "see:"@) {
        Some(Section::SeeAlso)
    } else if spec_has_prefix_ci(t, "references:"@) || spec_has_prefix_ci(t, "refs:"@) {
        Some(Section::References)
    } else if spec_has_prefix_ci(t, "todo:"@) {
        Some(Section::Todo)
    } else if spec_has_prefix_ci(t, "deprecated:"@) {
        Some(Section::Deprecated)
    } else if spec_has_prefix_ci(t, "version added:"@) {
        Some(Section::VersionAdded)
    } else if spec_has_prefix_ci(t, "version changed:"@) {
        Some(Section::VersionChanged)
    } else {
        None
    }
}

/// The docstring after one section's content is folded into it. Only the
/// `param `/`attr ` headers leave it unchanged.
pub open spec fn spec_apply_section(
    doc: DocModel,
    sec: Section,
    content: Seq<Seq<char>>,
) -> DocModel {
    match sec {
        Section::Args => DocModel { params: spec_args_fold(doc.params, content), ..doc },
        Section::Returns => DocModel {
            returns: Some((None, spec_section_desc(content))),
            ..doc
        },
        Section::Yields => DocModel { yields: Some((None, spec_section_desc(content))), ..doc },
        Section::Raises => DocModel { raises: doc.raises + spec_raises(content), ..doc },
        Section::Attributes => DocModel {
            attributes: doc.attributes + spec_attributes(content),
            ..doc
        },
        Section::Examples => DocModel { examples: doc.examples + spec_examples(content), ..doc },
        Section::Notes => DocModel { notes: doc.notes + spec_text_items(content), ..doc },
        Section::Warnings => DocModel { warnings: doc.warnings + spec_text_items(content), ..doc },
        Section::SeeAlso => DocModel { see_also: doc.see_also + spec_text_items(content), ..doc },
        Section::References => DocModel {
            references: doc.references + spec_text_items(content),
            ..doc
        },
        Section::Todo => DocModel { todo: doc.todo + spec_text_items(content), ..doc },
        Section::Deprecated => DocModel {
            deprecated: match spec_joined_opt(content) {
                Some(d) => Some(d),
                None => doc.deprecated,
            },
            ..doc
        },
        Section::VersionAdded => DocModel {
            version_added: match spec_joined_opt(content) {
                Some(v) => Some(v),
                None => doc.version_added,
            },
            ..doc
        },
        Section::VersionChanged => DocModel {
            version_changed: doc.version_changed + spec_version_changes(content),
            ..doc
        },
        Section::Param => doc,
        Section::Attr => doc,
    }
}

/// The state while walking a docstring's lines: the docstring assembled so
/// far, the short and long description texts, the open section with its
/// gathered content, and whether a code block is open.
#[verifier::ext_equal]
pub ghost struct CState {
    pub doc: DocModel,
    pub short: Seq<char>,
    pub long: Seq<char>,
    pub section: Option<Section>,
    pub content: Seq<Seq<char>>,
    pub in_code: bool,
}

/// The state before any line is read.
pub open spec fn init_cstate() -> CState {
    CState {
        doc: empty_doc_model(),
        short: Seq::empty(),
        long: Seq::empty(),
        section: None,
        content: Seq::empty(),
        in_code: false,
    }
}

/// One line folded into the walk. Blank lines before any text are passed
/// over. A code-block marker toggles code mode, inside which no header is
/// recognized. A header line closes the open section and opens a new one.
/// Under a section the line joins its content; otherwise the first text
/// becomes the short description and later text joins the long description.
pub open spec fn spec_content_step(st: CState, line: Seq<char>) -> CState {
    let t = spec_trim(line);
    if st.short.len() == 0 && t.len() == 0 {
        st
    } else if spec_has_prefix(t, "```"@) || spec_has_prefix(t, ">>>"@) {
        CState { in_code: !st.in_code, content: st.content.push(line), ..st }
    } else if st.in_code {
        CState { content: st.content.push(line), ..st }
    } else if spec_detect(t) is Some {
        let doc2 = match st.section {
            Some(sec) => spec_apply_section(st.doc, sec, st.content),
            None => st.doc,
        };
        CState { doc: doc2, section: spec_detect(t), content: Seq::empty(), ..st }
    } else if st.section is Some {
        CState { content: st.content.push(line), ..st }
    } else if st.short.len() == 0 {
        CState { short: t, ..st }
    } else {
        CState { long: spec_snip_add(st.long, t), ..st }
    }
}

/// The state after all lines are folded in.
pub open spec fn spec_content_fold(lines: Seq<Seq<char>>) -> CState
    decreases lines.len(),
{
    if lines.len() == 0 {
        init_cstate()
    } else {
        spec_content_step(spec_content_fold(lines.drop_last()), lines.last())
    }
}

/// The finished docstring: the last open section closed, and the long
/// description trimmed, kept only when text remains.
pub open spec fn spec_finish(st: CState) -> DocModel {
    let doc = match st.section {
        Some(sec) => spec_apply_section(st.doc, sec, st.content),
        None => st.doc,
    };
    let lt = spec_trim(st.long);
    DocModel {
        short_description: st.short,
        long_description: if lt.len() == 0 {
            None
        } else {
            Some(lt)
        },
        ..doc
    }
}

/// What parsing a docstring text yields.
pub open spec fn spec_parse(s: Seq<char>) -> DocModel {
    spec_finish(spec_content_fold(spec_lines(s)))
}

fn detect_section(t: &Vec<char>) -> (r: Option<Section>)
    ensures
        r == spec_detect(t@),
{
    if starts_with_ci(t, "args:") || starts_with_ci(t, "arguments:") || starts_with_ci(
        t,
        "parameters:",
    ) {
        Some(Section::Args)
    } else if starts_with_ci(t, "param ") || starts_with_ci(t, "parameter ") {
        Some(Section::Param)
    } else if starts_with_ci(t, "returns:") || starts_with_ci(t, "return:") {
        Some(Section::Returns)
    } else if starts_with_ci(t, "yields:") || starts_with_ci(t, "yield:") {
        Some(Section::Yields)
    } else if starts_with_ci(t, "raises:") || starts_with_ci(t, "raise:") || starts_with_ci(
        t,
        "except:",
    ) {
        Some(Section::Raises)
    } else if starts_with_ci(t, "attributes:") || starts_with_ci(t, "attrs:") {
        Some(Section::Attributes)
    } else if starts_with_ci(t, "attr ") || starts_with_ci(t, "attribute ") {
        Some(Section::Attr)
    } else if starts_with_ci(t, "examples:") || starts_with_ci(t, "example:") {
        Some(Section::Examples)
    } else if starts_with_ci(t, "notes:") || starts_with_ci(t, "note:") {
        Some(Section::Notes)
    } else if starts_with_ci(t, "warnings:") || starts_with_ci(t, "warning:") {
        Some(Section::Warnings)
    } else if starts_with_ci(t, "see also:") || starts_with_ci(t, "see:") {
        Some(Section::SeeAlso)
    } else if starts_with_ci(t, "references:") || starts_with_ci(t, "refs:") {
        Some(Section::References)
    } else if starts_with_ci(t, "todo:") {
        Some(Section::Todo)
    } else if starts_with_ci(t, "deprecated:") {
        Some(Section::Deprecated)
    } else if starts_with_ci(t, "version added:") {
        Some(Section::VersionAdded)
    } else if starts_with_ci(t, "version changed:") {
        Some(Section::VersionChanged)
    } else {
        None
    }
}

fn process_section(sec: Section, content: &Vec<Vec<char>>, result: &mut Docstring)
    ensures
        final(result)@ == spec_apply_section(old(result)@, sec, content.deep_view()),
{
    match sec {
        Section::Args => {
            parse_args_section(content, &mut result.params);
        },
        Section::Returns => {
            result.returns = Some(parse_returns_section(content));
        },
        Section::Yields => {
            result.yields = Some(parse_yields_section(content));
        },
        Section::Raises => {
            parse_raises_section(content, &mut result.raises);
        },
        Section::Attributes => {
            parse_attributes_section(content, &mut result.attributes);
        },
        Section::Examples => {
            parse_examples_section(content, &mut result.examples);
        },
        Section::Notes => {
            parse_text_section(content, &mut result.notes);
        },
        Section::Warnings => {
            parse_text_section(content, &mut result.warnings);
        },
        Section::SeeAlso => {
            parse_text_section(content, &mut result.see_also);
        },
        Section::References => {
            parse_text_section(content, &mut result.references);
        },
        Section::Todo => {
            parse_text_section(content, &mut result.todo);
        },
        Section::Deprecated => {
            if let Some(d) = parse_joined_section(content) {
                result.deprecated = Some(d);
            }
        },
        Section::VersionAdded => {
            if let Some(v) = parse_joined_section(content) {
                result.version_added = Some(v);
            }
        },
        Section::VersionChanged => {
            parse_version_changed_section(content, &mut result.version_changed);
        },
        Section::Param => {},
        Section::Attr => {},
    }
    proof {
        assert(result@ =~~= spec_apply_section(old(result)@, sec, content.deep_view()));
    }
}

/// Parsing is deterministic: any two parses of the same text are the same
/// docstring, model for model.
pub proof fn lemma_parse_deterministic(d1: Docstring, d2: Docstring, s: Seq<char>)
    requires
        d1@ == spec_parse(s),
        d2@ == spec_parse(s),
    ensures
        d1@ == d2@,
{
}

/// Simple but robust parser for Google-style docstrings.
pub struct SimpleDocstringParser;

impl SimpleDocstringParser {
    /// Create a new parser.
    pub fn new() -> SimpleDocstringParser {
        SimpleDocstringParser
    }

    /// Create a new parser with strict mode enabled; parsing itself does not
    /// differ between the two.
    pub fn strict() -> SimpleDocstringParser {
        SimpleDocstringParser
    }

    /// Parse a docstring string into a [`Docstring`]. Parsing always
    /// succeeds; the result is exactly [`spec_parse`] of the text.
    pub fn parse(&self, docstring: &str) -> (r: Result<Docstring, ParseError>)
        ensures
            r is Ok,
            r matches Ok(d) ==> d@ == spec_parse(docstring@),
    {
        let chars = string_chars(docstring);
        let lines = split_lines(&chars);
        let mut result = Docstring {
            short_description: String::new(),
            long_description: None,
            params: ParamMap::new(),
            returns: None,
            yields: None,
            raises: Vec::new(),
            attributes: Vec::new(),
            examples: Vec::new(),
            notes: Vec::new(),
            warnings: Vec::new(),
            see_also: Vec::new(),
            references: Vec::new(),
            todo: Vec::new(),
            deprecated: None,
            version_added: None,
            version_changed: Vec::new(),
        };
        proof {
            assert(result@ =~~= empty_doc_model());
        }
        self.parse_docstring_content(&lines, &mut result)?;
        Ok(result)
    }

    fn parse_docstring_content(&self, lines: &Vec<Vec<char>>, result: &mut Docstring) -> (r:
        Result<(), ParseError>)
        requires
            old(result)@ == empty_doc_model(),
        ensures
            r is Ok,
            final(result)@ == spec_finish(spec_content_fold(lines.deep_view())),
    {
        let mut short: Vec<char> = Vec::new();
        let mut long: Vec<char> = Vec::new();
        let mut section: Option<Section> = None;
        let mut content: Vec<Vec<char>> = Vec::new();
        let mut in_code: bool = false;
        let n = lines.len();
        let mut i: usize = 0;
        proof {
            assert(content.deep_view() =~~= init_cstate().content);
        }
        while i < n
            invariant
                0 <= i <= n,
                n == lines@.len(),
                ({
                    let st = spec_content_fold(lines.deep_view().subrange(0, i as int));
                    &&& result@ == st.doc
                    &&& short@ == st.short
                    &&& long@ == st.long
                    &&& section == st.section
                    &&& content.deep_view() == st.content
                    &&& in_code == st.in_code
                }),
            decreases n - i,
        {
            let ghost pre = lines.deep_view().subrange(0, i as int);
            let ghost post = lines.deep_view().subrange(0, i + 1 as int);
            let ghost st = spec_content_fold(pre);
            proof {
                assert(post.drop_last() =~= pre);
                assert(post.last() == lines@[i as int]@);
                assert(spec_content_fold(post) == spec_content_step(st, post.last()));
            }
            let line = &lines[i];
            let t = trim_chars(line);
            if short.len() == 0 && t.len() == 0 {
            } else if starts_with_chars(&t, "```") || starts_with_chars(&t, ">>>") {
                in_code = !in_code;
                push_item(&mut content, copy_chars(line));
            } else if in_code {
                push_item(&mut content, copy_chars(line));
            } else {
                match detect_section(&t) {
                    Some(sec) => {
                        if let Some(prev) = section {
                            process_section(prev, &content, result);
                        }
                        section = Some(sec);
                        content = Vec::new();
                        proof {
                            assert(content.deep_view() =~~= spec_content_fold(post).content);
                        }
                    },
                    None => {
                        if section.is_some() {
                            push_item(&mut content, copy_chars(line));
                        } else if short.len() == 0 {
                            short = t;
                        } else {
                            snip_push(&mut long, &t);
                        }
                    },
                }
            }
            proof {
                assert(content.deep_view() =~~= spec_content_fold(post).content);
            }
            i += 1;
        }
        proof {
            assert(lines.deep_view().subrange(0, n as int) =~= lines.deep_view());
        }
        let ghost fin = spec_content_fold(lines.deep_view());
        if let Some(sec) = section {
            process_section(sec, &content, result);
        }
        result.short_description = char_vec_to_string(&short);
        let lt = trim_chars(&long);
        if lt.len() > 0 {
            result.long_description = Some(char_vec_to_string(&lt));
        } else {
            result.long_description = None;
        }
        proof {
            assert(result@ =~~= spec_finish(fin));
        }
        Ok(())
    }
}

impl Default for SimpleDocstringParser {
    fn default() -> (r: Self)
        ensures
            r == SimpleDocstringParser,
    {
        SimpleDocstringParser::new()
    }
}

} // verus!
