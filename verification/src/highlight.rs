//! Styling of source lines with terminal colours, by the grammars and themes
//! that syntect ships.

use vstd::prelude::*;
use syntect::easy::HighlightLines;
use syntect::highlighting::ThemeSet;
use syntect::parsing::SyntaxSet;
use syntect::util::as_24_bit_terminal_escaped;
use crate::text::{chars_of, last_index_of, rfind_char, string_of};

verus! {

/// syntect's set of grammars. Nothing of what it holds is visible here.
#[verifier::external_type_specification]
#[verifier::external_body]
pub struct ExSyntaxSet(syntect::parsing::SyntaxSet);

/// syntect's set of themes. Nothing of what it holds is visible here.
#[verifier::external_type_specification]
#[verifier::external_body]
pub struct ExThemeSet(syntect::highlighting::ThemeSet);

/// The name of the grammar that syntect's built-in set holds for a file
/// extension, if it holds one.
pub uninterp spec fn grammar_for_extension(extension: Seq<char>) -> Option<Seq<char>>;

/// One line as syntect styles it with a built-in grammar and a built-in
/// theme, both given by name: the line's text between 24-bit colour escape
/// codes. `None` where the set holds no such grammar or theme, or where the
/// grammar fails on the line.
pub uninterp spec fn styled_line(
    grammar: Seq<char>,
    theme: Seq<char>,
    content: Seq<char>,
) -> Option<Seq<char>>;

/// What is needed to style lines, with the name of the one theme to style
/// in. It is costly to make and free to use: hand one to every call.
pub struct Highlighter {
    syntaxes: SyntaxSet,
    themes: ThemeSet,
    theme: String,
}

/// The characters of a string that may be absent.
pub open spec fn option_chars(s: Option<String>) -> Option<Seq<char>> {
    match s {
        Some(text) => Some(text@),
        None => None,
    }
}

/// Calls `SyntaxSet::load_defaults_newlines`, which unpacks the grammars
/// that are compiled into syntect. Nothing is claimed of the set.
#[verifier::external_body]
fn load_syntaxes() -> SyntaxSet {
    SyntaxSet::load_defaults_newlines()
}

/// Calls `ThemeSet::load_defaults`, which unpacks the themes that are
/// compiled into syntect. Nothing is claimed of the set.
#[verifier::external_body]
fn load_themes() -> ThemeSet {
    ThemeSet::load_defaults()
}

/// Calls `SyntaxSet::find_syntax_by_extension` on the built-in set and hands
/// back the name of the grammar found. The claim is that the set is the same
/// in every `Highlighter`, so that the extension alone decides the answer.
#[verifier::external_body]
fn grammar_by_extension(highlighter: &Highlighter, extension: &str) -> (name: Option<String>)
    ensures
        option_chars(name) == grammar_for_extension(extension@),
{
    highlighter.syntaxes.find_syntax_by_extension(extension).map(|syntax| syntax.name.clone())
}

/// Styles one line: `SyntaxSet::find_syntax_by_name` and the theme set's map
/// find the grammar and the theme, `HighlightLines::new` starts a fresh
/// parse, `HighlightLines::highlight_line` splits the line into styled
/// ranges, and `as_24_bit_terminal_escaped` writes them with colour codes for
/// the foreground. The claim is that the two sets are the same in every
/// `Highlighter` and that a fresh parse keeps no memory, so that the three
/// strings alone decide the answer.
#[verifier::external_body]
fn render(
    highlighter: &Highlighter,
    grammar: &str,
    theme: &str,
    content: &str,
) -> (styled: Option<String>)
    ensures
        option_chars(styled) == styled_line(grammar@, theme@, content@),
{
    let syntax = highlighter.syntaxes.find_syntax_by_name(grammar)?;
    let theme = highlighter.themes.themes.get(theme)?;
    let mut lines = HighlightLines::new(syntax, theme);
    let ranges = lines.highlight_line(content, &highlighter.syntaxes).ok()?;
    Some(as_24_bit_terminal_escaped(&ranges[..], false))
}

/// The last component of a path: what follows its last `/`.
pub open spec fn file_name_spec(path: Seq<char>) -> Seq<char> {
    path.skip(last_index_of(path, '/') + 1)
}

/// The extension of a file name: what follows its last `.`, unless the name
/// has none or only begins with one; then the extension is empty.
pub open spec fn extension_spec(name: Seq<char>) -> Seq<char> {
    let dot = last_index_of(name, '.');
    if dot <= 0 {
        Seq::empty()
    } else {
        name.skip(dot + 1)
    }
}

/// The grammar for a file, from what the set holds for its whole name and for
/// its extension: the first of the two, and plain text when there is neither.
pub open spec fn pick_grammar(
    by_name: Option<Seq<char>>,
    by_extension: Option<Seq<char>>,
) -> Seq<char> {
    match by_name {
        Some(grammar) => grammar,
        None => match by_extension {
            Some(grammar) => grammar,
            None => "Plain Text"@,
        },
    }
}

/// The name of the grammar by which the lines of a file are styled.
pub open spec fn grammar_spec(file_path: Seq<char>) -> Seq<char> {
    let name = file_name_spec(file_path);
    pick_grammar(grammar_for_extension(name), grammar_for_extension(extension_spec(name)))
}

/// The styled text, or nothing where there is none.
pub open spec fn text_or_empty(styled: Option<Seq<char>>) -> Seq<char> {
    match styled {
        Some(text) => text,
        None => Seq::empty(),
    }
}

/// One line as the highlighter styles it by a grammar: in the dark ocean
/// theme, and empty where the styling fails.
pub open spec fn highlight_as_spec(content: Seq<char>, grammar: Seq<char>) -> Seq<char> {
    text_or_empty(styled_line(grammar, fixed_theme(), content))
}

/// One line of a file as the highlighter styles it.
pub open spec fn highlight_spec(content: Seq<char>, file_path: Seq<char>) -> Seq<char> {
    highlight_as_spec(content, grammar_spec(file_path))
}

/// The last component of a path.
pub fn file_name(path: &str) -> (name: String)
    ensures
        name@ == file_name_spec(path@),
{
    let chars = chars_of(path);
    let start: usize = match rfind_char(&chars, '/') {
        Some(slash) => slash + 1,
        None => 0,
    };
    string_of(&chars, start, chars.len())
}

/// The extension of a file name.
pub fn extension(name: &str) -> (ext: String)
    ensures
        ext@ == extension_spec(name@),
{
    let chars = chars_of(name);
    match rfind_char(&chars, '.') {
        Some(dot) => {
            if dot == 0 {
                String::new()
            } else {
                string_of(&chars, dot + 1, chars.len())
            }
        },
        None => String::new(),
    }
}

/// Chooses between the grammar found for a file's name and the one found
/// for its extension.
pub fn choose_grammar(by_name: Option<String>, by_extension: Option<String>) -> (grammar: String)
    ensures
        grammar@ == pick_grammar(option_chars(by_name), option_chars(by_extension)),
{
    match by_name {
        Some(grammar) => grammar,
        None => match by_extension {
            Some(grammar) => grammar,
            None => "Plain Text".to_string(),
        },
    }
}

/// The text to show for a line whose styling may have failed.
pub fn styled_or_empty(styled: Option<String>) -> (text: String)
    ensures
        text@ == text_or_empty(option_chars(styled)),
{
    match styled {
        Some(text) => text,
        None => String::new(),
    }
}

impl Highlighter {
    /// Loads the built-in grammars and themes, and settles on the theme in
    /// which lines are styled.
    pub fn new() -> (highlighter: Highlighter)
        ensures
            highlighter.theme() == fixed_theme(),
    {
        Highlighter {
            syntaxes: load_syntaxes(),
            themes: load_themes(),
            theme: "base16-ocean.dark".to_string(),
        }
    }

    /// No highlighter styles in another theme than the fixed one.
    #[verifier::type_invariant]
    spec fn keeps_fixed_theme(&self) -> bool {
        self.theme@ == fixed_theme()
    }

    /// The name of the theme in which this highlighter styles.
    pub closed spec fn theme(&self) -> Seq<char> {
        self.theme@
    }

    /// The name of the theme in which this highlighter styles.
    pub fn theme_name(&self) -> (name: &str)
        ensures
            name@ == self.theme(),
            name@ == fixed_theme(),
    {
        proof {
            use_type_invariant(self);
        }
        self.theme.as_str()
    }

    /// The name of the grammar for a file.
    pub fn grammar(&self, file_path: &str) -> (grammar: String)
        ensures
            grammar@ == grammar_spec(file_path@),
    {
        let name = file_name(file_path);
        let ext = extension(name.as_str());
        let by_name = grammar_by_extension(self, name.as_str());
        let by_extension = grammar_by_extension(self, ext.as_str());
        choose_grammar(by_name, by_extension)
    }

    /// Styles one line by the grammar of the given name, in the theme of
    /// the highlighter.
    pub fn highlight_as(&self, content: &str, grammar: &str) -> (styled: String)
        ensures
            styled@ == highlight_as_spec(content@, grammar@),
    {
        styled_or_empty(render(self, grammar, self.theme_name(), content))
    }

    /// Styles one line of a file. The grammar is chosen by the file's name
    /// and extension.
    pub fn highlight(&self, content: &str, file_path: &str) -> (styled: String)
        ensures
            styled@ == highlight_spec(content@, file_path@),
    {
        let grammar = self.grammar(file_path);
        self.highlight_as(content, grammar.as_str())
    }
}

/// The name of the theme in which lines are styled: the dark ocean theme.
pub open spec fn fixed_theme() -> Seq<char> {
    "base16-ocean.dark"@
}

} // verus!
