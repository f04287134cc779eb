//! The seam to the syntax highlighter: what it is asked, and what it answers.
use crate::style::ansi_painted;
use crate::terminal::ansi::{ansi_style_of, to_ansi, AnsiStyle};
use syntect::easy::HighlightLines;
use syntect::highlighting::{FontStyle, Theme};
use syntect::parsing::{SyntaxReference, SyntaxSet};
use vstd::prelude::*;

verus! {

/// A set of syntax definitions.
#[verifier::external_type_specification]
#[verifier::external_body]
pub struct ExSyntaxSet(syntect::parsing::SyntaxSet);

/// A colour theme.
#[verifier::external_type_specification]
#[verifier::external_body]
pub struct ExTheme(syntect::highlighting::Theme);

/// One syntax definition of a set.
#[verifier::external_type_specification]
#[verifier::external_body]
pub struct ExSyntaxReference(syntect::parsing::SyntaxReference);

/// A colour of a highlighting theme, as red, green and blue.
#[derive(Clone, Copy, Debug, PartialEq, Eq, Structural)]
pub struct Color {
    pub r: u8,
    pub g: u8,
    pub b: u8,
}

/// The look that the highlighter gives to one fragment of code.
#[derive(Clone, Copy, Debug, PartialEq, Eq, Structural)]
pub struct HighlightStyle {
    pub foreground: Color,
    pub bold: bool,
    pub italic: bool,
    pub underline: bool,
}

/// A fragment of a run of code, with its look.
#[derive(Clone, Debug, PartialEq, Eq)]
pub struct Region {
    pub style: HighlightStyle,
    pub text: String,
}

impl Region {
    /// The region as plain values.
    pub open spec fn model(self) -> (HighlightStyle, Seq<char>) {
        (self.style, self.text@)
    }
}

/// The regions as plain values, in order.
pub open spec fn models(regions: Seq<Region>) -> Seq<(HighlightStyle, Seq<char>)> {
    regions.map_values(|region: Region| region.model())
}

/// The syntax that `SyntaxSet::find_syntax_by_token` finds for `token` in
/// `syntax_set`, if any.
pub uninterp spec fn syntax_for(syntax_set: SyntaxSet, token: Seq<char>) -> Option<
    SyntaxReference,
>;

/// Whether `syntax` is one of the syntaxes of `syntax_set`.
pub open spec fn is_syntax_of(syntax: SyntaxReference, syntax_set: SyntaxSet) -> bool {
    exists|token: Seq<char>| #[trigger] syntax_for(syntax_set, token) == Some(syntax)
}

/// Looks a syntax up with `SyntaxSet::find_syntax_by_token`. The contract
/// only names the result, which is a function of the set and the token.
#[verifier::external_body]
pub(crate) fn find_syntax<'a>(syntax_set: &'a SyntaxSet, token: &str) -> (syntax: Option<
    &'a SyntaxReference,
>)
    ensures
        syntax_for(*syntax_set, token@) == match syntax {
            Some(syntax) => Some(*syntax),
            None => None,
        },
{
    syntax_set.find_syntax_by_token(token)
}

/// Whether the regex engine of `syntect` compiles every pattern that
/// highlighting with `syntax_set` uses, those that it makes of a pattern
/// and of the text while it highlights among them. `syntect` compiles a
/// pattern when it first uses it, and gives up where it cannot.
pub uninterp spec fn patterns_compile(syntax_set: SyntaxSet) -> bool;

/// Makes a set without any syntax with `SyntaxSet::new`. Such a set holds no
/// pattern, so every pattern of it compiles, and it has no syntax for any
/// token.
#[verifier::external_body]
pub(crate) fn empty_syntax_set() -> (syntax_set: SyntaxSet)
    ensures
        patterns_compile(syntax_set),
        forall|token: Seq<char>| (#[trigger] syntax_for(syntax_set, token)) is None,
{
    SyntaxSet::new()
}

/// What `syntect` makes of one run of code: the regions that a fresh
/// highlighter for `syntax` and `theme` gives to `text`.
pub uninterp spec fn highlighted(
    syntax: SyntaxReference,
    theme: Theme,
    syntax_set: SyntaxSet,
    text: Seq<char>,
) -> Seq<(HighlightStyle, Seq<char>)>;

/// The texts of the regions, one after the other.
pub open spec fn joined(regions: Seq<(HighlightStyle, Seq<char>)>) -> Seq<char>
    decreases regions.len(),
{
    if regions.len() == 0 {
        Seq::empty()
    } else {
        joined(regions.drop_last()) + regions.last().1
    }
}

/// Makes a fresh `HighlightLines` for `syntax` and `theme` and highlights
/// `text` with it as one line. Each region comes back with its text, the
/// red, green and blue of its foreground, and its three font flags. The
/// contract names the result, which is a function of the four arguments,
/// and says what `syntect` documents of its highlighting iterator: the
/// texts of the regions, one after the other, are the line. The syntax must
/// come from the set: `syntect` says that it may panic otherwise. And the
/// patterns of the set must compile: `syntect` panics on one that its regex
/// engine refuses.
#[verifier::external_body]
fn highlight_run(
    syntax: &SyntaxReference,
    theme: &Theme,
    syntax_set: &SyntaxSet,
    text: &str,
) -> (regions: Vec<Region>)
    requires
        is_syntax_of(*syntax, *syntax_set),
        patterns_compile(*syntax_set),
    ensures
        models(regions@) == highlighted(*syntax, *theme, *syntax_set, text@),
        joined(models(regions@)) == text@,
{
    let regions = HighlightLines::new(syntax, theme).highlight(text, syntax_set);
    regions.into_iter().map(|(style, text)| Region {
        style: HighlightStyle {
            foreground: Color { r: style.foreground.r, g: style.foreground.g, b: style.foreground.b },
            bold: style.font_style.contains(FontStyle::BOLD),
            italic: style.font_style.contains(FontStyle::ITALIC),
            underline: style.font_style.contains(FontStyle::UNDERLINE),
        },
        text: text.to_owned(),
    }).collect()
}

/// The regions painted one after the other, each in the ANSI style of its
/// look.
pub open spec fn painted_regions(regions: Seq<(HighlightStyle, Seq<char>)>) -> Seq<char>
    decreases regions.len(),
{
    if regions.len() == 0 {
        Seq::empty()
    } else {
        painted_regions(regions.drop_last()) + ansi_painted(
            ansi_style_of(regions.last().0),
            regions.last().1,
        )
    }
}

/// Write highlighted regions as ANSI styled text.
pub fn write_as_ansi(out: &mut String, ansi: &AnsiStyle, regions: &Vec<Region>)
    ensures
        final(out)@ == old(out)@ + painted_regions(models(regions@)),
{
    let mut index: usize = 0;
    while index < regions.len()
        invariant
            index <= regions.len(),
            out@ == old(out)@ + painted_regions(models(regions@).take(index as int)),
        decreases regions.len() - index,
    {
        let region = &regions[index];
        let style = to_ansi(&region.style);
        ansi.write_styled(out, &style, region.text.as_str());
        proof {
            let done = models(regions@).take(index + 1);
            assert(done.drop_last() =~= models(regions@).take(index as int));
            assert(done.last() == regions@[index as int].model());
        }
        index = index + 1;
    }
    assert(models(regions@).take(index as int) =~= models(regions@));
}

/// The regions that highlighting gives to `text` as code of the language
/// that `token` names, where the set has a syntax for the token.
pub open spec fn highlighted_regions(
    syntax_set: SyntaxSet,
    theme: Theme,
    token: Seq<char>,
    text: Seq<char>,
) -> Option<Seq<(HighlightStyle, Seq<char>)>> {
    match syntax_for(syntax_set, token) {
        Some(syntax) => Some(highlighted(syntax, theme, syntax_set, text)),
        None => None,
    }
}

/// Highlights `text` as code of the language that `token` names, with a
/// fresh highlighter. Hands back nothing where the set has no syntax for
/// `token`. The regions cover the text: their texts, one after the other,
/// are `text`.
pub fn highlight(syntax_set: &SyntaxSet, theme: &Theme, token: &str, text: &str) -> (regions:
    Option<Vec<Region>>)
    requires
        patterns_compile(*syntax_set),
    ensures
        highlighted_regions(*syntax_set, *theme, token@, text@) == match regions {
            Some(regions) => Some(models(regions@)),
            None => None,
        },
        regions matches Some(regions) ==> joined(models(regions@)) == text@,
{
    match find_syntax(syntax_set, token) {
        Some(syntax) => Some(highlight_run(syntax, theme, syntax_set, text)),
        None => None,
    }
}

/// What highlighting makes of `text` as code of the language that `token`
/// names: the painted regions where the set has a syntax for the token,
/// else nothing.
pub open spec fn highlighted_text(
    syntax_set: SyntaxSet,
    theme: Theme,
    token: Seq<char>,
    text: Seq<char>,
) -> Option<Seq<char>> {
    match highlighted_regions(syntax_set, theme, token, text) {
        Some(regions) => Some(painted_regions(regions)),
        None => None,
    }
}

/// Highlights `text` as code of the language that `token` names and writes
/// it as ANSI styled text. Writes nothing and says `false` where the set has
/// no syntax for `token`.
pub fn write_highlighted(
    out: &mut String,
    ansi: &AnsiStyle,
    syntax_set: &SyntaxSet,
    theme: &Theme,
    token: &str,
    text: &str,
) -> (found: bool)
    requires
        patterns_compile(*syntax_set),
    ensures
        found == syntax_for(*syntax_set, token@).is_some(),
        final(out)@ == old(out)@ + match highlighted_text(*syntax_set, *theme, token@, text@) {
            Some(painted) => painted,
            None => Seq::empty(),
        },
{
    match highlight(syntax_set, theme, token, text) {
        Some(regions) => {
            write_as_ansi(out, ansi, &regions);
            true
        },
        None => {
            assert(out@ =~= old(out)@ + Seq::<char>::empty());
            false
        },
    }
}

} // verus!
