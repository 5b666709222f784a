//! The palette, as data.
//!
//! A colour is written down once, in the table below. The `:root` blocks of
//! the stylesheet are generated from it, and `Palette::paint` hands the same
//! value to anything that has to say it literally, such as an SVG
//! presentation attribute, which is an attribute rather than a declaration and
//! never resolves a `var()`. One source, two consumers, no second list to keep
//! in step.

use vstd::prelude::*;
use vstd::string::StringExecFns;
use crate::text::{
    chars_of, same_text, slice_chars, starts_with, string_of, trim, trim_chars, trim_end, trim_start,
};

verus! {

/// What a custom property holds.
///
/// Three of the tokens are not paints: two font stacks and a drop shadow.
/// Naming that here lets `Palette::colour` answer "there is no colour under
/// that name" instead of handing an SVG `fill` a list of font families.
#[derive(Debug, Clone, Copy, PartialEq, Eq, Structural)]
pub enum TokenKind {
    /// A paint, valid as an SVG `fill` or `stroke` exactly as it stands.
    Colour,
    /// Anything else the sheet needs, which only CSS can make sense of.
    NotAColour,
}

/// One custom property, in both palettes.
#[derive(Debug, Clone, Copy)]
pub struct Token {
    /// The name as CSS spells it, leading dashes included.
    pub name: &'static str,
    /// What the dark palette says. The sheet's own `:root` is the dark one, so
    /// every token has this and it is what an unanswered token falls back to.
    pub dark: &'static str,
    /// What the light palette says, where it says anything at all.
    pub light: Option<&'static str>,
    pub kind: TokenKind,
}

/// A token as plain values: its name, its dark value, its light value if it
/// has one of its own, and what it holds.
pub type TokenSpec = (Seq<char>, Seq<char>, Option<Seq<char>>, TokenKind);

pub open spec fn token_view(t: Token) -> TokenSpec {
    (
        t.name@,
        t.dark@,
        match t.light {
            Some(l) => Some(l@),
            None => None,
        },
        t.kind,
    )
}

pub open spec fn tokens_view(s: Seq<Token>) -> Seq<TokenSpec> {
    Seq::new(s.len(), |i: int| token_view(s[i]))
}

impl Token {
    /// A paint the two palettes disagree about, which is nearly all of them.
    pub fn colour(name: &'static str, dark: &'static str, light: &'static str) -> (t: Self)
        ensures
            token_view(t) == (name@, dark@, Some(light@), TokenKind::Colour),
    {
        Token { name, dark, light: Some(light), kind: TokenKind::Colour }
    }

    /// A paint that is the same whichever palette is up.
    pub fn colour_either_way(name: &'static str, value: &'static str) -> (t: Self)
        ensures
            token_view(t) == (name@, value@, None::<Seq<char>>, TokenKind::Colour),
    {
        Token { name, dark: value, light: None, kind: TokenKind::Colour }
    }

    /// Something only CSS can use, that the two palettes disagree about.
    pub fn other(name: &'static str, dark: &'static str, light: &'static str) -> (t: Self)
        ensures
            token_view(t) == (name@, dark@, Some(light@), TokenKind::NotAColour),
    {
        Token { name, dark, light: Some(light), kind: TokenKind::NotAColour }
    }

    /// Something only CSS can use that is the same either way.
    pub fn other_either_way(name: &'static str, value: &'static str) -> (t: Self)
        ensures
            token_view(t) == (name@, value@, None::<Seq<char>>, TokenKind::NotAColour),
    {
        Token { name, dark: value, light: None, kind: TokenKind::NotAColour }
    }
}

/// The palette, in the order the `:root` block declares it. Order is load
/// bearing: the generated blocks are written out in this order.
pub open spec fn palette_spec() -> Seq<TokenSpec> {
    seq![
        ("--bg"@, "#0d0f10"@, Some("#eaefef"@), TokenKind::Colour),
        ("--surface"@, "#131718"@, Some("#ffffff"@), TokenKind::Colour),
        ("--surface-2"@, "#0d1a1a"@, Some("#f2f7f7"@), TokenKind::Colour),
        ("--surface-3"@, "#171d1e"@, Some("#f7fafa"@), TokenKind::Colour),
        ("--surface-4"@, "#1b2223"@, Some("#ffffff"@), TokenKind::Colour),
        ("--accent"@, "#81b5b5"@, Some("#2f5f5e"@), TokenKind::Colour),
        ("--accent-bright"@, "#a5d3d3"@, Some("#1e4746"@), TokenKind::Colour),
        ("--on-accent"@, "#0b1414"@, Some("#f4f8f8"@), TokenKind::Colour),
        ("--on-bar"@, "#f2f7f7"@, None, TokenKind::Colour),
        ("--accent-dim"@, "rgba(129, 181, 181, 0.14)"@, Some("rgba(47, 95, 94, 0.10)"@), TokenKind::Colour),
        ("--accent-line"@, "rgba(129, 181, 181, 0.42)"@, Some("rgba(47, 95, 94, 0.38)"@), TokenKind::Colour),
        ("--contextual"@, "#8aa2c4"@, Some("#45699b"@), TokenKind::Colour),
        ("--line"@, "#27302f"@, Some("#d2dedd"@), TokenKind::Colour),
        ("--line-soft"@, "#1d2425"@, Some("#e6eded"@), TokenKind::Colour),
        ("--ink"@, "#d8e7e8"@, Some("#10201f"@), TokenKind::Colour),
        ("--ink-soft"@, "#8fafaf"@, Some("#4a6362"@), TokenKind::Colour),
        ("--ink-faint"@, "#5f7676"@, Some("#7b9291"@), TokenKind::Colour),
        ("--hover"@, "rgba(216, 231, 232, 0.065)"@, Some("rgba(16, 32, 31, 0.055)"@), TokenKind::Colour),
        ("--pressed"@, "rgba(216, 231, 232, 0.12)"@, Some("rgba(16, 32, 31, 0.10)"@), TokenKind::Colour),
        ("--selection"@, "rgba(129, 181, 181, 0.17)"@, Some("rgba(47, 95, 94, 0.13)"@), TokenKind::Colour),
        ("--selection-line"@, "rgba(129, 181, 181, 0.55)"@, Some("rgba(47, 95, 94, 0.5)"@), TokenKind::Colour),
        ("--focus"@, "var(--accent)"@, Some("var(--accent)"@), TokenKind::Colour),
        ("--grid-line"@, "#27302f"@, Some("#d2dedd"@), TokenKind::Colour),
        ("--grid-header"@, "#171d1e"@, Some("#f2f7f7"@), TokenKind::Colour),
        ("--nonworking"@, "rgba(216, 231, 232, 0.032)"@, Some("rgba(16, 32, 31, 0.038)"@), TokenKind::Colour),
        ("--bar"@, "#3f7d7d"@, Some("#4b8b8b"@), TokenKind::Colour),
        ("--bar-edge"@, "#6aadad"@, Some("#2f5f5e"@), TokenKind::Colour),
        ("--bar-progress"@, "#a5d3d3"@, Some("#1e4746"@), TokenKind::Colour),
        ("--bar-critical"@, "#9d474d"@, Some("#b3565c"@), TokenKind::Colour),
        ("--bar-critical-edge"@, "#d9636a"@, Some("#8b393f"@), TokenKind::Colour),
        ("--bar-progress-critical"@, "#e79aa0"@, Some("#7a2f34"@), TokenKind::Colour),
        ("--bar-summary"@, "#cfe3e3"@, Some("#20403f"@), TokenKind::Colour),
        ("--bar-inactive"@, "#414c4c"@, Some("#b9c6c6"@), TokenKind::Colour),
        ("--baseline"@, "#6b7f7f"@, Some("#8aa3a2"@), TokenKind::Colour),
        ("--slack"@, "#4d6060"@, Some("#a9bdbc"@), TokenKind::Colour),
        ("--today"@, "#d9636a"@, Some("#b3565c"@), TokenKind::Colour),
        ("--link-arrow"@, "#7e9a9a"@, Some("#6d8786"@), TokenKind::Colour),
        ("--danger"@, "#d9636a"@, Some("#ac5157"@), TokenKind::Colour),
        ("--danger-bg"@, "rgba(217, 99, 106, 0.12)"@, Some("rgba(172, 81, 87, 0.10)"@), TokenKind::Colour),
        ("--warn"@, "#d9b06a"@, Some("#9d6f16"@), TokenKind::Colour),
        ("--shadow"@, "0 12px 34px rgba(0, 0, 0, 0.55)"@, Some("0 12px 30px rgba(16, 32, 31, 0.18)"@), TokenKind::NotAColour),
        ("--font"@, "\"InterVariable\", \"Segoe UI\", \"Noto Sans\", \"DejaVu Sans\", \"Liberation Sans\", sans-serif"@, None, TokenKind::NotAColour),
        ("--mono"@, "ui-monospace, \"Cascadia Mono\", \"JetBrains Mono\", Consolas, monospace"@, None, TokenKind::NotAColour),
    ]
}

/// The palette's tokens, in order.
pub fn palette_table() -> (v: Vec<Token>)
    ensures
        tokens_view(v@) == palette_spec(),
{
    let v = vec![
        Token::colour("--bg", "#0d0f10", "#eaefef"),
        Token::colour("--surface", "#131718", "#ffffff"),
        Token::colour("--surface-2", "#0d1a1a", "#f2f7f7"),
        Token::colour("--surface-3", "#171d1e", "#f7fafa"),
        Token::colour("--surface-4", "#1b2223", "#ffffff"),
        Token::colour("--accent", "#81b5b5", "#2f5f5e"),
        Token::colour("--accent-bright", "#a5d3d3", "#1e4746"),
        Token::colour("--on-accent", "#0b1414", "#f4f8f8"),
        Token::colour_either_way("--on-bar", "#f2f7f7"),
        Token::colour("--accent-dim", "rgba(129, 181, 181, 0.14)", "rgba(47, 95, 94, 0.10)"),
        Token::colour("--accent-line", "rgba(129, 181, 181, 0.42)", "rgba(47, 95, 94, 0.38)"),
        Token::colour("--contextual", "#8aa2c4", "#45699b"),
        Token::colour("--line", "#27302f", "#d2dedd"),
        Token::colour("--line-soft", "#1d2425", "#e6eded"),
        Token::colour("--ink", "#d8e7e8", "#10201f"),
        Token::colour("--ink-soft", "#8fafaf", "#4a6362"),
        Token::colour("--ink-faint", "#5f7676", "#7b9291"),
        Token::colour("--hover", "rgba(216, 231, 232, 0.065)", "rgba(16, 32, 31, 0.055)"),
        Token::colour("--pressed", "rgba(216, 231, 232, 0.12)", "rgba(16, 32, 31, 0.10)"),
        Token::colour("--selection", "rgba(129, 181, 181, 0.17)", "rgba(47, 95, 94, 0.13)"),
        Token::colour("--selection-line", "rgba(129, 181, 181, 0.55)", "rgba(47, 95, 94, 0.5)"),
        Token::colour("--focus", "var(--accent)", "var(--accent)"),
        Token::colour("--grid-line", "#27302f", "#d2dedd"),
        Token::colour("--grid-header", "#171d1e", "#f2f7f7"),
        Token::colour("--nonworking", "rgba(216, 231, 232, 0.032)", "rgba(16, 32, 31, 0.038)"),
        Token::colour("--bar", "#3f7d7d", "#4b8b8b"),
        Token::colour("--bar-edge", "#6aadad", "#2f5f5e"),
        Token::colour("--bar-progress", "#a5d3d3", "#1e4746"),
        Token::colour("--bar-critical", "#9d474d", "#b3565c"),
        Token::colour("--bar-critical-edge", "#d9636a", "#8b393f"),
        Token::colour("--bar-progress-critical", "#e79aa0", "#7a2f34"),
        Token::colour("--bar-summary", "#cfe3e3", "#20403f"),
        Token::colour("--bar-inactive", "#414c4c", "#b9c6c6"),
        Token::colour("--baseline", "#6b7f7f", "#8aa3a2"),
        Token::colour("--slack", "#4d6060", "#a9bdbc"),
        Token::colour("--today", "#d9636a", "#b3565c"),
        Token::colour("--link-arrow", "#7e9a9a", "#6d8786"),
        Token::colour("--danger", "#d9636a", "#ac5157"),
        Token::colour("--danger-bg", "rgba(217, 99, 106, 0.12)", "rgba(172, 81, 87, 0.10)"),
        Token::colour("--warn", "#d9b06a", "#9d6f16"),
        Token::other("--shadow", "0 12px 34px rgba(0, 0, 0, 0.55)", "0 12px 30px rgba(16, 32, 31, 0.18)"),
        Token::other_either_way("--font", "\"InterVariable\", \"Segoe UI\", \"Noto Sans\", \"DejaVu Sans\", \"Liberation Sans\", sans-serif"),
        Token::other_either_way("--mono", "ui-monospace, \"Cascadia Mono\", \"JetBrains Mono\", Consolas, monospace"),
    ];
    proof {
        assert(tokens_view(v@) =~= palette_spec());
    }
    v
}

/// The first token in the palette with this name.
pub open spec fn lookup_from(tokens: Seq<TokenSpec>, name: Seq<char>) -> Option<TokenSpec>
    decreases tokens.len(),
{
    if tokens.len() == 0 {
        None
    } else if tokens[0].0 == name {
        Some(tokens[0])
    } else {
        lookup_from(tokens.skip(1), name)
    }
}

pub open spec fn lookup(name: Seq<char>) -> Option<TokenSpec> {
    lookup_from(palette_spec(), name)
}

/// The token this name stands for.
pub fn token(name: &str) -> (r: Option<Token>)
    ensures
        match r {
            Some(t) => lookup(name@) == Some(token_view(t)),
            None => lookup(name@) is None,
        },
{
    let table = palette_table();
    let ghost all = tokens_view(table@);
    let mut i: usize = 0;
    proof {
        assert(all.skip(0) =~= all);
    }
    while i < table.len()
        invariant
            i <= table.len(),
            all == tokens_view(table@),
            all == palette_spec(),
            lookup(name@) == lookup_from(all.skip(i as int), name@),
        decreases table.len() - i,
    {
        let t = table[i];
        proof {
            assert(all.skip(i as int)[0] == token_view(t));
            assert(all.skip(i as int).len() > 0);
        }
        if same_text(t.name, name) {
            return Some(t);
        }
        proof {
            assert(all.skip(i as int).skip(1) =~= all.skip(i + 1));
        }
        i += 1;
    }
    None
}

/// How many names deep a token is followed before it is called a cycle.
pub const MAX_HOPS: usize = 4;

/// One of the two palettes, as something that can be asked for a value.
#[derive(Debug, Clone, Copy, PartialEq, Eq, Structural)]
pub enum Palette {
    Dark,
    Light,
}

/// What a palette says about a token before any name is followed. A token
/// the light palette does not restate keeps the dark value, exactly as the
/// overlay does in CSS.
pub open spec fn stated_value(p: Palette, t: TokenSpec) -> Seq<char> {
    match p {
        Palette::Dark => t.1,
        Palette::Light => match t.2 {
            Some(l) => l,
            None => t.1,
        },
    }
}

/// The name inside `var(...)`, when a value is one.
pub open spec fn var_inner(v: Seq<char>) -> Option<Seq<char>> {
    if starts_with(v, "var("@) && v.len() >= 5 && v.last() == ')' {
        Some(v.subrange(4, v.len() - 1))
    } else {
        None
    }
}

/// Following a token through `var()` for at most `hops` steps.
pub open spec fn resolve_from(p: Palette, t: TokenSpec, hops: nat) -> Option<Seq<char>>
    decreases hops,
{
    if hops == 0 {
        None
    } else {
        let v = stated_value(p, t);
        match var_inner(v) {
            None => Some(v),
            Some(inner) => match lookup(trim(inner)) {
                None => None,
                Some(next) => resolve_from(p, next, (hops - 1) as nat),
            },
        }
    }
}

/// The value of a token in a palette with any `var()` followed until it lands
/// on something literal: nothing for a name the palette does not have, and
/// nothing for a chain longer than [`MAX_HOPS`], which is a loop.
pub open spec fn value_spec(p: Palette, name: Seq<char>) -> Option<Seq<char>> {
    match lookup(name) {
        None => None,
        Some(t) => resolve_from(p, t, MAX_HOPS as nat),
    }
}

pub open spec fn colour_spec(p: Palette, name: Seq<char>) -> Option<Seq<char>> {
    match lookup(name) {
        Some(t) if t.3 == TokenKind::Colour => value_spec(p, name),
        _ => None,
    }
}

pub open spec fn paint_spec(p: Palette, name: Seq<char>) -> Seq<char> {
    match colour_spec(p, name) {
        Some(c) => c,
        None => "currentColor"@,
    }
}

pub open spec fn literal_spec(p: Palette, value: Seq<char>) -> Seq<char> {
    match var_inner(value) {
        Some(name) => paint_spec(p, trim(name)),
        None => value,
    }
}

pub open spec fn opt_str_view(o: Option<&str>) -> Option<Seq<char>> {
    match o {
        Some(s) => Some(s@),
        None => None,
    }
}

/// The name inside `var(...)`, or nothing when the value is not one.
fn var_name(v: &str) -> (r: Option<String>)
    ensures
        match r {
            Some(s) => var_inner(v@) == Some(s@),
            None => var_inner(v@) is None,
        },
{
    let c = chars_of(v);
    let head = chars_of("var(");
    if !crate::text::starts_with_chars(&c, &head) || c.len() < 5 || c[c.len() - 1] != ')' {
        return None;
    }
    Some(string_of(&slice_chars(&c, 4, c.len() - 1)))
}

impl Palette {
    /// What this palette says about a token, before any name is followed.
    pub fn stated(self, token: &Token) -> (r: &'static str)
        ensures
            r@ == stated_value(self, token_view(*token)),
    {
        match self {
            Palette::Dark => token.dark,
            Palette::Light => match token.light {
                Some(l) => l,
                None => token.dark,
            },
        }
    }

    /// The value of a token in this palette, with any `var()` followed until
    /// it lands on something literal.
    pub fn value(self, name: &str) -> (r: Option<&'static str>)
        ensures
            opt_str_view(r) == value_spec(self, name@),
    {
        let mut at = match token(name) {
            Some(t) => t,
            None => {
                return None;
            },
        };
        let mut hops: usize = 0;
        while hops < MAX_HOPS
            invariant
                hops <= MAX_HOPS,
                value_spec(self, name@) == resolve_from(
                    self,
                    token_view(at),
                    (MAX_HOPS - hops) as nat,
                ),
            decreases MAX_HOPS - hops,
        {
            let value = self.stated(&at);
            let inner = match var_name(value) {
                None => {
                    return Some(value);
                },
                Some(inner) => inner,
            };
            let trimmed = string_of(&trim_chars(&chars_of(inner.as_str())));
            at = match token(trimmed.as_str()) {
                Some(t) => t,
                None => {
                    return None;
                },
            };
            hops += 1;
        }
        None
    }

    /// The literal colour a token stands for, or nothing if that name is not
    /// a colour in this palette.
    pub fn colour(self, name: &str) -> (r: Option<&'static str>)
        ensures
            opt_str_view(r) == colour_spec(self, name@),
    {
        match token(name) {
            Some(found) if found.kind == TokenKind::Colour => self.value(name),
            _ => None,
        }
    }

    /// The literal colour for a token, for an attribute that cannot take a
    /// `var()`. A name that is not a colour paints `currentColor`, which
    /// inherits, so a mistake shows as a shape in the wrong colour rather than
    /// a black one.
    pub fn paint(self, name: &str) -> (r: &'static str)
        ensures
            r@ == paint_spec(self, name@),
    {
        match self.colour(name) {
            Some(c) => c,
            None => "currentColor",
        }
    }

    /// The font stack for text drawn inside an SVG, which does not inherit
    /// one from the page around it on every renderer.
    pub fn font(self) -> (r: &'static str)
        ensures
            r@ == (match value_spec(self, "--font"@) {
                Some(v) => v,
                None => "sans-serif"@,
            }),
    {
        match self.value("--font") {
            Some(v) => v,
            None => "sans-serif",
        }
    }

    /// The same as [`Palette::paint`], for a value that may or may not be
    /// naming a token. A literal colour is handed straight back.
    pub fn literal<'a>(self, value: &'a str) -> (r: &'a str)
        ensures
            r@ == literal_spec(self, value@),
    {
        match var_name(value) {
            Some(name) => {
                let trimmed = string_of(&trim_chars(&chars_of(name.as_str())));
                self.paint(trimmed.as_str())
            },
            None => value,
        }
    }
}

/// The declaration a token contributes to one palette's `:root` block: light
/// states only the tokens it restates.
pub open spec fn declaration(p: Palette, t: TokenSpec) -> Seq<char> {
    let value = match p {
        Palette::Dark => Some(t.1),
        Palette::Light => t.2,
    };
    match value {
        Some(v) => "  "@ + t.0 + ": "@ + v + ";\n"@,
        None => Seq::empty(),
    }
}

pub open spec fn declarations(p: Palette, tokens: Seq<TokenSpec>) -> Seq<char>
    decreases tokens.len(),
{
    if tokens.len() == 0 {
        Seq::empty()
    } else {
        declarations(p, tokens.drop_last()) + declaration(p, tokens.last())
    }
}

pub open spec fn root_block_text(p: Palette) -> Seq<char> {
    ":root {\n"@ + declarations(p, palette_spec()) + "}\n"@
}

/// The `:root` block for one palette. Light emits only the tokens it actually
/// restates: the overlay wins by coming after the sheet, so a token it leaves
/// out keeps the value the sheet already gave it.
pub fn root_block(palette: Palette) -> (css: String)
    ensures
        css@ == root_block_text(palette),
{
    let table = palette_table();
    let mut css = String::from_str(":root {\n");
    let ghost all = tokens_view(table@);
    let mut i: usize = 0;
    while i < table.len()
        invariant
            i <= table.len(),
            all == tokens_view(table@),
            all == palette_spec(),
            css@ == ":root {\n"@ + declarations(palette, all.take(i as int)),
        decreases table.len() - i,
    {
        let token = table[i];
        let value = match palette {
            Palette::Dark => Some(token.dark),
            Palette::Light => token.light,
        };
        let ghost before = css@;
        if let Some(value) = value {
            css.append("  ");
            css.append(token.name);
            css.append(": ");
            css.append(value);
            css.append(";\n");
        }
        i += 1;
        proof {
            assert(all.take(i as int).drop_last() =~= all.take(i - 1));
            assert(all.take(i as int).last() == token_view(token));
            assert(css@ =~= ":root {\n"@ + declarations(palette, all.take(i as int)));
        }
    }
    proof {
        assert(all.take(table.len() as int) =~= all);
    }
    css.append("}\n");
    css
}

/// The light palette's overlay: only the tokens it restates.
pub fn light_rules() -> (css: String)
    ensures
        css@ == root_block_text(Palette::Light),
{
    root_block(Palette::Light)
}

/// Which palette to paint.
#[derive(Debug, Clone, Copy, PartialEq, Eq, Structural)]
pub enum ThemeChoice {
    /// Follow whatever the desktop asks for, and change with it.
    System,
    Light,
    Dark,
}

impl Default for ThemeChoice {
    /// Following the desktop is the default.
    fn default() -> (r: Self)
        ensures
            r == ThemeChoice::System,
    {
        ThemeChoice::System
    }
}

pub open spec fn theme_label(c: ThemeChoice) -> Seq<char> {
    match c {
        ThemeChoice::System => "System"@,
        ThemeChoice::Light => "Light"@,
        ThemeChoice::Dark => "Dark"@,
    }
}

pub open spec fn overlay_text(c: ThemeChoice) -> Seq<char> {
    match c {
        ThemeChoice::Dark => Seq::empty(),
        ThemeChoice::Light => root_block_text(Palette::Light),
        ThemeChoice::System => "@media (prefers-color-scheme: light) {\n"@ + root_block_text(
            Palette::Light,
        ) + "\n}"@,
    }
}

impl ThemeChoice {
    pub const ORDER: [ThemeChoice; 3] = [ThemeChoice::System, ThemeChoice::Light, ThemeChoice::Dark];

    pub fn label(self) -> (r: &'static str)
        ensures
            r@ == theme_label(self),
    {
        match self {
            ThemeChoice::System => "System",
            ThemeChoice::Light => "Light",
            ThemeChoice::Dark => "Dark",
        }
    }

    /// The choice a label names, or following the desktop when it names none.
    pub fn from_label(label: &str) -> (r: Self)
        ensures
            r == (if label@ == theme_label(ThemeChoice::System) {
                ThemeChoice::System
            } else if label@ == theme_label(ThemeChoice::Light) {
                ThemeChoice::Light
            } else if label@ == theme_label(ThemeChoice::Dark) {
                ThemeChoice::Dark
            } else {
                ThemeChoice::System
            }),
    {
        if same_text(ThemeChoice::System.label(), label) {
            ThemeChoice::System
        } else if same_text(ThemeChoice::Light.label(), label) {
            ThemeChoice::Light
        } else if same_text(ThemeChoice::Dark.label(), label) {
            ThemeChoice::Dark
        } else {
            ThemeChoice::System
        }
    }

    /// The stylesheet to emit after the main one. Following the desktop is a
    /// media query, which keeps up on its own when the desktop switches.
    pub fn overlay(self) -> (css: String)
        ensures
            css@ == overlay_text(self),
    {
        match self {
            ThemeChoice::Dark => String::new(),
            ThemeChoice::Light => light_rules(),
            ThemeChoice::System => {
                let mut css = String::from_str("@media (prefers-color-scheme: light) {\n");
                let rules = light_rules();
                css.append(rules.as_str());
                css.append("\n}");
                css
            },
        }
    }

    /// Which palette to read a literal colour out of. Following the desktop
    /// reads as dark: that is what the sheet's own `:root` paints whenever the
    /// media query is not met, and nothing in this process is told what the
    /// desktop asked for.
    pub fn palette(self) -> (p: Palette)
        ensures
            p == (if self == ThemeChoice::Light {
                Palette::Light
            } else {
                Palette::Dark
            }),
    {
        match self {
            ThemeChoice::Light => Palette::Light,
            ThemeChoice::Dark | ThemeChoice::System => Palette::Dark,
        }
    }
}

/// Every choice survives a round trip through its label.
pub proof fn a_choice_survives_its_label(c: ThemeChoice)
    ensures
        (if theme_label(c) == theme_label(ThemeChoice::System) {
            ThemeChoice::System
        } else if theme_label(c) == theme_label(ThemeChoice::Light) {
            ThemeChoice::Light
        } else if theme_label(c) == theme_label(ThemeChoice::Dark) {
            ThemeChoice::Dark
        } else {
            ThemeChoice::System
        }) == c,
{
    reveal_strlit("System");
    reveal_strlit("Light");
    reveal_strlit("Dark");
    assert("System"@ != "Light"@) by {
        assert("System"@.len() != "Light"@.len());
    }
    assert("System"@ != "Dark"@) by {
        assert("System"@.len() != "Dark"@.len());
    }
    assert("Light"@ != "Dark"@) by {
        assert("Light"@.len() != "Dark"@.len());
    }
}


/// A value that is a colour written out rather than the name of another
/// token.
pub open spec fn is_literal(v: Seq<char>) -> bool {
    var_inner(v) is None
}

proof fn lemma_not_a_name(v: Seq<char>)
    requires
        v.len() > 0,
        v[0] != 'v',
    ensures
        is_literal(v),
{
    reveal_strlit("var(");
    if v.len() >= 4 {
        assert(v.subrange(0, 4)[0] != "var("@[0]);
    }
}

/// Every colour but `--focus` is stated as a colour in both palettes.
#[verifier::rlimit(100)]
proof fn lemma_stated_literally(p: Palette, k: int)
    requires
        0 <= k < 40,
        k != 21,
    ensures
        palette_spec()[k].3 == TokenKind::Colour,
        is_literal(stated_value(p, palette_spec()[k])),
{
    if k == 0 {
        reveal_strlit("#0d0f10");
        lemma_not_a_name("#0d0f10"@);
        reveal_strlit("#eaefef");
        lemma_not_a_name("#eaefef"@);
    } else if k == 1 {
        reveal_strlit("#131718");
        lemma_not_a_name("#131718"@);
        reveal_strlit("#ffffff");
        lemma_not_a_name("#ffffff"@);
    } else if k == 2 {
        reveal_strlit("#0d1a1a");
        lemma_not_a_name("#0d1a1a"@);
        reveal_strlit("#f2f7f7");
        lemma_not_a_name("#f2f7f7"@);
    } else if k == 3 {
        reveal_strlit("#171d1e");
        lemma_not_a_name("#171d1e"@);
        reveal_strlit("#f7fafa");
        lemma_not_a_name("#f7fafa"@);
    } else if k == 4 {
        reveal_strlit("#1b2223");
        lemma_not_a_name("#1b2223"@);
        reveal_strlit("#ffffff");
        lemma_not_a_name("#ffffff"@);
    } else if k == 5 {
        reveal_strlit("#81b5b5");
        lemma_not_a_name("#81b5b5"@);
        reveal_strlit("#2f5f5e");
        lemma_not_a_name("#2f5f5e"@);
    } else if k == 6 {
        reveal_strlit("#a5d3d3");
        lemma_not_a_name("#a5d3d3"@);
        reveal_strlit("#1e4746");
        lemma_not_a_name("#1e4746"@);
    } else if k == 7 {
        reveal_strlit("#0b1414");
        lemma_not_a_name("#0b1414"@);
        reveal_strlit("#f4f8f8");
        lemma_not_a_name("#f4f8f8"@);
    } else if k == 8 {
        reveal_strlit("#f2f7f7");
        lemma_not_a_name("#f2f7f7"@);
    } else if k == 9 {
        reveal_strlit("rgba(129, 181, 181, 0.14)");
        lemma_not_a_name("rgba(129, 181, 181, 0.14)"@);
        reveal_strlit("rgba(47, 95, 94, 0.10)");
        lemma_not_a_name("rgba(47, 95, 94, 0.10)"@);
    } else if k == 10 {
        reveal_strlit("rgba(129, 181, 181, 0.42)");
        lemma_not_a_name("rgba(129, 181, 181, 0.42)"@);
        reveal_strlit("rgba(47, 95, 94, 0.38)");
        lemma_not_a_name("rgba(47, 95, 94, 0.38)"@);
    } else if k == 11 {
        reveal_strlit("#8aa2c4");
        lemma_not_a_name("#8aa2c4"@);
        reveal_strlit("#45699b");
        lemma_not_a_name("#45699b"@);
    } else if k == 12 {
        reveal_strlit("#27302f");
        lemma_not_a_name("#27302f"@);
        reveal_strlit("#d2dedd");
        lemma_not_a_name("#d2dedd"@);
    } else if k == 13 {
        reveal_strlit("#1d2425");
        lemma_not_a_name("#1d2425"@);
        reveal_strlit("#e6eded");
        lemma_not_a_name("#e6eded"@);
    } else if k == 14 {
        reveal_strlit("#d8e7e8");
        lemma_not_a_name("#d8e7e8"@);
        reveal_strlit("#10201f");
        lemma_not_a_name("#10201f"@);
    } else if k == 15 {
        reveal_strlit("#8fafaf");
        lemma_not_a_name("#8fafaf"@);
        reveal_strlit("#4a6362");
        lemma_not_a_name("#4a6362"@);
    } else if k == 16 {
        reveal_strlit("#5f7676");
        lemma_not_a_name("#5f7676"@);
        reveal_strlit("#7b9291");
        lemma_not_a_name("#7b9291"@);
    } else if k == 17 {
        reveal_strlit("rgba(216, 231, 232, 0.065)");
        lemma_not_a_name("rgba(216, 231, 232, 0.065)"@);
        reveal_strlit("rgba(16, 32, 31, 0.055)");
        lemma_not_a_name("rgba(16, 32, 31, 0.055)"@);
    } else if k == 18 {
        reveal_strlit("rgba(216, 231, 232, 0.12)");
        lemma_not_a_name("rgba(216, 231, 232, 0.12)"@);
        reveal_strlit("rgba(16, 32, 31, 0.10)");
        lemma_not_a_name("rgba(16, 32, 31, 0.10)"@);
    } else if k == 19 {
        reveal_strlit("rgba(129, 181, 181, 0.17)");
        lemma_not_a_name("rgba(129, 181, 181, 0.17)"@);
        reveal_strlit("rgba(47, 95, 94, 0.13)");
        lemma_not_a_name("rgba(47, 95, 94, 0.13)"@);
    } else if k == 20 {
        reveal_strlit("rgba(129, 181, 181, 0.55)");
        lemma_not_a_name("rgba(129, 181, 181, 0.55)"@);
        reveal_strlit("rgba(47, 95, 94, 0.5)");
        lemma_not_a_name("rgba(47, 95, 94, 0.5)"@);
    } else if k == 22 {
        reveal_strlit("#27302f");
        lemma_not_a_name("#27302f"@);
        reveal_strlit("#d2dedd");
        lemma_not_a_name("#d2dedd"@);
    } else if k == 23 {
        reveal_strlit("#171d1e");
        lemma_not_a_name("#171d1e"@);
        reveal_strlit("#f2f7f7");
        lemma_not_a_name("#f2f7f7"@);
    } else if k == 24 {
        reveal_strlit("rgba(216, 231, 232, 0.032)");
        lemma_not_a_name("rgba(216, 231, 232, 0.032)"@);
        reveal_strlit("rgba(16, 32, 31, 0.038)");
        lemma_not_a_name("rgba(16, 32, 31, 0.038)"@);
    } else if k == 25 {
        reveal_strlit("#3f7d7d");
        lemma_not_a_name("#3f7d7d"@);
        reveal_strlit("#4b8b8b");
        lemma_not_a_name("#4b8b8b"@);
    } else if k == 26 {
        reveal_strlit("#6aadad");
        lemma_not_a_name("#6aadad"@);
        reveal_strlit("#2f5f5e");
        lemma_not_a_name("#2f5f5e"@);
    } else if k == 27 {
        reveal_strlit("#a5d3d3");
        lemma_not_a_name("#a5d3d3"@);
        reveal_strlit("#1e4746");
        lemma_not_a_name("#1e4746"@);
    } else if k == 28 {
        reveal_strlit("#9d474d");
        lemma_not_a_name("#9d474d"@);
        reveal_strlit("#b3565c");
        lemma_not_a_name("#b3565c"@);
    } else if k == 29 {
        reveal_strlit("#d9636a");
        lemma_not_a_name("#d9636a"@);
        reveal_strlit("#8b393f");
        lemma_not_a_name("#8b393f"@);
    } else if k == 30 {
        reveal_strlit("#e79aa0");
        lemma_not_a_name("#e79aa0"@);
        reveal_strlit("#7a2f34");
        lemma_not_a_name("#7a2f34"@);
    } else if k == 31 {
        reveal_strlit("#cfe3e3");
        lemma_not_a_name("#cfe3e3"@);
        reveal_strlit("#20403f");
        lemma_not_a_name("#20403f"@);
    } else if k == 32 {
        reveal_strlit("#414c4c");
        lemma_not_a_name("#414c4c"@);
        reveal_strlit("#b9c6c6");
        lemma_not_a_name("#b9c6c6"@);
    } else if k == 33 {
        reveal_strlit("#6b7f7f");
        lemma_not_a_name("#6b7f7f"@);
        reveal_strlit("#8aa3a2");
        lemma_not_a_name("#8aa3a2"@);
    } else if k == 34 {
        reveal_strlit("#4d6060");
        lemma_not_a_name("#4d6060"@);
        reveal_strlit("#a9bdbc");
        lemma_not_a_name("#a9bdbc"@);
    } else if k == 35 {
        reveal_strlit("#d9636a");
        lemma_not_a_name("#d9636a"@);
        reveal_strlit("#b3565c");
        lemma_not_a_name("#b3565c"@);
    } else if k == 36 {
        reveal_strlit("#7e9a9a");
        lemma_not_a_name("#7e9a9a"@);
        reveal_strlit("#6d8786");
        lemma_not_a_name("#6d8786"@);
    } else if k == 37 {
        reveal_strlit("#d9636a");
        lemma_not_a_name("#d9636a"@);
        reveal_strlit("#ac5157");
        lemma_not_a_name("#ac5157"@);
    } else if k == 38 {
        reveal_strlit("rgba(217, 99, 106, 0.12)");
        lemma_not_a_name("rgba(217, 99, 106, 0.12)"@);
        reveal_strlit("rgba(172, 81, 87, 0.10)");
        lemma_not_a_name("rgba(172, 81, 87, 0.10)"@);
    } else if k == 39 {
        reveal_strlit("#d9b06a");
        lemma_not_a_name("#d9b06a"@);
        reveal_strlit("#9d6f16");
        lemma_not_a_name("#9d6f16"@);
    }
}

/// The first token with a name is the one a lookup finds.
proof fn lemma_lookup_first(tokens: Seq<TokenSpec>, name: Seq<char>, i: int) -> (k: int)
    requires
        0 <= i < tokens.len(),
        tokens[i].0 == name,
    ensures
        0 <= k <= i,
        tokens[k].0 == name,
        lookup_from(tokens, name) == Some(tokens[k]),
    decreases i,
{
    if tokens[0].0 == name {
        0
    } else {
        let k = lemma_lookup_first(tokens.skip(1), name, i - 1);
        k + 1
    }
}

/// Every colour in the palette resolves, in either palette, to something a
/// paint attribute can use: a colour written out, never the name of another
/// token.
#[verifier::rlimit(100)]
pub proof fn every_colour_resolves(p: Palette, i: int)
    requires
        0 <= i < palette_spec().len(),
        palette_spec()[i].3 == TokenKind::Colour,
    ensures
        colour_spec(p, palette_spec()[i].0) matches Some(v) && is_literal(v),
{
    let t = palette_spec();
    assert(t[40].3 == TokenKind::NotAColour);
    assert(t[41].3 == TokenKind::NotAColour);
    assert(t[42].3 == TokenKind::NotAColour);
    let k = lemma_lookup_first(t, t[i].0, i);
    if k == 21 {
        reveal_strlit("var(--accent)");
        reveal_strlit("var(");
        reveal_strlit("--accent");
        reveal_strlit("#81b5b5");
        reveal_strlit("#2f5f5e");
        reveal_strlit("--bg");
        reveal_strlit("--surface");
        reveal_strlit("--surface-2");
        reveal_strlit("--surface-3");
        reveal_strlit("--surface-4");
        let v = stated_value(p, t[21]);
        assert(v == "var(--accent)"@);
        assert(v.subrange(0, 4) =~= "var("@);
        let inner = v.subrange(4, v.len() - 1);
        assert(inner =~= "--accent"@);
        assert(trim_start(inner) == inner);
        assert(trim_end(inner) == inner);
        let a = lemma_lookup_first(t, "--accent"@, 5);
        assert(a == 5) by {
            if a < 5 {
                assert(t[a].0.len() != 8);
            }
        }
        lemma_not_a_name("#81b5b5"@);
        lemma_not_a_name("#2f5f5e"@);
        assert(resolve_from(p, t[5], 3) == Some(stated_value(p, t[5])));
    } else {
        lemma_stated_literally(p, k);
    }
}

} // verus!
