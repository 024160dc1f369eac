//! Style keywords of Adaptive Cards: colors, spacing, weights, sizes and
//! alignment options.
//!
//! Each style is written as a keyword (`Attention`, `extraLarge`, ...) and read
//! back without regard to the case of ASCII letters.

use crate::text::{
    chars_eq_ignore_ascii_case, chars_of, eq_ignore_ascii_case, fold, fold_char,
    lemma_eq_ignore_ascii_case_pointwise,
};
use vstd::prelude::*;

verus! {

/// The text named no variant of the style being read.
#[derive(Clone, Copy, Debug, PartialEq, Eq)]
pub enum ParseError {
    /// No variant has this keyword, even ignoring the case of ASCII letters.
    VariantNotFound,
}

/// A style that is written as a keyword and read back from one.
pub trait StyleKeyword: Sized {
    /// The keyword that names `self`.
    spec fn spec_keyword(&self) -> Seq<char>;

    /// The variant whose keyword equals `text` ignoring the case of ASCII
    /// letters, if there is one.
    spec fn spec_parse(text: Seq<char>) -> Option<Self>;

    /// The keyword that names `self`.
    fn as_str(&self) -> (s: &'static str)
        ensures
            s@ == self.spec_keyword(),
    ;

    /// Reads a variant from its keyword; the case of ASCII letters is ignored.
    fn parse(text: &str) -> (r: Result<Self, ParseError>)
        ensures
            match r {
                Ok(v) => Self::spec_parse(text@) == Some(v),
                Err(e) => Self::spec_parse(text@) is None && e == ParseError::VariantNotFound,
            },
    ;

    /// Writing a variant as its keyword and reading the keyword back gives the
    /// same variant.
    proof fn lemma_keyword_round_trip(v: Self)
        ensures
            Self::spec_parse(v.spec_keyword()) == Some(v),
    ;

    /// Texts that differ only in the case of ASCII letters read as the same
    /// variant, or both as none.
    proof fn lemma_parse_ignores_case(a: Seq<char>, b: Seq<char>)
        requires
            eq_ignore_ascii_case(a, b),
        ensures
            Self::spec_parse(a) == Self::spec_parse(b),
    ;

    /// A text that reads as a variant is that variant's keyword up to the case
    /// of ASCII letters.
    proof fn lemma_parse_is_keyword(text: Seq<char>)
        ensures
            Self::spec_parse(text) matches Some(v) ==> eq_ignore_ascii_case(text, v.spec_keyword()),
    ;
}

/// A text of the same length as a variant's keyword, equal to it at every
/// position once ASCII letters are lowercased (`extraLarge`, `EXTRALARGE`,
/// ...), reads as that variant.
pub proof fn lemma_keyword_read_ignoring_case<S: StyleKeyword>(v: S, text: Seq<char>)
    requires
        text.len() == v.spec_keyword().len(),
        forall|i: int| 0 <= i < text.len() ==> #[trigger] fold_char(text[i]) == fold_char(v.spec_keyword()[i]),
    ensures
        S::spec_parse(text) == Some(v),
{
    lemma_eq_ignore_ascii_case_pointwise(text, v.spec_keyword());
    S::lemma_parse_ignores_case(text, v.spec_keyword());
    S::lemma_keyword_round_trip(v);
}

/// Whether `text` equals `keyword`, ignoring the case of ASCII letters.
fn keyword_matches(text: &Vec<char>, keyword: &str) -> (r: bool)
    ensures
        r == eq_ignore_ascii_case(text@, keyword@),
{
    let k = chars_of(keyword);
    chars_eq_ignore_ascii_case(text, &k)
}

/// Color for text
#[derive(Clone, Debug, PartialEq, Eq)]
pub enum Color {
    Default,
    Dark,
    Light,
    Accent,
    Good,
    Warning,
    Attention,
}

impl StyleKeyword for Color {
    open spec fn spec_keyword(&self) -> Seq<char> {
        match self {
            Color::Default => "Default"@,
            Color::Dark => "Dark"@,
            Color::Light => "Light"@,
            Color::Accent => "Accent"@,
            Color::Good => "Good"@,
            Color::Warning => "Warning"@,
            Color::Attention => "Attention"@,
        }
    }

    open spec fn spec_parse(text: Seq<char>) -> Option<Color> {
        if eq_ignore_ascii_case(text, "Default"@) {
            Some(Color::Default)
        } else if eq_ignore_ascii_case(text, "Dark"@) {
            Some(Color::Dark)
        } else if eq_ignore_ascii_case(text, "Light"@) {
            Some(Color::Light)
        } else if eq_ignore_ascii_case(text, "Accent"@) {
            Some(Color::Accent)
        } else if eq_ignore_ascii_case(text, "Good"@) {
            Some(Color::Good)
        } else if eq_ignore_ascii_case(text, "Warning"@) {
            Some(Color::Warning)
        } else if eq_ignore_ascii_case(text, "Attention"@) {
            Some(Color::Attention)
        } else {
            None
        }
    }

    fn as_str(&self) -> (s: &'static str) {
        match self {
            Color::Default => "Default",
            Color::Dark => "Dark",
            Color::Light => "Light",
            Color::Accent => "Accent",
            Color::Good => "Good",
            Color::Warning => "Warning",
            Color::Attention => "Attention",
        }
    }

    fn parse(text: &str) -> (r: Result<Color, ParseError>) {
        let t = chars_of(text);
        if keyword_matches(&t, "Default") {
            Ok(Color::Default)
        } else if keyword_matches(&t, "Dark") {
            Ok(Color::Dark)
        } else if keyword_matches(&t, "Light") {
            Ok(Color::Light)
        } else if keyword_matches(&t, "Accent") {
            Ok(Color::Accent)
        } else if keyword_matches(&t, "Good") {
            Ok(Color::Good)
        } else if keyword_matches(&t, "Warning") {
            Ok(Color::Warning)
        } else if keyword_matches(&t, "Attention") {
            Ok(Color::Attention)
        } else {
            Err(ParseError::VariantNotFound)
        }
    }

    proof fn lemma_keyword_round_trip(v: Color) {
        reveal_strlit("Default");
        reveal_strlit("Dark");
        reveal_strlit("Light");
        reveal_strlit("Accent");
        reveal_strlit("Good");
        reveal_strlit("Warning");
        reveal_strlit("Attention");
        match v {
            Color::Default => {},
            Color::Dark => {
                assert(fold("Dark"@).len() != fold("Default"@).len());
            },
            Color::Light => {
                assert(fold("Light"@).len() != fold("Default"@).len());
                assert(fold("Light"@).len() != fold("Dark"@).len());
            },
            Color::Accent => {
                assert(fold("Accent"@).len() != fold("Default"@).len());
                assert(fold("Accent"@).len() != fold("Dark"@).len());
                assert(fold("Accent"@).len() != fold("Light"@).len());
            },
            Color::Good => {
                assert(fold("Good"@).len() != fold("Default"@).len());
                assert(fold("Good"@)[0] != fold("Dark"@)[0]);
                assert(fold("Good"@).len() != fold("Light"@).len());
                assert(fold("Good"@).len() != fold("Accent"@).len());
            },
            Color::Warning => {
                assert(fold("Warning"@)[0] != fold("Default"@)[0]);
                assert(fold("Warning"@).len() != fold("Dark"@).len());
                assert(fold("Warning"@).len() != fold("Light"@).len());
                assert(fold("Warning"@).len() != fold("Accent"@).len());
                assert(fold("Warning"@).len() != fold("Good"@).len());
            },
            Color::Attention => {
                assert(fold("Attention"@).len() != fold("Default"@).len());
                assert(fold("Attention"@).len() != fold("Dark"@).len());
                assert(fold("Attention"@).len() != fold("Light"@).len());
                assert(fold("Attention"@).len() != fold("Accent"@).len());
                assert(fold("Attention"@).len() != fold("Good"@).len());
                assert(fold("Attention"@).len() != fold("Warning"@).len());
            },
        }
    }

    proof fn lemma_parse_ignores_case(a: Seq<char>, b: Seq<char>) {
    }

    proof fn lemma_parse_is_keyword(text: Seq<char>) {
    }
}

impl core::str::FromStr for Color {
    type Err = ParseError;

    fn from_str(s: &str) -> (r: Result<Color, ParseError>)
        ensures
            match r {
                Ok(v) => Color::spec_parse(s@) == Some(v),
                Err(e) => Color::spec_parse(s@) is None && e == ParseError::VariantNotFound,
            },
    {
        <Color as StyleKeyword>::parse(s)
    }
}

/// Style hint for Container.
#[derive(Clone, Debug, PartialEq, Eq)]
pub enum ContainerStyle {
    Default,
    Emphasis,
    Good,
    Attention,
    Warning,
    Accent,
}

impl StyleKeyword for ContainerStyle {
    open spec fn spec_keyword(&self) -> Seq<char> {
        match self {
            ContainerStyle::Default => "default"@,
            ContainerStyle::Emphasis => "emphasis"@,
            ContainerStyle::Good => "good"@,
            ContainerStyle::Attention => "attention"@,
            ContainerStyle::Warning => "warning"@,
            ContainerStyle::Accent => "accent"@,
        }
    }

    open spec fn spec_parse(text: Seq<char>) -> Option<ContainerStyle> {
        if eq_ignore_ascii_case(text, "default"@) {
            Some(ContainerStyle::Default)
        } else if eq_ignore_ascii_case(text, "emphasis"@) {
            Some(ContainerStyle::Emphasis)
        } else if eq_ignore_ascii_case(text, "good"@) {
            Some(ContainerStyle::Good)
        } else if eq_ignore_ascii_case(text, "attention"@) {
            Some(ContainerStyle::Attention)
        } else if eq_ignore_ascii_case(text, "warning"@) {
            Some(ContainerStyle::Warning)
        } else if eq_ignore_ascii_case(text, "accent"@) {
            Some(ContainerStyle::Accent)
        } else {
            None
        }
    }

    fn as_str(&self) -> (s: &'static str) {
        match self {
            ContainerStyle::Default => "default",
            ContainerStyle::Emphasis => "emphasis",
            ContainerStyle::Good => "good",
            ContainerStyle::Attention => "attention",
            ContainerStyle::Warning => "warning",
            ContainerStyle::Accent => "accent",
        }
    }

    fn parse(text: &str) -> (r: Result<ContainerStyle, ParseError>) {
        let t = chars_of(text);
        if keyword_matches(&t, "default") {
            Ok(ContainerStyle::Default)
        } else if keyword_matches(&t, "emphasis") {
            Ok(ContainerStyle::Emphasis)
        } else if keyword_matches(&t, "good") {
            Ok(ContainerStyle::Good)
        } else if keyword_matches(&t, "attention") {
            Ok(ContainerStyle::Attention)
        } else if keyword_matches(&t, "warning") {
            Ok(ContainerStyle::Warning)
        } else if keyword_matches(&t, "accent") {
            Ok(ContainerStyle::Accent)
        } else {
            Err(ParseError::VariantNotFound)
        }
    }

    proof fn lemma_keyword_round_trip(v: ContainerStyle) {
        reveal_strlit("default");
        reveal_strlit("emphasis");
        reveal_strlit("good");
        reveal_strlit("attention");
        reveal_strlit("warning");
        reveal_strlit("accent");
        match v {
            ContainerStyle::Default => {},
            ContainerStyle::Emphasis => {
                assert(fold("emphasis"@).len() != fold("default"@).len());
            },
            ContainerStyle::Good => {
                assert(fold("good"@).len() != fold("default"@).len());
                assert(fold("good"@).len() != fold("emphasis"@).len());
            },
            ContainerStyle::Attention => {
                assert(fold("attention"@).len() != fold("default"@).len());
                assert(fold("attention"@).len() != fold("emphasis"@).len());
                assert(fold("attention"@).len() != fold("good"@).len());
            },
            ContainerStyle::Warning => {
                assert(fold("warning"@)[0] != fold("default"@)[0]);
                assert(fold("warning"@).len() != fold("emphasis"@).len());
                assert(fold("warning"@).len() != fold("good"@).len());
                assert(fold("warning"@).len() != fold("attention"@).len());
            },
            ContainerStyle::Accent => {
                assert(fold("accent"@).len() != fold("default"@).len());
                assert(fold("accent"@).len() != fold("emphasis"@).len());
                assert(fold("accent"@).len() != fold("good"@).len());
                assert(fold("accent"@).len() != fold("attention"@).len());
                assert(fold("accent"@).len() != fold("warning"@).len());
            },
        }
    }

    proof fn lemma_parse_ignores_case(a: Seq<char>, b: Seq<char>) {
    }

    proof fn lemma_parse_is_keyword(text: Seq<char>) {
    }
}

impl core::str::FromStr for ContainerStyle {
    type Err = ParseError;

    fn from_str(s: &str) -> (r: Result<ContainerStyle, ParseError>)
        ensures
            match r {
                Ok(v) => ContainerStyle::spec_parse(s@) == Some(v),
                Err(e) => ContainerStyle::spec_parse(s@) is None && e == ParseError::VariantNotFound,
            },
    {
        <ContainerStyle as StyleKeyword>::parse(s)
    }
}

/// Controls the amount of spacing between this element and the preceding element.
#[derive(Clone, Copy, Debug, PartialEq, Eq)]
pub enum Spacing {
    Default,
    NoSpacing,
    Small,
    Medium,
    Large,
    ExtraLarge,
    Padding,
}

impl StyleKeyword for Spacing {
    open spec fn spec_keyword(&self) -> Seq<char> {
        match self {
            Spacing::Default => "Default"@,
            Spacing::NoSpacing => "None"@,
            Spacing::Small => "Small"@,
            Spacing::Medium => "Medium"@,
            Spacing::Large => "Large"@,
            Spacing::ExtraLarge => "ExtraLarge"@,
            Spacing::Padding => "Padding"@,
        }
    }

    open spec fn spec_parse(text: Seq<char>) -> Option<Spacing> {
        if eq_ignore_ascii_case(text, "Default"@) {
            Some(Spacing::Default)
        } else if eq_ignore_ascii_case(text, "None"@) {
            Some(Spacing::NoSpacing)
        } else if eq_ignore_ascii_case(text, "Small"@) {
            Some(Spacing::Small)
        } else if eq_ignore_ascii_case(text, "Medium"@) {
            Some(Spacing::Medium)
        } else if eq_ignore_ascii_case(text, "Large"@) {
            Some(Spacing::Large)
        } else if eq_ignore_ascii_case(text, "ExtraLarge"@) {
            Some(Spacing::ExtraLarge)
        } else if eq_ignore_ascii_case(text, "Padding"@) {
            Some(Spacing::Padding)
        } else {
            None
        }
    }

    fn as_str(&self) -> (s: &'static str) {
        match self {
            Spacing::Default => "Default",
            Spacing::NoSpacing => "None",
            Spacing::Small => "Small",
            Spacing::Medium => "Medium",
            Spacing::Large => "Large",
            Spacing::ExtraLarge => "ExtraLarge",
            Spacing::Padding => "Padding",
        }
    }

    fn parse(text: &str) -> (r: Result<Spacing, ParseError>) {
        let t = chars_of(text);
        if keyword_matches(&t, "Default") {
            Ok(Spacing::Default)
        } else if keyword_matches(&t, "None") {
            Ok(Spacing::NoSpacing)
        } else if keyword_matches(&t, "Small") {
            Ok(Spacing::Small)
        } else if keyword_matches(&t, "Medium") {
            Ok(Spacing::Medium)
        } else if keyword_matches(&t, "Large") {
            Ok(Spacing::Large)
        } else if keyword_matches(&t, "ExtraLarge") {
            Ok(Spacing::ExtraLarge)
        } else if keyword_matches(&t, "Padding") {
            Ok(Spacing::Padding)
        } else {
            Err(ParseError::VariantNotFound)
        }
    }

    proof fn lemma_keyword_round_trip(v: Spacing) {
        reveal_strlit("Default");
        reveal_strlit("None");
        reveal_strlit("Small");
        reveal_strlit("Medium");
        reveal_strlit("Large");
        reveal_strlit("ExtraLarge");
        reveal_strlit("Padding");
        match v {
            Spacing::Default => {},
            Spacing::NoSpacing => {
                assert(fold("None"@).len() != fold("Default"@).len());
            },
            Spacing::Small => {
                assert(fold("Small"@).len() != fold("Default"@).len());
                assert(fold("Small"@).len() != fold("None"@).len());
            },
            Spacing::Medium => {
                assert(fold("Medium"@).len() != fold("Default"@).len());
                assert(fold("Medium"@).len() != fold("None"@).len());
                assert(fold("Medium"@).len() != fold("Small"@).len());
            },
            Spacing::Large => {
                assert(fold("Large"@).len() != fold("Default"@).len());
                assert(fold("Large"@).len() != fold("None"@).len());
                assert(fold("Large"@)[0] != fold("Small"@)[0]);
                assert(fold("Large"@).len() != fold("Medium"@).len());
            },
            Spacing::ExtraLarge => {
                assert(fold("ExtraLarge"@).len() != fold("Default"@).len());
                assert(fold("ExtraLarge"@).len() != fold("None"@).len());
                assert(fold("ExtraLarge"@).len() != fold("Small"@).len());
                assert(fold("ExtraLarge"@).len() != fold("Medium"@).len());
                assert(fold("ExtraLarge"@).len() != fold("Large"@).len());
            },
            Spacing::Padding => {
                assert(fold("Padding"@)[0] != fold("Default"@)[0]);
                assert(fold("Padding"@).len() != fold("None"@).len());
                assert(fold("Padding"@).len() != fold("Small"@).len());
                assert(fold("Padding"@).len() != fold("Medium"@).len());
                assert(fold("Padding"@).len() != fold("Large"@).len());
                assert(fold("Padding"@).len() != fold("ExtraLarge"@).len());
            },
        }
    }

    proof fn lemma_parse_ignores_case(a: Seq<char>, b: Seq<char>) {
    }

    proof fn lemma_parse_is_keyword(text: Seq<char>) {
    }
}

impl core::str::FromStr for Spacing {
    type Err = ParseError;

    fn from_str(s: &str) -> (r: Result<Spacing, ParseError>)
        ensures
            match r {
                Ok(v) => Spacing::spec_parse(s@) == Some(v),
                Err(e) => Spacing::spec_parse(s@) is None && e == ParseError::VariantNotFound,
            },
    {
        <Spacing as StyleKeyword>::parse(s)
    }
}

/// Style for Input.ChoiceSet
#[derive(Clone, Debug, PartialEq, Eq)]
pub enum ChoiceInputStyle {
    Compact,
    Expanded,
}

impl StyleKeyword for ChoiceInputStyle {
    open spec fn spec_keyword(&self) -> Seq<char> {
        match self {
            ChoiceInputStyle::Compact => "compact"@,
            ChoiceInputStyle::Expanded => "expanded"@,
        }
    }

    open spec fn spec_parse(text: Seq<char>) -> Option<ChoiceInputStyle> {
        if eq_ignore_ascii_case(text, "compact"@) {
            Some(ChoiceInputStyle::Compact)
        } else if eq_ignore_ascii_case(text, "expanded"@) {
            Some(ChoiceInputStyle::Expanded)
        } else {
            None
        }
    }

    fn as_str(&self) -> (s: &'static str) {
        match self {
            ChoiceInputStyle::Compact => "compact",
            ChoiceInputStyle::Expanded => "expanded",
        }
    }

    fn parse(text: &str) -> (r: Result<ChoiceInputStyle, ParseError>) {
        let t = chars_of(text);
        if keyword_matches(&t, "compact") {
            Ok(ChoiceInputStyle::Compact)
        } else if keyword_matches(&t, "expanded") {
            Ok(ChoiceInputStyle::Expanded)
        } else {
            Err(ParseError::VariantNotFound)
        }
    }

    proof fn lemma_keyword_round_trip(v: ChoiceInputStyle) {
        reveal_strlit("compact");
        reveal_strlit("expanded");
        match v {
            ChoiceInputStyle::Compact => {},
            ChoiceInputStyle::Expanded => {
                assert(fold("expanded"@).len() != fold("compact"@).len());
            },
        }
    }

    proof fn lemma_parse_ignores_case(a: Seq<char>, b: Seq<char>) {
    }

    proof fn lemma_parse_is_keyword(text: Seq<char>) {
    }
}

impl core::str::FromStr for ChoiceInputStyle {
    type Err = ParseError;

    fn from_str(s: &str) -> (r: Result<ChoiceInputStyle, ParseError>)
        ensures
            match r {
                Ok(v) => ChoiceInputStyle::spec_parse(s@) == Some(v),
                Err(e) => ChoiceInputStyle::spec_parse(s@) is None && e == ParseError::VariantNotFound,
            },
    {
        <ChoiceInputStyle as StyleKeyword>::parse(s)
    }
}

/// Vertical content alignment
#[derive(Clone, Copy, Debug, PartialEq, Eq)]
pub enum VerticalContentAlignment {
    Top,
    Center,
    Bottom,
}

impl StyleKeyword for VerticalContentAlignment {
    open spec fn spec_keyword(&self) -> Seq<char> {
        match self {
            VerticalContentAlignment::Top => "Top"@,
            VerticalContentAlignment::Center => "Center"@,
            VerticalContentAlignment::Bottom => "Bottom"@,
        }
    }

    open spec fn spec_parse(text: Seq<char>) -> Option<VerticalContentAlignment> {
        if eq_ignore_ascii_case(text, "Top"@) {
            Some(VerticalContentAlignment::Top)
        } else if eq_ignore_ascii_case(text, "Center"@) {
            Some(VerticalContentAlignment::Center)
        } else if eq_ignore_ascii_case(text, "Bottom"@) {
            Some(VerticalContentAlignment::Bottom)
        } else {
            None
        }
    }

    fn as_str(&self) -> (s: &'static str) {
        match self {
            VerticalContentAlignment::Top => "Top",
            VerticalContentAlignment::Center => "Center",
            VerticalContentAlignment::Bottom => "Bottom",
        }
    }

    fn parse(text: &str) -> (r: Result<VerticalContentAlignment, ParseError>) {
        let t = chars_of(text);
        if keyword_matches(&t, "Top") {
            Ok(VerticalContentAlignment::Top)
        } else if keyword_matches(&t, "Center") {
            Ok(VerticalContentAlignment::Center)
        } else if keyword_matches(&t, "Bottom") {
            Ok(VerticalContentAlignment::Bottom)
        } else {
            Err(ParseError::VariantNotFound)
        }
    }

    proof fn lemma_keyword_round_trip(v: VerticalContentAlignment) {
        reveal_strlit("Top");
        reveal_strlit("Center");
        reveal_strlit("Bottom");
        match v {
            VerticalContentAlignment::Top => {},
            VerticalContentAlignment::Center => {
                assert(fold("Center"@).len() != fold("Top"@).len());
            },
            VerticalContentAlignment::Bottom => {
                assert(fold("Bottom"@).len() != fold("Top"@).len());
                assert(fold("Bottom"@)[0] != fold("Center"@)[0]);
            },
        }
    }

    proof fn lemma_parse_ignores_case(a: Seq<char>, b: Seq<char>) {
    }

    proof fn lemma_parse_is_keyword(text: Seq<char>) {
    }
}

impl core::str::FromStr for VerticalContentAlignment {
    type Err = ParseError;

    fn from_str(s: &str) -> (r: Result<VerticalContentAlignment, ParseError>)
        ensures
            match r {
                Ok(v) => VerticalContentAlignment::spec_parse(s@) == Some(v),
                Err(e) => VerticalContentAlignment::spec_parse(s@) is None && e == ParseError::VariantNotFound,
            },
    {
        <VerticalContentAlignment as StyleKeyword>::parse(s)
    }
}

/// Text input style
#[derive(Clone, Debug, PartialEq, Eq)]
pub enum TextInputStyle {
    Text,
    Tel,
    Url,
    Email,
}

impl StyleKeyword for TextInputStyle {
    open spec fn spec_keyword(&self) -> Seq<char> {
        match self {
            TextInputStyle::Text => "text"@,
            TextInputStyle::Tel => "tel"@,
            TextInputStyle::Url => "url"@,
            TextInputStyle::Email => "email"@,
        }
    }

    open spec fn spec_parse(text: Seq<char>) -> Option<TextInputStyle> {
        if eq_ignore_ascii_case(text, "text"@) {
            Some(TextInputStyle::Text)
        } else if eq_ignore_ascii_case(text, "tel"@) {
            Some(TextInputStyle::Tel)
        } else if eq_ignore_ascii_case(text, "url"@) {
            Some(TextInputStyle::Url)
        } else if eq_ignore_ascii_case(text, "email"@) {
            Some(TextInputStyle::Email)
        } else {
            None
        }
    }

    fn as_str(&self) -> (s: &'static str) {
        match self {
            TextInputStyle::Text => "text",
            TextInputStyle::Tel => "tel",
            TextInputStyle::Url => "url",
            TextInputStyle::Email => "email",
        }
    }

    fn parse(text: &str) -> (r: Result<TextInputStyle, ParseError>) {
        let t = chars_of(text);
        if keyword_matches(&t, "text") {
            Ok(TextInputStyle::Text)
        } else if keyword_matches(&t, "tel") {
            Ok(TextInputStyle::Tel)
        } else if keyword_matches(&t, "url") {
            Ok(TextInputStyle::Url)
        } else if keyword_matches(&t, "email") {
            Ok(TextInputStyle::Email)
        } else {
            Err(ParseError::VariantNotFound)
        }
    }

    proof fn lemma_keyword_round_trip(v: TextInputStyle) {
        reveal_strlit("text");
        reveal_strlit("tel");
        reveal_strlit("url");
        reveal_strlit("email");
        match v {
            TextInputStyle::Text => {},
            TextInputStyle::Tel => {
                assert(fold("tel"@).len() != fold("text"@).len());
            },
            TextInputStyle::Url => {
                assert(fold("url"@).len() != fold("text"@).len());
                assert(fold("url"@)[0] != fold("tel"@)[0]);
            },
            TextInputStyle::Email => {
                assert(fold("email"@).len() != fold("text"@).len());
                assert(fold("email"@).len() != fold("tel"@).len());
                assert(fold("email"@).len() != fold("url"@).len());
            },
        }
    }

    proof fn lemma_parse_ignores_case(a: Seq<char>, b: Seq<char>) {
    }

    proof fn lemma_parse_is_keyword(text: Seq<char>) {
    }
}

impl core::str::FromStr for TextInputStyle {
    type Err = ParseError;

    fn from_str(s: &str) -> (r: Result<TextInputStyle, ParseError>)
        ensures
            match r {
                Ok(v) => TextInputStyle::spec_parse(s@) == Some(v),
                Err(e) => TextInputStyle::spec_parse(s@) is None && e == ParseError::VariantNotFound,
            },
    {
        <TextInputStyle as StyleKeyword>::parse(s)
    }
}

/// Height of element
#[derive(Clone, Debug, PartialEq, Eq)]
pub enum Height {
    Auto,
    Stretch,
}

impl StyleKeyword for Height {
    open spec fn spec_keyword(&self) -> Seq<char> {
        match self {
            Height::Auto => "auto"@,
            Height::Stretch => "stretch"@,
        }
    }

    open spec fn spec_parse(text: Seq<char>) -> Option<Height> {
        if eq_ignore_ascii_case(text, "auto"@) {
            Some(Height::Auto)
        } else if eq_ignore_ascii_case(text, "stretch"@) {
            Some(Height::Stretch)
        } else {
            None
        }
    }

    fn as_str(&self) -> (s: &'static str) {
        match self {
            Height::Auto => "auto",
            Height::Stretch => "stretch",
        }
    }

    fn parse(text: &str) -> (r: Result<Height, ParseError>) {
        let t = chars_of(text);
        if keyword_matches(&t, "auto") {
            Ok(Height::Auto)
        } else if keyword_matches(&t, "stretch") {
            Ok(Height::Stretch)
        } else {
            Err(ParseError::VariantNotFound)
        }
    }

    proof fn lemma_keyword_round_trip(v: Height) {
        reveal_strlit("auto");
        reveal_strlit("stretch");
        match v {
            Height::Auto => {},
            Height::Stretch => {
                assert(fold("stretch"@).len() != fold("auto"@).len());
            },
        }
    }

    proof fn lemma_parse_ignores_case(a: Seq<char>, b: Seq<char>) {
    }

    proof fn lemma_parse_is_keyword(text: Seq<char>) {
    }
}

impl core::str::FromStr for Height {
    type Err = ParseError;

    fn from_str(s: &str) -> (r: Result<Height, ParseError>)
        ensures
            match r {
                Ok(v) => Height::spec_parse(s@) == Some(v),
                Err(e) => Height::spec_parse(s@) is None && e == ParseError::VariantNotFound,
            },
    {
        <Height as StyleKeyword>::parse(s)
    }
}

/// Style hint for Image.
#[derive(Clone, Debug, PartialEq, Eq)]
pub enum ImageStyle {
    Default,
    Person,
}

impl StyleKeyword for ImageStyle {
    open spec fn spec_keyword(&self) -> Seq<char> {
        match self {
            ImageStyle::Default => "default"@,
            ImageStyle::Person => "person"@,
        }
    }

    open spec fn spec_parse(text: Seq<char>) -> Option<ImageStyle> {
        if eq_ignore_ascii_case(text, "default"@) {
            Some(ImageStyle::Default)
        } else if eq_ignore_ascii_case(text, "person"@) {
            Some(ImageStyle::Person)
        } else {
            None
        }
    }

    fn as_str(&self) -> (s: &'static str) {
        match self {
            ImageStyle::Default => "default",
            ImageStyle::Person => "person",
        }
    }

    fn parse(text: &str) -> (r: Result<ImageStyle, ParseError>) {
        let t = chars_of(text);
        if keyword_matches(&t, "default") {
            Ok(ImageStyle::Default)
        } else if keyword_matches(&t, "person") {
            Ok(ImageStyle::Person)
        } else {
            Err(ParseError::VariantNotFound)
        }
    }

    proof fn lemma_keyword_round_trip(v: ImageStyle) {
        reveal_strlit("default");
        reveal_strlit("person");
        match v {
            ImageStyle::Default => {},
            ImageStyle::Person => {
                assert(fold("person"@).len() != fold("default"@).len());
            },
        }
    }

    proof fn lemma_parse_ignores_case(a: Seq<char>, b: Seq<char>) {
    }

    proof fn lemma_parse_is_keyword(text: Seq<char>) {
    }
}

impl core::str::FromStr for ImageStyle {
    type Err = ParseError;

    fn from_str(s: &str) -> (r: Result<ImageStyle, ParseError>)
        ensures
            match r {
                Ok(v) => ImageStyle::spec_parse(s@) == Some(v),
                Err(e) => ImageStyle::spec_parse(s@) is None && e == ParseError::VariantNotFound,
            },
    {
        <ImageStyle as StyleKeyword>::parse(s)
    }
}

/// Weight of text
#[derive(Clone, Debug, PartialEq, Eq)]
pub enum Weight {
    Default,
    Lighter,
    Bolder,
}

impl StyleKeyword for Weight {
    open spec fn spec_keyword(&self) -> Seq<char> {
        match self {
            Weight::Default => "Default"@,
            Weight::Lighter => "Lighter"@,
            Weight::Bolder => "Bolder"@,
        }
    }

    open spec fn spec_parse(text: Seq<char>) -> Option<Weight> {
        if eq_ignore_ascii_case(text, "Default"@) {
            Some(Weight::Default)
        } else if eq_ignore_ascii_case(text, "Lighter"@) {
            Some(Weight::Lighter)
        } else if eq_ignore_ascii_case(text, "Bolder"@) {
            Some(Weight::Bolder)
        } else {
            None
        }
    }

    fn as_str(&self) -> (s: &'static str) {
        match self {
            Weight::Default => "Default",
            Weight::Lighter => "Lighter",
            Weight::Bolder => "Bolder",
        }
    }

    fn parse(text: &str) -> (r: Result<Weight, ParseError>) {
        let t = chars_of(text);
        if keyword_matches(&t, "Default") {
            Ok(Weight::Default)
        } else if keyword_matches(&t, "Lighter") {
            Ok(Weight::Lighter)
        } else if keyword_matches(&t, "Bolder") {
            Ok(Weight::Bolder)
        } else {
            Err(ParseError::VariantNotFound)
        }
    }

    proof fn lemma_keyword_round_trip(v: Weight) {
        reveal_strlit("Default");
        reveal_strlit("Lighter");
        reveal_strlit("Bolder");
        match v {
            Weight::Default => {},
            Weight::Lighter => {
                assert(fold("Lighter"@)[0] != fold("Default"@)[0]);
            },
            Weight::Bolder => {
                assert(fold("Bolder"@).len() != fold("Default"@).len());
                assert(fold("Bolder"@).len() != fold("Lighter"@).len());
            },
        }
    }

    proof fn lemma_parse_ignores_case(a: Seq<char>, b: Seq<char>) {
    }

    proof fn lemma_parse_is_keyword(text: Seq<char>) {
    }
}

impl core::str::FromStr for Weight {
    type Err = ParseError;

    fn from_str(s: &str) -> (r: Result<Weight, ParseError>)
        ensures
            match r {
                Ok(v) => Weight::spec_parse(s@) == Some(v),
                Err(e) => Weight::spec_parse(s@) is None && e == ParseError::VariantNotFound,
            },
    {
        <Weight as StyleKeyword>::parse(s)
    }
}

/// Font type
#[derive(Clone, Debug, PartialEq, Eq)]
pub enum FontType {
    Default,
    Monospace,
}

impl StyleKeyword for FontType {
    open spec fn spec_keyword(&self) -> Seq<char> {
        match self {
            FontType::Default => "Default"@,
            FontType::Monospace => "Monospace"@,
        }
    }

    open spec fn spec_parse(text: Seq<char>) -> Option<FontType> {
        if eq_ignore_ascii_case(text, "Default"@) {
            Some(FontType::Default)
        } else if eq_ignore_ascii_case(text, "Monospace"@) {
            Some(FontType::Monospace)
        } else {
            None
        }
    }

    fn as_str(&self) -> (s: &'static str) {
        match self {
            FontType::Default => "Default",
            FontType::Monospace => "Monospace",
        }
    }

    fn parse(text: &str) -> (r: Result<FontType, ParseError>) {
        let t = chars_of(text);
        if keyword_matches(&t, "Default") {
            Ok(FontType::Default)
        } else if keyword_matches(&t, "Monospace") {
            Ok(FontType::Monospace)
        } else {
            Err(ParseError::VariantNotFound)
        }
    }

    proof fn lemma_keyword_round_trip(v: FontType) {
        reveal_strlit("Default");
        reveal_strlit("Monospace");
        match v {
            FontType::Default => {},
            FontType::Monospace => {
                assert(fold("Monospace"@).len() != fold("Default"@).len());
            },
        }
    }

    proof fn lemma_parse_ignores_case(a: Seq<char>, b: Seq<char>) {
    }

    proof fn lemma_parse_is_keyword(text: Seq<char>) {
    }
}

impl core::str::FromStr for FontType {
    type Err = ParseError;

    fn from_str(s: &str) -> (r: Result<FontType, ParseError>)
        ensures
            match r {
                Ok(v) => FontType::spec_parse(s@) == Some(v),
                Err(e) => FontType::spec_parse(s@) is None && e == ParseError::VariantNotFound,
            },
    {
        <FontType as StyleKeyword>::parse(s)
    }
}

/// Size of text
#[derive(Clone, Debug, PartialEq, Eq)]
pub enum Size {
    Default,
    Small,
    Medium,
    Large,
    ExtraLarge,
}

impl StyleKeyword for Size {
    open spec fn spec_keyword(&self) -> Seq<char> {
        match self {
            Size::Default => "Default"@,
            Size::Small => "Small"@,
            Size::Medium => "Medium"@,
            Size::Large => "Large"@,
            Size::ExtraLarge => "ExtraLarge"@,
        }
    }

    open spec fn spec_parse(text: Seq<char>) -> Option<Size> {
        if eq_ignore_ascii_case(text, "Default"@) {
            Some(Size::Default)
        } else if eq_ignore_ascii_case(text, "Small"@) {
            Some(Size::Small)
        } else if eq_ignore_ascii_case(text, "Medium"@) {
            Some(Size::Medium)
        } else if eq_ignore_ascii_case(text, "Large"@) {
            Some(Size::Large)
        } else if eq_ignore_ascii_case(text, "ExtraLarge"@) {
            Some(Size::ExtraLarge)
        } else {
            None
        }
    }

    fn as_str(&self) -> (s: &'static str) {
        match self {
            Size::Default => "Default",
            Size::Small => "Small",
            Size::Medium => "Medium",
            Size::Large => "Large",
            Size::ExtraLarge => "ExtraLarge",
        }
    }

    fn parse(text: &str) -> (r: Result<Size, ParseError>) {
        let t = chars_of(text);
        if keyword_matches(&t, "Default") {
            Ok(Size::Default)
        } else if keyword_matches(&t, "Small") {
            Ok(Size::Small)
        } else if keyword_matches(&t, "Medium") {
            Ok(Size::Medium)
        } else if keyword_matches(&t, "Large") {
            Ok(Size::Large)
        } else if keyword_matches(&t, "ExtraLarge") {
            Ok(Size::ExtraLarge)
        } else {
            Err(ParseError::VariantNotFound)
        }
    }

    proof fn lemma_keyword_round_trip(v: Size) {
        reveal_strlit("Default");
        reveal_strlit("Small");
        reveal_strlit("Medium");
        reveal_strlit("Large");
        reveal_strlit("ExtraLarge");
        match v {
            Size::Default => {},
            Size::Small => {
                assert(fold("Small"@).len() != fold("Default"@).len());
            },
            Size::Medium => {
                assert(fold("Medium"@).len() != fold("Default"@).len());
                assert(fold("Medium"@).len() != fold("Small"@).len());
            },
            Size::Large => {
                assert(fold("Large"@).len() != fold("Default"@).len());
                assert(fold("Large"@)[0] != fold("Small"@)[0]);
                assert(fold("Large"@).len() != fold("Medium"@).len());
            },
            Size::ExtraLarge => {
                assert(fold("ExtraLarge"@).len() != fold("Default"@).len());
                assert(fold("ExtraLarge"@).len() != fold("Small"@).len());
                assert(fold("ExtraLarge"@).len() != fold("Medium"@).len());
                assert(fold("ExtraLarge"@).len() != fold("Large"@).len());
            },
        }
    }

    proof fn lemma_parse_ignores_case(a: Seq<char>, b: Seq<char>) {
    }

    proof fn lemma_parse_is_keyword(text: Seq<char>) {
    }
}

impl core::str::FromStr for Size {
    type Err = ParseError;

    fn from_str(s: &str) -> (r: Result<Size, ParseError>)
        ensures
            match r {
                Ok(v) => Size::spec_parse(s@) == Some(v),
                Err(e) => Size::spec_parse(s@) is None && e == ParseError::VariantNotFound,
            },
    {
        <Size as StyleKeyword>::parse(s)
    }
}

/// Horizontal alignment
#[derive(Clone, Copy, Debug, PartialEq, Eq)]
pub enum HorizontalAlignment {
    Left,
    Center,
    Right,
}

impl StyleKeyword for HorizontalAlignment {
    open spec fn spec_keyword(&self) -> Seq<char> {
        match self {
            HorizontalAlignment::Left => "Left"@,
            HorizontalAlignment::Center => "Center"@,
            HorizontalAlignment::Right => "Right"@,
        }
    }

    open spec fn spec_parse(text: Seq<char>) -> Option<HorizontalAlignment> {
        if eq_ignore_ascii_case(text, "Left"@) {
            Some(HorizontalAlignment::Left)
        } else if eq_ignore_ascii_case(text, "Center"@) {
            Some(HorizontalAlignment::Center)
        } else if eq_ignore_ascii_case(text, "Right"@) {
            Some(HorizontalAlignment::Right)
        } else {
            None
        }
    }

    fn as_str(&self) -> (s: &'static str) {
        match self {
            HorizontalAlignment::Left => "Left",
            HorizontalAlignment::Center => "Center",
            HorizontalAlignment::Right => "Right",
        }
    }

    fn parse(text: &str) -> (r: Result<HorizontalAlignment, ParseError>) {
        let t = chars_of(text);
        if keyword_matches(&t, "Left") {
            Ok(HorizontalAlignment::Left)
        } else if keyword_matches(&t, "Center") {
            Ok(HorizontalAlignment::Center)
        } else if keyword_matches(&t, "Right") {
            Ok(HorizontalAlignment::Right)
        } else {
            Err(ParseError::VariantNotFound)
        }
    }

    proof fn lemma_keyword_round_trip(v: HorizontalAlignment) {
        reveal_strlit("Left");
        reveal_strlit("Center");
        reveal_strlit("Right");
        match v {
            HorizontalAlignment::Left => {},
            HorizontalAlignment::Center => {
                assert(fold("Center"@).len() != fold("Left"@).len());
            },
            HorizontalAlignment::Right => {
                assert(fold("Right"@).len() != fold("Left"@).len());
                assert(fold("Right"@).len() != fold("Center"@).len());
            },
        }
    }

    proof fn lemma_parse_ignores_case(a: Seq<char>, b: Seq<char>) {
    }

    proof fn lemma_parse_is_keyword(text: Seq<char>) {
    }
}

impl core::str::FromStr for HorizontalAlignment {
    type Err = ParseError;

    fn from_str(s: &str) -> (r: Result<HorizontalAlignment, ParseError>)
        ensures
            match r {
                Ok(v) => HorizontalAlignment::spec_parse(s@) == Some(v),
                Err(e) => HorizontalAlignment::spec_parse(s@) is None && e == ParseError::VariantNotFound,
            },
    {
        <HorizontalAlignment as StyleKeyword>::parse(s)
    }
}

/// Size of image (pixel width)
#[derive(Clone, Debug, PartialEq, Eq)]
pub enum ImageSize {
    Auto,
    Stretch,
    Small,
    Medium,
    Large,
}

impl StyleKeyword for ImageSize {
    open spec fn spec_keyword(&self) -> Seq<char> {
        match self {
            ImageSize::Auto => "Auto"@,
            ImageSize::Stretch => "Stretch"@,
            ImageSize::Small => "Small"@,
            ImageSize::Medium => "Medium"@,
            ImageSize::Large => "Large"@,
        }
    }

    open spec fn spec_parse(text: Seq<char>) -> Option<ImageSize> {
        if eq_ignore_ascii_case(text, "Auto"@) {
            Some(ImageSize::Auto)
        } else if eq_ignore_ascii_case(text, "Stretch"@) {
            Some(ImageSize::Stretch)
        } else if eq_ignore_ascii_case(text, "Small"@) {
            Some(ImageSize::Small)
        } else if eq_ignore_ascii_case(text, "Medium"@) {
            Some(ImageSize::Medium)
        } else if eq_ignore_ascii_case(text, "Large"@) {
            Some(ImageSize::Large)
        } else {
            None
        }
    }

    fn as_str(&self) -> (s: &'static str) {
        match self {
            ImageSize::Auto => "Auto",
            ImageSize::Stretch => "Stretch",
            ImageSize::Small => "Small",
            ImageSize::Medium => "Medium",
            ImageSize::Large => "Large",
        }
    }

    fn parse(text: &str) -> (r: Result<ImageSize, ParseError>) {
        let t = chars_of(text);
        if keyword_matches(&t, "Auto") {
            Ok(ImageSize::Auto)
        } else if keyword_matches(&t, "Stretch") {
            Ok(ImageSize::Stretch)
        } else if keyword_matches(&t, "Small") {
            Ok(ImageSize::Small)
        } else if keyword_matches(&t, "Medium") {
            Ok(ImageSize::Medium)
        } else if keyword_matches(&t, "Large") {
            Ok(ImageSize::Large)
        } else {
            Err(ParseError::VariantNotFound)
        }
    }

    proof fn lemma_keyword_round_trip(v: ImageSize) {
        reveal_strlit("Auto");
        reveal_strlit("Stretch");
        reveal_strlit("Small");
        reveal_strlit("Medium");
        reveal_strlit("Large");
        match v {
            ImageSize::Auto => {},
            ImageSize::Stretch => {
                assert(fold("Stretch"@).len() != fold("Auto"@).len());
            },
            ImageSize::Small => {
                assert(fold("Small"@).len() != fold("Auto"@).len());
                assert(fold("Small"@).len() != fold("Stretch"@).len());
            },
            ImageSize::Medium => {
                assert(fold("Medium"@).len() != fold("Auto"@).len());
                assert(fold("Medium"@).len() != fold("Stretch"@).len());
                assert(fold("Medium"@).len() != fold("Small"@).len());
            },
            ImageSize::Large => {
                assert(fold("Large"@).len() != fold("Auto"@).len());
                assert(fold("Large"@).len() != fold("Stretch"@).len());
                assert(fold("Large"@)[0] != fold("Small"@)[0]);
                assert(fold("Large"@).len() != fold("Medium"@).len());
            },
        }
    }

    proof fn lemma_parse_ignores_case(a: Seq<char>, b: Seq<char>) {
    }

    proof fn lemma_parse_is_keyword(text: Seq<char>) {
    }
}

impl core::str::FromStr for ImageSize {
    type Err = ParseError;

    fn from_str(s: &str) -> (r: Result<ImageSize, ParseError>)
        ensures
            match r {
                Ok(v) => ImageSize::spec_parse(s@) == Some(v),
                Err(e) => ImageSize::spec_parse(s@) is None && e == ParseError::VariantNotFound,
            },
    {
        <ImageSize as StyleKeyword>::parse(s)
    }
}

} // verus!
