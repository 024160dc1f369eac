use webex::adaptive_card::styles::{
    ChoiceInputStyle, Color, ContainerStyle, FontType, Height, HorizontalAlignment, ImageSize,
    ImageStyle, ParseError, Size, Spacing, StyleKeyword, TextInputStyle, VerticalContentAlignment,
    Weight,
};

/// Reads a style the way a JSON document carries it: as a JSON string whose
/// text is then parsed as the keyword.
fn de_result<T: StyleKeyword>(s: &str) -> Result<T, ParseError> {
    let text: String = serde_json::from_str(&format!("\"{s}\"")).unwrap();
    T::parse(&text)
}

fn de<T: StyleKeyword>(s: &str) -> T {
    de_result(s).unwrap()
}

/// Writes a style the way a JSON document carries it, without the quotes.
fn ser<T: StyleKeyword>(v: &T) -> String {
    serde_json::to_string(v.as_str()).unwrap().trim_matches('"').to_owned()
}

// ── Color ────────────────────────────────────────────────────────────────

#[test]
fn color_lowercase_accepted() {
    assert_eq!(de::<Color>("attention"), Color::Attention);
    assert_eq!(de::<Color>("good"), Color::Good);
    assert_eq!(de::<Color>("warning"), Color::Warning);
}

#[test]
fn color_mixed_case_accepted() {
    assert_eq!(de::<Color>("Attention"), Color::Attention);
    assert_eq!(de::<Color>("ATTENTION"), Color::Attention);
}

#[test]
fn color_round_trip() {
    let original = Color::Attention;
    let serialized = ser(&original);
    assert_eq!(serialized, "Attention");
    let deserialized: Color = de(&serialized);
    assert_eq!(deserialized, original);
}

#[test]
fn color_invalid_returns_error() {
    let result = de_result::<Color>("ultraviolet");
    assert!(result.is_err(), "expected error for unknown color variant");
}

// ── Spacing ──────────────────────────────────────────────────────────────

#[test]
fn spacing_lowercase_accepted() {
    assert_eq!(de::<Spacing>("small"), Spacing::Small);
    assert_eq!(de::<Spacing>("large"), Spacing::Large);
    assert_eq!(de::<Spacing>("none"), Spacing::NoSpacing);
}

#[test]
fn spacing_mixed_case_accepted() {
    assert_eq!(de::<Spacing>("SMALL"), Spacing::Small);
    assert_eq!(de::<Spacing>("ExtraLarge"), Spacing::ExtraLarge);
}

#[test]
fn spacing_round_trip() {
    let v = Spacing::ExtraLarge;
    assert_eq!(ser(&v), "ExtraLarge");
    assert_eq!(de::<Spacing>(&ser(&v)), v);
}

// ── Size ─────────────────────────────────────────────────────────────────

#[test]
fn size_lowercase_accepted() {
    assert_eq!(de::<Size>("small"), Size::Small);
    assert_eq!(de::<Size>("large"), Size::Large);
}

#[test]
fn size_uppercase_accepted() {
    assert_eq!(de::<Size>("LARGE"), Size::Large);
}

#[test]
fn size_round_trip() {
    let v = Size::Large;
    assert_eq!(ser(&v), "Large");
    assert_eq!(de::<Size>(&ser(&v)), v);
}

// ── HorizontalAlignment ──────────────────────────────────────────────────

#[test]
fn horizontal_alignment_lowercase_accepted() {
    assert_eq!(de::<HorizontalAlignment>("left"), HorizontalAlignment::Left);
    assert_eq!(de::<HorizontalAlignment>("right"), HorizontalAlignment::Right);
    assert_eq!(de::<HorizontalAlignment>("center"), HorizontalAlignment::Center);
}

#[test]
fn horizontal_alignment_round_trip() {
    let v = HorizontalAlignment::Left;
    assert_eq!(ser(&v), "Left");
    assert_eq!(de::<HorizontalAlignment>(&ser(&v)), v);
}

// ── Keywords of every style ──────────────────────────────────────────────

fn round_trips<T: StyleKeyword + PartialEq + std::fmt::Debug>(all: Vec<T>, keywords: &[&str]) {
    assert_eq!(all.len(), keywords.len());
    for (v, k) in all.iter().zip(keywords) {
        assert_eq!(v.as_str(), *k);
        assert_eq!(&T::parse(k).unwrap(), v);
        assert_eq!(&T::parse(&k.to_ascii_uppercase()).unwrap(), v);
        assert_eq!(&T::parse(&k.to_ascii_lowercase()).unwrap(), v);
    }
}

#[test]
fn every_color_keyword_round_trips() {
    round_trips(
        vec![
            Color::Default,
            Color::Dark,
            Color::Light,
            Color::Accent,
            Color::Good,
            Color::Warning,
            Color::Attention,
        ],
        &["Default", "Dark", "Light", "Accent", "Good", "Warning", "Attention"],
    );
}

#[test]
fn container_style_keywords_are_camel_case() {
    round_trips(
        vec![
            ContainerStyle::Default,
            ContainerStyle::Emphasis,
            ContainerStyle::Good,
            ContainerStyle::Attention,
            ContainerStyle::Warning,
            ContainerStyle::Accent,
        ],
        &["default", "emphasis", "good", "attention", "warning", "accent"],
    );
}

#[test]
fn every_spacing_keyword_round_trips() {
    round_trips(
        vec![
            Spacing::Default,
            Spacing::NoSpacing,
            Spacing::Small,
            Spacing::Medium,
            Spacing::Large,
            Spacing::ExtraLarge,
            Spacing::Padding,
        ],
        &["Default", "None", "Small", "Medium", "Large", "ExtraLarge", "Padding"],
    );
}

#[test]
fn choice_input_style_keywords_are_camel_case() {
    round_trips(
        vec![ChoiceInputStyle::Compact, ChoiceInputStyle::Expanded],
        &["compact", "expanded"],
    );
}

#[test]
fn vertical_content_alignment_keywords_round_trip() {
    round_trips(
        vec![
            VerticalContentAlignment::Top,
            VerticalContentAlignment::Center,
            VerticalContentAlignment::Bottom,
        ],
        &["Top", "Center", "Bottom"],
    );
}

#[test]
fn text_input_style_keywords_are_camel_case() {
    round_trips(
        vec![
            TextInputStyle::Text,
            TextInputStyle::Tel,
            TextInputStyle::Url,
            TextInputStyle::Email,
        ],
        &["text", "tel", "url", "email"],
    );
}

#[test]
fn height_keywords_are_lowercase() {
    round_trips(vec![Height::Auto, Height::Stretch], &["auto", "stretch"]);
}

#[test]
fn image_style_keywords_are_camel_case() {
    round_trips(vec![ImageStyle::Default, ImageStyle::Person], &["default", "person"]);
}

#[test]
fn weight_keywords_round_trip() {
    round_trips(
        vec![Weight::Default, Weight::Lighter, Weight::Bolder],
        &["Default", "Lighter", "Bolder"],
    );
}

#[test]
fn font_type_keywords_round_trip() {
    round_trips(vec![FontType::Default, FontType::Monospace], &["Default", "Monospace"]);
}

#[test]
fn every_size_keyword_round_trips() {
    round_trips(
        vec![Size::Default, Size::Small, Size::Medium, Size::Large, Size::ExtraLarge],
        &["Default", "Small", "Medium", "Large", "ExtraLarge"],
    );
}

#[test]
fn every_horizontal_alignment_keyword_round_trips() {
    round_trips(
        vec![HorizontalAlignment::Left, HorizontalAlignment::Center, HorizontalAlignment::Right],
        &["Left", "Center", "Right"],
    );
}

#[test]
fn image_size_keywords_round_trip() {
    round_trips(
        vec![ImageSize::Auto, ImageSize::Stretch, ImageSize::Small, ImageSize::Medium, ImageSize::Large],
        &["Auto", "Stretch", "Small", "Medium", "Large"],
    );
}

#[test]
fn unknown_keyword_is_variant_not_found() {
    assert_eq!(Color::parse("ultraviolet"), Err(ParseError::VariantNotFound));
    assert_eq!(Size::parse(""), Err(ParseError::VariantNotFound));
    assert_eq!(Height::parse("autox"), Err(ParseError::VariantNotFound));
    assert_eq!(Spacing::parse("small "), Err(ParseError::VariantNotFound));
}

#[test]
fn non_ascii_letters_are_not_folded() {
    // Only ASCII letters are compared without case; `Ä` is not `ä`.
    assert_eq!(Color::parse("Dark"), Ok(Color::Dark));
    assert_eq!(Color::parse("DÄRK"), Err(ParseError::VariantNotFound));
}

#[test]
fn from_str_reads_keywords() {
    let c: Color = "accent".parse().unwrap();
    assert_eq!(c, Color::Accent);
    let e: Result<ImageStyle, ParseError> = "people".parse();
    assert_eq!(e, Err(ParseError::VariantNotFound));
}
