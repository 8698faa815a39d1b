use gg_core::theme::{add_section_entries, apply_toml_section, TomlSection};
use gg_core::bundled::DEFAULT_THEME;
use gg_core::theme::{
    default_theme, generate_css, generate_style_element, load_from_settings, lookup_ref,
    parse_theme, ref_char, resolve_refs, ThemeError, ThemeTokens,
};

#[test]
fn parse_default_theme() {
    let theme = default_theme();
    // light variant has expected tokens
    assert_eq!(theme.light.get("colors-primary"), Some(&"#007AFF".to_string()));
    assert_eq!(theme.light.get("colors-background"), Some(&"#ffffff".to_string()));
    assert!(theme.light.contains_key("text-familyUi"));
    assert!(theme.light.contains_key("shadows-shadowSm"));
    assert!(theme.light.contains_key("components-buttonHeight"));

    // dark variant has expected tokens
    assert_eq!(theme.dark.get("colors-primary"), Some(&"#8aadf4".to_string()));
    assert!(theme.dark.contains_key("components-buttonBackground"));
}

#[test]
fn resolve_references() {
    let theme = default_theme();
    // components.buttonBackground should resolve to colors.primary
    assert_eq!(
        theme.light.get("components-buttonBackground"),
        theme.light.get("colors-primary"),
    );
    // components.buttonForeground should resolve to colors.primaryContent
    assert_eq!(
        theme.light.get("components-buttonForeground"),
        theme.light.get("colors-primaryContent"),
    );
}

#[test]
fn resolve_cross_section_refs() {
    let theme = default_theme();
    // components.buttonShadow references shadows.shadowSm
    assert_eq!(
        theme.light.get("components-buttonShadow"),
        theme.light.get("shadows-shadowSm"),
    );
    // components.buttonFont references text.familyUi
    assert_eq!(
        theme.light.get("components-buttonFont"),
        theme.light.get("text-familyUi"),
    );
}

#[test]
fn unresolved_ref_kept_literally() {
    let toml = r##"
[light.colors]
primary = "#ff0000"

[light.text]
[light.shadows]

[light.components]
buttonBackground = "$colors.nonexistent"

[dark.colors]
primary = "#ff0000"
[dark.text]
[dark.shadows]
[dark.components]
"##;
    let theme = parse_theme(toml).unwrap();
    assert_eq!(
        theme.light.get("components-buttonBackground"),
        Some(&"$colors.nonexistent".to_string()),
    );
}

#[test]
fn parse_all_bundled_themes() {
    // the bundled theme should parse without error
    parse_theme(DEFAULT_THEME).unwrap();
}

#[test]
fn five_surface_tiers() {
    let theme = default_theme();
    // verify all 5 surface tiers exist
    assert!(theme.light.contains_key("colors-background"));
    assert!(theme.light.contains_key("colors-surfaceDeep"));
    assert!(theme.light.contains_key("colors-surface"));
    assert!(theme.light.contains_key("colors-surfaceAlt"));
    assert!(theme.light.contains_key("colors-surfaceStrong"));
}

#[test]
fn graph_node_tokens() {
    let theme = default_theme();
    assert!(theme.light.contains_key("colors-immutableStroke"));
    assert!(theme.light.contains_key("colors-immutableFill"));
    assert!(theme.light.contains_key("colors-mutableStroke"));
    assert!(theme.light.contains_key("colors-mutableFill"));
    assert!(theme.light.contains_key("colors-workingCopyStroke"));
    assert!(theme.light.contains_key("colors-workingCopyFill"));
    assert!(theme.light.contains_key("colors-conflictStroke"));
    assert!(theme.light.contains_key("colors-conflictFill"));
}

const SMALL_THEME: &str = r##"
[light.colors]
primary = "#111111"
accent = "$colors.primary"

[light.components]
button = "1px solid $colors.accent"

[dark.colors]
primary = "#eeeeee"
"##;

#[test]
fn references_resolve_within_value() {
    let theme = parse_theme(SMALL_THEME).unwrap();
    assert_eq!(theme.light.get("colors-accent"), Some(&"#111111".to_string()));
    assert_eq!(
        theme.light.get("components-button"),
        Some(&"1px solid #111111".to_string())
    );
    assert_eq!(theme.light.len(), 3);
    assert_eq!(theme.dark.len(), 1);
}

#[test]
fn later_reference_is_not_resolved() {
    // single pass: a reference to a token set later stays as written
    let toml = r##"
[light.colors]
first = "$colors.second"
second = "red"
[dark.colors]
"##;
    let theme = parse_theme(toml).unwrap();
    assert_eq!(theme.light.get("colors-first"), Some(&"$colors.second".to_string()));
}

#[test]
fn non_string_values_are_skipped() {
    let toml = r##"
[light.colors]
size = 12
name = "x"
[dark.colors]
"##;
    let theme = parse_theme(toml).unwrap();
    assert!(!theme.light.contains_key("colors-size"));
    assert!(theme.light.contains_key("colors-name"));
}

#[test]
fn unknown_sections_are_ignored() {
    let toml = r##"
[light.other]
x = "1"
[light.colors]
y = "2"
[dark.colors]
"##;
    let theme = parse_theme(toml).unwrap();
    assert!(!theme.light.contains_key("other-x"));
    assert_eq!(theme.light.get("colors-y"), Some(&"2".to_string()));
}

#[test]
fn invalid_toml_is_an_error() {
    assert!(matches!(parse_theme("[light"), Err(ThemeError::InvalidToml)));
}

#[test]
fn missing_variant_is_an_error() {
    match parse_theme("[light.colors]\nx = \"1\"\n") {
        Err(ThemeError::MissingVariant(v)) => assert_eq!(v, "dark"),
        _ => panic!("expected a missing variant"),
    }
    match parse_theme("[dark.colors]\nx = \"1\"\n") {
        Err(ThemeError::MissingVariant(v)) => assert_eq!(v, "light"),
        _ => panic!("expected a missing variant"),
    }
}

#[test]
fn lookup_ref_maps_first_dot() {
    let mut tokens = ThemeTokens::new();
    tokens.insert("colors-primary".to_string(), "blue".to_string());
    tokens.insert("a-b.c".to_string(), "x".to_string());
    assert_eq!(lookup_ref("colors.primary", &tokens), Some("blue".to_string()));
    assert_eq!(lookup_ref("a.b.c", &tokens), Some("x".to_string()));
    assert_eq!(lookup_ref("colors.missing", &tokens), None);
}

#[test]
fn resolve_refs_edge_cases() {
    let mut tokens = ThemeTokens::new();
    tokens.insert("colors-primary".to_string(), "blue".to_string());
    assert_eq!(resolve_refs("plain", &tokens), "plain");
    assert_eq!(resolve_refs("$colors.primary", &tokens), "blue");
    assert_eq!(resolve_refs("a $colors.primary;b", &tokens), "a blue;b");
    assert_eq!(resolve_refs("$", &tokens), "$");
    assert_eq!(resolve_refs("$$colors.primary", &tokens), "$blue");
    assert_eq!(resolve_refs("$nope x", &tokens), "$nope x");
}

#[test]
fn string_map_keeps_first_position() {
    let mut tokens = ThemeTokens::new();
    tokens.insert("a".to_string(), "1".to_string());
    tokens.insert("b".to_string(), "2".to_string());
    tokens.insert("a".to_string(), "3".to_string());
    assert_eq!(tokens.len(), 2);
    let (k, v) = tokens.entry(0);
    assert_eq!((k.as_str(), v.as_str()), ("a", "3"));
    assert_eq!(tokens.get("b"), Some(&"2".to_string()));
}

#[test]
fn load_from_settings_falls_back_to_default() {
    let fallback = load_from_settings(Some("not toml ["));
    assert_eq!(fallback.light.get("colors-primary"), Some(&"#007AFF".to_string()));
    let custom = load_from_settings(Some(SMALL_THEME));
    assert_eq!(custom.light.get("colors-primary"), Some(&"#111111".to_string()));
    let none = load_from_settings(None);
    assert_eq!(none.dark.get("colors-primary"), Some(&"#8aadf4".to_string()));
}

#[test]
fn css_for_each_override() {
    let dark = generate_css(Some(SMALL_THEME), Some("dark"));
    assert_eq!(dark, "#shell {\n  --gg-colors-primary: #eeeeee;\n  color-scheme: dark;\n}\n");
    let light = generate_css(Some(SMALL_THEME), Some("light"));
    assert_eq!(
        light,
        "#shell {\n  --gg-colors-primary: #111111;\n  --gg-colors-accent: #111111;\n  --gg-components-button: 1px solid #111111;\n  color-scheme: light;\n}\n"
    );
    let both = generate_css(Some(SMALL_THEME), None);
    assert_eq!(
        both,
        "#shell {\n  --gg-colors-primary: #111111;\n  --gg-colors-accent: #111111;\n  --gg-components-button: 1px solid #111111;\n  color-scheme: light;\n}\n@media (prefers-color-scheme: dark) {\n  #shell {\n    --gg-colors-primary: #eeeeee;\n    color-scheme: dark;\n  }\n}\n"
    );
    // an unknown override behaves as none
    assert_eq!(generate_css(Some(SMALL_THEME), Some("sepia")), both);
}

#[test]
fn style_element_wraps_css() {
    let css = generate_css(Some(SMALL_THEME), Some("dark"));
    let element = generate_style_element(Some(SMALL_THEME), Some("dark"));
    assert_eq!(element, format!("<style id=\"gg-theme\">\n{css}</style>"));
}

#[test]
fn section_steps() {
    let mut tokens = ThemeTokens::new();
    let entries = vec![
        ("primary".to_string(), Some("red".to_string())),
        ("size".to_string(), None),
        ("accent".to_string(), Some("$colors.primary".to_string())),
    ];
    add_section_entries(&mut tokens, "colors", &entries);
    assert_eq!(tokens.get("colors-accent"), Some(&"red".to_string()));
    assert_eq!(tokens.len(), 2);

    let read = TomlSection::Entries(vec![("bg".to_string(), Some("$colors.accent".to_string()))]);
    assert!(apply_toml_section(&mut tokens, "light", "components", &read).is_ok());
    assert_eq!(tokens.get("components-bg"), Some(&"red".to_string()));

    assert!(apply_toml_section(&mut tokens, "light", "text", &TomlSection::NoInner).is_ok());
    assert_eq!(tokens.len(), 3);
    assert!(matches!(
        apply_toml_section(&mut tokens, "light", "text", &TomlSection::Unparsable),
        Err(ThemeError::InvalidToml)
    ));
    match apply_toml_section(&mut tokens, "dark", "text", &TomlSection::NoOuter) {
        Err(ThemeError::MissingVariant(v)) => assert_eq!(v, "dark"),
        _ => panic!("expected a missing variant"),
    }
    assert_eq!(tokens.len(), 3);
}

#[test]
fn references_need_ascii_word_characters() {
    let mut tokens = ThemeTokens::new();
    tokens.insert("colors-a_b-c".to_string(), "1".to_string());
    tokens.insert("colors-é".to_string(), "2".to_string());
    assert_eq!(resolve_refs("$colors.a_b-c!", &tokens), "1!");
    // non-ASCII letters are alphanumeric too
    assert_eq!(resolve_refs("$colors.é", &tokens), "2");
}

#[test]
fn reference_name_characters() {
    for c in ['a', 'Z', '7', '.', '-', '_', 'é', '٣'] {
        assert!(ref_char(c), "{c}");
    }
    for c in [' ', '$', ';', ')', '/'] {
        assert!(!ref_char(c), "{c}");
    }
}
