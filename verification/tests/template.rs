use typst_stdio_worker::template::{
    MathSettings, PackageImport, PageSettings, ParagraphSettings, Preludes, SettingsBlock, StructuredSettings,
    TemplateConfig, TemplateKind, TextSettings, wrap_with_prelude,
};

fn preludes() -> Preludes {
    let default_config = TemplateConfig::default();
    Preludes {
        quiconf: "#import \"@local/quiconf:0.0.1\": tag, setup\n".to_string(),
        deprecated_default: TemplateConfig::from_typ_str(&default_config.to_typst_prelude()),
    }
}

#[test]
fn raw_has_zero_prelude() {
    let (s, n) = TemplateKind::Raw.apply_to("Hello", &preludes());
    assert_eq!(s, "Hello");
    assert_eq!(n, 0);
}

#[test]
fn default_prelude_lines_match_actual() {
    let (s, n) = TemplateKind::DeprecatedDefault.apply_to("USER", &preludes());
    assert!(s.ends_with("USER"));
    let user_offset = s.find("USER").unwrap();
    let line_of_user = s[..user_offset].matches('\n').count();
    assert_eq!(
        line_of_user, n,
        "user content line must be exactly prelude line count"
    );
}

#[test]
fn quiconf_prelude_lines_match_actual() {
    let p = preludes();
    let (s, n) = TemplateKind::Quiconf.apply_to("USER", &p);
    assert_eq!(s, format!("{}USER", p.quiconf));
    assert_eq!(n, 1);
}

// -- PackageImport --

#[test]
fn package_import_to_typst() {
    let imp = PackageImport::new("preview", "physica", "0.9.3");
    assert_eq!(imp.to_typst(), r#"#import "@preview/physica:0.9.3""#);
}

#[test]
fn package_import_parse_roundtrip() {
    let imp = PackageImport::new("preview", "physica", "0.9.3");
    let line = imp.to_typst();
    let parsed = PackageImport::parse(&line).expect("should parse");
    assert_eq!(imp, parsed);
}

#[test]
fn package_import_parse_with_glob() {
    let line = r#"#import "@preview/cetz:0.3.4": *"#;
    let parsed = PackageImport::parse(line).expect("should parse");
    assert_eq!(parsed.namespace, "preview");
    assert_eq!(parsed.name, "cetz");
    assert_eq!(parsed.version, "0.3.4");
}

#[test]
fn package_import_parse_rejects_non_package() {
    assert!(PackageImport::parse("#set text(size: 10pt)").is_none());
    assert!(PackageImport::parse("").is_none());
    assert!(PackageImport::parse(r#"#import "local-file.typ""#).is_none());
}

#[test]
fn package_import_parse_whitespace_and_edges() {
    let parsed = PackageImport::parse("  \t#import\u{3000} \"@a/b/c:d:e\" rest \n").expect("parse");
    assert_eq!(parsed.namespace, "a");
    assert_eq!(parsed.name, "b/c");
    assert_eq!(parsed.version, "d:e");
    assert!(PackageImport::parse("#import \"@/name:1\"").is_none());
    assert!(PackageImport::parse("#import \"@ns/:1\"").is_none());
    assert!(PackageImport::parse("#import \"@ns/name:\"").is_none());
    assert!(PackageImport::parse("#import \"@ns/name:1").is_none());
    assert!(PackageImport::parse("#import \"@nsname:1\"").is_none());
    assert!(PackageImport::parse("#include \"@ns/name:1\"").is_none());
}

#[test]
fn package_import_display() {
    let imp = PackageImport::new("preview", "physica", "0.9.3");
    assert_eq!(imp.to_display_string(), "@preview/physica:0.9.3");
}

// -- StructuredSettings --

#[test]
fn default_structured_settings_generates_expected_rules() {
    let typst = StructuredSettings::default().to_typst();
    assert!(typst.contains("#set page("));
    assert!(typst.contains("width: auto"));
    assert!(typst.contains("#set text("));
    assert!(typst.contains("\"Latin Modern Roman\""));
    assert!(typst.contains("\"Noto Serif CJK SC\""));
    assert!(typst.contains("size: 10.5pt"));
    assert!(typst.contains("#show math.equation: set text(font: \"Latin Modern Math\")"));
    assert!(typst.contains(
        "#show math.equation.where(block: true): set block(above: 1em, below: 1em)"
    ));
    assert!(typst.contains("#set par("));
    assert!(typst.contains("justify: true"));
    assert!(typst.contains("first-line-indent: 2em"));
}

#[test]
fn default_structured_settings_exact_text() {
    let typst = StructuredSettings::default().to_typst();
    let expected = "#set page(width: auto, height: auto, margin: 10pt)\n\
#set text(\n  font: (\"Latin Modern Roman\", \"Noto Serif CJK SC\", \"Source Han Serif SC\", \"SimSun\"),\n  size: 10.5pt,\n  lang: \"zh\",\n  region: \"cn\"\n)\n\
#show math.equation: set text(font: \"Latin Modern Math\")\n\
#show math.equation.where(block: true): set block(above: 1em, below: 1em)\n\
#set par(\n  justify: true,\n  first-line-indent: 2em,\n  leading: 0.65em,\n  spacing: 0.65em\n)\n";
    assert_eq!(typst, expected);
}

#[test]
fn structured_settings_builder_modifies_output() {
    let mut s = StructuredSettings::default();
    s.set_body_fonts(vec!["Arial".into()])
        .set_math_font("XITS Math")
        .set_text_size("12pt")
        .set_language("en", None);

    let typst = s.to_typst();
    assert!(typst.contains("font: \"Arial\""));
    assert!(typst.contains("font: \"XITS Math\""));
    assert!(typst.contains("size: 12pt"));
    assert!(typst.contains("lang: \"en\""));
    assert!(!typst.contains("region:"));
}

#[test]
fn builders_page_and_paragraph() {
    let mut s = StructuredSettings::default();
    s.set_page_auto("5pt")
        .set_paragraph(false, None, Some("1em".into()), None);
    assert_eq!(s.page.to_typst(), "#set page(width: auto, height: auto, margin: 5pt)\n");
    assert_eq!(s.paragraph.to_typst(), "#set par(justify: false, leading: 1em)\n");
}

#[test]
fn extra_rules_are_appended() {
    let mut s = StructuredSettings::default();
    s.extra_rules
        .push("#set heading(numbering: \"1.\")".into());
    let typst = s.to_typst();
    assert!(typst.contains("#set heading(numbering: \"1.\")"));
}

#[test]
fn extra_rules_keep_existing_newline() {
    let mut s = StructuredSettings::default();
    s.extra_rules.push("#a\n".into());
    s.extra_rules.push("#b".into());
    let typst = s.to_typst();
    assert!(typst.ends_with("#a\n#b\n"));
}

// -- Sub-settings edge cases --

#[test]
fn empty_page_settings_produces_nothing() {
    let page = PageSettings {
        width: None,
        height: None,
        margin: None,
    };
    assert_eq!(page.to_typst(), "");
}

#[test]
fn single_font_uses_bare_string() {
    let text = TextSettings {
        font: vec!["Arial".into()],
        size: None,
        lang: None,
        region: None,
    };
    let typst = text.to_typst();
    assert!(typst.contains("font: \"Arial\""));
    assert!(
        !typst.contains("font: ("),
        "single font should not use tuple syntax"
    );
}

#[test]
fn long_rule_is_split_over_lines() {
    let text = TextSettings {
        font: vec!["A".into(), "B".into()],
        size: Some("12pt".into()),
        lang: None,
        region: None,
    };
    // 34 bytes: single line.
    assert_eq!(text.to_typst(), "#set text(font: (\"A\", \"B\"), size: 12pt)\n");
    let long = "x".repeat(60);
    let text = TextSettings {
        font: vec![],
        size: Some(long.clone()),
        lang: Some("en".into()),
        region: None,
    };
    assert_eq!(
        text.to_typst(),
        format!("#set text(\n  size: {long},\n  lang: \"en\"\n)\n")
    );
    let single = TextSettings {
        font: vec![],
        size: Some(long.clone()),
        lang: None,
        region: None,
    };
    assert_eq!(single.to_typst(), format!("#set text(size: {long})\n"));
}

#[test]
fn math_settings_partial() {
    let math = MathSettings {
        math_font: None,
        block_above: Some("0.5em".into()),
        block_below: None,
    };
    let typst = math.to_typst();
    assert!(!typst.contains("set text(font:"));
    assert!(typst.contains("above: 0.5em"));
    assert!(!typst.contains("below:"));
}

#[test]
fn raw_settings_block_gets_final_newline() {
    assert_eq!(SettingsBlock::Raw(String::new()).to_typst(), "");
    assert_eq!(SettingsBlock::Raw("#x".into()).to_typst(), "#x\n");
    assert_eq!(SettingsBlock::Raw("#x\n".into()).to_typst(), "#x\n");
}

// -- TemplateConfig --

#[test]
fn default_config_prelude_contains_all_sections() {
    let prelude = TemplateConfig::default().to_typst_prelude();
    assert!(prelude.contains("#import \"@preview/physica:0.9.3\""));
    assert!(prelude.contains("#set page("));
    assert!(prelude.contains("#set text("));
    assert!(prelude.contains("#show math.equation"));
    assert!(prelude.contains("#set par("));
}

#[test]
fn from_typ_str_separates_imports_from_settings() {
    let input = "\
#import \"@preview/physica:0.9.3\"
#import \"@preview/cetz:0.3.4\": *
#set page(width: auto, height: auto, margin: 10pt)
#set text(size: 10.5pt)
";
    let config = TemplateConfig::from_typ_str(input);
    assert_eq!(config.imports.len(), 2);
    assert_eq!(config.imports[0].name, "physica");
    assert_eq!(config.imports[1].name, "cetz");
    match &config.settings {
        SettingsBlock::Raw(s) => {
            assert!(s.contains("#set page("));
            assert!(s.contains("#set text("));
            assert!(!s.contains("#import"));
        }
        SettingsBlock::Structured(_) => panic!("expected Raw settings from from_typ_str"),
    }
}

#[test]
fn from_typ_str_no_imports() {
    let input = "#set text(size: 12pt)\n";
    let config = TemplateConfig::from_typ_str(input);
    assert!(config.imports.is_empty());
    match &config.settings {
        SettingsBlock::Raw(s) => assert!(s.contains("#set text(")),
        SettingsBlock::Structured(_) => panic!("expected Raw"),
    }
}

#[test]
fn from_typ_str_drops_trailing_blank_lines_and_crlf() {
    let config = TemplateConfig::from_typ_str("#a\r\n\r\n#b\r\n  \n\t\n");
    assert!(config.imports.is_empty());
    match &config.settings {
        SettingsBlock::Raw(s) => assert_eq!(s, "#a\n\n#b\n"),
        SettingsBlock::Structured(_) => panic!("expected Raw"),
    }
    let empty = TemplateConfig::from_typ_str("\n\n");
    match &empty.settings {
        SettingsBlock::Raw(s) => assert_eq!(s, ""),
        SettingsBlock::Structured(_) => panic!("expected Raw"),
    }
}

#[test]
fn from_typ_str_roundtrip_through_prelude() {
    let config = TemplateConfig::from_typ_str(
        "#import \"@preview/physica:0.9.3\"\n#set text(size: 10pt)\n",
    );
    let prelude = config.to_typst_prelude();
    assert!(prelude.starts_with("#import \"@preview/physica:0.9.3\"\n"));
    assert!(prelude.contains("#set text(size: 10pt)"));
}

#[test]
fn apply_template_with_config_works() {
    let mut config = TemplateConfig::default();
    config
        .imports
        .push(PackageImport::new("preview", "cetz", "0.3.4"));
    let (wrapped, n) = config.apply_to("content");
    assert!(wrapped.contains("#import \"@preview/cetz:0.3.4\""));
    assert!(wrapped.ends_with("content"));
    assert!(n > 0);
}

#[test]
fn apply_with_config_prelude_lines_correct() {
    let config = TemplateConfig::default();
    let (s, n) = config.apply_to("USER");
    assert!(s.ends_with("USER"));
    let user_offset = s.find("USER").unwrap();
    let line_of_user = s[..user_offset].matches('\n').count();
    assert_eq!(line_of_user, n);
}

#[test]
fn wrap_with_prelude_counts_newlines() {
    let (s, n) = wrap_with_prelude("a\nb\n", "c");
    assert_eq!(s, "a\nb\nc");
    assert_eq!(n, 2);
    let (s, n) = wrap_with_prelude("", "c");
    assert_eq!(s, "c");
    assert_eq!(n, 0);
}

#[test]
fn prelude_is_a_newline_without_imports_and_settings() {
    let config = TemplateConfig {
        imports: Vec::new(),
        settings: SettingsBlock::Raw(String::new()),
    };
    assert_eq!(config.to_typst_prelude(), "\n");
    let (wrapped, n) = config.apply_to("USER");
    assert_eq!(wrapped, "\nUSER");
    assert_eq!(n, 1);

    let empty_structured = TemplateConfig {
        imports: Vec::new(),
        settings: SettingsBlock::Structured(StructuredSettings {
            page: PageSettings { width: None, height: None, margin: None },
            text: TextSettings { font: Vec::new(), size: None, lang: None, region: None },
            math: MathSettings { math_font: None, block_above: None, block_below: None },
            paragraph: ParagraphSettings {
                justify: None,
                first_line_indent: None,
                leading: None,
                spacing: None,
            },
            extra_rules: Vec::new(),
        }),
    };
    assert_eq!(empty_structured.to_typst_prelude(), "\n");
}

#[test]
fn prelude_adds_no_newline_when_settings_end_with_one() {
    let config = TemplateConfig {
        imports: Vec::new(),
        settings: SettingsBlock::Raw("#set text(size: 10pt)".to_string()),
    };
    assert_eq!(config.to_typst_prelude(), "#set text(size: 10pt)\n");
}

#[test]
fn prelude_reads_back_as_its_config() {
    let config = TemplateConfig {
        imports: vec![
            PackageImport::new("preview", "physica", "0.9.3"),
            PackageImport::new("preview", "cetz", "0.3.4"),
        ],
        settings: SettingsBlock::Raw("#set text(size: 10pt)\n\n#set par(justify: true)\n".to_string()),
    };
    let back = TemplateConfig::from_typ_str(&config.to_typst_prelude());
    assert_eq!(back.imports, config.imports);
    match (&back.settings, &config.settings) {
        (SettingsBlock::Raw(a), SettingsBlock::Raw(b)) => assert_eq!(a, b),
        _ => panic!("expected Raw settings"),
    }
    assert_eq!(back.to_typst_prelude(), config.to_typst_prelude());
}
