use disk_bench::markup::{parse_template, Color, MarkupError, Part, Style, StyleSheet, Styles};
use disk_bench::stylesheet::{
    color, color_style_declaration, declarations, parse, rule, rules, selector, styles,
    styles_style_declaration, wrapped_declarations,
};

fn text(s: &str) -> Part {
    Part::Text(s.to_string())
}

#[test]
fn test_stylesheet() {
    let styles = vec![("alert".to_string(), Style::new(None, Some(Color::Red), None))];
    let expectation = StyleSheet::new(styles);
    assert_eq!(StyleSheet::parse("alert{foreground:red}").unwrap(), expectation);
}

#[test]
fn test_parse_template() {
    let parts = parse_template("Hello <bold>World</bold><em></em>!");
    let expectation = vec![
        text("Hello "),
        Part::OpenTag("bold".to_string()),
        text("World"),
        Part::CloseTag("bold".to_string()),
        Part::OpenTag("em".to_string()),
        Part::CloseTag("em".to_string()),
        text("!"),
    ];
    assert_eq!(parts, expectation);
}

#[test]
fn test_no_styles_template() {
    let template = StyleSheet { rules: Vec::new() };
    let result = template.render("Hello <bold>World</bold><em></em>!");
    let segments = result.unwrap();
    let joined: String = segments.iter().map(|s| s.text.as_str()).collect();
    assert_eq!(joined, "Hello World!");
    assert!(segments.iter().all(|s| s.style == Style::empty()));
}

#[test]
fn test_parse() {
    assert_eq!(
        parse(" r { foreground: red; }").unwrap(),
        vec![("r".to_string(), Style::new(None, Some(Color::Red), None))]
    );
}

#[test]
fn test_rules() {
    assert_eq!(
        rules("alert{foreground:red}").unwrap().1,
        vec![("alert".to_string(), Style::new(None, Some(Color::Red), None))]
    );
}

#[test]
fn test_rule() {
    assert_eq!(
        rule("alert{foreground:red}").unwrap().1,
        ("alert".to_string(), Style::new(None, Some(Color::Red), None))
    );
    assert_eq!(
        rule("alert { foreground: red; background: blue }").unwrap().1,
        ("alert".to_string(), Style::new(None, Some(Color::Red), Some(Color::Blue)))
    );
    assert_eq!(
        rule("alert{foreground:red;}").unwrap().1,
        ("alert".to_string(), Style::new(None, Some(Color::Red), None))
    );
}

#[test]
fn test_wrapped_declarations() {
    assert_eq!(
        wrapped_declarations("{ foreground: red }").unwrap().1,
        Style::new(None, Some(Color::Red), None)
    );
    assert_eq!(
        wrapped_declarations("{ foreground: red; styles: bold }").unwrap().1,
        Style::new(Some(vec![Styles::Bold]), Some(Color::Red), None)
    );
    assert_eq!(
        wrapped_declarations("{ foreground: red; styles: bold }").unwrap().1,
        Style::new(Some(vec![Styles::Bold]), Some(Color::Red), None)
    );
}

#[test]
fn test_declaration() {
    assert_eq!(
        color_style_declaration("foreground: red").unwrap().1,
        Style::new(None, Some(Color::Red), None)
    );
    assert_eq!(
        styles_style_declaration("styles : bold").unwrap().1,
        Style::new(Some(vec![Styles::Bold]), None, None)
    );
    assert_eq!(
        styles_style_declaration("styles : bold dimmed").unwrap().1,
        Style::new(Some(vec![Styles::Bold, Styles::Dimmed]), None, None)
    );
}

#[test]
fn test_styles() {
    assert_eq!(styles("bold").unwrap().1, Styles::Bold);
}

#[test]
fn test_color() {
    assert_eq!(color("red").unwrap().1, Color::Red);
}

#[test]
fn colors_with_prefix_names() {
    assert_eq!(color("bright-red").unwrap(), (10, Color::BrightRed));
    assert_eq!(color("bright-white").unwrap(), (12, Color::BrightWhite));
    assert_eq!(color("cyan;").unwrap(), (4, Color::Cyan));
    assert_eq!(color("purple"), None);
}

#[test]
fn selector_reads_letters() {
    assert_eq!(selector("info {").unwrap(), (4, "info".to_string()));
    assert_eq!(selector("{"), None);
}

#[test]
fn declarations_merge_in_order() {
    let (read, style) = declarations("foreground: red; foreground: blue; styles: bold italic").unwrap();
    assert_eq!(read, 54);
    assert_eq!(style, Style::new(Some(vec![Styles::Bold, Styles::Italic]), Some(Color::Blue), None));
    assert_eq!(declarations("}").unwrap(), (0, Style::empty()));
}

#[test]
fn sheet_of_several_rules() {
    let sheet = StyleSheet::parse(
        "
        info { foreground: yellow }
        mode { foreground: red }
        speed { foreground: cyan; background: black }
        ",
    )
    .unwrap();
    assert_eq!(sheet.rules.len(), 3);
    assert_eq!(sheet.rules[2].0, "speed");
    assert_eq!(sheet.rules[2].1, Style::new(None, Some(Color::Cyan), Some(Color::Black)));
    // Reading stops at the first text that is not a rule.
    assert_eq!(StyleSheet::parse("a{foreground:red} !b{foreground:red}").unwrap().rules.len(), 1);
}

#[test]
fn render_resolves_nested_tags() {
    let sheet = StyleSheet::parse("a { foreground: red } b { styles: bold; background: blue } a { foreground: green }").unwrap();
    let segs = sheet.render("x<a>y<b>z</b></a><c>w</c>").unwrap();
    assert_eq!(segs.len(), 4);
    assert_eq!(segs[0].text, "x");
    assert_eq!(segs[0].style, Style::empty());
    assert_eq!(segs[1].text, "y");
    assert_eq!(segs[1].style, Style::new(None, Some(Color::Green), None));
    assert_eq!(segs[2].text, "z");
    assert_eq!(segs[2].style, Style::new(Some(vec![Styles::Bold]), Some(Color::Green), Some(Color::Blue)));
    assert_eq!(segs[3].text, "w");
    assert_eq!(segs[3].style, Style::empty());
}

#[test]
fn render_refuses_unbalanced_close() {
    let sheet = StyleSheet::default();
    assert_eq!(sheet.render("a</bold>b"), Err(MarkupError::InvalidTemplate));
}

#[test]
fn template_keeps_malformed_tags_as_text() {
    let parts = parse_template("a <B> <1> </> <x");
    assert_eq!(parts, vec![text("a <B> <1> </> <x")]);
}

#[test]
fn default_sheet_styles() {
    let sheet = StyleSheet::default();
    let segs = sheet.render("<em>EM <bold>BOLD</bold>EM</em>").unwrap();
    assert_eq!(segs[1].style, Style::new(Some(vec![Styles::Italic, Styles::Bold]), None, None));
}
