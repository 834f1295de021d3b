use treesitter_mcp::analysis::html::extract_html_shape;
use treesitter_mcp::parser::{parse_code, Language};

#[test]
fn test_extract_html_shape_ids() {
    let source = r#"
<!DOCTYPE html>
<html>
<body>
  <div id="header">Header</div>
  <nav id="main-nav">Navigation</nav>
  <section id="content">Content</section>
</body>
</html>
"#;
    let tree = parse_code(source, Language::Html).expect("Failed to parse HTML");
    let shape =
        extract_html_shape(&tree, Some("test.html"));

    assert_eq!(shape.ids.len(), 3);
    assert_eq!(shape.ids[0].tag, "div");
    assert_eq!(shape.ids[0].id, "header");
    assert_eq!(shape.ids[1].tag, "nav");
    assert_eq!(shape.ids[1].id, "main-nav");
    assert_eq!(shape.ids[2].tag, "section");
    assert_eq!(shape.ids[2].id, "content");
}

#[test]
fn test_extract_html_shape_custom_classes() {
    let source = r#"
<div class="custom-card bg-white p-4">
  <h1 class="title text-xl font-bold">Hello</h1>
  <p class="description">Text</p>
</div>
"#;
    let tree = parse_code(source, Language::Html).expect("Failed to parse HTML");
    let shape = extract_html_shape(&tree, None);

    // Should filter out Tailwind utilities and keep only custom classes
    assert!(shape.classes_used.contains(&"custom-card".to_string()));
    assert!(shape.classes_used.contains(&"title".to_string()));
    assert!(shape.classes_used.contains(&"description".to_string()));

    // Should NOT contain Tailwind utilities
    assert!(!shape.classes_used.contains(&"bg-white".to_string()));
    assert!(!shape.classes_used.contains(&"p-4".to_string()));
    assert!(!shape.classes_used.contains(&"text-xl".to_string()));
    assert!(!shape.classes_used.contains(&"font-bold".to_string()));
}

#[test]
fn test_extract_html_shape_scripts() {
    let source = r#"
<html>
<head>
  <script src="app.js"></script>
  <script>console.log('inline');</script>
</head>
</html>
"#;
    let tree = parse_code(source, Language::Html).expect("Failed to parse HTML");
    let shape = extract_html_shape(&tree, None);

    assert_eq!(shape.scripts.len(), 2);

    // External script
    assert_eq!(shape.scripts[0].src, Some("app.js".to_string()));
    assert!(!shape.scripts[0].inline);

    // Inline script
    assert_eq!(shape.scripts[1].src, None);
    assert!(shape.scripts[1].inline);
}

#[test]
fn test_extract_html_shape_styles() {
    let source = r#"
<html>
<head>
  <link rel="stylesheet" href="styles.css">
  <style>body { margin: 0; }</style>
</head>
</html>
"#;
    let tree = parse_code(source, Language::Html).expect("Failed to parse HTML");
    let shape = extract_html_shape(&tree, None);

    assert_eq!(shape.styles.len(), 2);

    // External stylesheet
    assert_eq!(shape.styles[0].href, Some("styles.css".to_string()));
    assert!(!shape.styles[0].inline);

    // Inline style
    assert_eq!(shape.styles[1].href, None);
    assert!(shape.styles[1].inline);
}

#[test]
fn test_extract_html_shape_tailwind_variants() {
    let source = r#"
<div class="hover:bg-blue-500 dark:text-white sm:p-4 custom-class">
  Content
</div>
"#;
    let tree = parse_code(source, Language::Html).expect("Failed to parse HTML");
    let shape = extract_html_shape(&tree, None);

    // Should keep custom class
    assert!(shape.classes_used.contains(&"custom-class".to_string()));

    // Should filter out Tailwind utilities with variants
    assert!(!shape
        .classes_used
        .contains(&"hover:bg-blue-500".to_string()));
    assert!(!shape.classes_used.contains(&"dark:text-white".to_string()));
    assert!(!shape.classes_used.contains(&"sm:p-4".to_string()));
}

#[test]
fn test_extract_html_shape_empty_document() {
    let source = "<html></html>";
    let tree = parse_code(source, Language::Html).expect("Failed to parse HTML");
    let shape = extract_html_shape(&tree, None);

    assert_eq!(shape.ids.len(), 0);
    assert_eq!(shape.classes_used.len(), 0);
    assert_eq!(shape.scripts.len(), 0);
    assert_eq!(shape.styles.len(), 0);
}

#[test]
fn test_extract_html_shape_deduplicates_classes() {
    let source = r#"
<div class="custom-class">
  <span class="custom-class">Text</span>
  <p class="custom-class">More</p>
</div>
"#;
    let tree = parse_code(source, Language::Html).expect("Failed to parse HTML");
    let shape = extract_html_shape(&tree, None);

    // Should only have one instance of custom-class
    assert_eq!(
        shape
            .classes_used
            .iter()
            .filter(|c| *c == "custom-class")
            .count(),
        1
    );
}

#[test]
fn test_extract_html_shape_line_numbers() {
    let source = r#"
<html>
<body>
  <div id="first">Line 4</div>
  <div id="second">Line 5</div>
</body>
</html>
"#;
    let tree = parse_code(source, Language::Html).expect("Failed to parse HTML");
    let shape = extract_html_shape(&tree, None);

    assert_eq!(shape.ids.len(), 2);
    assert_eq!(shape.ids[0].line, 4);
    assert_eq!(shape.ids[1].line, 5);
}

#[test]
fn test_extract_html_shape_malformed_no_panic() {
    // Test that malformed HTML doesn't panic
    let source = r#"
<div id="test" class="custom
<p>Unclosed
"#;
    let tree = parse_code(source, Language::Html).expect("Failed to parse HTML");
    // Should not panic, tree-sitter handles malformed HTML gracefully
    let result = extract_html_shape(&tree, None);
    assert!(result.path.is_none());
}

#[test]
fn test_extract_html_shape_arbitrary_tailwind_values() {
    let source = r#"
<div class="w-[300px] h-[calc(100vh-64px)] custom-width">
  Content
</div>
"#;
    let tree = parse_code(source, Language::Html).expect("Failed to parse HTML");
    let shape = extract_html_shape(&tree, None);

    // Should keep custom class
    assert!(shape.classes_used.contains(&"custom-width".to_string()));

    // Should filter out arbitrary Tailwind values
    assert!(!shape.classes_used.contains(&"w-[300px]".to_string()));
    assert!(!shape
        .classes_used
        .contains(&"h-[calc(100vh-64px)]".to_string()));
}

#[test]
fn test_extract_html_shape_important_modifier() {
    let source = r#"
<div class="!bg-red-500 !important-custom">
  Content
</div>
"#;
    let tree = parse_code(source, Language::Html).expect("Failed to parse HTML");
    let shape = extract_html_shape(&tree, None);

    // Should keep custom class with ! prefix
    assert!(shape
        .classes_used
        .contains(&"!important-custom".to_string()));

    // Should filter out Tailwind utility with ! prefix
    assert!(!shape.classes_used.contains(&"!bg-red-500".to_string()));
}

#[test]
fn html_classes_keep_first_use_order() {
    let source = "<div class=\"b a flex\"><p class=\"a c\">x</p></div>";
    let tree = parse_code(source, Language::Html).expect("parse");
    let shape = extract_html_shape(&tree, None);
    assert_eq!(shape.classes_used, vec!["b".to_string(), "a".to_string(), "c".to_string()]);
}

#[test]
fn html_unquoted_attribute_is_not_read() {
    let source = "<div id=plain>x</div><span id='single'>y</span>";
    let tree = parse_code(source, Language::Html).expect("parse");
    let shape = extract_html_shape(&tree, None);
    assert_eq!(shape.ids.len(), 1);
    assert_eq!(shape.ids[0].id, "single");
    assert_eq!(shape.ids[0].tag, "span");
}
