use treesitter_mcp::analysis::css::extract_css_tailwind;

#[test]
fn test_extract_css_tailwind_theme_variables() {
    let source = r#"
@theme {
  --color-primary: oklch(0.6 0.2 250);
  --color-secondary: #3b82f6;
  --spacing-lg: 1.5rem;
}
"#;
    let shape = extract_css_tailwind(source, Some("test.css")).expect("Failed to extract CSS");

    assert_eq!(shape.theme.len(), 3);
    assert_eq!(shape.theme[0].name, "--color-primary");
    assert_eq!(shape.theme[0].value, "oklch(0.6 0.2 250)");
    assert_eq!(shape.theme[0].line, 3);

    assert_eq!(shape.theme[1].name, "--color-secondary");
    assert_eq!(shape.theme[1].value, "#3b82f6");

    assert_eq!(shape.theme[2].name, "--spacing-lg");
    assert_eq!(shape.theme[2].value, "1.5rem");
}

#[test]
fn test_extract_css_tailwind_custom_classes() {
    let source = r#"
@layer components {
  .btn-primary {
@apply bg-blue-500 text-white px-4 py-2 rounded;
  }
  .card {
@apply border rounded-lg p-4;
  }
}
"#;
    let shape = extract_css_tailwind(source, None).expect("Failed to extract CSS");

    assert_eq!(shape.custom_classes.len(), 2);

    let btn = &shape.custom_classes[0];
    assert_eq!(btn.name, "btn-primary");
    assert_eq!(btn.applied_utilities.len(), 5);
    assert!(btn.applied_utilities.contains(&"bg-blue-500".to_string()));
    assert!(btn.applied_utilities.contains(&"text-white".to_string()));
    assert_eq!(btn.layer, Some("components".to_string()));

    let card = &shape.custom_classes[1];
    assert_eq!(card.name, "card");
    assert_eq!(card.applied_utilities.len(), 3);
    assert!(card.applied_utilities.contains(&"border".to_string()));
}

#[test]
fn test_extract_css_tailwind_utilities_layer() {
    let source = r#"
@layer utilities {
  .text-balance {
text-wrap: balance;
  }
}
"#;
    let shape = extract_css_tailwind(source, None).expect("Failed to extract CSS");

    assert_eq!(shape.custom_classes.len(), 1);
    assert_eq!(shape.custom_classes[0].name, "text-balance");
    assert_eq!(
        shape.custom_classes[0].layer,
        Some("utilities".to_string())
    );
}

#[test]
fn test_extract_css_tailwind_keyframes() {
    let source = r#"
@keyframes spin {
  from { transform: rotate(0deg); }
  to { transform: rotate(360deg); }
}

@keyframes fade-in {
  0% { opacity: 0; }
  100% { opacity: 1; }
}
"#;
    let shape = extract_css_tailwind(source, None).expect("Failed to extract CSS");

    assert_eq!(shape.keyframes.len(), 2);
    assert_eq!(shape.keyframes[0].name, "spin");
    assert_eq!(shape.keyframes[0].line, 2);
    assert_eq!(shape.keyframes[1].name, "fade-in");
    assert_eq!(shape.keyframes[1].line, 7);
}

#[test]
fn test_extract_css_tailwind_empty_source() {
    let source = "";
    let shape = extract_css_tailwind(source, None).expect("Failed to extract CSS");

    assert_eq!(shape.theme.len(), 0);
    assert_eq!(shape.custom_classes.len(), 0);
    assert_eq!(shape.keyframes.len(), 0);
}

#[test]
fn test_extract_css_tailwind_nested_braces() {
    let source = r#"
@layer components {
  .complex {
@apply bg-blue-500;
&:hover {
  @apply bg-blue-600;
}
  }
}
"#;
    let shape = extract_css_tailwind(source, None).expect("Failed to extract CSS");

    // Should extract the outer class
    assert!(shape.custom_classes.iter().any(|c| c.name == "complex"));
}

#[test]
fn test_extract_css_tailwind_multiple_layers() {
    let source = r#"
@layer components {
  .btn { @apply px-4 py-2; }
}

@layer utilities {
  .custom-util { color: red; }
}
"#;
    let shape = extract_css_tailwind(source, None).expect("Failed to extract CSS");

    assert_eq!(shape.custom_classes.len(), 2);
    assert_eq!(
        shape.custom_classes[0].layer,
        Some("components".to_string())
    );
    assert_eq!(
        shape.custom_classes[1].layer,
        Some("utilities".to_string())
    );
}

#[test]
fn test_extract_css_tailwind_malformed_no_panic() {
    // Test that malformed CSS doesn't panic
    let source = r#"
@theme {
  --incomplete
}
@layer components {
  .unclosed {
"#;
    // Should not panic, just extract what it can
    let result = extract_css_tailwind(source, None);
    assert!(result.is_ok());
}

#[test]
fn css_lines_count_multibyte_characters_once() {
    let source = "/* é */\n@keyframes pulse {\n}\n";
    let shape = extract_css_tailwind(source, None).expect("css");
    assert_eq!(shape.keyframes.len(), 1);
    assert_eq!(shape.keyframes[0].name, "pulse");
    assert_eq!(shape.keyframes[0].line, 2);
}

#[test]
fn css_empty_layer_is_skipped() {
    let source = "@layer components {}\n@layer utilities { .x { @apply a  b; } }";
    let shape = extract_css_tailwind(source, None).expect("css");
    assert_eq!(shape.custom_classes.len(), 1);
    assert_eq!(shape.custom_classes[0].name, "x");
    assert_eq!(shape.custom_classes[0].applied_utilities, vec!["a".to_string(), "b".to_string()]);
    assert_eq!(shape.custom_classes[0].line, 2);
}
