use treesitter_mcp::analysis::templates::{
    check_template_stack, extract_blocks, find_template_dependencies, first_extends,
    include_directives, replace_blocks, replace_text, template_references, TemplateBlock,
    TemplateError,
};

fn block(name: &str, content: &str) -> TemplateBlock {
    TemplateBlock { name: name.to_string(), content: content.to_string() }
}

#[test]
fn references_list_extends_then_includes() {
    let src = "{% include 'nav.html' %}\n{% extends \"base.html\" %}\n{%include \"foot.html\"%}";
    let refs = template_references(src).expect("patterns");
    let got: Vec<(String, String, String)> =
        refs.into_iter().map(|d| (d.path, d.dependency_type, d.name)).collect();
    assert_eq!(
        got,
        vec![
            ("base.html".to_string(), "extends".to_string(), "base.html".to_string()),
            ("nav.html".to_string(), "include".to_string(), "nav.html".to_string()),
            ("foot.html".to_string(), "include".to_string(), "foot.html".to_string()),
        ]
    );
}

#[test]
fn only_existing_templates_are_dependencies() {
    let src = "{% extends \"base.html\" %}{% include \"missing.html\" %}";
    let existing = vec!["templates/base.html".to_string()];
    let deps = find_template_dependencies(src, "templates", &existing).expect("patterns");
    assert_eq!(deps.len(), 1);
    assert_eq!(deps[0].name, "base.html");
    assert_eq!(deps[0].dependency_type, "extends");
}

#[test]
fn blocks_are_extracted_and_replaced() {
    let child = "{% extends \"base.html\" %}{% block title %}Hi{% endblock %}{% block body %}B{% endblock %}";
    let blocks = extract_blocks(child).expect("patterns");
    let got: Vec<(String, String)> = blocks.iter().map(|b| (b.name.clone(), b.content.clone())).collect();
    assert_eq!(got, vec![("title".to_string(), "Hi".to_string()), ("body".to_string(), "B".to_string())]);
    let parent = "<t>{% block title %}Default{% endblock %}</t><m>{% block other %}O{% endblock %}</m>";
    let merged = replace_blocks(parent, &blocks).expect("patterns");
    assert_eq!(merged, "<t>Hi</t><m>{% block other %}O{% endblock %}</m>");
    let later = vec![block("title", "first"), block("title", "second")];
    assert_eq!(replace_blocks(parent, &later).expect("patterns"), "<t>second</t><m>{% block other %}O{% endblock %}</m>");
}

#[test]
fn extends_and_includes_are_found() {
    assert_eq!(first_extends("{% extends 'a.html' %}{% extends 'b.html' %}").unwrap(), Some("a.html".to_string()));
    assert_eq!(first_extends("<p>plain</p>").unwrap(), None);
    let inc = include_directives("x{% include \"p.html\" %}y").unwrap();
    assert_eq!(inc.len(), 1);
    assert_eq!(inc[0].name, "p.html");
    assert_eq!(inc[0].directive, "{% include \"p.html\" %}");
}

#[test]
fn replacing_matches_str_replace() {
    for (s, from, to) in [("aXbXc", "X", "--"), ("abc", "", "-"), ("", "", "-"), ("aaa", "aa", "b"), ("ab", "abc", "z")] {
        assert_eq!(replace_text(s, from, to), s.replace(from, to));
    }
}

#[test]
fn template_chains_stop_on_cycles_and_depth() {
    let stack = vec!["a.html".to_string(), "b.html".to_string()];
    assert_eq!(check_template_stack(&stack, "a.html"), Err(TemplateError::Circular("a.html".to_string())));
    assert_eq!(check_template_stack(&stack, "c.html"), Ok(()));
    let deep: Vec<String> = (0..50).map(|i| format!("t{i}.html")).collect();
    assert_eq!(check_template_stack(&deep, "x.html"), Err(TemplateError::TooDeep));
    assert_eq!(
        TemplateError::Circular("a.html".to_string()).message(),
        "Circular template dependency detected: a.html"
    );
}
