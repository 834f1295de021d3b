//! Trusted wrappers around tree-sitter: the grammars, and the parse of a
//! source into its nodes as plain values.
use vstd::prelude::*;

verus! {

#[verifier::external_type_specification]
#[verifier::external_body]
pub struct ExTsLanguageFn(tree_sitter_language::LanguageFn);

/// `tree_sitter_rust::LANGUAGE`.
#[verifier::external_body]
pub(crate) fn grammar_rust() -> tree_sitter_language::LanguageFn {
    tree_sitter_rust::LANGUAGE
}

/// `tree_sitter_python::LANGUAGE`.
#[verifier::external_body]
pub(crate) fn grammar_python() -> tree_sitter_language::LanguageFn {
    tree_sitter_python::LANGUAGE
}

/// `tree_sitter_javascript::LANGUAGE`.
#[verifier::external_body]
pub(crate) fn grammar_javascript() -> tree_sitter_language::LanguageFn {
    tree_sitter_javascript::LANGUAGE
}

/// `tree_sitter_typescript::LANGUAGE_TYPESCRIPT`.
#[verifier::external_body]
pub(crate) fn grammar_typescript() -> tree_sitter_language::LanguageFn {
    tree_sitter_typescript::LANGUAGE_TYPESCRIPT
}

/// `tree_sitter_html::LANGUAGE`.
#[verifier::external_body]
pub(crate) fn grammar_html() -> tree_sitter_language::LanguageFn {
    tree_sitter_html::LANGUAGE
}

/// `tree_sitter_css::LANGUAGE`.
#[verifier::external_body]
pub(crate) fn grammar_css() -> tree_sitter_language::LanguageFn {
    tree_sitter_css::LANGUAGE
}

/// `tree_sitter_swift::LANGUAGE`.
#[verifier::external_body]
pub(crate) fn grammar_swift() -> tree_sitter_language::LanguageFn {
    tree_sitter_swift::LANGUAGE
}

/// `tree_sitter_c_sharp::LANGUAGE`.
#[verifier::external_body]
pub(crate) fn grammar_c_sharp() -> tree_sitter_language::LanguageFn {
    tree_sitter_c_sharp::LANGUAGE
}

/// `tree_sitter_java::LANGUAGE`.
#[verifier::external_body]
pub(crate) fn grammar_java() -> tree_sitter_language::LanguageFn {
    tree_sitter_java::LANGUAGE
}

/// `tree_sitter_go::LANGUAGE`.
#[verifier::external_body]
pub(crate) fn grammar_go() -> tree_sitter_language::LanguageFn {
    tree_sitter_go::LANGUAGE
}

/// `tree_sitter_haskell::LANGUAGE`.
#[verifier::external_body]
pub(crate) fn grammar_haskell() -> tree_sitter_language::LanguageFn {
    tree_sitter_haskell::LANGUAGE
}

/// One node of a tree-sitter tree as plain values: kind, the field it
/// fills in its parent, whether it is named, its UTF-8 byte range, its
/// start and end as (row, column), and its depth below the root.
pub struct RawNode {
    pub kind: String,
    pub field: Option<String>,
    pub named: bool,
    /// Start byte, end byte, start row, start column, end row, end column.
    pub at: [usize; 6],
    pub depth: u32,
}

pub type RawView = (Seq<char>, Option<Seq<char>>, bool, (usize, usize), (usize, usize), (usize, usize), u32);

impl View for RawNode {
    type V = RawView;

    open spec fn view(&self) -> RawView {
        (
            self.kind@,
            match self.field {
                Some(f) => Some(f@),
                None => None,
            },
            self.named,
            (self.at@[0], self.at@[1]),
            (self.at@[2], self.at@[3]),
            (self.at@[4], self.at@[5]),
            self.depth,
        )
    }
}

pub open spec fn raw_views(r: Option<Vec<RawNode>>) -> Option<Seq<RawView>> {
    match r {
        Some(v) => Some(v@.map_values(|n: RawNode| n@)),
        None => None,
    }
}

/// What tree-sitter gives for `source` with the grammar of the language
/// numbered `code` (see `language_code`): the nodes of the tree in preorder;
/// none when the parser refuses the grammar or returns no tree.
pub uninterp spec fn ts_parse(code: u8, source: Seq<char>) -> Option<Seq<RawView>>;

/// `Parser::new`, `set_language` with the language's grammar, `parse`
/// without an old tree, then each node of the tree in preorder
/// (`TreeCursor::goto_descendant`) copied as plain values (see `ts_parse`).
#[verifier::external_body]
pub(crate) fn parse_raw(language: crate::parser::Language, source: &str) -> (r: Option<Vec<RawNode>>)
    ensures
        raw_views(r) == ts_parse(crate::parser::language_code(language), source@),
{
    let mut parser = tree_sitter::Parser::new();
    parser.set_language(&language.tree_sitter_language().into()).ok()?;
    let tree = parser.parse(source, None)?;
    let mut c = tree.walk();
    Some((0..tree.root_node().descendant_count()).map(|i| {
        c.goto_descendant(i);
        let n = c.node();
        let at = [n.start_byte(), n.end_byte(), n.start_position().row, n.start_position().column,
            n.end_position().row, n.end_position().column];
        RawNode { kind: n.kind().into(), field: c.field_name().map(Into::into), named: n.is_named(), at, depth: c.depth() }
    }).collect())
}

} // verus!
