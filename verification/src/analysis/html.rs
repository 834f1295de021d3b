//! The shape of an HTML file: elements with ids, the custom (non-utility)
//! classes used, scripts and stylesheets.
use vstd::prelude::*;
use crate::analysis::shape::{
    HtmlFileShape, HtmlIdInfo, ScriptInfo, StyleInfo, node_line, opt_view, start_line,
};
use crate::analysis::tailwind::{is_tailwind_utility, tailwind_utility};
use crate::analysis::typed_shape::{first_child_of_kind, first_of_kind};
use crate::syntax::SyntaxTree;
use crate::text::{
    char_views, chars_of, eq_lit, push_str, split_words, string_of, trim_char, trim_char_exec,
    views, words,
};

verus! {

// ---------------------------------------------------------------------------
// Attributes
// ---------------------------------------------------------------------------

/// The value of attribute `name` among the children `cs` of an attribute
/// node, once its name has been seen (`found`): the first quoted value
/// after the name, without its quotes.
pub open spec fn value_after_name(t: SyntaxTree, cs: Seq<usize>, name: Seq<char>, found: bool) -> Option<
    Seq<char>,
>
    decreases cs.len(),
{
    if cs.len() == 0 {
        None
    } else {
        let c = cs[0] as int;
        if t.kind(c) == "attribute_name"@ {
            value_after_name(t, cs.drop_first(), name, found || t.text(c) == name)
        } else if found && t.kind(c) == "quoted_attribute_value"@ {
            Some(trim_char(trim_char(t.text(c), '"'), '\''))
        } else {
            value_after_name(t, cs.drop_first(), name, found)
        }
    }
}

/// The value of attribute `name` among the children `cs` of a tag: from the
/// first attribute that gives one.
pub open spec fn attribute_in(t: SyntaxTree, cs: Seq<usize>, name: Seq<char>) -> Option<Seq<char>>
    decreases cs.len(),
{
    if cs.len() == 0 {
        None
    } else {
        let c = cs[0] as int;
        let v = if t.kind(c) == "attribute"@ {
            value_after_name(t, t.children(c), name, false)
        } else {
            None
        };
        match v {
            Some(x) => Some(x),
            None => attribute_in(t, cs.drop_first(), name),
        }
    }
}

/// The value of attribute `name` of tag node `i`.
pub open spec fn attribute_of(t: SyntaxTree, i: int, name: Seq<char>) -> Option<Seq<char>> {
    attribute_in(t, t.children(i), name)
}

/// The value of attribute `name` of tag node `i` (see `attribute_of`).
pub fn extract_attribute(tree: &SyntaxTree, i: usize, name: &str) -> (r: Option<String>)
    requires
        tree.wf(),
    ensures
        opt_view(r) == attribute_of(*tree, i as int, name@),
{
    let cs = tree.children_of(i);
    let mut k: usize = 0;
    assert(cs@.skip(0) =~= cs@);
    while k < cs.len()
        invariant
            tree.wf(),
            cs@ == tree.children(i as int),
            forall|j: int| 0 <= j < cs@.len() ==> (#[trigger] cs@[j]) < tree.len(),
            k <= cs.len(),
            attribute_of(*tree, i as int, name@) == attribute_in(*tree, cs@.skip(k as int), name@),
        decreases cs.len() - k,
    {
        let c = cs[k];
        assert(cs@.skip(k as int)[0] == c);
        assert(cs@.skip(k as int).drop_first() =~= cs@.skip(k + 1));
        if tree.kind_is(c, "attribute") {
            let ac = tree.children_of(c);
            let mut found = false;
            let mut q: usize = 0;
            assert(ac@.skip(0) =~= ac@);
            while q < ac.len()
                invariant
                    tree.wf(),
                    ac@ == tree.children(c as int),
                    forall|j: int| 0 <= j < ac@.len() ==> (#[trigger] ac@[j]) < tree.len(),
                    q <= ac.len(),
                    k < cs@.len(),
                    cs@.skip(k as int)[0] == c,
                    tree.kind(c as int) == "attribute"@,
                    attribute_of(*tree, i as int, name@) == attribute_in(
                        *tree,
                        cs@.skip(k as int),
                        name@,
                    ),
                    value_after_name(*tree, tree.children(c as int), name@, false)
                        == value_after_name(*tree, ac@.skip(q as int), name@, found),
                decreases ac.len() - q,
            {
                let x = ac[q];
                assert(ac@.skip(q as int)[0] == x);
                assert(ac@.skip(q as int).drop_first() =~= ac@.skip(q + 1));
                if tree.kind_is(x, "attribute_name") {
                    let text = chars_of(tree.node_text(x).as_str());
                    if eq_lit(text.as_slice(), name) {
                        found = true;
                    }
                } else if found && tree.kind_is(x, "quoted_attribute_value") {
                    let text = chars_of(tree.node_text(x).as_str());
                    let a = trim_char_exec(text.as_slice(), '"');
                    let b = trim_char_exec(a.as_slice(), '\'');
                    return Some(string_of(b.as_slice()));
                }
                q = q + 1;
            }
        }
        k = k + 1;
    }
    None
}

// ---------------------------------------------------------------------------
// The shape
// ---------------------------------------------------------------------------

/// Tag, id and line of an element with an id.
pub type IdView = (Seq<char>, Seq<char>, usize);

/// Source, inline and line of a script.
pub type ScriptView = (Option<Seq<char>>, bool, usize);

/// Link, inline and line of a style.
pub type StyleView = (Option<Seq<char>>, bool, usize);

/// What an HTML document gathers: ids, classes (all of them, in order),
/// scripts and styles.
pub type HtmlGather = (Seq<IdView>, Seq<Seq<char>>, Seq<ScriptView>, Seq<StyleView>);

/// The tag name of start tag `i`: its first `tag_name` child, or empty.
pub open spec fn tag_name_of(t: SyntaxTree, i: int) -> Seq<char> {
    match first_of_kind(t, t.children(i), "tag_name"@) {
        Some(n) => t.text(n as int),
        None => seq![],
    }
}

/// Node `i` is the start tag of an element of kind `kind`.
pub open spec fn start_tag_of(t: SyntaxTree, i: int, kind: Seq<char>) -> bool {
    t.kind(i) == "start_tag"@ && (t.parent(i) matches Some(p) && t.kind(p as int) == kind)
}

/// Gather start tag `i`: an element's id, classes and stylesheet link; a
/// script with its source; an inline style.
pub open spec fn html_step(t: SyntaxTree, g: HtmlGather, i: int) -> HtmlGather {
    let line = node_line(t, i);
    if start_tag_of(t, i, "element"@) {
        let tag = tag_name_of(t, i);
        let ids = match attribute_of(t, i, "id"@) {
            Some(id) => g.0.push((tag, id, line)),
            None => g.0,
        };
        let classes = match attribute_of(t, i, "class"@) {
            Some(c) => g.1 + words(c),
            None => g.1,
        };
        let styles = if tag == "link"@ && attribute_of(t, i, "rel"@) == Some("stylesheet"@) {
            g.3.push((attribute_of(t, i, "href"@), false, line))
        } else {
            g.3
        };
        (ids, classes, g.2, styles)
    } else if start_tag_of(t, i, "script_element"@) {
        let src = attribute_of(t, i, "src"@);
        (g.0, g.1, g.2.push((src, src is None, line)), g.3)
    } else if start_tag_of(t, i, "style_element"@) {
        (g.0, g.1, g.2, g.3.push((None, true, line)))
    } else {
        g
    }
}

/// What the first `k` nodes gather.
pub open spec fn html_gather(t: SyntaxTree, k: int) -> HtmlGather
    decreases k,
{
    if k <= 0 {
        (seq![], seq![], seq![], seq![])
    } else {
        html_step(t, html_gather(t, k - 1), k - 1)
    }
}

/// The custom classes among `cs`: those that are not Tailwind utilities,
/// each once, in order of first use.
pub open spec fn custom_classes(cs: Seq<Seq<char>>) -> Seq<Seq<char>>
    decreases cs.len(),
{
    if cs.len() == 0 {
        seq![]
    } else {
        let r = custom_classes(cs.drop_last());
        let c = cs.last();
        if tailwind_utility(c) || r.contains(c) {
            r
        } else {
            r.push(c)
        }
    }
}

pub open spec fn id_views(v: Seq<HtmlIdInfo>) -> Seq<IdView> {
    v.map_values(|x: HtmlIdInfo| (x.tag@, x.id@, x.line))
}

pub open spec fn script_views(v: Seq<ScriptInfo>) -> Seq<ScriptView> {
    v.map_values(|x: ScriptInfo| (opt_view(x.src), x.inline, x.line))
}

pub open spec fn style_views(v: Seq<StyleInfo>) -> Seq<StyleView> {
    v.map_values(|x: StyleInfo| (opt_view(x.href), x.inline, x.line))
}

fn tag_name(tree: &SyntaxTree, i: usize) -> (r: String)
    requires
        tree.wf(),
    ensures
        r@ == tag_name_of(*tree, i as int),
{
    match first_child_of_kind(tree, i, "tag_name") {
        Some(n) => tree.node_text(n),
        None => String::new(),
    }
}

fn is_start_tag_of(tree: &SyntaxTree, i: usize, kind: &str) -> (r: bool)
    requires
        tree.wf(),
        i < tree.len(),
    ensures
        r == start_tag_of(*tree, i as int, kind@),
{
    if !tree.kind_is(i, "start_tag") {
        return false;
    }
    match tree.nodes[i].parent {
        Some(p) => tree.kind_is(p, kind),
        None => false,
    }
}

fn contains_string(v: &Vec<String>, s: &String) -> (r: bool)
    ensures
        r == views(v@).contains(s@),
{
    let mut k: usize = 0;
    while k < v.len()
        invariant
            k <= v.len(),
            forall|j: int| 0 <= j < k ==> v@[j]@ != s@,
        decreases v.len() - k,
    {
        if crate::text::str_eq(v[k].as_str(), s.as_str()) {
            assert(views(v@)[k as int] == s@);
            return true;
        }
        k = k + 1;
    }
    assert forall|j: int| 0 <= j < views(v@).len() implies views(v@)[j] != s@ by {
        assert(views(v@)[j] == v@[j]@);
    }
    false
}

/// The shape of a parsed HTML document: the elements with an id (tag, id,
/// line), the custom classes used (each once, Tailwind utilities left
/// out), the scripts (with their source; inline without one) and the
/// styles (stylesheet links and inline style elements), in document order.
pub fn extract_html_shape(tree: &SyntaxTree, file_path: Option<&str>) -> (r: HtmlFileShape)
    requires
        tree.wf(),
    ensures
        match file_path {
            Some(p) => r.path matches Some(q) && q@ == p@,
            None => r.path is None,
        },
        id_views(r.ids@) == html_gather(*tree, tree.len()).0,
        views(r.classes_used@) == custom_classes(html_gather(*tree, tree.len()).1),
        script_views(r.scripts@) == html_gather(*tree, tree.len()).2,
        style_views(r.styles@) == html_gather(*tree, tree.len()).3,
{
    let mut ids: Vec<HtmlIdInfo> = Vec::new();
    let mut classes: Vec<String> = Vec::new();
    let mut scripts: Vec<ScriptInfo> = Vec::new();
    let mut styles: Vec<StyleInfo> = Vec::new();
    let mut k: usize = 0;
    while k < tree.nodes.len()
        invariant
            tree.wf(),
            k <= tree.len(),
            (id_views(ids@), views(classes@), script_views(scripts@), style_views(styles@))
                == html_gather(*tree, k as int),
        decreases tree.nodes.len() - k,
    {
        let line = start_line(tree, k);
        if is_start_tag_of(tree, k, "element") {
            let tag = tag_name(tree, k);
            if let Some(id) = extract_attribute(tree, k, "id") {
                let x = HtmlIdInfo { tag: tag.clone(), id, line };
                let ghost before = id_views(ids@);
                ids.push(x);
                assert(id_views(ids@) =~= before.push((x.tag@, x.id@, x.line)));
            }
            if let Some(c) = extract_attribute(tree, k, "class") {
                let ws = split_words(chars_of(c.as_str()).as_slice());
                let ghost base = views(classes@);
                let mut q: usize = 0;
                assert(char_views(ws@).take(0) =~= seq![]);
                assert(base + char_views(ws@).take(0) =~= base);
                while q < ws.len()
                    invariant
                        q <= ws@.len(),
                        views(classes@) == base + char_views(ws@).take(q as int),
                    decreases ws@.len() - q,
                {
                    let w = string_of(ws[q].as_slice());
                    let ghost before = views(classes@);
                    classes.push(w);
                    assert(views(classes@) =~= before.push(w@));
                    assert(char_views(ws@).take(q + 1) =~= char_views(ws@).take(q as int).push(
                        ws@[q as int]@,
                    ));
                    q = q + 1;
                }
                assert(char_views(ws@).take(ws@.len() as int) =~= char_views(ws@));
            }
            if crate::text::str_is(tag.as_str(), "link") {
                if let Some(rel) = extract_attribute(tree, k, "rel") {
                    if crate::text::str_is(rel.as_str(), "stylesheet") {
                        proof {
                            reveal_strlit("stylesheet");
                        }
                        let x = StyleInfo {
                            href: extract_attribute(tree, k, "href"),
                            inline: false,
                            line,
                        };
                        let ghost before = style_views(styles@);
                        styles.push(x);
                        assert(style_views(styles@) =~= before.push(
                            (opt_view(x.href), false, line),
                        ));
                    }
                }
            }
            proof {
                reveal_strlit("stylesheet");
            }
        } else if is_start_tag_of(tree, k, "script_element") {
            let src = extract_attribute(tree, k, "src");
            let inline = src.is_none();
            let x = ScriptInfo { src, inline, line };
            let ghost before = script_views(scripts@);
            scripts.push(x);
            assert(script_views(scripts@) =~= before.push((opt_view(x.src), x.inline, line)));
        } else if is_start_tag_of(tree, k, "style_element") {
            let x = StyleInfo { href: None, inline: true, line };
            let ghost before = style_views(styles@);
            styles.push(x);
            assert(style_views(styles@) =~= before.push((None, true, line)));
        }
        k = k + 1;
    }
    // Custom classes, each once.
    let ghost all = views(classes@);
    let mut used: Vec<String> = Vec::new();
    let mut q: usize = 0;
    assert(all.take(0) =~= seq![]);
    while q < classes.len()
        invariant
            all == views(classes@),
            q <= classes@.len(),
            views(used@) == custom_classes(all.take(q as int)),
        decreases classes@.len() - q,
    {
        let c = &classes[q];
        assert(all.take(q + 1).drop_last() =~= all.take(q as int));
        assert(all.take(q + 1).last() == c@);
        if !is_tailwind_utility(c.as_str()) && !contains_string(&used, c) {
            let ghost before = views(used@);
            used.push(c.clone());
            assert(views(used@) =~= before.push(c@));
        }
        q = q + 1;
    }
    assert(all.take(classes@.len() as int) =~= all);
    let path = match file_path {
        Some(p) => {
            let mut s = String::new();
            push_str(&mut s, p);
            Some(s)
        },
        None => None,
    };
    HtmlFileShape { path, ids, classes_used: used, scripts, styles }
}

} // verus!
