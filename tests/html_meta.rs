use sitemap_from_files::html_meta::{has_noindex, Attribute, ElemName, HtmlSink};

fn name(local: &str) -> ElemName {
    ElemName { html: true, local: local.to_string() }
}

fn attr(local: &str, value: &str) -> Attribute {
    Attribute { plain: true, local: local.to_string(), value: value.to_string() }
}

fn robots_meta(content: &str) -> Vec<Attribute> {
    vec![attr("name", "robots"), attr("content", content)]
}

/// Builds `<html><head>..</head><body>..</body></html>` with the given
/// attributes on a `<meta>` in the head and one in the body.
fn document(head_meta: Option<Vec<Attribute>>, body_meta: Option<Vec<Attribute>>) -> HtmlSink {
    let mut sink = HtmlSink::new();
    let doc = sink.get_document();
    let html = sink.create_element(name("html"), Vec::new());
    sink.append(doc, html);
    let head = sink.create_element(name("head"), Vec::new());
    sink.append(html, head);
    if let Some(attrs) = head_meta {
        let meta = sink.create_element(name("meta"), attrs);
        sink.append(head, meta);
    }
    let body = sink.create_element(name("body"), Vec::new());
    sink.append(html, body);
    if let Some(attrs) = body_meta {
        let meta = sink.create_element(name("meta"), attrs);
        sink.append(body, meta);
    }
    sink
}

#[test]
fn meta_noindex_in_head_marks_document() {
    assert!(document(Some(robots_meta("noindex")), None).finish().no_index);
}

#[test]
fn meta_noindex_in_body_is_ignored() {
    assert!(!document(None, Some(robots_meta("noindex"))).finish().no_index);
}

#[test]
fn plain_document_is_indexed() {
    assert!(!document(None, None).finish().no_index);
}

#[test]
fn meta_needs_both_attributes() {
    assert!(!document(Some(vec![attr("name", "robots")]), None).finish().no_index);
    assert!(!document(Some(vec![attr("content", "noindex")]), None).finish().no_index);
    assert!(!document(Some(robots_meta("index, follow")), None).finish().no_index);
}

#[test]
fn robots_name_is_case_sensitive() {
    let attrs = vec![attr("name", "Robots"), attr("content", "noindex")];
    assert!(!document(Some(attrs), None).finish().no_index);
}

#[test]
fn content_tokens_are_trimmed_and_case_blind() {
    assert!(document(Some(robots_meta("nofollow,  NoIndex ")), None).finish().no_index);
}

#[test]
fn later_attributes_override_earlier() {
    let attrs = vec![attr("name", "robots"), attr("content", "noindex"), attr("content", "all")];
    assert!(!document(Some(attrs), None).finish().no_index);
    let mut sink = document(Some(vec![attr("name", "robots")]), None);
    sink.add_attrs_if_missing(3, vec![attr("content", "noindex")]);
    assert!(sink.finish().no_index);
}

#[test]
fn meta_in_head_of_orphan_html_is_ignored() {
    let mut sink = HtmlSink::new();
    let html = sink.create_element(name("html"), Vec::new());
    let head = sink.create_element(name("head"), Vec::new());
    sink.append(html, head);
    let meta = sink.create_element(name("meta"), robots_meta("noindex"));
    sink.append(head, meta);
    assert!(!sink.finish().no_index);
}

#[test]
fn meta_nested_deeper_is_ignored() {
    let mut sink = document(None, None);
    let div = sink.create_element(name("div"), Vec::new());
    sink.append(2, div);
    let meta = sink.create_element(name("meta"), robots_meta("noindex"));
    sink.append(div, meta);
    assert!(!sink.finish().no_index);
}

#[test]
fn non_html_namespace_is_ignored() {
    let mut sink = document(None, None);
    let svg_meta = sink.create_element(ElemName { html: false, local: "meta".to_string() }, robots_meta("noindex"));
    sink.append(2, svg_meta);
    assert!(!sink.finish().no_index);
}

#[test]
fn moved_and_removed_nodes() {
    let mut sink = document(None, Some(robots_meta("noindex")));
    // The body's meta (node 4) moved into the head (node 2).
    sink.append(2, 4);
    assert!(sink.finish().no_index);
    sink.remove_from_parent(4);
    assert!(!sink.finish().no_index);
    assert_eq!(sink.parent(4), None);
}

#[test]
fn reparenting_moves_children() {
    let mut sink = document(None, Some(robots_meta("noindex")));
    // Move the children of the body (node 3) under the head (node 2).
    sink.reparent_children(3, 2);
    assert_eq!(sink.parent(4), Some(2));
    assert!(sink.finish().no_index);
}

#[test]
fn append_before_sibling_takes_its_parent() {
    let mut sink = document(Some(vec![attr("name", "x")]), None);
    let meta = sink.create_element(name("meta"), robots_meta("noindex"));
    sink.append_before_sibling(3, meta);
    assert_eq!(sink.parent(meta), Some(2));
    assert!(sink.finish().no_index);
    let orphan = sink.create_comment();
    let other = sink.create_element(name("meta"), robots_meta("noindex"));
    sink.append_based_on_parent_node(orphan, 3, other);
    assert_eq!(sink.parent(other), Some(3));
    assert!(sink.same_node(other, other));
    assert!(!sink.same_node(other, orphan));
}

#[test]
fn other_node_kinds() {
    let mut sink = HtmlSink::new();
    let c = sink.create_comment();
    let p = sink.create_pi();
    let t = sink.get_template_contents();
    assert_eq!((c, p, t), (1, 2, 3));
    assert!(!sink.finish().no_index);
}

#[test]
fn noindex_token_detection() {
    assert!(has_noindex("noindex"));
    assert!(has_noindex("NOINDEX"));
    assert!(has_noindex("all,noindex"));
    assert!(has_noindex(" noindex ,nofollow"));
    assert!(has_noindex("\tnoindex\u{a0}"));
    assert!(!has_noindex(""));
    assert!(!has_noindex("noindexx"));
    assert!(!has_noindex("no index"));
    assert!(!has_noindex("noindex;nofollow"));
    assert!(!has_noindex(",,"));
}
