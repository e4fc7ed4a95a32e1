use dpc_lib::geometry::BoundingBox;
use dpc_lib::selectors::apply_dom_ignores;
use dpc_lib::selectors::matches_any_selector;
use dpc_lib::selectors::parse_ignore_selectors;
use dpc_lib::selectors::selector_matches;
use dpc_lib::types::Attribute;
use dpc_lib::types::DomNode;
use dpc_lib::types::DomSnapshot;
use dpc_lib::types::NormalizedView;
use dpc_lib::types::ResourceKind;

fn make_node(id: &str, tag: &str, class: Option<&str>) -> DomNode {
    let mut attrs = Vec::new();
    if let Some(class) = class {
        attrs.push(Attribute { name: "class".to_string(), value: class.to_string() });
    }
    DomNode {
        id: id.to_string(),
        tag: tag.to_string(),
        children: vec![],
        parent: None,
        attributes: attrs,
        text: None,
        bounding_box: BoundingBox { x: 0, y: 0, width: 1_000_000, height: 1_000_000 },
        computed_style: None,
    }
}

fn view_with_dom(nodes: Vec<DomNode>) -> NormalizedView {
    NormalizedView {
        kind: ResourceKind::Url,
        screenshot_path: "dummy.png".into(),
        width: 100,
        height: 100,
        dom: Some(DomSnapshot { url: None, title: None, nodes }),
        figma_tree: None,
        ocr_blocks: None,
    }
}

fn kept_ids(view: &NormalizedView) -> Vec<String> {
    view.dom.as_ref().unwrap().nodes.iter().map(|n| n.id.clone()).collect()
}

#[test]
fn parse_ignore_selectors_normalizes_and_trims() {
    let parsed = parse_ignore_selectors(Some("  #Hero , .Ad ,p  ,, "));
    assert_eq!(parsed, vec!["#hero", ".ad", "p"]);
}

#[test]
fn parse_ignore_selectors_without_input_is_empty() {
    assert!(parse_ignore_selectors(None).is_empty());
    assert!(parse_ignore_selectors(Some("")).is_empty());
    assert!(parse_ignore_selectors(Some(" , ,\t,")).is_empty());
}

#[test]
fn parse_ignore_selectors_trims_unicode_space_and_keeps_inner_space() {
    let parsed = parse_ignore_selectors(Some("\u{2003}DIV\u{00A0},a b"));
    assert_eq!(parsed, vec!["div", "a b"]);
}

#[test]
fn apply_dom_ignores_filters_on_id_class_and_tag() {
    let nodes = vec![
        make_node("hero", "div", Some("banner")),
        make_node("ad1", "div", Some("ad slot")),
        make_node("p1", "p", None),
    ];
    let view = view_with_dom(nodes);
    let selectors = vec!["#ad1".to_string(), ".banner".to_string(), "p".to_string()];
    let filtered = apply_dom_ignores(&view, &selectors);

    let kept: Vec<String> = filtered.dom.unwrap().nodes.iter().map(|n| n.id.clone()).collect();
    assert!(kept.is_empty(), "all nodes should be ignored");
}

#[test]
fn parsed_selectors_remove_all_three_nodes() {
    let nodes = vec![
        make_node("hero", "div", Some("banner")),
        make_node("ad1", "div", Some("ad slot")),
        make_node("p1", "p", None),
    ];
    let view = view_with_dom(nodes);
    let selectors = parse_ignore_selectors(Some("  #Hero , .Ad ,p  ,, "));
    let filtered = apply_dom_ignores(&view, &selectors);
    assert!(kept_ids(&filtered).is_empty());
}

#[test]
fn apply_dom_ignores_keeps_unmatched_nodes_in_order() {
    let mut parent = make_node("root", "section", None);
    parent.children = vec!["gone".to_string(), "stay".to_string()];
    let mut gone = make_node("gone", "aside", Some("promo"));
    gone.parent = Some("root".to_string());
    let mut stay = make_node("stay", "span", Some("promotion"));
    stay.parent = Some("root".to_string());
    let view = view_with_dom(vec![parent, gone, stay]);
    let filtered = apply_dom_ignores(&view, &vec![".promo".to_string()]);
    assert_eq!(kept_ids(&filtered), vec!["root", "stay"]);
    let dom = filtered.dom.unwrap();
    assert_eq!(dom.nodes[0].children, vec!["gone", "stay"]);
    assert_eq!(dom.nodes[1].parent.as_deref(), Some("root"));
    assert_eq!(filtered.screenshot_path, "dummy.png");
    assert_eq!((filtered.width, filtered.height), (100, 100));
}

#[test]
fn apply_dom_ignores_with_no_selectors_keeps_everything() {
    let view = view_with_dom(vec![make_node("a", "div", None), make_node("b", "p", None)]);
    let filtered = apply_dom_ignores(&view, &Vec::new());
    assert_eq!(kept_ids(&filtered), vec!["a", "b"]);
}

#[test]
fn apply_dom_ignores_twice_equals_once() {
    let nodes = vec![
        make_node("hero", "div", Some("banner")),
        make_node("main", "main", Some("content wide")),
        make_node("p1", "p", None),
        make_node("p2", "P", Some("lead")),
    ];
    let view = view_with_dom(nodes);
    let selectors = vec![".banner".to_string(), "p".to_string()];
    let once = apply_dom_ignores(&view, &selectors);
    let twice = apply_dom_ignores(&once, &selectors);
    assert_eq!(kept_ids(&once), vec!["main"]);
    assert_eq!(kept_ids(&twice), kept_ids(&once));
}

#[test]
fn apply_dom_ignores_leaves_a_view_without_dom_alone() {
    let mut view = view_with_dom(vec![]);
    view.dom = None;
    view.kind = ResourceKind::Image;
    let filtered = apply_dom_ignores(&view, &vec!["p".to_string()]);
    assert!(filtered.dom.is_none());
    assert_eq!(filtered.kind, ResourceKind::Image);
}

#[test]
fn id_selector_matches_attribute_or_node_id_ignoring_case() {
    let mut node = make_node("n7", "div", None);
    node.attributes.push(Attribute { name: "id".to_string(), value: "Hero".to_string() });
    assert!(selector_matches(&node, "#hero"));
    assert!(selector_matches(&node, "#HERO"));
    assert!(selector_matches(&node, "#N7"));
    assert!(!selector_matches(&node, "#her"));
    assert!(!selector_matches(&node, "#"));
    let bare = make_node("x", "div", None);
    assert!(selector_matches(&bare, "#"), "a missing id attribute counts as empty");
}

#[test]
fn attribute_names_are_case_sensitive() {
    let mut node = make_node("n", "div", None);
    node.attributes.push(Attribute { name: "ID".to_string(), value: "hero".to_string() });
    node.attributes.push(Attribute { name: "Class".to_string(), value: "ad".to_string() });
    assert!(!selector_matches(&node, "#hero"));
    assert!(!selector_matches(&node, ".ad"));
}

#[test]
fn class_selector_matches_whole_words_only() {
    let node = make_node("n", "div", Some("  Ad\tslot\u{00A0}wide "));
    assert!(selector_matches(&node, ".ad"));
    assert!(selector_matches(&node, ".SLOT"));
    assert!(selector_matches(&node, ".wide"));
    assert!(!selector_matches(&node, ".a"));
    assert!(!selector_matches(&node, ".ad slot"));
    assert!(!selector_matches(&node, "."));
    assert!(!selector_matches(&make_node("m", "div", None), ".ad"));
}

#[test]
fn tag_selector_ignores_case() {
    let node = make_node("n", "DIV", None);
    assert!(selector_matches(&node, "div"));
    assert!(!selector_matches(&node, "di"));
    assert!(!selector_matches(&node, ""));
    assert!(matches_any_selector(&node, &vec!["p".to_string(), "div".to_string()]));
    assert!(!matches_any_selector(&node, &Vec::new()));
}
