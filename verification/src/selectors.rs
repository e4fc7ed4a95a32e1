//! Ignore selectors: parsing them and removing the nodes that they match.
//!
//! A selector is `#id`, `.class` or a bare tag name. Matching is
//! case-insensitive for ASCII letters. Filtering removes the matched nodes
//! from the flat node list and leaves every `children` and `parent` reference
//! as it is, so references may dangle afterwards.

use crate::text::chars_of;
use crate::text::eq_ignore_case;
use crate::text::is_space;
use crate::text::lower_seq;
use crate::text::lower_string_of_range;
use crate::text::range_eq_ignore_case;
use crate::text::str_equal;
use crate::text::char_is_space;
use crate::text::lemma_leading_spaces;
use crate::text::lemma_trailing_spaces;
use crate::text::trim;
use crate::text::trim_bounds;
use crate::types::dom::Attribute;
use crate::types::dom::AttributeModel;
use crate::types::dom::DomNode;
use crate::types::dom::names_distinct;
use crate::types::dom::DomNodeModel;
use crate::types::dom::DomSnapshot;
use crate::types::dom::DomSnapshotModel;
use crate::types::view::NormalizedView;
use crate::types::view::NormalizedViewModel;
use vstd::prelude::*;

verus! {

/// Index of the first `sep` in `s`, or the length of `s` where there is none.
pub open spec fn first_index(s: Seq<char>, sep: char) -> int
    decreases s.len(),
{
    if s.len() == 0 || s[0] == sep {
        0
    } else {
        1 + first_index(s.drop_first(), sep)
    }
}

/// The first index of `sep` is `i` where no character before `i` is `sep`
/// and the one at `i` is, or `s` ends there.
pub proof fn lemma_first_index(s: Seq<char>, sep: char, i: int)
    requires
        0 <= i <= s.len(),
        forall|k: int| 0 <= k < i ==> s[k] != sep,
        i == s.len() || s[i] == sep,
    ensures
        first_index(s, sep) == i,
    decreases i,
{
    if i > 0 {
        let t = s.drop_first();
        assert forall|k: int| 0 <= k < i - 1 implies t[k] != sep by {
            assert(t[k] == s[k + 1]);
        }
        lemma_first_index(t, sep, i - 1);
    }
}

/// The part as a selector: trimmed and lower-cased, and dropped when nothing
/// is left.
pub open spec fn selector_of(part: Seq<char>) -> Seq<Seq<char>> {
    let text = lower_seq(trim(part));
    if text.len() > 0 {
        seq![text]
    } else {
        Seq::empty()
    }
}

/// The selectors that a comma-separated list names, in order.
pub open spec fn selectors_in(s: Seq<char>) -> Seq<Seq<char>>
    decreases s.len(),
{
    let i = first_index(s, ',');
    if i < 0 || i >= s.len() {
        selector_of(s)
    } else {
        selector_of(s.subrange(0, i)) + selectors_in(s.subrange(i + 1, s.len() as int))
    }
}

/// The selectors of an optional list: none where there is no list.
pub open spec fn parsed_selectors(raw: Option<Seq<char>>) -> Seq<Seq<char>> {
    match raw {
        Some(s) => selectors_in(s),
        None => Seq::empty(),
    }
}

/// The text is a selector as parsing gives it: not empty, without a comma,
/// without white space at either end, and in lower case.
pub open spec fn is_plain_selector(s: Seq<char>) -> bool {
    &&& s.len() > 0
    &&& forall|i: int| 0 <= i < s.len() ==> #[trigger] s[i] != ','
    &&& !is_space(s[0])
    &&& !is_space(s.last())
    &&& lower_seq(s) == s
}

/// The selectors of a list, with a comma between each two.
pub open spec fn joined(list: Seq<Seq<char>>) -> Seq<char>
    decreases list.len(),
{
    if list.len() == 0 {
        Seq::empty()
    } else if list.len() == 1 {
        list[0]
    } else {
        list[0] + seq![','] + joined(list.drop_first())
    }
}

proof fn lemma_plain_selector_stays(s: Seq<char>)
    requires
        is_plain_selector(s),
    ensures
        selector_of(s) == seq![s],
{
    lemma_leading_spaces(s, 0);
    let t = s.subrange(0, s.len() as int);
    assert(t =~= s);
    lemma_trailing_spaces(t, 0);
    assert(trim(s) =~= s);
}

/// Parsing a list of selectors that was joined with commas gives the list
/// back.
pub proof fn law_parsing_a_joined_list_gives_it_back(list: Seq<Seq<char>>)
    requires
        forall|i: int| 0 <= i < list.len() ==> is_plain_selector(#[trigger] list[i]),
    ensures
        selectors_in(joined(list)) == list,
    decreases list.len(),
{
    let text = joined(list);
    if list.len() == 0 {
        let empty = Seq::<char>::empty();
        lemma_leading_spaces(empty, 0);
        assert(empty.subrange(0, 0) =~= empty);
        lemma_trailing_spaces(empty, 0);
        assert(trim(empty) =~= empty);
        assert(lower_seq(empty) =~= empty);
        assert(selectors_in(text) =~= list);
    } else if list.len() == 1 {
        let s = list[0];
        lemma_first_index(s, ',', s.len() as int);
        lemma_plain_selector_stays(s);
        assert(seq![s] =~= list);
    } else {
        let s = list[0];
        let rest = list.drop_first();
        let n = s.len() as int;
        assert forall|i: int| 0 <= i < rest.len() implies is_plain_selector(#[trigger] rest[i]) by {
            assert(rest[i] == list[i + 1]);
        }
        law_parsing_a_joined_list_gives_it_back(rest);
        assert forall|k: int| 0 <= k < n implies text[k] != ',' by {
            assert(text[k] == s[k]);
        }
        assert(text[n] == ',');
        lemma_first_index(text, ',', n);
        assert(text.subrange(0, n) =~= s);
        assert(text.subrange(n + 1, text.len() as int) =~= joined(rest));
        lemma_plain_selector_stays(s);
        assert(seq![s] + rest =~= list);
    }
}

/// Parses the comma-separated form of ignore selectors.
pub fn parse_ignore_selectors(raw: Option<&str>) -> (out: Vec<String>)
    ensures
        out.deep_view() == parsed_selectors(
            match raw {
                Some(s) => Some(s@),
                None => None,
            },
        ),
{
    let mut out: Vec<String> = Vec::new();
    let text = match raw {
        Some(s) => s,
        None => {
            assert(out.deep_view() =~= Seq::<Seq<char>>::empty());
            return out;
        },
    };
    let v = chars_of(text);
    let n = v.len();
    let mut start: usize = 0;
    assert(v@.subrange(0, n as int) =~= v@);
    assert(out.deep_view() =~= Seq::<Seq<char>>::empty());
    loop
        invariant_except_break
            selectors_in(v@) == out.deep_view() + selectors_in(v@.subrange(start as int, n as int)),
        invariant
            n == v.len(),
            start <= n,
        ensures
            selectors_in(v@) == out.deep_view(),
        decreases n - start,
    {
        let ghost rest = v@.subrange(start as int, n as int);
        let mut i: usize = start;
        while i < n && v[i] != ','
            invariant
                start <= i <= n,
                n == v.len(),
                rest == v@.subrange(start as int, n as int),
                forall|k: int| 0 <= k < i - start ==> rest[k] != ',',
            decreases n - i,
        {
            i = i + 1;
        }
        proof {
            lemma_first_index(rest, ',', i - start);
            assert(rest.subrange(0, i - start) =~= v@.subrange(start as int, i as int));
        }
        let (a, b) = trim_bounds(&v, start, i);
        let ghost before = out.deep_view();
        if a < b {
            let word = lower_string_of_range(&v, a, b);
            out.push(word);
        }
        assert(out.deep_view() =~= before + selector_of(v@.subrange(start as int, i as int)));
        if i == n {
            assert(rest.subrange(0, i - start) =~= rest);
            assert(selectors_in(rest) == selector_of(rest));
            break;
        }
        proof {
            assert(rest.subrange(i - start + 1, rest.len() as int) =~= v@.subrange(
                i + 1,
                n as int,
            ));
            assert(before + (selector_of(rest.subrange(0, i - start)) + selectors_in(
                v@.subrange(i + 1, n as int),
            )) =~= (before + selector_of(rest.subrange(0, i - start))) + selectors_in(
                v@.subrange(i + 1, n as int),
            ));
        }
        start = i + 1;
    }
    out
}

/// `s[a..b]` is a word of `s`: a longest run of characters that are not white
/// space.
pub open spec fn is_word(s: Seq<char>, a: int, b: int) -> bool {
    &&& 0 <= a < b <= s.len()
    &&& forall|k: int| a <= k < b ==> !is_space(#[trigger] s[k])
    &&& (a == 0 || is_space(s[a - 1]))
    &&& (b == s.len() || is_space(s[b]))
}

/// Some word of `s` equals `word` up to ASCII case.
pub open spec fn has_word(s: Seq<char>, word: Seq<char>) -> bool {
    exists|a: int, b: int| #[trigger] is_word(s, a, b) && eq_ignore_case(s.subrange(a, b), word)
}

/// Whether some white-space-separated word of `s` equals `word` up to ASCII
/// case.
pub fn contains_word(s: &Vec<char>, word: &Vec<char>) -> (r: bool)
    ensures
        r == has_word(s@, word@),
{
    let n = s.len();
    let mut i: usize = 0;
    while i < n
        invariant
            i <= n,
            n == s.len(),
            i == 0 || i == n || is_space(s@[i - 1]) || is_space(s@[i as int]),
            forall|a: int, b: int|
                #[trigger] is_word(s@, a, b) && b <= i ==> !eq_ignore_case(s@.subrange(a, b), word@),
            forall|a: int, b: int| #[trigger] is_word(s@, a, b) ==> b <= i || a >= i,
        decreases n - i,
    {
        if char_is_space(s[i]) {
            assert forall|a: int, b: int| #[trigger] is_word(s@, a, b) implies b <= i + 1 || a >= i
                + 1 by {
                if is_word(s@, a, b) && !(b <= i) {
                    assert(a >= i);
                    assert(!is_space(s@[a]));
                }
            }
            assert forall|a: int, b: int| #[trigger] is_word(s@, a, b) && b <= i + 1 implies b
                <= i by {
                if is_word(s@, a, b) && b == i + 1 {
                    assert(!is_space(s@[b - 1]));
                }
            }
            i = i + 1;
        } else {
            let a0 = i;
            let mut j: usize = i;
            while j < n && !char_is_space(s[j])
                invariant
                    a0 <= j <= n,
                    n == s.len(),
                    forall|k: int| a0 <= k < j ==> !is_space(#[trigger] s@[k]),
                decreases n - j,
            {
                j = j + 1;
            }
            assert(a0 < j);
            assert(a0 == 0 || is_space(s@[a0 - 1])) by {
                if a0 > 0 && !is_space(s@[a0 - 1]) {
                    assert(is_space(s@[a0 as int]));
                }
            }
            assert(is_word(s@, a0 as int, j as int));
            if range_eq_ignore_case(s, a0, j, word) {
                return true;
            }
            assert forall|a: int, b: int| #[trigger] is_word(s@, a, b) implies (b <= j || a >= j)
                && (b <= j ==> b <= a0 || (a == a0 && b == j)) by {
                if is_word(s@, a, b) {
                    if a < j && j < b {
                        assert(!is_space(s@[j as int]));
                        assert(!is_space(s@[j - 1]));
                    }
                    if b <= j && b > a0 {
                        assert(a >= a0);
                        if a > a0 {
                            assert(!is_space(s@[a - 1]));
                        }
                        if b < j {
                            assert(!is_space(s@[b]));
                        }
                    }
                }
            }
            i = j;
        }
    }
    false
}

/// The value of the first attribute named exactly `name`.
pub open spec fn attribute_value(attrs: Seq<AttributeModel>, name: Seq<char>) -> Option<Seq<char>>
    decreases attrs.len(),
{
    if attrs.len() == 0 {
        None
    } else if attrs[0].name == name {
        Some(attrs[0].value)
    } else {
        attribute_value(attrs.drop_first(), name)
    }
}

/// Among attributes with distinct names, looking a name up gives the value
/// of the one attribute that has it, wherever it stands.
pub proof fn law_lookup_finds_the_one_attribute(attrs: Seq<AttributeModel>, i: int)
    requires
        names_distinct(attrs),
        0 <= i < attrs.len(),
    ensures
        attribute_value(attrs, attrs[i].name) == Some(attrs[i].value),
    decreases attrs.len(),
{
    if i > 0 {
        let rest = attrs.drop_first();
        assert(attrs[0].name != attrs[i].name);
        assert forall|a: int, b: int| 0 <= a < b < rest.len() implies (#[trigger] rest[a]).name != (
        #[trigger] rest[b]).name by {
            assert(rest[a] == attrs[a + 1] && rest[b] == attrs[b + 1]);
        }
        assert(rest[i - 1] == attrs[i]);
        law_lookup_finds_the_one_attribute(rest, i - 1);
    }
}

/// Whether `selector` matches `node`.
///
/// `#id` matches on the `id` attribute, which counts as empty where the node
/// has none, or on the node's own id. `.class` matches on any word of the
/// `class` attribute. Anything else is compared with the tag.
pub open spec fn selector_matches_node(node: DomNodeModel, selector: Seq<char>) -> bool {
    if selector.len() > 0 && selector[0] == '#' {
        let wanted = selector.subrange(1, selector.len() as int);
        let attr = match attribute_value(node.attributes, "id"@) {
            Some(v) => v,
            None => Seq::empty(),
        };
        eq_ignore_case(attr, wanted) || eq_ignore_case(node.id, wanted)
    } else if selector.len() > 0 && selector[0] == '.' {
        let wanted = selector.subrange(1, selector.len() as int);
        match attribute_value(node.attributes, "class"@) {
            Some(v) => has_word(v, wanted),
            None => false,
        }
    } else {
        eq_ignore_case(node.tag, selector)
    }
}

/// Whether any of `selectors` matches `node`.
pub open spec fn any_selector_matches(node: DomNodeModel, selectors: Seq<Seq<char>>) -> bool {
    exists|i: int| 0 <= i < selectors.len() && selector_matches_node(node, #[trigger] selectors[i])
}

/// The nodes that no selector matches, in their order.
pub open spec fn kept_nodes(nodes: Seq<DomNodeModel>, selectors: Seq<Seq<char>>) -> Seq<
    DomNodeModel,
>
    decreases nodes.len(),
{
    if nodes.len() == 0 {
        Seq::empty()
    } else {
        let rest = kept_nodes(nodes.drop_last(), selectors);
        if any_selector_matches(nodes.last(), selectors) {
            rest
        } else {
            rest.push(nodes.last())
        }
    }
}

/// The view without the DOM nodes that a selector matches. Everything else,
/// the references between nodes included, is as before.
pub open spec fn without_ignored(view: NormalizedViewModel, selectors: Seq<Seq<char>>) -> NormalizedViewModel {
    match view.dom {
        Some(dom) => NormalizedViewModel {
            dom: Some(DomSnapshotModel { nodes: kept_nodes(dom.nodes, selectors), ..dom }),
            ..view
        },
        None => view,
    }
}

/// The value of the first attribute of `node` named exactly `name`.
pub fn find_attribute<'a>(attributes: &'a Vec<Attribute>, name: &str) -> (r: Option<&'a String>)
    ensures
        match r {
            Some(v) => attribute_value(attributes.deep_view(), name@) == Some(v@),
            None => attribute_value(attributes.deep_view(), name@) is None,
        },
{
    let ghost attrs = attributes.deep_view();
    let mut i: usize = 0;
    assert(attrs.subrange(0, attrs.len() as int) =~= attrs);
    while i < attributes.len()
        invariant
            i <= attributes.len(),
            attrs == attributes.deep_view(),
            attribute_value(attrs, name@) == attribute_value(
                attrs.subrange(i as int, attrs.len() as int),
                name@,
            ),
        decreases attributes.len() - i,
    {
        let ghost rest = attrs.subrange(i as int, attrs.len() as int);
        assert(rest[0] == attributes@[i as int].deep_view());
        if str_equal(attributes[i].name.as_str(), name) {
            return Some(&attributes[i].value);
        }
        assert(rest.drop_first() =~= attrs.subrange(i + 1, attrs.len() as int));
        i = i + 1;
    }
    None
}

/// Whether `selector` matches `node`.
pub fn selector_matches(node: &DomNode, selector: &str) -> (r: bool)
    ensures
        r == selector_matches_node(node.deep_view(), selector@),
{
    let sel = chars_of(selector);
    let ghost wanted = selector@.subrange(1, selector@.len() as int);
    if sel.len() > 0 && sel[0] == '#' {
        let id = chars_of(node.id.as_str());
        assert(id@.subrange(0, id.len() as int) =~= id@);
        let by_attribute = match find_attribute(&node.attributes, "id") {
            Some(v) => {
                let value = chars_of(v.as_str());
                assert(value@.subrange(0, value.len() as int) =~= value@);
                range_eq_ignore_case(&sel, 1, sel.len(), &value)
            },
            None => {
                assert(lower_seq(Seq::<char>::empty()) =~= Seq::<char>::empty());
                assert(wanted.len() == 0 <==> lower_seq(wanted) =~= Seq::<char>::empty());
                sel.len() == 1
            },
        };
        by_attribute || range_eq_ignore_case(&sel, 1, sel.len(), &id)
    } else if sel.len() > 0 && sel[0] == '.' {
        match find_attribute(&node.attributes, "class") {
            Some(v) => {
                let value = chars_of(v.as_str());
                let mut word: Vec<char> = Vec::new();
                let mut i: usize = 1;
                while i < sel.len()
                    invariant
                        1 <= i <= sel.len(),
                        word@ == sel@.subrange(1, i as int),
                    decreases sel.len() - i,
                {
                    word.push(sel[i]);
                    i = i + 1;
                    assert(word@ =~= sel@.subrange(1, i as int));
                }
                contains_word(&value, &word)
            },
            None => false,
        }
    } else {
        let tag = chars_of(node.tag.as_str());
        assert(tag@.subrange(0, tag.len() as int) =~= tag@);
        range_eq_ignore_case(&tag, 0, tag.len(), &sel)
    }
}

/// Whether any of `selectors` matches `node`.
pub fn matches_any_selector(node: &DomNode, selectors: &Vec<String>) -> (r: bool)
    ensures
        r == any_selector_matches(node.deep_view(), selectors.deep_view()),
{
    let ghost sels = selectors.deep_view();
    let mut i: usize = 0;
    while i < selectors.len()
        invariant
            i <= selectors.len(),
            sels == selectors.deep_view(),
            forall|k: int| 0 <= k < i ==> !selector_matches_node(node.deep_view(), #[trigger] sels[k]),
        decreases selectors.len() - i,
    {
        assert(sels[i as int] == selectors@[i as int]@);
        if selector_matches(node, selectors[i].as_str()) {
            return true;
        }
        i = i + 1;
    }
    false
}

/// Every node that is kept was there before.
pub proof fn lemma_kept_nodes_are_nodes(nodes: Seq<DomNodeModel>, selectors: Seq<Seq<char>>)
    ensures
        forall|i: int|
            0 <= i < kept_nodes(nodes, selectors).len() ==> nodes.contains(
                #[trigger] kept_nodes(nodes, selectors)[i],
            ) && !any_selector_matches(kept_nodes(nodes, selectors)[i], selectors),
        kept_nodes(nodes, selectors).len() <= nodes.len(),
    decreases nodes.len(),
{
    if nodes.len() > 0 {
        let rest = nodes.drop_last();
        lemma_kept_nodes_are_nodes(rest, selectors);
        let kept = kept_nodes(nodes, selectors);
        assert forall|i: int| 0 <= i < kept.len() implies nodes.contains(#[trigger] kept[i])
            && !any_selector_matches(kept[i], selectors) by {
            let inner = kept_nodes(rest, selectors);
            if i < inner.len() {
                let k = choose|k: int| 0 <= k < rest.len() && rest[k] == inner[i];
                assert(nodes[k] == kept[i]);
            } else {
                assert(nodes[nodes.len() - 1] == kept[i]);
            }
        }
    }
}

/// Where no selector matches any node, all nodes are kept.
pub proof fn lemma_keep_unmatched(nodes: Seq<DomNodeModel>, selectors: Seq<Seq<char>>)
    requires
        forall|i: int| 0 <= i < nodes.len() ==> !any_selector_matches(#[trigger] nodes[i], selectors),
    ensures
        kept_nodes(nodes, selectors) == nodes,
    decreases nodes.len(),
{
    if nodes.len() > 0 {
        let rest = nodes.drop_last();
        assert forall|i: int| 0 <= i < rest.len() implies !any_selector_matches(
            #[trigger] rest[i],
            selectors,
        ) by {
            assert(rest[i] == nodes[i]);
        }
        lemma_keep_unmatched(rest, selectors);
        assert(!any_selector_matches(nodes[nodes.len() - 1], selectors));
        assert(rest.push(nodes.last()) =~= nodes);
    } else {
        assert(kept_nodes(nodes, selectors) =~= nodes);
    }
}

/// Filtering a second time with the same selectors changes nothing.
pub proof fn law_filter_is_idempotent(view: NormalizedViewModel, selectors: Seq<Seq<char>>)
    ensures
        without_ignored(without_ignored(view, selectors), selectors) == without_ignored(
            view,
            selectors,
        ),
{
    match view.dom {
        Some(dom) => {
            lemma_kept_nodes_are_nodes(dom.nodes, selectors);
            lemma_keep_unmatched(kept_nodes(dom.nodes, selectors), selectors);
        },
        None => {},
    }
}

/// Removes from the view's DOM every node that one of `selectors` matches.
/// References to removed nodes are left in place.
pub fn apply_dom_ignores(view: &NormalizedView, selectors: &Vec<String>) -> (out: NormalizedView)
    ensures
        out.deep_view() == without_ignored(view.deep_view(), selectors.deep_view()),
        view.coordinates_in_range() ==> out.coordinates_in_range(),
        view.well_formed() ==> out.well_formed(),
{
    let ghost sels = selectors.deep_view();
    let dom = match &view.dom {
        Some(dom) => {
            let mut nodes: Vec<DomNode> = Vec::new();
            let mut i: usize = 0;
            assert(nodes.deep_view() =~= kept_nodes(dom.nodes.deep_view().take(0), sels));
            while i < dom.nodes.len()
                invariant
                    i <= dom.nodes.len(),
                    sels == selectors.deep_view(),
                    nodes.deep_view() == kept_nodes(dom.nodes.deep_view().take(i as int), sels),
                    forall|k: int|
                        0 <= k < nodes.len() ==> exists|m: int|
                            0 <= m < dom.nodes.len() && (#[trigger] nodes@[k]).bounding_box
                                == dom.nodes@[m].bounding_box,
                decreases dom.nodes.len() - i,
            {
                let ghost before = nodes.deep_view();
                proof {
                    assert(dom.nodes.deep_view().take(i + 1).drop_last() =~= dom.nodes.deep_view().take(
                        i as int,
                    ));
                    assert(dom.nodes.deep_view().take(i + 1).last() == dom.nodes@[i as int].deep_view());
                }
                if !matches_any_selector(&dom.nodes[i], selectors) {
                    let copy = dom.nodes[i].clone();
                    assert(copy.bounding_box == dom.nodes@[i as int].bounding_box);
                    nodes.push(copy);
                    assert(nodes.deep_view() =~= before.push(dom.nodes@[i as int].deep_view()));
                }
                i = i + 1;
            }
            assert(dom.nodes.deep_view().take(dom.nodes.len() as int) =~= dom.nodes.deep_view());
            Some(DomSnapshot { url: dom.url.clone(), title: dom.title.clone(), nodes })
        },
        None => None,
    };
    let out = NormalizedView {
        kind: view.kind,
        screenshot_path: view.screenshot_path.clone(),
        width: view.width,
        height: view.height,
        dom,
        figma_tree: view.figma_tree.clone(),
        ocr_blocks: view.ocr_blocks.clone(),
    };
    proof {
        if view.well_formed() && view.dom is Some {
            let before = view.dom->0.deep_view();
            let after = out.dom->0.deep_view();
            lemma_kept_nodes_are_nodes(before.nodes, sels);
            assert forall|i: int| 0 <= i < after.nodes.len() implies (
            #[trigger] after.nodes[i]).well_formed() by {
                let k = choose|k: int| 0 <= k < before.nodes.len() && before.nodes[k] == after.nodes[i];
                assert(before.nodes[k].well_formed());
            }
        }
        if view.coordinates_in_range() {
            assert forall|i: int| 0 <= i < out.boxes().len() implies (#[trigger] out.boxes()[i]).in_range() by {
                if view.dom is Some {
                    let kept = out.dom->0.nodes;
                    assert(out.boxes()[i] == kept@[i].bounding_box);
                    let m = choose|m: int|
                        0 <= m < view.dom->0.nodes.len() && kept@[i].bounding_box
                            == view.dom->0.nodes@[m].bounding_box;
                    assert(view.boxes()[m].in_range());
                } else if view.figma_tree is Some {
                    let tree = view.figma_tree->0;
                    let copy = out.figma_tree->0;
                    assert(out.figma_tree.deep_view() == view.figma_tree.deep_view());
                    assert(copy.deep_view().nodes == tree.deep_view().nodes);
                    assert(copy.deep_view().nodes.len() == copy.nodes@.len());
                    assert(tree.deep_view().nodes.len() == tree.nodes@.len());
                    assert(copy.deep_view().nodes[i] == copy.nodes@[i].deep_view());
                    assert(tree.deep_view().nodes[i] == tree.nodes@[i].deep_view());
                    assert(out.boxes()[i] == copy.nodes@[i].bounding_box);
                    assert(view.boxes()[i] == tree.nodes@[i].bounding_box);
                    assert(view.boxes()[i].in_range());
                }
            }
        }
    }
    out
}

} // verus!
