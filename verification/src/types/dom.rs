//! Structural snapshot of a rendered page.

use crate::geometry::BoundingBox;
use crate::text::str_equal;
use vstd::prelude::*;

verus! {

/// The style properties of a node that comparisons read. Sizes are in
/// millionths of a pixel, the opacity in millionths.
#[derive(Debug, Default)]
pub struct ComputedStyle {
    pub font_family: Option<String>,
    pub font_size: Option<i64>,
    pub font_weight: Option<String>,
    pub line_height: Option<i64>,
    pub color: Option<String>,
    pub background_color: Option<String>,
    pub display: Option<String>,
    pub visibility: Option<String>,
    pub opacity: Option<i64>,
}

/// What a `ComputedStyle` holds, as plain values.
pub struct ComputedStyleModel {
    pub font_family: Option<Seq<char>>,
    pub font_size: Option<i64>,
    pub font_weight: Option<Seq<char>>,
    pub line_height: Option<i64>,
    pub color: Option<Seq<char>>,
    pub background_color: Option<Seq<char>>,
    pub display: Option<Seq<char>>,
    pub visibility: Option<Seq<char>>,
    pub opacity: Option<i64>,
}

impl DeepView for ComputedStyle {
    type V = ComputedStyleModel;

    open spec fn deep_view(&self) -> ComputedStyleModel {
        ComputedStyleModel {
            font_family: self.font_family.deep_view(),
            font_size: self.font_size,
            font_weight: self.font_weight.deep_view(),
            line_height: self.line_height,
            color: self.color.deep_view(),
            background_color: self.background_color.deep_view(),
            display: self.display.deep_view(),
            visibility: self.visibility.deep_view(),
            opacity: self.opacity,
        }
    }
}

impl Clone for ComputedStyle {
    fn clone(&self) -> (r: Self)
        ensures
            r.deep_view() == self.deep_view(),
    {
        ComputedStyle {
            font_family: self.font_family.clone(),
            font_size: self.font_size,
            font_weight: self.font_weight.clone(),
            line_height: self.line_height,
            color: self.color.clone(),
            background_color: self.background_color.clone(),
            display: self.display.clone(),
            visibility: self.visibility.clone(),
            opacity: self.opacity,
        }
    }
}

/// One attribute of an element. Names keep their case.
#[derive(Debug)]
pub struct Attribute {
    pub name: String,
    pub value: String,
}

/// What an `Attribute` holds, as plain values.
pub struct AttributeModel {
    pub name: Seq<char>,
    pub value: Seq<char>,
}

impl DeepView for Attribute {
    type V = AttributeModel;

    open spec fn deep_view(&self) -> AttributeModel {
        AttributeModel { name: self.name@, value: self.value@ }
    }
}

impl Clone for Attribute {
    fn clone(&self) -> (r: Self)
        ensures
            r.deep_view() == self.deep_view(),
    {
        Attribute { name: self.name.clone(), value: self.value.clone() }
    }
}

/// One element of the page.
#[derive(Debug)]
pub struct DomNode {
    pub id: String,
    pub tag: String,
    pub children: Vec<String>,
    pub parent: Option<String>,
    pub attributes: Vec<Attribute>,
    pub text: Option<String>,
    pub bounding_box: BoundingBox,
    pub computed_style: Option<ComputedStyle>,
}

/// What a `DomNode` holds, as plain values.
pub struct DomNodeModel {
    pub id: Seq<char>,
    pub tag: Seq<char>,
    pub children: Seq<Seq<char>>,
    pub parent: Option<Seq<char>>,
    pub attributes: Seq<AttributeModel>,
    pub text: Option<Seq<char>>,
    pub bounding_box: BoundingBox,
    pub computed_style: Option<ComputedStyleModel>,
}

impl DeepView for DomNode {
    type V = DomNodeModel;

    open spec fn deep_view(&self) -> DomNodeModel {
        DomNodeModel {
            id: self.id@,
            tag: self.tag@,
            children: self.children.deep_view(),
            parent: self.parent.deep_view(),
            attributes: self.attributes.deep_view(),
            text: self.text.deep_view(),
            bounding_box: self.bounding_box,
            computed_style: self.computed_style.deep_view(),
        }
    }
}

impl Clone for DomNode {
    fn clone(&self) -> (r: Self)
        ensures
            r.deep_view() == self.deep_view(),
    {
        let children = self.children.clone();
        assert(children.deep_view() =~= self.children.deep_view());
        DomNode {
            id: self.id.clone(),
            tag: self.tag.clone(),
            children,
            parent: self.parent.clone(),
            attributes: self.attributes.clone(),
            text: self.text.clone(),
            bounding_box: self.bounding_box,
            computed_style: self.computed_style.clone(),
        }
    }
}

/// No two of the attributes share a name: the attributes are a mapping from
/// names to values.
pub open spec fn names_distinct(attributes: Seq<AttributeModel>) -> bool {
    forall|i: int, j: int|
        0 <= i < j < attributes.len() ==> (#[trigger] attributes[i]).name != (
        #[trigger] attributes[j]).name
}

impl DomNodeModel {
    /// No two attributes of the node share a name.
    pub open spec fn well_formed(self) -> bool {
        names_distinct(self.attributes)
    }
}

impl DomNode {
    /// No two attributes of the node share a name.
    pub open spec fn well_formed(&self) -> bool {
        self.deep_view().well_formed()
    }

    /// Whether no two attributes of the node share a name.
    pub fn is_well_formed(&self) -> (r: bool)
        ensures
            r == self.well_formed(),
    {
        let ghost attrs = self.attributes.deep_view();
        let mut j: usize = 0;
        while j < self.attributes.len()
            invariant
                j <= self.attributes.len(),
                attrs == self.attributes.deep_view(),
                forall|a: int, b: int|
                    0 <= a < b < j ==> (#[trigger] attrs[a]).name != (#[trigger] attrs[b]).name,
            decreases self.attributes.len() - j,
        {
            let mut i: usize = 0;
            while i < j
                invariant
                    i <= j < self.attributes.len(),
                    attrs == self.attributes.deep_view(),
                    forall|a: int| 0 <= a < i ==> (#[trigger] attrs[a]).name != attrs[j as int].name,
                decreases j - i,
            {
                assert(attrs[i as int] == self.attributes@[i as int].deep_view());
                assert(attrs[j as int] == self.attributes@[j as int].deep_view());
                if str_equal(self.attributes[i].name.as_str(), self.attributes[j].name.as_str()) {
                    return false;
                }
                i = i + 1;
            }
            j = j + 1;
        }
        true
    }
}

/// The elements of a page, in the order in which they were captured.
#[derive(Debug)]
pub struct DomSnapshot {
    pub url: Option<String>,
    pub title: Option<String>,
    pub nodes: Vec<DomNode>,
}

/// What a `DomSnapshot` holds, as plain values.
pub struct DomSnapshotModel {
    pub url: Option<Seq<char>>,
    pub title: Option<Seq<char>>,
    pub nodes: Seq<DomNodeModel>,
}

impl DeepView for DomSnapshot {
    type V = DomSnapshotModel;

    open spec fn deep_view(&self) -> DomSnapshotModel {
        DomSnapshotModel {
            url: self.url.deep_view(),
            title: self.title.deep_view(),
            nodes: self.nodes.deep_view(),
        }
    }
}

impl DomSnapshotModel {
    /// Every node is well formed.
    pub open spec fn well_formed(self) -> bool {
        forall|i: int| 0 <= i < self.nodes.len() ==> (#[trigger] self.nodes[i]).well_formed()
    }
}

impl DomSnapshot {
    /// Every node is well formed.
    pub open spec fn well_formed(&self) -> bool {
        self.deep_view().well_formed()
    }

    /// Whether every node is well formed.
    pub fn is_well_formed(&self) -> (r: bool)
        ensures
            r == self.well_formed(),
    {
        let ghost nodes = self.nodes.deep_view();
        let mut i: usize = 0;
        while i < self.nodes.len()
            invariant
                i <= self.nodes.len(),
                nodes == self.nodes.deep_view(),
                forall|k: int| 0 <= k < i ==> (#[trigger] nodes[k]).well_formed(),
            decreases self.nodes.len() - i,
        {
            assert(nodes[i as int] == self.nodes@[i as int].deep_view());
            if !self.nodes[i].is_well_formed() {
                assert(!self.deep_view().nodes[i as int].well_formed());
                return false;
            }
            i = i + 1;
        }
        true
    }
}

impl Clone for DomSnapshot {
    fn clone(&self) -> (r: Self)
        ensures
            r.deep_view() == self.deep_view(),
    {
        DomSnapshot {
            url: self.url.clone(),
            title: self.title.clone(),
            nodes: self.nodes.clone(),
        }
    }
}

} // verus!
