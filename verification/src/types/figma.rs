//! Structural snapshot of a Figma frame.

use crate::geometry::BoundingBox;
use vstd::prelude::*;

verus! {

/// Typography of a text node. Sizes are in millionths of a pixel.
#[derive(Debug, Default)]
pub struct TypographyStyle {
    pub font_family: Option<String>,
    pub font_size: Option<i64>,
    pub font_weight: Option<String>,
    pub line_height: Option<i64>,
}

/// What a `TypographyStyle` holds, as plain values.
pub struct TypographyStyleModel {
    pub font_family: Option<Seq<char>>,
    pub font_size: Option<i64>,
    pub font_weight: Option<Seq<char>>,
    pub line_height: Option<i64>,
}

impl DeepView for TypographyStyle {
    type V = TypographyStyleModel;

    open spec fn deep_view(&self) -> TypographyStyleModel {
        TypographyStyleModel {
            font_family: self.font_family.deep_view(),
            font_size: self.font_size,
            font_weight: self.font_weight.deep_view(),
            line_height: self.line_height,
        }
    }
}

impl Clone for TypographyStyle {
    fn clone(&self) -> (r: Self)
        ensures
            r.deep_view() == self.deep_view(),
    {
        TypographyStyle {
            font_family: self.font_family.clone(),
            font_size: self.font_size,
            font_weight: self.font_weight.clone(),
            line_height: self.line_height,
        }
    }
}

/// How a fill paints its node.
#[derive(Clone, Copy, Debug, PartialEq, Eq, Structural)]
pub enum FigmaPaintKind {
    Solid,
    Gradient,
    Image,
}

/// One fill of a node. The opacity is in millionths.
#[derive(Debug)]
pub struct FigmaPaint {
    pub kind: FigmaPaintKind,
    pub color: Option<String>,
    pub opacity: Option<i64>,
}

/// What a `FigmaPaint` holds, as plain values.
pub struct FigmaPaintModel {
    pub kind: FigmaPaintKind,
    pub color: Option<Seq<char>>,
    pub opacity: Option<i64>,
}

impl DeepView for FigmaPaint {
    type V = FigmaPaintModel;

    open spec fn deep_view(&self) -> FigmaPaintModel {
        FigmaPaintModel { kind: self.kind, color: self.color.deep_view(), opacity: self.opacity }
    }
}

impl Clone for FigmaPaint {
    fn clone(&self) -> (r: Self)
        ensures
            r.deep_view() == self.deep_view(),
    {
        FigmaPaint { kind: self.kind, color: self.color.clone(), opacity: self.opacity }
    }
}

/// One node of the frame.
#[derive(Debug)]
pub struct FigmaNode {
    pub id: String,
    pub name: Option<String>,
    pub node_type: String,
    pub bounding_box: BoundingBox,
    pub text: Option<String>,
    pub typography: Option<TypographyStyle>,
    pub fills: Vec<FigmaPaint>,
    pub children: Vec<String>,
}

/// What a `FigmaNode` holds, as plain values.
pub struct FigmaNodeModel {
    pub id: Seq<char>,
    pub name: Option<Seq<char>>,
    pub node_type: Seq<char>,
    pub bounding_box: BoundingBox,
    pub text: Option<Seq<char>>,
    pub typography: Option<TypographyStyleModel>,
    pub fills: Seq<FigmaPaintModel>,
    pub children: Seq<Seq<char>>,
}

impl DeepView for FigmaNode {
    type V = FigmaNodeModel;

    open spec fn deep_view(&self) -> FigmaNodeModel {
        FigmaNodeModel {
            id: self.id@,
            name: self.name.deep_view(),
            node_type: self.node_type@,
            bounding_box: self.bounding_box,
            text: self.text.deep_view(),
            typography: self.typography.deep_view(),
            fills: self.fills.deep_view(),
            children: self.children.deep_view(),
        }
    }
}

impl Clone for FigmaNode {
    fn clone(&self) -> (r: Self)
        ensures
            r.deep_view() == self.deep_view(),
    {
        let children = self.children.clone();
        assert(children.deep_view() =~= self.children.deep_view());
        FigmaNode {
            id: self.id.clone(),
            name: self.name.clone(),
            node_type: self.node_type.clone(),
            bounding_box: self.bounding_box,
            text: self.text.clone(),
            typography: self.typography.clone(),
            fills: self.fills.clone(),
            children,
        }
    }
}

/// The nodes of a frame, flattened.
#[derive(Debug)]
pub struct FigmaSnapshot {
    pub file_key: String,
    pub node_id: String,
    pub name: Option<String>,
    pub nodes: Vec<FigmaNode>,
}

/// What a `FigmaSnapshot` holds, as plain values.
pub struct FigmaSnapshotModel {
    pub file_key: Seq<char>,
    pub node_id: Seq<char>,
    pub name: Option<Seq<char>>,
    pub nodes: Seq<FigmaNodeModel>,
}

impl DeepView for FigmaSnapshot {
    type V = FigmaSnapshotModel;

    open spec fn deep_view(&self) -> FigmaSnapshotModel {
        FigmaSnapshotModel {
            file_key: self.file_key@,
            node_id: self.node_id@,
            name: self.name.deep_view(),
            nodes: self.nodes.deep_view(),
        }
    }
}

impl Clone for FigmaSnapshot {
    fn clone(&self) -> (r: Self)
        ensures
            r.deep_view() == self.deep_view(),
    {
        FigmaSnapshot {
            file_key: self.file_key.clone(),
            node_id: self.node_id.clone(),
            name: self.name.clone(),
            nodes: self.nodes.clone(),
        }
    }
}

} // verus!
