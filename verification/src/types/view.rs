//! The normalized view: the one form that every input is reduced to.

use crate::geometry::BoundingBox;
use crate::types::dom::DomSnapshot;
use crate::types::dom::DomSnapshotModel;
use crate::types::figma::FigmaSnapshot;
use crate::types::figma::FigmaSnapshotModel;
use vstd::prelude::*;

verus! {

/// Where an input comes from.
#[derive(Clone, Copy, Debug, PartialEq, Eq, Structural)]
pub enum ResourceKind {
    Url,
    Image,
    Figma,
}

/// A block of recognised text. The confidence is in millionths.
#[derive(Debug)]
pub struct OcrBlock {
    pub text: String,
    pub bounding_box: BoundingBox,
    pub confidence: Option<i64>,
}

/// What an `OcrBlock` holds, as plain values.
pub struct OcrBlockModel {
    pub text: Seq<char>,
    pub bounding_box: BoundingBox,
    pub confidence: Option<i64>,
}

impl DeepView for OcrBlock {
    type V = OcrBlockModel;

    open spec fn deep_view(&self) -> OcrBlockModel {
        OcrBlockModel {
            text: self.text@,
            bounding_box: self.bounding_box,
            confidence: self.confidence,
        }
    }
}

impl Clone for OcrBlock {
    fn clone(&self) -> (r: Self)
        ensures
            r.deep_view() == self.deep_view(),
    {
        OcrBlock {
            text: self.text.clone(),
            bounding_box: self.bounding_box,
            confidence: self.confidence,
        }
    }
}

/// A raster plus whatever structure the input could provide.
#[derive(Debug)]
pub struct NormalizedView {
    pub kind: ResourceKind,
    pub screenshot_path: String,
    pub width: u32,
    pub height: u32,
    pub dom: Option<DomSnapshot>,
    pub figma_tree: Option<FigmaSnapshot>,
    pub ocr_blocks: Option<Vec<OcrBlock>>,
}

/// What a `NormalizedView` holds, as plain values.
pub struct NormalizedViewModel {
    pub kind: ResourceKind,
    pub screenshot_path: Seq<char>,
    pub width: u32,
    pub height: u32,
    pub dom: Option<DomSnapshotModel>,
    pub figma_tree: Option<FigmaSnapshotModel>,
    pub ocr_blocks: Option<Seq<OcrBlockModel>>,
}

impl DeepView for NormalizedView {
    type V = NormalizedViewModel;

    open spec fn deep_view(&self) -> NormalizedViewModel {
        NormalizedViewModel {
            kind: self.kind,
            screenshot_path: self.screenshot_path@,
            width: self.width,
            height: self.height,
            dom: self.dom.deep_view(),
            figma_tree: self.figma_tree.deep_view(),
            ocr_blocks: self.ocr_blocks.deep_view(),
        }
    }
}

impl Clone for NormalizedView {
    fn clone(&self) -> (r: Self)
        ensures
            r.deep_view() == self.deep_view(),
    {
        NormalizedView {
            kind: self.kind,
            screenshot_path: self.screenshot_path.clone(),
            width: self.width,
            height: self.height,
            dom: self.dom.clone(),
            figma_tree: self.figma_tree.clone(),
            ocr_blocks: self.ocr_blocks.clone(),
        }
    }
}

impl NormalizedViewModel {
    /// The rectangles of the structure that the view carries: those of the
    /// DOM where there is one, else those of the Figma tree, else none.
    pub open spec fn boxes(self) -> Seq<BoundingBox> {
        match self.dom {
            Some(dom) => Seq::new(dom.nodes.len(), |i: int| dom.nodes[i].bounding_box),
            None => match self.figma_tree {
                Some(tree) => Seq::new(tree.nodes.len(), |i: int| tree.nodes[i].bounding_box),
                None => Seq::empty(),
            },
        }
    }
}

/// The rectangles of a view are those of what it holds.
pub proof fn lemma_boxes_of_model(view: NormalizedView)
    ensures
        view.boxes() == view.deep_view().boxes(),
{
    assert(view.boxes() =~= view.deep_view().boxes());
}

impl NormalizedView {
    /// The rectangles of the structure that the view carries: those of the
    /// DOM where there is one, else those of the Figma tree, else none.
    pub open spec fn boxes(&self) -> Seq<BoundingBox> {
        match self.dom {
            Some(dom) => Seq::new(dom.nodes@.len(), |i: int| dom.nodes@[i].bounding_box),
            None => match self.figma_tree {
                Some(tree) => Seq::new(tree.nodes@.len(), |i: int| tree.nodes@[i].bounding_box),
                None => Seq::empty(),
            },
        }
    }

    /// Every coordinate of `boxes()` lies within the coordinate range.
    pub open spec fn coordinates_in_range(&self) -> bool {
        forall|i: int| 0 <= i < self.boxes().len() ==> (#[trigger] self.boxes()[i]).in_range()
    }

    /// The raster is not empty, at most one kind of structure is present, the
    /// coordinates are in range, and no node of the DOM has two attributes of
    /// one name.
    pub open spec fn well_formed(&self) -> bool {
        &&& self.width > 0
        &&& self.height > 0
        &&& !(self.dom is Some && self.figma_tree is Some)
        &&& self.coordinates_in_range()
        &&& self.dom matches Some(dom) ==> dom.well_formed()
    }

    /// The rectangles of the structure that the view carries.
    pub fn collect_boxes(&self) -> (out: Vec<BoundingBox>)
        ensures
            out@ == self.boxes(),
    {
        let mut out: Vec<BoundingBox> = Vec::new();
        if let Some(dom) = &self.dom {
            let mut i: usize = 0;
            while i < dom.nodes.len()
                invariant
                    i <= dom.nodes.len(),
                    out.len() == i,
                    forall|k: int| 0 <= k < i ==> out@[k] == dom.nodes@[k].bounding_box,
                decreases dom.nodes.len() - i,
            {
                out.push(dom.nodes[i].bounding_box);
                i = i + 1;
            }
            assert(out@ =~= self.boxes());
        } else if let Some(tree) = &self.figma_tree {
            let mut i: usize = 0;
            while i < tree.nodes.len()
                invariant
                    i <= tree.nodes.len(),
                    out.len() == i,
                    forall|k: int| 0 <= k < i ==> out@[k] == tree.nodes@[k].bounding_box,
                decreases tree.nodes.len() - i,
            {
                out.push(tree.nodes[i].bounding_box);
                i = i + 1;
            }
            assert(out@ =~= self.boxes());
        } else {
            assert(out@ =~= self.boxes());
        }
        out
    }

    /// Whether every coordinate of the view's rectangles lies within the
    /// coordinate range.
    pub fn has_coordinates_in_range(&self) -> (r: bool)
        ensures
            r == self.coordinates_in_range(),
    {
        let boxes = self.collect_boxes();
        let mut i: usize = 0;
        while i < boxes.len()
            invariant
                i <= boxes.len(),
                boxes@ == self.boxes(),
                forall|k: int| 0 <= k < i ==> (#[trigger] boxes@[k]).in_range(),
            decreases boxes.len() - i,
        {
            if !boxes[i].is_in_range() {
                return false;
            }
            i = i + 1;
        }
        true
    }

    /// Whether the view is well formed.
    pub fn is_well_formed(&self) -> (r: bool)
        ensures
            r == self.well_formed(),
    {
        self.width > 0 && self.height > 0 && !(self.dom.is_some() && self.figma_tree.is_some())
            && self.has_coordinates_in_range() && match &self.dom {
            Some(dom) => dom.is_well_formed(),
            None => true,
        }
    }
}

} // verus!
