//! Editing the manual crop on the preview: the edit session (begin, finish,
//! cancel, reset), which edges a drag grabs, and the pointer shape for each
//! kind of drag. The crop rectangle itself is carried as an opaque value.

use vstd::prelude::*;

verus! {

/// The edges of the crop that a resize drag moves.
#[derive(Clone, Copy, Debug, PartialEq, Eq, Structural)]
pub struct CropResizeEdges {
    pub left: bool,
    pub right: bool,
    pub top: bool,
    pub bottom: bool,
}

/// What a drag on the preview does.
#[derive(Clone, Copy, Debug, PartialEq, Eq, Structural)]
pub enum CropDragMode {
    /// Draw a new crop.
    New,
    /// Move the crop.
    Move,
    /// Move some of its edges.
    Resize(CropResizeEdges),
}

/// Where the pointer is relative to the shown crop's edges, measured by the
/// caller: whether it is within grabbing distance of each edge, and for each
/// axis whether the first edge is no farther than the second.
#[derive(Clone, Copy, Debug, PartialEq, Eq, Structural)]
pub struct EdgeProximity {
    pub near_left: bool,
    pub near_right: bool,
    pub left_not_farther: bool,
    pub near_top: bool,
    pub near_bottom: bool,
    pub top_not_farther: bool,
}

/// The edges a drag moves: those within grabbing distance, where both edges of
/// an axis are within it only the nearer one (the first on a tie).
pub open spec fn grabbed_edges(p: EdgeProximity) -> CropResizeEdges {
    let both_x = p.near_left && p.near_right;
    let both_y = p.near_top && p.near_bottom;
    CropResizeEdges {
        left: if both_x { p.left_not_farther } else { p.near_left },
        right: if both_x { !p.left_not_farther } else { p.near_right },
        top: if both_y { p.top_not_farther } else { p.near_top },
        bottom: if both_y { !p.top_not_farther } else { p.near_bottom },
    }
}

/// What a drag starting at the pointer does: a new crop when no crop is shown
/// or the pointer is beyond grabbing distance of it; else a resize of the
/// grabbed edges, or a move when none is grabbed and the pointer is inside.
pub open spec fn drag_mode(crop_shown: bool, in_reach: bool, p: EdgeProximity, inside: bool) -> CropDragMode {
    let e = grabbed_edges(p);
    if !crop_shown || !in_reach {
        CropDragMode::New
    } else if e.left || e.right || e.top || e.bottom {
        CropDragMode::Resize(e)
    } else if inside {
        CropDragMode::Move
    } else {
        CropDragMode::New
    }
}

/// The drag mode for a pointer, see `drag_mode`. A resize never moves both
/// edges of one axis.
pub fn drag_mode_at(crop_shown: bool, in_reach: bool, p: EdgeProximity, inside: bool) -> (r: CropDragMode)
    ensures
        r == drag_mode(crop_shown, in_reach, p, inside),
        r matches CropDragMode::Resize(e) ==> !(e.left && e.right) && !(e.top && e.bottom),
{
    if !crop_shown || !in_reach {
        return CropDragMode::New;
    }
    let mut left = p.near_left;
    let mut right = p.near_right;
    let mut top = p.near_top;
    let mut bottom = p.near_bottom;
    if left && right {
        if p.left_not_farther {
            right = false;
        } else {
            left = false;
        }
    }
    if top && bottom {
        if p.top_not_farther {
            bottom = false;
        } else {
            top = false;
        }
    }
    if left || right || top || bottom {
        CropDragMode::Resize(CropResizeEdges { left, right, top, bottom })
    } else if inside {
        CropDragMode::Move
    } else {
        CropDragMode::New
    }
}

/// The pointer shape over the preview while editing.
#[derive(Clone, Copy, Debug, PartialEq, Eq, Structural)]
pub enum CursorShape {
    Crosshair,
    Grab,
    ResizeNwSe,
    ResizeNeSw,
    ResizeHorizontal,
    ResizeVertical,
}

/// The pointer shape for a drag mode: a cross for a new crop, a hand for
/// moving, and for resizing the arrow along the moved corner's diagonal or the
/// moved side's axis.
pub open spec fn cursor_shape(mode: CropDragMode) -> CursorShape {
    match mode {
        CropDragMode::New => CursorShape::Crosshair,
        CropDragMode::Move => CursorShape::Grab,
        CropDragMode::Resize(e) => if (e.left && !e.right && e.top && !e.bottom) || (!e.left && e.right && !e.top
            && e.bottom) {
            CursorShape::ResizeNwSe
        } else if (!e.left && e.right && e.top && !e.bottom) || (e.left && !e.right && !e.top && e.bottom) {
            CursorShape::ResizeNeSw
        } else if (e.left && !e.right && !e.top && !e.bottom) || (!e.left && e.right && !e.top && !e.bottom) {
            CursorShape::ResizeHorizontal
        } else {
            CursorShape::ResizeVertical
        },
    }
}

/// The pointer shape for a drag mode, see `cursor_shape`.
pub fn cursor_for(mode: CropDragMode) -> (r: CursorShape)
    ensures
        r == cursor_shape(mode),
{
    match mode {
        CropDragMode::New => CursorShape::Crosshair,
        CropDragMode::Move => CursorShape::Grab,
        CropDragMode::Resize(e) => {
            if (e.left && !e.right && e.top && !e.bottom) || (!e.left && e.right && !e.top && e.bottom) {
                CursorShape::ResizeNwSe
            } else if (!e.left && e.right && e.top && !e.bottom) || (e.left && !e.right && !e.top && e.bottom) {
                CursorShape::ResizeNeSw
            } else if (e.left && !e.right && !e.top && !e.bottom) || (!e.left && e.right && !e.top && !e.bottom) {
                CursorShape::ResizeHorizontal
            } else {
                CursorShape::ResizeVertical
            }
        },
    }
}

/// The manual crop and its edit session. `T` is the crop rectangle, `D` the
/// state of a drag in progress.
#[derive(Debug)]
pub struct CropEditor<T, D> {
    /// The crop in force.
    pub manual: Option<T>,
    /// An edit is in progress.
    pub selecting: bool,
    /// The crop as edited so far.
    pub working: Option<T>,
    /// The crop in force when the edit began.
    pub before_edit: Option<T>,
    pub drag: Option<D>,
}

/// The editor when no edit is in progress and `manual` is in force.
pub open spec fn idle_editor<T, D>(manual: Option<T>) -> CropEditor<T, D> {
    CropEditor { manual, selecting: false, working: None, before_edit: None, drag: None }
}

/// The editor after an edit begins: the edit starts from the crop in force.
pub open spec fn begun<T, D>(e: CropEditor<T, D>) -> CropEditor<T, D> {
    CropEditor { manual: e.manual, selecting: true, working: e.manual, before_edit: e.manual, drag: None }
}

/// The editor after finishing: the edited crop is in force.
pub open spec fn finished<T, D>(e: CropEditor<T, D>) -> CropEditor<T, D> {
    idle_editor(e.working)
}

/// The editor after cancelling an edit in progress (unchanged otherwise).
pub open spec fn cancelled<T, D>(e: CropEditor<T, D>) -> CropEditor<T, D> {
    if e.selecting {
        CropEditor { selecting: false, working: None, before_edit: None, drag: None, ..e }
    } else {
        e
    }
}

/// The crop shown on the preview: the edited one, else the one in force.
pub open spec fn shown<T, D>(e: CropEditor<T, D>) -> Option<T> {
    if e.working is Some {
        e.working
    } else {
        e.manual
    }
}

/// The editor after an edit began and the crop was edited to `w`.
pub open spec fn edited_to<T, D>(e: CropEditor<T, D>, w: Option<T>) -> CropEditor<T, D> {
    CropEditor { working: w, ..begun(e) }
}

/// Cancelling an edit restores what was in force: the crop in force is
/// unchanged, and the crop handed back for the capture is the one in force
/// when the edit began.
pub proof fn lemma_cancel_restores<T, D>(e: CropEditor<T, D>, edited: Option<T>)
    ensures
        cancelled(edited_to(e, edited)).manual == e.manual,
        edited_to(e, edited).before_edit == e.manual,
        !cancelled(edited_to(e, edited)).selecting,
{
}

/// Finishing an edit puts the edited crop in force; finishing an untouched
/// edit changes nothing.
pub proof fn lemma_finish_commits<T, D>(e: CropEditor<T, D>, edited: Option<T>)
    ensures
        finished(edited_to(e, edited)).manual == edited,
        finished(begun(e)).manual == e.manual,
{
}

impl<T: Copy, D> CropEditor<T, D> {
    pub fn new(manual: Option<T>) -> (r: CropEditor<T, D>)
        ensures
            r == idle_editor::<T, D>(manual),
    {
        CropEditor { manual, selecting: false, working: None, before_edit: None, drag: None }
    }

    /// Begins an edit, see `begun`.
    pub fn begin(&mut self)
        ensures
            *final(self) == begun(*old(self)),
    {
        self.selecting = true;
        self.before_edit = self.manual;
        self.working = self.manual;
        self.drag = None;
    }

    /// Finishes the edit and returns the crop now in force, see `finished`.
    pub fn finish(&mut self) -> (r: Option<T>)
        ensures
            *final(self) == finished(*old(self)),
            r == old(self).working,
    {
        self.manual = self.working;
        self.selecting = false;
        self.working = None;
        self.before_edit = None;
        self.drag = None;
        self.manual
    }

    /// Cancels an edit in progress, returning the crop to hand back to the
    /// capture (the one in force when the edit began); `None` when no edit was
    /// in progress, so nothing is to be done.
    pub fn cancel(&mut self) -> (r: Option<Option<T>>)
        ensures
            *final(self) == cancelled(*old(self)),
            r == (if old(self).selecting { Some(old(self).before_edit) } else { None }),
    {
        if !self.selecting {
            return None;
        }
        let before_edit = self.before_edit;
        self.selecting = false;
        self.working = None;
        self.before_edit = None;
        self.drag = None;
        Some(before_edit)
    }

    /// Drops the manual crop and any edit.
    pub fn reset(&mut self)
        ensures
            *final(self) == idle_editor::<T, D>(None),
    {
        self.manual = None;
        self.selecting = false;
        self.working = None;
        self.before_edit = None;
        self.drag = None;
    }

    /// Records the crop edited so far.
    pub fn set_working(&mut self, crop: T)
        ensures
            *final(self) == (CropEditor { working: Some(crop), ..*old(self) }),
    {
        self.working = Some(crop);
    }

    /// Records the start (`Some`) or end (`None`) of a drag.
    pub fn set_drag(&mut self, drag: Option<D>)
        ensures
            *final(self) == (CropEditor { drag, ..*old(self) }),
    {
        self.drag = drag;
    }

    /// The crop shown on the preview, see `shown`.
    pub fn shown(&self) -> (r: Option<T>)
        ensures
            r == shown(*self),
    {
        match self.working {
            Some(w) => Some(w),
            None => self.manual,
        }
    }

    /// The automatic crop options apply only while no manual crop is shown.
    pub fn automatic_crop_enabled(&self) -> (r: bool)
        ensures
            r == (shown(*self) is None),
    {
        self.working.is_none() && self.manual.is_none()
    }
}

} // verus!
