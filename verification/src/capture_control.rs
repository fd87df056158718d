//! The decisions of the capture worker: how each command changes the capture
//! settings and what the worker must do next, the crop cache, the frame kept
//! for re-presenting, and the output window's hiding place.

use crate::geometry::{clamp_int, inside_frame, output_region, rect_int, region_in_frame, CropOptions, Rect};
use vstd::prelude::*;

verus! {

/// Aspect-ratio terms are fixed-point numbers with this many units per 1.0.
pub const ASPECT_UNIT: u32 = 0x80_0000;

/// A command to the capture worker. Numbers with a fraction are carried as
/// stand-ins: the aspect terms in `ASPECT_UNIT`s (0 for a term that is not a
/// number), the HDR brightness and the output rate as the bit patterns of
/// their `f32` values.
#[derive(Clone, Copy, Debug, PartialEq, Eq, Structural)]
pub enum Cmd {
    Start { target_hwnd: isize },
    Stop,
    Show,
    Hide,
    SetCrop(bool),
    SetAspectCrop(bool),
    SetAspect { w: u32, h: u32 },
    SetAspectAlign { x: i32, y: i32 },
    SetHdr(bool),
    SetNits(u32),
    SetVsync(bool),
    SetOutputFps(u32),
    Quit,
}

/// What the capture worker does after a command.
#[derive(Clone, Copy, Debug, PartialEq, Eq, Structural)]
pub enum CaptureAction {
    /// Stop capturing and end the worker.
    Quit,
    /// Drop the kept frames and (re)start capturing the target window.
    StartCapture,
    /// Drop the kept frames and stop capturing.
    StopCapture,
    /// Drop the kept frames and start capturing again (the pixel format changed).
    RestartCapture,
    ShowOutput,
    HideOutput,
    /// Use this HDR brightness (`f32` bits).
    SetNits(u32),
    /// Use this output rate (`f32` bits).
    SetOutputFps(u32),
    Nothing,
}

/// The capture settings and state that the commands change.
#[derive(Debug)]
pub struct CaptureControl {
    pub target: isize,
    pub crop: CropOptions,
    pub hdr: bool,
    pub vsync: bool,
    pub capturing: bool,
    /// The last computed output region and the frame size it was computed for.
    pub crop_cache: Option<Rect>,
    pub cache_w: i32,
    pub cache_h: i32,
}

/// An aspect term kept within 1..=64 (in `ASPECT_UNIT`s); a term of 0 stands
/// for a term that is not a number and is kept, so that no aspect crop is made.
pub open spec fn clamp_aspect(v: u32) -> u32 {
    if v == 0 {
        0
    } else {
        clamp_int(v as int, ASPECT_UNIT as int, 64 * ASPECT_UNIT as int) as u32
    }
}

pub open spec fn clamp_align(v: i32) -> i32 {
    clamp_int(v as int, 0, 2) as i32
}

/// The state after a command, and what the worker must do.
pub open spec fn command_effect(c: CaptureControl, cmd: Cmd) -> (CaptureControl, CaptureAction) {
    match cmd {
        Cmd::Quit => (CaptureControl { capturing: false, ..c }, CaptureAction::Quit),
        Cmd::Start { target_hwnd } => (
            CaptureControl { target: target_hwnd, capturing: false, crop_cache: None, ..c },
            CaptureAction::StartCapture,
        ),
        Cmd::Stop => (CaptureControl { capturing: false, ..c }, CaptureAction::StopCapture),
        Cmd::Show => (c, CaptureAction::ShowOutput),
        Cmd::Hide => (c, CaptureAction::HideOutput),
        Cmd::SetCrop(on) => (
            CaptureControl { crop: CropOptions { client_only: on, ..c.crop }, crop_cache: None, ..c },
            CaptureAction::Nothing,
        ),
        Cmd::SetAspectCrop(on) => (
            CaptureControl { crop: CropOptions { aspect_crop: on, ..c.crop }, crop_cache: None, ..c },
            CaptureAction::Nothing,
        ),
        Cmd::SetAspect { w, h } => (
            CaptureControl {
                crop: CropOptions { aspect_w: clamp_aspect(w), aspect_h: clamp_aspect(h), ..c.crop },
                crop_cache: None,
                ..c
            },
            CaptureAction::Nothing,
        ),
        Cmd::SetAspectAlign { x, y } => (
            CaptureControl {
                crop: CropOptions { align_x: clamp_align(x), align_y: clamp_align(y), ..c.crop },
                crop_cache: None,
                ..c
            },
            CaptureAction::Nothing,
        ),
        Cmd::SetHdr(on) => if c.hdr == on {
            (c, CaptureAction::Nothing)
        } else if c.capturing {
            (CaptureControl { hdr: on, capturing: false, crop_cache: None, ..c }, CaptureAction::RestartCapture)
        } else {
            (CaptureControl { hdr: on, ..c }, CaptureAction::Nothing)
        },
        Cmd::SetNits(bits) => (c, CaptureAction::SetNits(bits)),
        Cmd::SetVsync(on) => (CaptureControl { vsync: on, ..c }, CaptureAction::Nothing),
        Cmd::SetOutputFps(bits) => (c, CaptureAction::SetOutputFps(bits)),
    }
}

fn clamp_aspect_exec(v: u32) -> (r: u32)
    ensures
        r == clamp_aspect(v),
{
    if v == 0 {
        0
    } else if v < ASPECT_UNIT {
        ASPECT_UNIT
    } else if v > 64 * ASPECT_UNIT {
        64 * ASPECT_UNIT
    } else {
        v
    }
}

fn clamp_align_exec(v: i32) -> (r: i32)
    ensures
        r == clamp_align(v),
{
    if v < 0 {
        0
    } else if v > 2 {
        2
    } else {
        v
    }
}

/// Each setting command sets exactly the setting it names, to the value it
/// carries (aspect terms and alignment codes already in range are kept as
/// given), and every command that changes the crop drops the cached region.
pub proof fn law_commands_set_what_they_name(c: CaptureControl, cmd: Cmd)
    ensures
            cmd matches Cmd::SetCrop(on) ==> command_effect(c, cmd).0.crop.client_only == on && command_effect(c, cmd).0.crop_cache is None,
            cmd matches Cmd::SetAspectCrop(on) ==> command_effect(c, cmd).0.crop.aspect_crop == on && command_effect(c, cmd).0.crop_cache is None,
            cmd matches Cmd::SetVsync(on) ==> command_effect(c, cmd).0.vsync == on,
            cmd matches Cmd::SetHdr(on) ==> command_effect(c, cmd).0.hdr == on,
            cmd matches Cmd::Start { target_hwnd } ==> command_effect(c, cmd).0.target == target_hwnd && command_effect(c, cmd).0.crop_cache is None,
            cmd matches Cmd::SetAspect { w, h } ==> (ASPECT_UNIT <= w <= 64 * ASPECT_UNIT ==> command_effect(c, cmd).0.crop.aspect_w
                == w) && (ASPECT_UNIT <= h <= 64 * ASPECT_UNIT ==> command_effect(c, cmd).0.crop.aspect_h == h) && command_effect(c, cmd).0.crop_cache is None,
            cmd matches Cmd::SetAspectAlign { x, y } ==> 0 <= command_effect(c, cmd).0.crop.align_x <= 2 && 0 <= command_effect(c, cmd).0.crop.align_y <= 2
                && (0 <= x <= 2 ==> command_effect(c, cmd).0.crop.align_x == x) && (0 <= y <= 2 ==> command_effect(c, cmd).0.crop.align_y == y)
                && command_effect(c, cmd).0.crop_cache is None,
{
}

impl CaptureControl {
    /// The crop options are in range: aspect terms within 1..=64 (in
    /// `ASPECT_UNIT`s) or 0 (not a number), and alignment codes within 0..=2.
    pub open spec fn valid(&self) -> bool {
        &&& self.crop.aspect_w == 0 || ASPECT_UNIT <= self.crop.aspect_w <= 64 * ASPECT_UNIT
        &&& self.crop.aspect_h == 0 || ASPECT_UNIT <= self.crop.aspect_h <= 64 * ASPECT_UNIT
        &&& 0 <= self.crop.align_x <= 2
        &&& 0 <= self.crop.align_y <= 2
    }

    /// The initial settings: title bar cut, 16:9 crop centred, no HDR
    /// correction, VSync on, not capturing.
    pub fn new() -> (r: CaptureControl)
        ensures
            r.target == 0,
            r.crop == (CropOptions {
                client_only: true,
                aspect_crop: true,
                aspect_w: (16 * ASPECT_UNIT) as u32,
                aspect_h: (9 * ASPECT_UNIT) as u32,
                align_x: 1,
                align_y: 1,
            }),
            !r.hdr,
            r.vsync,
            !r.capturing,
            r.crop_cache is None,
            r.cache_w == 0,
            r.cache_h == 0,
            r.valid(),
    {
        CaptureControl {
            target: 0,
            crop: CropOptions {
                client_only: true,
                aspect_crop: true,
                aspect_w: 16 * ASPECT_UNIT,
                aspect_h: 9 * ASPECT_UNIT,
                align_x: 1,
                align_y: 1,
            },
            hdr: false,
            vsync: true,
            capturing: false,
            crop_cache: None,
            cache_w: 0,
            cache_h: 0,
        }
    }

    /// Applies a command, see `command_effect`.
    pub fn apply(&mut self, cmd: Cmd) -> (action: CaptureAction)
        ensures
            (*final(self), action) == command_effect(*old(self), cmd),
            cmd matches Cmd::SetCrop(on) ==> final(self).crop.client_only == on && final(self).crop_cache is None,
            cmd matches Cmd::SetAspectCrop(on) ==> final(self).crop.aspect_crop == on && final(self).crop_cache is None,
            cmd matches Cmd::SetVsync(on) ==> final(self).vsync == on,
            cmd matches Cmd::SetHdr(on) ==> final(self).hdr == on,
            cmd matches Cmd::Start { target_hwnd } ==> final(self).target == target_hwnd && final(self).crop_cache is None,
            cmd matches Cmd::SetAspect { w, h } ==> (ASPECT_UNIT <= w <= 64 * ASPECT_UNIT ==> final(self).crop.aspect_w
                == w) && (ASPECT_UNIT <= h <= 64 * ASPECT_UNIT ==> final(self).crop.aspect_h == h) && final(self).crop_cache is None,
            cmd matches Cmd::SetAspectAlign { x, y } ==> 0 <= final(self).crop.align_x <= 2 && 0 <= final(self).crop.align_y <= 2
                && (0 <= x <= 2 ==> final(self).crop.align_x == x) && (0 <= y <= 2 ==> final(self).crop.align_y == y)
                && final(self).crop_cache is None,
            old(self).valid() ==> final(self).valid(),
    {
        match cmd {
            Cmd::Quit => {
                self.capturing = false;
                CaptureAction::Quit
            },
            Cmd::Start { target_hwnd } => {
                self.target = target_hwnd;
                self.capturing = false;
                self.crop_cache = None;
                CaptureAction::StartCapture
            },
            Cmd::Stop => {
                self.capturing = false;
                CaptureAction::StopCapture
            },
            Cmd::Show => CaptureAction::ShowOutput,
            Cmd::Hide => CaptureAction::HideOutput,
            Cmd::SetCrop(on) => {
                self.crop.client_only = on;
                self.crop_cache = None;
                CaptureAction::Nothing
            },
            Cmd::SetAspectCrop(on) => {
                self.crop.aspect_crop = on;
                self.crop_cache = None;
                CaptureAction::Nothing
            },
            Cmd::SetAspect { w, h } => {
                self.crop.aspect_w = clamp_aspect_exec(w);
                self.crop.aspect_h = clamp_aspect_exec(h);
                self.crop_cache = None;
                CaptureAction::Nothing
            },
            Cmd::SetAspectAlign { x, y } => {
                self.crop.align_x = clamp_align_exec(x);
                self.crop.align_y = clamp_align_exec(y);
                self.crop_cache = None;
                CaptureAction::Nothing
            },
            Cmd::SetHdr(on) => {
                if self.hdr == on {
                    CaptureAction::Nothing
                } else if self.capturing {
                    self.hdr = on;
                    self.capturing = false;
                    self.crop_cache = None;
                    CaptureAction::RestartCapture
                } else {
                    self.hdr = on;
                    CaptureAction::Nothing
                }
            },
            Cmd::SetNits(bits) => CaptureAction::SetNits(bits),
            Cmd::SetVsync(on) => {
                self.vsync = on;
                CaptureAction::Nothing
            },
            Cmd::SetOutputFps(bits) => CaptureAction::SetOutputFps(bits),
        }
    }

    /// Records that capturing started.
    pub fn capture_started(&mut self)
        ensures
            *final(self) == (CaptureControl { capturing: true, ..*old(self) }),
    {
        self.capturing = true;
    }

    /// Records that capturing stopped (the captured window closed).
    pub fn capture_stopped(&mut self)
        ensures
            *final(self) == (CaptureControl { capturing: false, ..*old(self) }),
    {
        self.capturing = false;
    }

    /// The presentation interval: 1 (wait for vertical sync) with VSync, else 0.
    pub fn present_interval(&self) -> (r: u32)
        ensures
            r == (if self.vsync { 1u32 } else { 0u32 }),
    {
        if self.vsync {
            1
        } else {
            0
        }
    }

    /// The cached region for a `frame_w` x `frame_h` frame when the cache was
    /// filled for that size less than half a second ago (`age_ms` ago); the
    /// cached value may be "none" after a settings change, meaning the whole frame.
    pub fn cached_region(&self, frame_w: i32, frame_h: i32, age_ms: u64) -> (r: Option<Option<Rect>>)
        ensures
            r == (if self.cache_w == frame_w && self.cache_h == frame_h && age_ms < 500 {
                Some(self.crop_cache)
            } else {
                None
            }),
    {
        if crate::geometry::crop_cache_fresh(self.cache_w, self.cache_h, frame_w, frame_h, age_ms) {
            Some(self.crop_cache)
        } else {
            None
        }
    }

    /// Computes the output region of a `frame_w` x `frame_h` frame from the
    /// window's client area (when known), and caches it.
    pub fn refresh_region(&mut self, frame_w: i32, frame_h: i32, client: Option<Rect>) -> (r: Rect)
        requires
            frame_w > 0,
            frame_h > 0,
            client matches Some(c) ==> inside_frame(rect_int(c), frame_w as int, frame_h as int),
        ensures
            rect_int(r) == output_region(old(self).crop, client, frame_w, frame_h),
            inside_frame(rect_int(r), frame_w as int, frame_h as int),
            *final(self) == (CaptureControl {
                crop_cache: Some(r),
                cache_w: frame_w,
                cache_h: frame_h,
                ..*old(self)
            }),
    {
        let r = region_in_frame(&self.crop, client, frame_w, frame_h);
        self.crop_cache = Some(r);
        self.cache_w = frame_w;
        self.cache_h = frame_h;
        r
    }
}

/// The frames the worker holds: the newest one not yet shown and the one shown
/// last (shown again while no newer frame arrives).
#[derive(Debug)]
pub struct FrameSlots<F> {
    pub pending: Option<F>,
    pub last: Option<F>,
}

impl<F> FrameSlots<F> {
    pub fn new() -> (r: FrameSlots<F>)
        ensures
            r.pending is None,
            r.last is None,
    {
        FrameSlots { pending: None, last: None }
    }

    /// Drops both frames.
    pub fn clear(&mut self)
        ensures
            final(self).pending is None,
            final(self).last is None,
    {
        self.pending = None;
        self.last = None;
    }

    /// Keeps the newest of the frames just taken from the capture queue, if any.
    pub fn offer(&mut self, newest: Option<F>)
        ensures
            final(self).last == old(self).last,
            final(self).pending == (if newest is Some { newest } else { old(self).pending }),
    {
        if newest.is_some() {
            self.pending = newest;
        }
    }

    /// At output time: the pending frame, if any, becomes the one to show.
    pub fn promote(&mut self)
        ensures
            final(self).pending is None,
            final(self).last == (if old(self).pending is Some { old(self).pending } else { old(self).last }),
    {
        if let Some(frame) = self.pending.take() {
            self.last = Some(frame);
        }
    }
}

/// How long the worker sleeps while capturing and no frame is due: the time
/// until the next output, kept within 300 microseconds and 1 millisecond.
pub fn idle_sleep_micros(until_next_output_us: u64) -> (r: u64)
    ensures
        r == clamp_int(until_next_output_us as int, 300, 1000),
{
    if until_next_output_us < 300 {
        300
    } else if until_next_output_us > 1000 {
        1000
    } else {
        until_next_output_us
    }
}

/// Where the hidden output window is put: 50 pixels right of the virtual
/// screen's right edge (its left edge plus its width), 50 pixels down. It stays
/// visible to screen sharing but out of the user's sight.
pub fn offscreen_origin(virtual_left: i32, virtual_width: i32) -> (r: (i32, i32))
    requires
        virtual_left + virtual_width + 50 <= i32::MAX,
        virtual_left + virtual_width >= i32::MIN,
    ensures
        r.0 == virtual_left + virtual_width + 50,
        r.1 == 50,
{
    (virtual_width + virtual_left + 50, 50)
}

} // verus!
