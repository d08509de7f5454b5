//! The event-loop driver: the decisions the shell takes for each OS
//! event, kept apart from the windowing, GPU and file-system calls that
//! carry them out.
//!
//! The surrounding binary owns the real window, surface and style
//! watcher.  For every event it first hands the raw event to the UI
//! bridge, then reports the bridge's verdict and the event kind here;
//! the driver updates its state and answers with a directive saying
//! what to perform.

use vstd::prelude::*;

verus! {

/// Width and height of the GPU presentation surface, in physical
/// pixels.
#[derive(Clone, Copy, PartialEq, Eq, Structural, Debug)]
pub struct SurfaceDims {
    pub width: u32,
    pub height: u32,
}

/// What the UI bridge reported about a window event: whether the UI
/// consumed it, and whether a repaint is wanted.
#[derive(Clone, Copy, PartialEq, Eq, Structural, Debug)]
pub struct BridgeResponse {
    pub consumed: bool,
    pub repaint: bool,
}

/// A window event, reduced to what the driver decides on.
#[derive(Clone, Copy, PartialEq, Eq, Structural, Debug)]
pub enum WindowEventKind {
    Resized { width: u32, height: u32 },
    CloseRequested,
    Other,
}

/// What the loop must perform after a window event.
#[derive(Clone, Copy, PartialEq, Eq, Structural, Debug)]
pub struct WindowDirective {
    /// Ask the window for a redraw.
    pub request_redraw: bool,
    /// Reconfigure the presentation surface to the driver's dimensions.
    pub reconfigure_surface: bool,
    /// Persist the config and style documents, then leave the loop.
    pub persist_and_exit: bool,
}

/// The surface dimensions after a resize event: a zero width or height
/// is the platform's minimize sentinel and leaves the surface untouched.
pub open spec fn resized_surface(s: SurfaceDims, width: u32, height: u32) -> SurfaceDims {
    if width > 0 && height > 0 {
        SurfaceDims { width, height }
    } else {
        s
    }
}

/// Law: a resize event carrying the zero-size minimize sentinel leaves
/// the surface configuration unchanged, however often it arrives.
pub proof fn lemma_minimize_sentinel_ignored(s: SurfaceDims, width: u32, height: u32)
    requires
        width == 0 || height == 0,
    ensures
        resized_surface(s, width, height) == s,
{
}

/// Law: a resize event with positive dimensions is applied exactly, so
/// a subsequent frame's screen descriptor (which reads the driver's
/// surface dimensions) never sees stale values.
pub proof fn lemma_resize_applied(s: SurfaceDims, width: u32, height: u32)
    requires
        width > 0,
        height > 0,
    ensures
        resized_surface(s, width, height).width == width,
        resized_surface(s, width, height).height == height,
{
}

/// State the event-loop driver carries between events: the surface
/// dimensions it believes, the active style document, and whether a
/// close was requested.
pub struct DriverState {
    pub surface: SurfaceDims,
    pub style: Vec<u8>,
    pub exiting: bool,
}

impl DriverState {
    /// The surface never reaches a zero dimension: the window opens with
    /// a positive size and the minimize sentinel is ignored.
    pub open spec fn wf(self) -> bool {
        self.surface.width > 0 && self.surface.height > 0
    }

    /// Driver for a window of the given initial size, with the style
    /// document active at startup.
    pub fn new(width: u32, height: u32, style: Vec<u8>) -> (r: DriverState)
        requires
            width > 0,
            height > 0,
        ensures
            r.wf(),
            r.surface == (SurfaceDims { width, height }),
            r.style@ == style@,
            !r.exiting,
    {
        DriverState { surface: SurfaceDims { width, height }, style, exiting: false }
    }

    /// Decide on one window event.  The redraw request follows the
    /// bridge's repaint verdict alone; an event the UI consumed is not
    /// propagated; otherwise a resize updates the surface dimensions
    /// (ignoring the minimize sentinel) and a close request flags the
    /// loop for persist-and-exit.
    pub fn on_window_event(&mut self, kind: WindowEventKind, resp: BridgeResponse) -> (d:
        WindowDirective)
        ensures
            d.request_redraw == resp.repaint,
            final(self).style == old(self).style,
            resp.consumed ==> *final(self) == *old(self) && !d.reconfigure_surface
                && !d.persist_and_exit,
            !resp.consumed ==> match kind {
                WindowEventKind::Resized { width, height } => final(self).surface
                    == resized_surface(old(self).surface, width, height) && final(self).exiting
                    == old(self).exiting && d.reconfigure_surface == (width > 0 && height > 0)
                    && !d.persist_and_exit,
                WindowEventKind::CloseRequested => final(self).surface == old(self).surface
                    && final(self).exiting && d.persist_and_exit && !d.reconfigure_surface,
                WindowEventKind::Other => *final(self) == *old(self) && !d.reconfigure_surface
                    && !d.persist_and_exit,
            },
            old(self).wf() ==> final(self).wf(),
    {
        let request_redraw = resp.repaint;
        if resp.consumed {
            return WindowDirective {
                request_redraw,
                reconfigure_surface: false,
                persist_and_exit: false,
            };
        }
        match kind {
            WindowEventKind::Resized { width, height } => {
                if width > 0 && height > 0 {
                    self.surface = SurfaceDims { width, height };
                    WindowDirective {
                        request_redraw,
                        reconfigure_surface: true,
                        persist_and_exit: false,
                    }
                } else {
                    WindowDirective {
                        request_redraw,
                        reconfigure_surface: false,
                        persist_and_exit: false,
                    }
                }
            },
            WindowEventKind::CloseRequested => {
                self.exiting = true;
                WindowDirective {
                    request_redraw,
                    reconfigure_surface: false,
                    persist_and_exit: true,
                }
            },
            WindowEventKind::Other => WindowDirective {
                request_redraw,
                reconfigure_surface: false,
                persist_and_exit: false,
            },
        }
    }

    /// The polling redraw model: whenever the event queue runs dry, ask
    /// for another frame unconditionally.
    pub fn on_events_cleared(&self) -> (redraw: bool)
        ensures
            redraw,
    {
        true
    }

    /// Apply one non-blocking poll of the style watcher, done once per
    /// redraw.  The active style changes only when a change was
    /// signalled and the changed document was reloaded successfully; a
    /// missing or unparsable reload keeps the previous style.
    pub fn apply_style_poll(&mut self, signaled: bool, loaded: Option<Vec<u8>>) -> (applied: bool)
        ensures
            final(self).surface == old(self).surface,
            final(self).exiting == old(self).exiting,
            match loaded {
                Some(doc) => (signaled ==> applied && final(self).style@ == doc@) && (!signaled
                    ==> !applied && final(self).style == old(self).style),
                None => !applied && final(self).style == old(self).style,
            },
            old(self).wf() ==> final(self).wf(),
    {
        if signaled {
            match loaded {
                Some(doc) => {
                    self.style = doc;
                    true
                },
                None => false,
            }
        } else {
            false
        }
    }

    /// The dimensions a frame's screen descriptor must use: exactly the
    /// surface dimensions the driver last applied.
    pub fn screen_size(&self) -> (d: SurfaceDims)
        ensures
            d == self.surface,
    {
        self.surface
    }
}

} // verus!
