//! Application host decisions: configuration checks, window drawability, the frame limit,
//! and the response to surface acquisition failures. The event loop itself performs I/O
//! and feeds these transitions.

use vstd::prelude::*;

verus! {

/// What game code asks of the host after one update.
#[derive(Clone, Copy, Debug, PartialEq, Eq, Structural)]
pub enum AppAction {
    Continue,
    Exit,
}

/// Window size and an optional presentation budget for smoke tests.
#[derive(Clone, Copy, Debug, PartialEq, Eq, Structural)]
pub struct AppConfig {
    pub width: u32,
    pub height: u32,
    /// Exit after this many successful presentations, for smoke tests.
    pub frame_limit: Option<u32>,
}

impl Default for AppConfig {
    fn default() -> (config: Self)
        ensures
            config.width == 1280,
            config.height == 720,
            config.frame_limit is None,
    {
        AppConfig { width: 1280, height: 720, frame_limit: None }
    }
}

/// Why a configuration cannot start a host.
#[derive(Clone, Copy, Debug, PartialEq, Eq, Structural)]
pub enum AppConfigError {
    /// Window dimensions and the frame limit must be greater than zero.
    ZeroDimensionOrFrameLimit,
}

impl AppConfig {
    /// A host can start only with a nonempty window and, if present, a positive frame limit.
    pub open spec fn valid(self) -> bool {
        self.width > 0 && self.height > 0 && self.frame_limit != Some(0u32)
    }

    /// The check made before the event loop starts.
    pub fn validate(&self) -> (result: Result<(), AppConfigError>)
        ensures
            result is Ok <==> self.valid(),
            result is Err ==> result == Err::<(), AppConfigError>(
                AppConfigError::ZeroDimensionOrFrameLimit,
            ),
    {
        let zero_limit = match self.frame_limit {
            Some(frames) => frames == 0,
            None => false,
        };
        if self.width == 0 || self.height == 0 || zero_limit {
            Err(AppConfigError::ZeroDimensionOrFrameLimit)
        } else {
            Ok(())
        }
    }
}

/// Kinds of failure when acquiring the next surface texture.
#[derive(Clone, Copy, Debug, PartialEq, Eq, Structural)]
pub enum SurfaceFault {
    Timeout,
    Outdated,
    Lost,
    OutOfMemory,
    Other,
}

/// How the host reacts to a surface failure.
#[derive(Clone, Copy, Debug, PartialEq, Eq, Structural)]
pub enum SurfaceResponse {
    /// Reconfigure the surface with the current configuration and continue.
    Reconfigure,
    /// Skip this frame and try again on a later redraw.
    RetryLater,
    /// Report the error and exit.
    Fail,
}

/// Lost or outdated surfaces are reconfigured, timeouts are retried, and any other
/// error ends the application.
pub open spec fn surface_response_spec(fault: SurfaceFault) -> SurfaceResponse {
    match fault {
        SurfaceFault::Lost | SurfaceFault::Outdated => SurfaceResponse::Reconfigure,
        SurfaceFault::Timeout => SurfaceResponse::RetryLater,
        _ => SurfaceResponse::Fail,
    }
}

pub fn surface_response(fault: SurfaceFault) -> (response: SurfaceResponse)
    ensures
        response == surface_response_spec(fault),
{
    match fault {
        SurfaceFault::Lost | SurfaceFault::Outdated => SurfaceResponse::Reconfigure,
        SurfaceFault::Timeout => SurfaceResponse::RetryLater,
        SurfaceFault::OutOfMemory | SurfaceFault::Other => SurfaceResponse::Fail,
    }
}

/// Drawability of the live window.
#[derive(Clone, Copy, Debug, PartialEq, Eq, Structural)]
pub struct WindowFlags {
    /// Both surface dimensions are nonzero.
    pub drawable: bool,
    /// The compositor reported the window as hidden.
    pub occluded: bool,
}

/// The host's own state between events: the live window (absent while suspended)
/// and the remaining presentation budget.
#[derive(Clone, Copy, Debug, PartialEq, Eq, Structural)]
pub struct HostState {
    pub window: Option<WindowFlags>,
    /// `Some(0)` means the budget is spent and exit has been requested.
    pub frames_left: Option<u32>,
}

/// One successful presentation: the budget shrinks by one, and exit is requested when it
/// reaches zero. Without a budget nothing changes.
pub open spec fn present_step(frames_left: Option<u32>) -> (Option<u32>, bool) {
    match frames_left {
        Some(n) => (Some((n - 1) as u32), n == 1),
        None => (None, false),
    }
}

/// The budget after `k` presentations.
pub open spec fn presents(frames_left: Option<u32>, k: nat) -> Option<u32>
    decreases k,
{
    if k == 0 {
        frames_left
    } else {
        present_step(presents(frames_left, (k - 1) as nat)).0
    }
}

/// Drawable iff both dimensions are nonzero.
pub open spec fn drawable_extent(width: u32, height: u32) -> bool {
    width > 0 && height > 0
}

/// The state after the window reports a new inner size.
pub open spec fn resized_spec(s: HostState, width: u32, height: u32) -> HostState {
    HostState {
        window: match s.window {
            Some(flags) => Some(WindowFlags { drawable: drawable_extent(width, height), ..flags }),
            None => None,
        },
        ..s
    }
}

/// The state after the compositor reports a visibility change.
pub open spec fn occluded_spec(s: HostState, occluded: bool) -> HostState {
    HostState {
        window: match s.window {
            Some(flags) => Some(WindowFlags { occluded, ..flags }),
            None => None,
        },
        ..s
    }
}

impl HostState {
    /// The state before the first window exists.
    pub fn new(config: &AppConfig) -> (state: Self)
        ensures
            state.window is None,
            state.frames_left == config.frame_limit,
    {
        HostState { window: None, frames_left: config.frame_limit }
    }

    /// Redraws, and requests for them, happen only for a live, drawable, visible window.
    pub open spec fn should_draw_spec(self) -> bool {
        match self.window {
            Some(flags) => flags.drawable && !flags.occluded,
            None => false,
        }
    }

    pub fn should_draw(&self) -> (draw: bool)
        ensures
            draw == self.should_draw_spec(),
    {
        match self.window {
            Some(flags) => flags.drawable && !flags.occluded,
            None => false,
        }
    }

    /// A window was created on resume with the given inner size. An existing window is kept.
    pub fn resumed(&mut self, width: u32, height: u32)
        ensures
            final(self).frames_left == old(self).frames_left,
            old(self).window is Some ==> final(self).window == old(self).window,
            old(self).window is None ==> final(self).window == Some(
                WindowFlags { drawable: drawable_extent(width, height), occluded: false },
            ),
    {
        if self.window.is_none() {
            self.window = Some(WindowFlags { drawable: width > 0 && height > 0, occluded: false });
        }
    }

    /// Suspension drops the window and its surface.
    pub fn suspended(&mut self)
        ensures
            final(self).window is None,
            final(self).frames_left == old(self).frames_left,
    {
        self.window = None;
    }

    /// The window changed size. Returns whether the surface must be reconfigured:
    /// only a live window with a nonzero size is.
    pub fn resized(&mut self, width: u32, height: u32) -> (reconfigure: bool)
        ensures
            *final(self) == resized_spec(*old(self), width, height),
            reconfigure == (old(self).window is Some && drawable_extent(width, height)),
    {
        match self.window {
            Some(flags) => {
                let drawable = width > 0 && height > 0;
                self.window = Some(WindowFlags { drawable, occluded: flags.occluded });
                drawable
            },
            None => false,
        }
    }

    /// The compositor reported a visibility change.
    pub fn set_occluded(&mut self, occluded: bool)
        ensures
            *final(self) == occluded_spec(*old(self), occluded),
    {
        if let Some(flags) = self.window {
            self.window = Some(WindowFlags { drawable: flags.drawable, occluded });
        }
    }

    /// The presentation budget is spent.
    pub open spec fn limit_reached_spec(self) -> bool {
        self.frames_left == Some(0u32)
    }

    pub fn limit_reached(&self) -> (reached: bool)
        ensures
            reached == self.limit_reached_spec(),
    {
        match self.frames_left {
            Some(n) => n == 0,
            None => false,
        }
    }

    /// Account for one successful presentation; returns whether the host must now exit.
    pub fn presented(&mut self) -> (exit: bool)
        requires
            !old(self).limit_reached_spec(),
        ensures
            final(self).window == old(self).window,
            (final(self).frames_left, exit) == present_step(old(self).frames_left),
    {
        match self.frames_left {
            Some(n) => {
                self.frames_left = Some(n - 1);
                n == 1
            },
            None => false,
        }
    }
}

/// A host started with a frame limit of `n` requests exit on exactly the `n`-th successful
/// presentation: every earlier presentation continues, and the budget never runs out early.
pub proof fn lemma_frame_limit_exits_on_last_presentation(n: u32, k: nat)
    requires
        0 < k <= n,
    ensures
        presents(Some(n), (k - 1) as nat) == Some((n - (k - 1)) as u32),
        present_step(presents(Some(n), (k - 1) as nat)).1 <==> k == n,
    decreases k,
{
    if k > 1 {
        lemma_frame_limit_exits_on_last_presentation(n, (k - 1) as nat);
    }
}

/// Rendering stops for zero-sized, occluded, or suspended windows, and resumes for a
/// visible window once it has a nonzero size again.
pub proof fn lemma_only_visible_nonempty_windows_draw(s: HostState, width: u32, height: u32)
    ensures
        !drawable_extent(width, height) ==> !resized_spec(s, width, height).should_draw_spec(),
        !occluded_spec(s, true).should_draw_spec(),
        !(HostState { window: None, ..s }).should_draw_spec(),
        s.window matches Some(flags) && !flags.occluded && drawable_extent(width, height)
            ==> resized_spec(s, width, height).should_draw_spec(),
{
}

/// Without a frame limit, no number of presentations requests exit.
pub proof fn lemma_no_limit_never_exits(k: nat)
    ensures
        presents(None, k) is None,
        !present_step(presents(None, k)).1,
    decreases k,
{
    if k > 0 {
        lemma_no_limit_never_exits((k - 1) as nat);
    }
}

} // verus!
