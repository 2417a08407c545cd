//! The runtime's decisions that do not depend on the window system or the
//! GPU: decoding the renderer codes read from `config.json`, what a surface
//! status and a rendered frame mean for the frame loop, and the application's
//! lifecycle from window creation to shutdown.

use vstd::prelude::*;
use vstd::std_specs::convert::FromSpecImpl;

use crate::error::RedixelError;

verus! {

/// Raw integer code for `config.json → renderer.backend`.
#[derive(Debug)]
pub struct RawBackend(pub u32);

/// The graphics backends the renderer may use.
#[derive(Debug, Clone, Copy, PartialEq, Eq, Structural)]
pub enum BackendChoice {
    All,
    Vulkan,
    Gl,
    Metal,
    Dx12,
    BrowserWebGpu,
    Primary,
    Secondary,
}

/// The backends a raw code selects; an unknown code selects all of them.
pub open spec fn backend_of(code: u32) -> BackendChoice {
    if code == 1 {
        BackendChoice::Vulkan
    } else if code == 2 {
        BackendChoice::Gl
    } else if code == 3 {
        BackendChoice::Metal
    } else if code == 4 {
        BackendChoice::Dx12
    } else if code == 5 {
        BackendChoice::BrowserWebGpu
    } else if code == 6 {
        BackendChoice::Primary
    } else if code == 7 {
        BackendChoice::Secondary
    } else {
        BackendChoice::All
    }
}

/// The backend codes of `config.json`, in order: `0` selects every backend,
/// `1` to `7` Vulkan, GL, Metal, DX12, browser WebGPU, the primary and the
/// secondary backends, and any other code every backend.
pub proof fn law_backend_codes(code: u32)
    ensures
        code < 8 ==> backend_of(code) == seq![
            BackendChoice::All,
            BackendChoice::Vulkan,
            BackendChoice::Gl,
            BackendChoice::Metal,
            BackendChoice::Dx12,
            BackendChoice::BrowserWebGpu,
            BackendChoice::Primary,
            BackendChoice::Secondary,
        ][code as int],
        code >= 8 ==> backend_of(code) == BackendChoice::All,
{
}

impl From<RawBackend> for BackendChoice {
    fn from(raw: RawBackend) -> (choice: BackendChoice)
        ensures
            choice == backend_of(raw.0),
    {
        match raw.0 {
            1 => BackendChoice::Vulkan,
            2 => BackendChoice::Gl,
            3 => BackendChoice::Metal,
            4 => BackendChoice::Dx12,
            5 => BackendChoice::BrowserWebGpu,
            6 => BackendChoice::Primary,
            7 => BackendChoice::Secondary,
            _ => BackendChoice::All,
        }
    }
}

impl FromSpecImpl<RawBackend> for BackendChoice {
    open spec fn obeys_from_spec() -> bool {
        true
    }

    open spec fn from_spec(raw: RawBackend) -> BackendChoice {
        backend_of(raw.0)
    }
}

/// Raw integer code for `config.json → renderer.present_mode`.
#[derive(Debug)]
pub struct RawPresentMode(pub u32);

/// How frames are presented to the surface.
#[derive(Debug, Clone, Copy, PartialEq, Eq, Structural)]
pub enum PresentChoice {
    AutoVsync,
    AutoNoVsync,
    Fifo,
    FifoRelaxed,
    Immediate,
    Mailbox,
}

/// The present mode a raw code selects; an unknown code selects `AutoVsync`.
pub open spec fn present_mode_of(code: u32) -> PresentChoice {
    if code == 1 {
        PresentChoice::AutoNoVsync
    } else if code == 2 {
        PresentChoice::Fifo
    } else if code == 3 {
        PresentChoice::FifoRelaxed
    } else if code == 4 {
        PresentChoice::Immediate
    } else if code == 5 {
        PresentChoice::Mailbox
    } else {
        PresentChoice::AutoVsync
    }
}

/// The present-mode codes of `config.json`, in order: `0` to `5` select
/// AutoVsync, AutoNoVsync, Fifo, FifoRelaxed, Immediate and Mailbox, and any
/// other code AutoVsync.
pub proof fn law_present_mode_codes(code: u32)
    ensures
        code < 6 ==> present_mode_of(code) == seq![
            PresentChoice::AutoVsync,
            PresentChoice::AutoNoVsync,
            PresentChoice::Fifo,
            PresentChoice::FifoRelaxed,
            PresentChoice::Immediate,
            PresentChoice::Mailbox,
        ][code as int],
        code >= 6 ==> present_mode_of(code) == PresentChoice::AutoVsync,
{
}

impl From<RawPresentMode> for PresentChoice {
    fn from(raw: RawPresentMode) -> (choice: PresentChoice)
        ensures
            choice == present_mode_of(raw.0),
    {
        match raw.0 {
            1 => PresentChoice::AutoNoVsync,
            2 => PresentChoice::Fifo,
            3 => PresentChoice::FifoRelaxed,
            4 => PresentChoice::Immediate,
            5 => PresentChoice::Mailbox,
            _ => PresentChoice::AutoVsync,
        }
    }
}

impl FromSpecImpl<RawPresentMode> for PresentChoice {
    open spec fn obeys_from_spec() -> bool {
        true
    }

    open spec fn from_spec(raw: RawPresentMode) -> PresentChoice {
        present_mode_of(raw.0)
    }
}

/// What the surface answered when asked for the texture to draw the next
/// frame into.
#[derive(Debug, Clone, Copy, PartialEq, Eq, Structural)]
pub enum SurfaceStatus {
    Success,
    Suboptimal,
    Outdated,
    Lost,
    Timeout,
    Occluded,
    Validation,
}

/// Whether a frame can be drawn after the surface answered `status`: a
/// current or merely suboptimal texture is drawn into; an outdated or lost
/// surface needs reconfiguring; a timed-out or occluded one skips the frame;
/// a validation failure is reported as such.
pub fn surface_texture_outcome(status: SurfaceStatus) -> (outcome: Result<(), RedixelError>)
    ensures
        (status == SurfaceStatus::Success || status == SurfaceStatus::Suboptimal) <==> outcome is Ok,
        (status == SurfaceStatus::Outdated || status == SurfaceStatus::Lost) <==> outcome matches Err(
            RedixelError::SurfaceNeedsReconfiguration,
        ),
        (status == SurfaceStatus::Timeout || status == SurfaceStatus::Occluded) <==> outcome matches Err(
            RedixelError::SurfaceIgnored,
        ),
        (status == SurfaceStatus::Validation) <==> outcome matches Err(RedixelError::SurfaceValidation),
{
    match status {
        SurfaceStatus::Success | SurfaceStatus::Suboptimal => Ok(()),
        SurfaceStatus::Outdated | SurfaceStatus::Lost => Err(RedixelError::SurfaceNeedsReconfiguration),
        SurfaceStatus::Timeout | SurfaceStatus::Occluded => Err(RedixelError::SurfaceIgnored),
        SurfaceStatus::Validation => Err(RedixelError::SurfaceValidation),
    }
}

/// How the frame loop goes on after rendering a frame.
#[derive(Debug, Clone, Copy, PartialEq, Eq, Structural)]
pub enum FrameOutcome {
    /// The frame was presented or harmlessly skipped.
    Continue,
    /// The surface must be resized to the window before the next frame.
    Resize,
    /// The error is fatal: record it and stop the event loop.
    Fatal,
}

/// What a render result means for the frame loop: success and a skipped
/// frame carry on, a surface needing reconfiguration is resized, and any other
/// error ends the run.
pub fn after_render(result: &Result<(), RedixelError>) -> (outcome: FrameOutcome)
    ensures
        outcome == FrameOutcome::Continue <==> (result is Ok || result matches Err(RedixelError::SurfaceIgnored)),
        outcome == FrameOutcome::Resize <==> result matches Err(RedixelError::SurfaceNeedsReconfiguration),
        outcome == FrameOutcome::Fatal <==> (result is Err && !(result matches Err(RedixelError::SurfaceIgnored))
            && !(result matches Err(RedixelError::SurfaceNeedsReconfiguration))),
{
    match result {
        Ok(()) => FrameOutcome::Continue,
        Err(RedixelError::SurfaceIgnored) => FrameOutcome::Continue,
        Err(RedixelError::SurfaceNeedsReconfiguration) => FrameOutcome::Resize,
        Err(_) => FrameOutcome::Fatal,
    }
}

/// A surface status never leads to a fatal frame unless it is a validation
/// failure: an outdated or lost surface is resized and the next frame drawn.
pub proof fn law_only_validation_failures_are_fatal(status: SurfaceStatus, outcome: Result<(), RedixelError>, next: FrameOutcome)
    requires
        (status == SurfaceStatus::Success || status == SurfaceStatus::Suboptimal) <==> outcome is Ok,
        (status == SurfaceStatus::Outdated || status == SurfaceStatus::Lost) <==> outcome matches Err(
            RedixelError::SurfaceNeedsReconfiguration,
        ),
        (status == SurfaceStatus::Timeout || status == SurfaceStatus::Occluded) <==> outcome matches Err(
            RedixelError::SurfaceIgnored,
        ),
        (status == SurfaceStatus::Validation) <==> outcome matches Err(RedixelError::SurfaceValidation),
        next == FrameOutcome::Continue <==> (outcome is Ok || outcome matches Err(RedixelError::SurfaceIgnored)),
        next == FrameOutcome::Resize <==> outcome matches Err(RedixelError::SurfaceNeedsReconfiguration),
        next == FrameOutcome::Fatal <==> (outcome is Err && !(outcome matches Err(RedixelError::SurfaceIgnored))
            && !(outcome matches Err(RedixelError::SurfaceNeedsReconfiguration))),
    ensures
        next == FrameOutcome::Fatal <==> status == SurfaceStatus::Validation,
        next == FrameOutcome::Resize <==> (status == SurfaceStatus::Outdated || status == SurfaceStatus::Lost),
{
}

/// Where the application is in its start-up.
#[derive(Debug, Clone, Copy, PartialEq, Eq, Structural)]
pub enum AppPhase {
    /// Waiting for the OS to allow a window surface.
    Initializing,
    /// The window exists and the GPU is initialising in the background.
    Loading,
    /// The renderer and the game are running.
    Running,
}

/// What to do when the OS says surfaces can be created.
#[derive(Debug, Clone, Copy, PartialEq, Eq, Structural)]
pub enum SurfacesAction {
    /// Create the window and start initialising the GPU behind it.
    CreateWindow,
    /// The GPU is still initialising: nothing to do yet.
    Ignore,
    /// The app is back from the background: rebuild the GPU surface.
    Resume,
}

/// The kinds of window event the runtime tells apart.
#[derive(Debug, Clone, Copy, PartialEq, Eq, Structural)]
pub enum WindowEventKind {
    CloseRequested,
    Destroyed,
    SurfaceResized,
    RedrawRequested,
    Other,
}

/// What to do with a window event.
#[derive(Debug, Clone, Copy, PartialEq, Eq, Structural)]
pub enum WindowAction {
    /// Not running yet, or in the background: drop the event.
    Ignore,
    /// Stop the event loop.
    Exit,
    /// Resize the renderer and tell the game the new surface size.
    Resize,
    /// Run one frame.
    Redraw,
    /// Hand the event to input handling, then to the window.
    Input,
}

/// The application's lifecycle: its start-up phase, whether the OS has sent
/// it to the background, and the error that ended the run, if one did.
pub struct Lifecycle {
    phase: AppPhase,
    suspended: bool,
    fatal_error: Option<RedixelError>,
}

impl Lifecycle {
    /// The start-up phase.
    pub closed spec fn phase_view(&self) -> AppPhase {
        self.phase
    }

    /// Whether the app is in the background.
    pub closed spec fn suspended_view(&self) -> bool {
        self.suspended
    }

    /// The error that ended the run, until it is taken.
    pub closed spec fn error_view(&self) -> Option<RedixelError> {
        self.fatal_error
    }

    /// A fresh application: initialising, in the foreground, with no error.
    pub fn new() -> (lifecycle: Self)
        ensures
            lifecycle.phase_view() == AppPhase::Initializing,
            !lifecycle.suspended_view(),
            lifecycle.error_view() is None,
    {
        Lifecycle { phase: AppPhase::Initializing, suspended: false, fatal_error: None }
    }

    /// Records `error` as what ended the run, replacing any recorded before.
    /// The loop then stops, and the caller of the run takes it.
    pub fn fail(&mut self, error: RedixelError)
        ensures
            final(self).error_view() == Some(error),
            final(self).phase_view() == old(self).phase_view(),
            final(self).suspended_view() == old(self).suspended_view(),
    {
        self.fatal_error = Some(error);
    }

    /// Takes the error that ended the run, leaving none.
    pub fn take_error(&mut self) -> (error: Option<RedixelError>)
        ensures
            error == old(self).error_view(),
            final(self).error_view() is None,
            final(self).phase_view() == old(self).phase_view(),
            final(self).suspended_view() == old(self).suspended_view(),
    {
        self.fatal_error.take()
    }

    /// The start-up phase.
    pub fn phase(&self) -> (phase: AppPhase)
        ensures
            phase == self.phase_view(),
    {
        self.phase
    }

    /// Whether the app is in the background.
    pub fn is_suspended(&self) -> (suspended: bool)
        ensures
            suspended == self.suspended_view(),
    {
        self.suspended
    }

    /// The OS allows surfaces to be created: the first time the window is
    /// created; while the GPU initialises nothing happens; once running the
    /// app is back in the foreground and its surface is rebuilt.
    pub fn can_create_surfaces(&mut self) -> (action: SurfacesAction)
        ensures
            action == match old(self).phase_view() {
                AppPhase::Initializing => SurfacesAction::CreateWindow,
                AppPhase::Loading => SurfacesAction::Ignore,
                AppPhase::Running => SurfacesAction::Resume,
            },
            phase_rank(old(self).phase_view()) <= phase_rank(final(self).phase_view()),
            final(self).phase_view() == old(self).phase_view(),
            final(self).suspended_view() == if old(self).phase_view() == AppPhase::Running {
                false
            } else {
                old(self).suspended_view()
            },
            final(self).error_view() == old(self).error_view(),
    {
        match self.phase {
            AppPhase::Initializing => SurfacesAction::CreateWindow,
            AppPhase::Loading => SurfacesAction::Ignore,
            AppPhase::Running => {
                self.suspended = false;
                SurfacesAction::Resume
            },
        }
    }

    /// The window asked for by [`SurfacesAction::CreateWindow`] was created:
    /// the GPU now initialises behind it. (A failed creation aborts the run
    /// and leaves the phase alone.)
    pub fn window_created(&mut self)
        requires
            old(self).phase_view() == AppPhase::Initializing,
        ensures
            phase_rank(old(self).phase_view()) <= phase_rank(final(self).phase_view()),
            final(self).phase_view() == AppPhase::Loading,
            final(self).suspended_view() == old(self).suspended_view(),
            final(self).error_view() == old(self).error_view(),
    {
        self.phase = AppPhase::Loading;
    }

    /// The OS sent the app to the background. Returns whether the renderer
    /// must drop its surface, which it only holds once running.
    pub fn suspend(&mut self) -> (drop_surface: bool)
        ensures
            drop_surface == (old(self).phase_view() == AppPhase::Running),
            phase_rank(old(self).phase_view()) <= phase_rank(final(self).phase_view()),
            final(self).phase_view() == old(self).phase_view(),
            final(self).suspended_view(),
            final(self).error_view() == old(self).error_view(),
    {
        self.suspended = true;
        match self.phase {
            AppPhase::Running => true,
            _ => false,
        }
    }

    /// The background GPU initialisation woke the event loop. Returns whether
    /// its result should be collected, which only happens while loading.
    pub fn proxy_wake_up(&self) -> (collect: bool)
        ensures
            collect == (self.phase_view() == AppPhase::Loading),
    {
        match self.phase {
            AppPhase::Loading => true,
            _ => false,
        }
    }

    /// The GPU is ready and the game has started: the app is running.
    pub fn started(&mut self)
        requires
            old(self).phase_view() == AppPhase::Loading,
        ensures
            phase_rank(old(self).phase_view()) <= phase_rank(final(self).phase_view()),
            final(self).phase_view() == AppPhase::Running,
            final(self).suspended_view() == old(self).suspended_view(),
            final(self).error_view() == old(self).error_view(),
    {
        self.phase = AppPhase::Running;
    }

    /// What to do with a window event: nothing before the app runs or while
    /// it is in the background; otherwise close and destroy end the run, a
    /// resize resizes, a redraw runs a frame, and anything else is input.
    pub fn window_event(&self, event: WindowEventKind) -> (action: WindowAction)
        ensures
            self.phase_view() != AppPhase::Running || self.suspended_view() ==> action == WindowAction::Ignore,
            self.phase_view() == AppPhase::Running && !self.suspended_view() ==> action == match event {
                WindowEventKind::CloseRequested => WindowAction::Exit,
                WindowEventKind::Destroyed => WindowAction::Exit,
                WindowEventKind::SurfaceResized => WindowAction::Resize,
                WindowEventKind::RedrawRequested => WindowAction::Redraw,
                WindowEventKind::Other => WindowAction::Input,
            },
    {
        match self.phase {
            AppPhase::Running => {},
            _ => {
                return WindowAction::Ignore;
            },
        }
        if self.suspended {
            return WindowAction::Ignore;
        }
        match event {
            WindowEventKind::CloseRequested | WindowEventKind::Destroyed => WindowAction::Exit,
            WindowEventKind::SurfaceResized => WindowAction::Resize,
            WindowEventKind::RedrawRequested => WindowAction::Redraw,
            WindowEventKind::Other => WindowAction::Input,
        }
    }
}

/// How far into start-up `phase` is. Every transition of [`Lifecycle`]
/// keeps or raises it: an app never goes back to an earlier phase.
pub open spec fn phase_rank(phase: AppPhase) -> int {
    match phase {
        AppPhase::Initializing => 0,
        AppPhase::Loading => 1,
        AppPhase::Running => 2,
    }
}

} // verus!
