use vstd::prelude::*;

verus! {

/// What acquiring the display surface's next image gave.
#[derive(Clone, Copy, Debug, PartialEq, Eq, Structural)]
pub enum SurfaceStatus {
    Ready,
    Lost,
    Outdated,
    Timeout,
    OutOfMemory,
}

/// What a frame does once the surface has answered.
#[derive(Clone, Copy, Debug, PartialEq, Eq, Structural)]
pub enum FrameAction {
    /// Draw the frame and present it.
    Draw,
    /// Skip this frame and reconfigure the surface at the window's current size.
    Reconfigure,
    /// Stop: the session cannot go on.
    Fatal,
}

/// A lost or outdated surface skips the frame and asks for a reconfigure; any other failure is
/// fatal.
pub fn on_acquire(status: SurfaceStatus) -> (r: FrameAction)
    ensures
        status == SurfaceStatus::Ready ==> r == FrameAction::Draw,
        status == SurfaceStatus::Lost || status == SurfaceStatus::Outdated ==> r
            == FrameAction::Reconfigure,
        status == SurfaceStatus::Timeout || status == SurfaceStatus::OutOfMemory ==> r
            == FrameAction::Fatal,
{
    match status {
        SurfaceStatus::Ready => FrameAction::Draw,
        SurfaceStatus::Lost => FrameAction::Reconfigure,
        SurfaceStatus::Outdated => FrameAction::Reconfigure,
        SurfaceStatus::Timeout => FrameAction::Fatal,
        SurfaceStatus::OutOfMemory => FrameAction::Fatal,
    }
}

/// One step of a frame.
#[derive(Clone, Copy, Debug, PartialEq, Eq, Structural)]
pub enum FrameStep {
    /// Reset the raster pass's depth buffer to the far depth and its color buffer to black.
    ClearRaster,
    /// Upload the chunk at this position if it is dirty.
    SyncChunk(usize),
    /// Run the raster pass over the chunk at this position.
    DispatchChunk(usize),
    /// Update the camera and upload its binding.
    UpdateCamera,
    /// Copy the raster pass's image to the display surface and present it.
    CopyToScreen,
}

/// Syncing then dispatching each of the first `n` chunks in turn.
pub open spec fn chunk_steps(n: nat) -> Seq<FrameStep>
    decreases n,
{
    if n == 0 {
        Seq::empty()
    } else {
        chunk_steps((n - 1) as nat).push(FrameStep::SyncChunk((n - 1) as usize)).push(
            FrameStep::DispatchChunk((n - 1) as usize),
        )
    }
}

/// The steps of one frame over `n` chunks, in order.
pub open spec fn frame_steps(n: nat) -> Seq<FrameStep> {
    seq![FrameStep::ClearRaster] + chunk_steps(n) + seq![
        FrameStep::UpdateCamera,
        FrameStep::CopyToScreen,
    ]
}

/// The steps of one frame over `chunks` chunks: clear, then each chunk's sync and dispatch,
/// then the camera, then the copy to the screen.
pub fn frame_plan(chunks: usize) -> (r: Vec<FrameStep>)
    requires
        chunks <= usize::MAX / 2,
    ensures
        r@ == frame_steps(chunks as nat),
{
    let mut r: Vec<FrameStep> = Vec::new();
    r.push(FrameStep::ClearRaster);
    let mut i: usize = 0;
    while i < chunks
        invariant
            i <= chunks,
            r@ == seq![FrameStep::ClearRaster] + chunk_steps(i as nat),
        decreases chunks - i,
    {
        r.push(FrameStep::SyncChunk(i));
        r.push(FrameStep::DispatchChunk(i));
        proof {
            assert(r@ =~= seq![FrameStep::ClearRaster] + chunk_steps((i + 1) as nat));
        }
        i = i + 1;
    }
    r.push(FrameStep::UpdateCamera);
    r.push(FrameStep::CopyToScreen);
    proof {
        assert(r@ =~= frame_steps(chunks as nat));
    }
    r
}

/// One step of a resize.
#[derive(Clone, Copy, Debug, PartialEq, Eq, Structural)]
pub enum ResizeStep {
    /// Reconfigure the display surface to this size.
    ConfigureSurface(u32, u32),
    /// Replace the raster pass's buffers and bindings by ones of this size.
    ResizeRaster(u32, u32),
    /// Recompute the camera's projection for this size.
    ResizeCamera(u32, u32),
}

/// The steps of a resize, in order: the surface, then the raster pass's buffers, then the
/// camera. A size with a zero dimension needs none.
pub fn resize_plan(width: u32, height: u32) -> (r: Vec<ResizeStep>)
    ensures
        width == 0 || height == 0 ==> r@ == Seq::<ResizeStep>::empty(),
        width != 0 && height != 0 ==> r@ == seq![
            ResizeStep::ConfigureSurface(width, height),
            ResizeStep::ResizeRaster(width, height),
            ResizeStep::ResizeCamera(width, height),
        ],
{
    let mut r: Vec<ResizeStep> = Vec::new();
    if width == 0 || height == 0 {
        proof {
            assert(r@ =~= Seq::<ResizeStep>::empty());
        }
        return r;
    }
    r.push(ResizeStep::ConfigureSurface(width, height));
    r.push(ResizeStep::ResizeRaster(width, height));
    r.push(ResizeStep::ResizeCamera(width, height));
    proof {
        assert(r@ =~= seq![
            ResizeStep::ConfigureSurface(width, height),
            ResizeStep::ResizeRaster(width, height),
            ResizeStep::ResizeCamera(width, height),
        ]);
    }
    r
}

} // verus!
