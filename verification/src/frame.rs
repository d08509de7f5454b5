//! The frame renderer's step plan.
//!
//! Rendering one frame is a strict sequence: upload every changed
//! texture, refresh the vertex and index buffers, run exactly one render
//! pass, submit, present, and only then free the textures the frame no
//! longer needs.  The plan is built here and proved to keep that order;
//! the binary executes the steps against the real GPU.

use vstd::prelude::*;

verus! {

/// Identifier of a UI texture: managed by the UI library, or supplied
/// by the application.
#[derive(Clone, Copy, PartialEq, Eq, Structural, Debug)]
pub enum TextureHandle {
    Managed(u64),
    User(u64),
}

/// What one finished UI frame asks of the renderer: the texture deltas
/// to upload and the textures to free afterwards.
pub struct FrameOutput {
    pub set_textures: Vec<TextureHandle>,
    pub free_textures: Vec<TextureHandle>,
}

/// One renderer step.
#[derive(Clone, Copy, PartialEq, Eq, Structural, Debug)]
pub enum RenderStep {
    UploadTexture(TextureHandle),
    UploadBuffers,
    BeginRenderPass,
    Draw,
    EndRenderPass,
    Submit,
    Present,
    FreeTexture(TextureHandle),
}

/// How acquiring the surface texture ended: acquired, reported stale
/// (the usual outcome right after a resize or minimize), or failed for
/// another reason.
#[derive(Clone, Copy, PartialEq, Eq, Structural, Debug)]
pub enum SurfaceAcquire {
    Acquired,
    Outdated,
    OtherError,
}

/// The texture uploads for one frame, in delta order.
pub open spec fn upload_steps(set: Seq<TextureHandle>) -> Seq<RenderStep> {
    Seq::new(set.len(), |k: int| RenderStep::UploadTexture(set[k]))
}

/// The texture frees for one frame, in delta order.
pub open spec fn free_steps(free: Seq<TextureHandle>) -> Seq<RenderStep> {
    Seq::new(free.len(), |k: int| RenderStep::FreeTexture(free[k]))
}

/// The fixed middle of every frame: buffer upload, one render pass,
/// submit, present.
pub open spec fn pass_steps() -> Seq<RenderStep> {
    seq![
        RenderStep::UploadBuffers,
        RenderStep::BeginRenderPass,
        RenderStep::Draw,
        RenderStep::EndRenderPass,
        RenderStep::Submit,
        RenderStep::Present,
    ]
}

/// The step sequence for one frame: uploads in delta order, the fixed
/// middle of the pass, then frees in delta order.
pub open spec fn render_plan(set: Seq<TextureHandle>, free: Seq<TextureHandle>) -> Seq<
    RenderStep,
> {
    upload_steps(set) + pass_steps() + free_steps(free)
}

/// Law: the plan holds the steps of one frame in their required order —
/// every texture upload precedes the render pass, exactly one submit
/// and one present follow it, and every texture free comes strictly
/// after the present, so no frame frees a texture its in-flight GPU
/// work may still read.
pub proof fn lemma_render_plan_shape(set: Seq<TextureHandle>, free: Seq<TextureHandle>)
    ensures
        render_plan(set, free).len() == set.len() + 6 + free.len(),
        forall|j: int| 0 <= j < set.len() ==> render_plan(set, free)[j] == RenderStep::UploadTexture(set[j]),
        render_plan(set, free)[set.len() as int] == RenderStep::UploadBuffers,
        render_plan(set, free)[set.len() as int + 1] == RenderStep::BeginRenderPass,
        render_plan(set, free)[set.len() as int + 2] == RenderStep::Draw,
        render_plan(set, free)[set.len() as int + 3] == RenderStep::EndRenderPass,
        render_plan(set, free)[set.len() as int + 4] == RenderStep::Submit,
        render_plan(set, free)[set.len() as int + 5] == RenderStep::Present,
        forall|j: int| set.len() + 6 <= j < render_plan(set, free).len() ==> render_plan(
            set,
            free,
        )[j] == RenderStep::FreeTexture(free[j - set.len() - 6]),
        forall|i: int, j: int|
            0 <= i < render_plan(set, free).len() && 0 <= j < render_plan(set, free).len()
                && render_plan(set, free)[i] is Present && render_plan(set, free)[j] is FreeTexture
                ==> i < j,
{
    let plan = render_plan(set, free);
    assert forall|i: int, j: int|
        0 <= i < plan.len() && 0 <= j < plan.len() && plan[i] is Present
            && plan[j] is FreeTexture implies i < j by {
        assert(i == set.len() + 5) by {
            if i < set.len() {
                assert(plan[i] == RenderStep::UploadTexture(set[i]));
            } else if i >= set.len() + 6 {
                assert(plan[i] == RenderStep::FreeTexture(free[i - set.len() - 6]));
            }
        }
        assert(j >= set.len() + 6) by {
            if j < set.len() {
                assert(plan[j] == RenderStep::UploadTexture(set[j]));
            }
        }
    }
}

/// Whether the frame should be rendered at all: a stale surface is
/// skipped silently and any other acquire failure skips the frame too —
/// no partial upload, no dangling encoder, the loop continues.
pub fn should_render(acquire: SurfaceAcquire) -> (r: bool)
    ensures
        r == (acquire is Acquired),
{
    match acquire {
        SurfaceAcquire::Acquired => true,
        SurfaceAcquire::Outdated => false,
        SurfaceAcquire::OtherError => false,
    }
}

/// Whether an acquire failure deserves a log line: the stale-surface
/// condition stays silent, every other failure is reported.
pub fn should_log_acquire_failure(acquire: SurfaceAcquire) -> (r: bool)
    ensures
        r == (acquire is OtherError),
{
    match acquire {
        SurfaceAcquire::Acquired => false,
        SurfaceAcquire::Outdated => false,
        SurfaceAcquire::OtherError => true,
    }
}

/// Build the step sequence for one frame.
pub fn render_steps(out: &FrameOutput) -> (steps: Vec<RenderStep>)
    ensures
        steps@ == render_plan(out.set_textures@, out.free_textures@),
{
    let mut steps: Vec<RenderStep> = Vec::new();
    let nset = out.set_textures.len();
    let mut i: usize = 0;
    proof {
        assert(steps@ =~= upload_steps(out.set_textures@.subrange(0, 0)));
    }
    while i < nset
        invariant
            nset == out.set_textures@.len(),
            i <= nset,
            steps@ == upload_steps(out.set_textures@.subrange(0, i as int)),
        decreases nset - i,
    {
        steps.push(RenderStep::UploadTexture(out.set_textures[i]));
        proof {
            assert(steps@ =~= upload_steps(out.set_textures@.subrange(0, i + 1)));
        }
        i = i + 1;
    }
    proof {
        assert(out.set_textures@.subrange(0, nset as int) =~= out.set_textures@);
    }
    steps.push(RenderStep::UploadBuffers);
    steps.push(RenderStep::BeginRenderPass);
    steps.push(RenderStep::Draw);
    steps.push(RenderStep::EndRenderPass);
    steps.push(RenderStep::Submit);
    steps.push(RenderStep::Present);
    let ghost mid = steps@;
    proof {
        assert(mid =~= upload_steps(out.set_textures@) + pass_steps());
    }
    let nfree = out.free_textures.len();
    let mut j: usize = 0;
    proof {
        assert(steps@ =~= mid + free_steps(out.free_textures@.subrange(0, 0)));
    }
    while j < nfree
        invariant
            nfree == out.free_textures@.len(),
            j <= nfree,
            steps@ == mid + free_steps(out.free_textures@.subrange(0, j as int)),
            mid == upload_steps(out.set_textures@) + pass_steps(),
        decreases nfree - j,
    {
        steps.push(RenderStep::FreeTexture(out.free_textures[j]));
        proof {
            assert(steps@ =~= mid + free_steps(out.free_textures@.subrange(0, j + 1)));
        }
        j = j + 1;
    }
    proof {
        assert(out.free_textures@.subrange(0, nfree as int) =~= out.free_textures@);
        assert(steps@ =~= render_plan(out.set_textures@, out.free_textures@));
    }
    steps
}

} // verus!
