use appshell::frame::{
    render_steps, should_log_acquire_failure, should_render, FrameOutput, RenderStep,
    SurfaceAcquire, TextureHandle,
};

#[test]
fn steps_come_in_strict_order() {
    let out = FrameOutput {
        set_textures: vec![TextureHandle::Managed(0), TextureHandle::User(7)],
        free_textures: vec![TextureHandle::Managed(3)],
    };
    let steps = render_steps(&out);
    let expected = vec![
        RenderStep::UploadTexture(TextureHandle::Managed(0)),
        RenderStep::UploadTexture(TextureHandle::User(7)),
        RenderStep::UploadBuffers,
        RenderStep::BeginRenderPass,
        RenderStep::Draw,
        RenderStep::EndRenderPass,
        RenderStep::Submit,
        RenderStep::Present,
        RenderStep::FreeTexture(TextureHandle::Managed(3)),
    ];
    assert_eq!(steps, expected);
}

#[test]
fn frees_come_after_present() {
    let out = FrameOutput {
        set_textures: vec![TextureHandle::Managed(1)],
        free_textures: vec![TextureHandle::Managed(1), TextureHandle::User(2)],
    };
    let steps = render_steps(&out);
    let present_at = steps.iter().position(|s| *s == RenderStep::Present).unwrap();
    for (i, s) in steps.iter().enumerate() {
        if matches!(s, RenderStep::FreeTexture(_)) {
            assert!(i > present_at);
        }
    }
}

#[test]
fn empty_deltas_still_run_one_pass() {
    let out = FrameOutput { set_textures: Vec::new(), free_textures: Vec::new() };
    let steps = render_steps(&out);
    assert_eq!(steps.len(), 6);
    assert_eq!(steps[0], RenderStep::UploadBuffers);
    assert_eq!(steps[5], RenderStep::Present);
}

#[test]
fn stale_surface_skips_frame_silently() {
    assert!(should_render(SurfaceAcquire::Acquired));
    assert!(!should_render(SurfaceAcquire::Outdated));
    assert!(!should_render(SurfaceAcquire::OtherError));
    assert!(!should_log_acquire_failure(SurfaceAcquire::Outdated));
    assert!(should_log_acquire_failure(SurfaceAcquire::OtherError));
    assert!(!should_log_acquire_failure(SurfaceAcquire::Acquired));
}
