use voxel_engine::camera::{Camera, CameraPose, MAX_DISTANCE, MIN_DISTANCE, START_DISTANCE};
use voxel_engine::cursor::Cursor;
use voxel_engine::frame::{frame_plan, on_acquire, resize_plan, FrameAction, FrameStep, ResizeStep, SurfaceStatus};

#[test]
fn camera_starts_at_rest() {
    let mut c = Camera::new(800, 600);
    assert_eq!(c.update(0, 0, 0), CameraPose { yaw: 0, pitch: 0, distance: START_DISTANCE });
    assert_eq!(c.viewport(), (800, 600));
}

#[test]
fn pointer_movement_turns_the_camera_smoothly() {
    let mut c = Camera::new(800, 600);
    let p = c.update(10, -10, 0);
    assert_eq!(p.yaw, 392);
    assert_eq!(p.pitch, -392);
    let q = c.update(0, 0, 0);
    assert!(q.yaw > 392 && q.yaw <= 1960);
}

#[test]
fn scroll_moves_distance() {
    let mut c = Camera::new(800, 600);
    let p = c.update(0, 0, 1000);
    assert_eq!(p.distance, 137672);
}

#[test]
fn distance_stays_within_bounds() {
    let mut c = Camera::new(800, 600);
    for _ in 0..300 {
        let p = c.update(0, 0, i64::MAX);
        assert!(p.distance <= MAX_DISTANCE);
    }
    assert_eq!(c.update(0, 0, 0).distance, MAX_DISTANCE);
    for _ in 0..300 {
        let p = c.update(0, 0, i64::MIN);
        assert!(p.distance >= MIN_DISTANCE);
    }
    assert_eq!(c.update(0, 0, 0).distance, MIN_DISTANCE);
}

#[test]
fn resize_keeps_smoothed_state() {
    let mut c = Camera::new(0, 0);
    assert_eq!(c.viewport(), (1, 1));
    c.update(5, 5, 5);
    c.resize(1024, 768);
    assert_eq!(c.viewport(), (1024, 768));
    c.resize(0, 768);
    assert_eq!(c.viewport(), (1024, 768));
    let mut d = Camera::new(1, 1);
    d.update(5, 5, 5);
    assert_eq!(c.update(0, 0, 0), d.update(0, 0, 0));
}

#[test]
fn cursor_hands_out_movement_once() {
    let mut k = Cursor::new();
    k.moved(3, -4);
    k.moved(2, 1);
    assert_eq!(k.get_movement(), (5, -3));
    assert_eq!(k.get_movement(), (0, 0));
    k.left();
    k.moved(9, 9);
    assert_eq!(k.get_movement(), (0, 0));
    k.entered();
    k.moved(i64::MAX, i64::MIN);
    k.moved(1, -1);
    assert_eq!(k.get_movement(), (i64::MAX, i64::MIN));
}

#[test]
fn cursor_wheel_resets_on_read() {
    let mut k = Cursor::new();
    k.wheel_moved(120);
    k.wheel_moved(-20);
    assert_eq!(k.wheel_movement(), 100);
    assert_eq!(k.wheel_movement(), 0);
}

#[test]
fn surface_errors_are_recovered_or_fatal() {
    assert_eq!(on_acquire(SurfaceStatus::Ready), FrameAction::Draw);
    assert_eq!(on_acquire(SurfaceStatus::Lost), FrameAction::Reconfigure);
    assert_eq!(on_acquire(SurfaceStatus::Outdated), FrameAction::Reconfigure);
    assert_eq!(on_acquire(SurfaceStatus::Timeout), FrameAction::Fatal);
    assert_eq!(on_acquire(SurfaceStatus::OutOfMemory), FrameAction::Fatal);
}

#[test]
fn frame_steps_are_ordered() {
    assert_eq!(
        frame_plan(2),
        vec![
            FrameStep::ClearRaster,
            FrameStep::SyncChunk(0),
            FrameStep::DispatchChunk(0),
            FrameStep::SyncChunk(1),
            FrameStep::DispatchChunk(1),
            FrameStep::UpdateCamera,
            FrameStep::CopyToScreen,
        ]
    );
    assert_eq!(frame_plan(0), vec![FrameStep::ClearRaster, FrameStep::UpdateCamera, FrameStep::CopyToScreen]);
}

#[test]
fn resize_steps_are_ordered() {
    assert_eq!(
        resize_plan(640, 480),
        vec![
            ResizeStep::ConfigureSurface(640, 480),
            ResizeStep::ResizeRaster(640, 480),
            ResizeStep::ResizeCamera(640, 480),
        ]
    );
    assert!(resize_plan(0, 480).is_empty());
    assert!(resize_plan(640, 0).is_empty());
}
