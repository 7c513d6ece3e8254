use beewm::geometry::{Point, Rect, Size};
use beewm::screencopy::{
    capture_geometry, capture_region, copy_reply, drop_screencopy_frame, queue_screencopy_copy,
    readback_region, take_ready_screencopies, validate_shm_buffer, write_pixels_into_buffer,
    CopyOutcome, CopyReply, PendingScreencopyFrame, ScreencopyGeometry, ShmBuffer, Transform,
};

fn rect(x: i32, y: i32, w: i32, h: i32) -> Rect {
    Rect::new(Point::new(x, y), Size::new(w, h))
}

/// The capture of a region of an unscaled output.
fn unscaled(
    render_size: Size,
    transform: Transform,
    region: Option<Rect>,
) -> Option<ScreencopyGeometry> {
    capture_geometry(render_size, transform, region, |s| s, |s| s, |r| r)
}

fn upright(output: Size, region: Option<Rect>) -> Option<ScreencopyGeometry> {
    unscaled(output, Transform::Normal, region)
}

#[test]
fn capture_region_is_clipped_to_output_bounds() {
    let geometry = upright(Size::new(1920, 1080), Some(rect(-10, -20, 100, 100)))
        .expect("geometry should be valid");

    assert_eq!(geometry.logical_region.loc.x, 0);
    assert_eq!(geometry.logical_region.loc.y, 0);
    assert_eq!(geometry.logical_region.size.w, 90);
    assert_eq!(geometry.logical_region.size.h, 80);
    assert_eq!(geometry.buffer_region.size.w, 90);
    assert_eq!(geometry.buffer_region.size.h, 80);
}

#[test]
fn rotated_outputs_produce_transformed_buffer_regions() {
    let geometry =
        unscaled(Size::new(1920, 1080), Transform::Rotated90, Some(rect(0, 0, 200, 100)))
            .expect("geometry should be valid");

    assert_eq!(geometry.logical_output_size, Size::new(1080, 1920));
    assert_eq!(geometry.buffer_size, Size::new(1080, 1920));
    assert_eq!(geometry.buffer_region.size, Size::new(100, 200));
    assert_eq!(geometry.buffer_region.loc, Point::new(1820, 0));
    assert_eq!(geometry.shm_stride, 400);
}

#[test]
fn every_turn_moves_the_region_with_it() {
    let area = Size::new(100, 50);
    let region = rect(10, 5, 30, 20);
    let turned = |transform: Transform| transform.transform_rect_in(region, area);
    assert_eq!(turned(Transform::Normal), region);
    assert_eq!(turned(Transform::Rotated90), rect(25, 10, 20, 30));
    assert_eq!(turned(Transform::Rotated180), rect(60, 25, 30, 20));
    assert_eq!(turned(Transform::Rotated270), rect(5, 60, 20, 30));
    assert_eq!(turned(Transform::Flipped), rect(60, 5, 30, 20));
    assert_eq!(turned(Transform::Flipped90), rect(25, 60, 20, 30));
    assert_eq!(turned(Transform::Flipped180), rect(10, 25, 30, 20));
    assert_eq!(turned(Transform::Flipped270), rect(5, 10, 20, 30));
    // On an output at scale two, a logical pixel is four of the buffer.
    let geometry = capture_geometry(
        Size::new(200, 100),
        Transform::Rotated180,
        Some(region),
        |s| Size::new(s.w / 2, s.h / 2),
        |s| Size::new(s.w * 2, s.h * 2),
        |r| rect(r.loc.x * 2, r.loc.y * 2, r.size.w * 2, r.size.h * 2),
    )
    .expect("geometry should be valid");
    assert_eq!(geometry.logical_region, region);
    assert_eq!(geometry.buffer_region, rect(120, 50, 60, 40));
    assert_eq!(geometry.buffer_size, Size::new(200, 100));
}

#[test]
fn readback_region_flips_y_for_gl() {
    let geometry = upright(Size::new(100, 80), Some(rect(10, 20, 30, 40)))
        .expect("geometry should be valid");

    let readback = readback_region(&geometry);
    assert_eq!(readback.loc.x, 10);
    assert_eq!(readback.loc.y, 20);
    assert_eq!(readback.size.w, 30);
    assert_eq!(readback.size.h, 40);
}

#[test]
fn rows_are_read_back_from_the_other_end() {
    let geometry = upright(Size::new(100, 80), Some(rect(0, 0, 30, 10))).expect("a geometry");
    assert_eq!(readback_region(&geometry).loc.y, 70);
    assert_eq!(geometry.shm_stride, 120);
}

#[test]
fn what_lies_beside_the_output_is_not_captured() {
    assert_eq!(capture_region(Size::new(100, 80), Some(rect(200, 0, 10, 10))), None);
    assert_eq!(capture_region(Size::new(100, 80), Some(rect(0, 0, 0, 10))), None);
    assert_eq!(capture_region(Size::new(100, 80), None), Some(rect(0, 0, 100, 80)));
}

fn buffer(width: i32, height: i32, stride: i32, offset: i32) -> ShmBuffer {
    ShmBuffer { argb8888: true, width, height, stride, offset }
}

#[test]
fn only_a_buffer_of_the_right_shape_is_taken() {
    let geometry = upright(Size::new(2, 2), None).expect("a geometry");
    assert!(validate_shm_buffer(buffer(2, 2, 8, 0), 16, &geometry));
    assert!(validate_shm_buffer(buffer(2, 2, 12, 4), 28, &geometry));
    assert!(!validate_shm_buffer(buffer(2, 2, 12, 4), 27, &geometry));
    assert!(!validate_shm_buffer(buffer(2, 2, 7, 0), 16, &geometry));
    assert!(!validate_shm_buffer(buffer(3, 2, 12, 0), 64, &geometry));
    assert!(!validate_shm_buffer(buffer(2, 3, 8, 0), 64, &geometry));
    assert!(!validate_shm_buffer(buffer(2, 2, 8, -1), 64, &geometry));
    let other = ShmBuffer { argb8888: false, ..buffer(2, 2, 8, 0) };
    assert!(!validate_shm_buffer(other, 16, &geometry));
}

#[test]
fn rows_are_written_at_the_stride_of_the_buffer() {
    let geometry = upright(Size::new(1, 2), None).expect("a geometry");
    let shape = buffer(1, 2, 6, 1);
    let pixels = vec![1u8, 2, 3, 4, 5, 6, 7, 8];
    let mut bytes = vec![0u8; 13];
    assert!(write_pixels_into_buffer(&mut bytes, shape, &pixels, &geometry));
    assert_eq!(bytes, vec![0, 1, 2, 3, 4, 0, 0, 5, 6, 7, 8, 0, 0]);
    let mut untouched = vec![9u8; 13];
    assert!(!write_pixels_into_buffer(&mut untouched, shape, &vec![1, 2], &geometry));
    assert_eq!(untouched, vec![9u8; 13]);
}

fn pending(frame: u64, output: u64, buffer: Option<u64>) -> PendingScreencopyFrame {
    PendingScreencopyFrame {
        frame,
        output,
        geometry: upright(Size::new(2, 2), None).expect("a geometry"),
        overlay_cursor: false,
        buffer,
        copy_with_damage: false,
    }
}

#[test]
fn a_capture_takes_one_buffer_and_waits_for_its_output() {
    let mut frames = vec![pending(1, 7, None), pending(2, 8, None), pending(3, 7, None)];
    assert_eq!(queue_screencopy_copy(&mut frames, 9, 5, false, true), CopyOutcome::Unknown);
    assert_eq!(queue_screencopy_copy(&mut frames, 1, 5, true, true), CopyOutcome::Queued);
    assert_eq!(queue_screencopy_copy(&mut frames, 1, 6, true, true), CopyOutcome::AlreadyUsed);
    assert_eq!(
        queue_screencopy_copy(&mut frames, 3, 6, false, false),
        CopyOutcome::InvalidBuffer
    );
    assert_eq!(frames.len(), 2);
    assert!(take_ready_screencopies(&mut frames, 8).is_empty());
    let ready = take_ready_screencopies(&mut frames, 7);
    assert_eq!(ready.len(), 1);
    assert_eq!(ready[0].buffer, Some(5));
    assert!(ready[0].copy_with_damage);
    drop_screencopy_frame(&mut frames, 2);
    assert!(frames.is_empty());
}

#[test]
fn a_reply_splits_the_time() {
    assert_eq!(
        copy_reply(true, true, 2, 0x1_0000_0005),
        CopyReply::Ready { damage: true, tv_sec_hi: 1, tv_sec_lo: 5 }
    );
    assert_eq!(
        copy_reply(true, true, 1, 7),
        CopyReply::Ready { damage: false, tv_sec_hi: 0, tv_sec_lo: 7 }
    );
    assert_eq!(copy_reply(false, true, 2, 7), CopyReply::Failed);
}
