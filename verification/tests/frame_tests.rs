use dvs::frame::Frame;
use dvs::hsv_frame::Color;
use dvs::hsv_frame::ColorRange;
use dvs::hsv_frame::DecayValues;
use dvs::pixel_event::PixelEvent;
use dvs::{DVS_X, DVS_Y};

fn gradient() -> ColorRange {
    let mut colors = Vec::new();
    colors.push(Color::new([0, 0, 0]));
    for i in 1..513u32 {
        colors.push(Color::new([(i % 256) as u8, (i / 256) as u8, 7]));
    }
    ColorRange::new(colors).expect("valid gradient")
}

fn curve() -> DecayValues {
    DecayValues::new(vec![500, 450, 300, 120, 50, 10, 3, 1]).expect("valid curve")
}

fn on_event(timestamp: i32, x: i32, y: i32) -> PixelEvent {
    PixelEvent { timestamp, x_address: x, y_address: y, polarity: 1 }
}

fn cell(x: i32, y: i32) -> usize {
    (x * DVS_Y + y) as usize
}

#[test]
fn events_below_first_boundary_emit_nothing() {
    // frame_rate 60 gives an interval of 16666 microseconds; three
    // ON-events all before the first boundary cross nothing
    let range = gradient();
    let decay = curve();
    let mut frame = Frame::new();
    frame.begin(16666);
    assert!(frame.process_event(&on_event(100, 1, 1), &range, &decay).is_none());
    assert!(frame.process_event(&on_event(2100, 2, 2), &range, &decay).is_none());
    assert!(frame.process_event(&on_event(4100, 3, 3), &range, &decay).is_none());
    assert_eq!(frame.frame_count, 0);
    assert_eq!(frame.next_frame, 16666);
}

#[test]
fn boundary_crossing_rebases_and_numbers_frames() {
    let range = gradient();
    let decay = curve();
    let mut frame = Frame::new();
    frame.begin(16666);
    assert!(frame.process_event(&on_event(100, 1, 1), &range, &decay).is_none());
    let first = frame.process_event(&on_event(20000, 2, 2), &range, &decay);
    let first = first.expect("crossed the first boundary");
    assert_eq!(first.frame_count, 0);
    assert_eq!(frame.frame_count, 1);
    assert_eq!(frame.next_frame, 20000 + 16666);
    // a sparse region that skips several intervals still emits one frame
    let second = frame.process_event(&on_event(200000, 3, 3), &range, &decay);
    let second = second.expect("crossed the re-based boundary");
    assert_eq!(second.frame_count, 1);
    assert_eq!(frame.frame_count, 2);
    assert_eq!(frame.next_frame, 200000 + 16666);
}

#[test]
fn snapshot_excludes_triggering_event() {
    let range = gradient();
    let decay = curve();
    let mut frame = Frame::new();
    frame.begin(16666);
    let emitted = frame.process_event(&on_event(20000, 9, 9), &range, &decay);
    let emitted = emitted.expect("crossed the boundary");
    // the cell the triggering event writes still shows its pre-event
    // state in the emitted frame: never activated, one elapsed bucket
    let expected = range.color_at(decay.value_at(1) as usize);
    assert_eq!(emitted.arr[cell(9, 9)], expected);
    // but the grid now carries the event
    assert_eq!(frame.time_array[cell(9, 9)], 20000);
}

#[test]
fn fresh_cell_maps_to_full_intensity() {
    // a cell activated exactly at the boundary time shows entry 500
    let range = gradient();
    let decay = curve();
    let mut frame = Frame::new();
    frame.begin(16666);
    assert!(frame.process_event(&on_event(16666, 3, 4), &range, &decay).is_none());
    let emitted = frame.process_event(&on_event(16667, 5, 6), &range, &decay);
    let emitted = emitted.expect("crossed the boundary");
    assert_eq!(emitted.arr[cell(3, 4)], range.color_at(500));
}

#[test]
fn untouched_cells_fade_to_background() {
    // the curve has 8 entries; a boundary past 8 intervals leaves every
    // never-activated cell at the background color
    let range = gradient();
    let decay = curve();
    let mut frame = Frame::new();
    frame.begin(16666);
    assert!(frame.process_event(&on_event(200000, 1, 1), &range, &decay).is_some());
    let emitted = frame.process_event(&on_event(400000, 2, 2), &range, &decay);
    let emitted = emitted.expect("crossed the re-based boundary");
    // boundary 216666, elapsed buckets 216666 / 16666 = 13 >= 8
    assert_eq!(emitted.arr[cell(40, 40)], Color::new([0, 0, 0]));
}

#[test]
fn deactivation_events_are_ignored() {
    let range = gradient();
    let decay = curve();
    let mut frame = Frame::new();
    frame.begin(16666);
    let off = PixelEvent { timestamp: 5000, x_address: 7, y_address: 8, polarity: 0 };
    assert!(frame.process_event(&off, &range, &decay).is_none());
    assert_eq!(frame.time_array[cell(7, 8)], 0);
}

#[test]
fn output_dimensions_keep_aspect_ratio() {
    assert_eq!(dvs::output_dimensions(), (600, 600 * DVS_Y / DVS_X));
    assert_eq!(dvs::output_dimensions(), (600, 450));
}
