use sentinel_wallpaper::geometry::Rect;
use sentinel_wallpaper::snapshot::{
    encode_snapshot_bmp, snapshot_geometry, stitch_snapshot, Capture, SnapshotJob,
    SnapshotMailbox, SnapshotGeometry, StitchRefusal,
};

fn rect(left: i32, top: i32, right: i32, bottom: i32) -> Rect {
    Rect { left, top, right, bottom }
}

/// A 100x100 BGRA buffer of one solid color.
fn solid(b: u8, g: u8, r: u8) -> Vec<u8> {
    let mut pixels = Vec::with_capacity(100 * 100 * 4);
    for _ in 0..100 * 100 {
        pixels.push(b);
        pixels.push(g);
        pixels.push(r);
        pixels.push(255);
    }
    pixels
}

#[test]
fn stitch_places_two_monitors_side_by_side() {
    let captures = vec![
        Capture { rect: rect(0, 0, 100, 100), pixels: solid(10, 20, 30) },
        Capture { rect: rect(100, 0, 200, 100), pixels: solid(40, 50, 60) },
    ];
    let canvas = stitch_snapshot(&captures, 0, 0, 200, 100).unwrap();
    assert_eq!(canvas.len(), 200 * 100 * 4);
    // RGBA at (0, 0): swizzled from the first capture's BGRA.
    let p0 = 0;
    assert_eq!(&canvas[p0..p0 + 4], &[30, 20, 10, 255]);
    // RGBA at (150, 50): from the second capture.
    let p1 = (50 * 200 + 150) * 4;
    assert_eq!(&canvas[p1..p1 + 4], &[60, 50, 40, 255]);
    // Last pixel of the left half still comes from the first capture.
    let p2 = (99 * 200 + 99) * 4;
    assert_eq!(&canvas[p2..p2 + 4], &[30, 20, 10, 255]);
}

#[test]
fn all_black_capture_set_is_refused() {
    let captures = vec![
        Capture { rect: rect(0, 0, 100, 100), pixels: solid(0, 0, 0) },
        Capture { rect: rect(100, 0, 200, 100), pixels: solid(0, 0, 0) },
    ];
    let r = stitch_snapshot(&captures, 0, 0, 200, 100);
    assert_eq!(r, Err(StitchRefusal::AllBlack));
}

#[test]
fn stitch_clips_pixels_outside_the_canvas() {
    // A capture hanging off the right edge writes only what fits.
    let captures = vec![Capture { rect: rect(50, 0, 150, 100), pixels: solid(1, 2, 3) }];
    let canvas = stitch_snapshot(&captures, 0, 0, 100, 100).unwrap();
    let inside = (10 * 100 + 99) * 4;
    assert_eq!(&canvas[inside..inside + 4], &[3, 2, 1, 255]);
    let uncovered = (10 * 100 + 49) * 4;
    assert_eq!(&canvas[uncovered..uncovered + 4], &[0, 0, 0, 255]);
}

#[test]
fn geometry_is_the_clamped_bounding_union() {
    let rects = vec![rect(0, 0, 100, 100), rect(100, 0, 200, 100)];
    let g = snapshot_geometry(&rects).unwrap();
    assert_eq!(g.min_left, 0);
    assert_eq!(g.min_top, 0);
    assert_eq!(g.width, 200);
    assert_eq!(g.height, 100);
    assert!(snapshot_geometry(&Vec::new()).is_none());
    let degenerate = vec![rect(5, 5, 5, 5)];
    let gd = snapshot_geometry(&degenerate).unwrap();
    assert_eq!(gd.width, 1);
    assert_eq!(gd.height, 1);
}

#[test]
fn mailbox_newest_job_supersedes_waiting_job() {
    let mut mailbox = SnapshotMailbox::new();
    assert!(mailbox.take().is_none());
    let job1 = SnapshotJob {
        captures: vec![Capture { rect: rect(0, 0, 1, 1), pixels: vec![0, 0, 0, 255] }],
        geometry: SnapshotGeometry { min_left: 0, min_top: 0, width: 1, height: 1 },
    };
    let job2 = SnapshotJob {
        captures: vec![Capture { rect: rect(0, 0, 1, 1), pixels: vec![9, 9, 9, 255] }],
        geometry: SnapshotGeometry { min_left: 0, min_top: 0, width: 1, height: 1 },
    };
    mailbox.offer(job1);
    mailbox.offer(job2);
    let got = mailbox.take().unwrap();
    assert_eq!(got.captures[0].pixels, vec![9, 9, 9, 255]);
    assert!(mailbox.take().is_none());
}

#[test]
fn bmp_encoding_produces_a_bmp_stream() {
    let rgba = vec![255, 0, 0, 255];
    let bmp = encode_snapshot_bmp(1, 1, &rgba).unwrap();
    // A BMP stream starts with the 'BM' magic; the encoder did real work.
    assert!(bmp.len() > rgba.len());
    assert_eq!(bmp[0], b'B');
    assert_eq!(bmp[1], b'M');
    // Dimension or length mismatches are refused before encoding.
    assert!(encode_snapshot_bmp(2, 1, &rgba).is_none());
    assert!(encode_snapshot_bmp(0, 1, &rgba).is_none());
}
