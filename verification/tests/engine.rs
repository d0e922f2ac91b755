use thumbor::engine::{OutputFormat, Photon, Watermark};
use thumbor::error::ServiceError;
use thumbor::ops::{Operation, ResizeMode, SampleFilter};

/// An asymmetric test image: every pixel value depends on its position.
fn png_bytes(w: u32, h: u32) -> Vec<u8> {
    let img = image::ImageBuffer::from_fn(w, h, |x, y| {
        image::Rgba([
            (x * 7 % 200 + 20) as u8,
            (y * 11 % 200 + 20) as u8,
            ((x + y) * 3 % 200 + 20) as u8,
            255,
        ])
    });
    let mut out = Vec::new();
    image::DynamicImage::ImageRgba8(img)
        .write_to(&mut std::io::Cursor::new(&mut out), image::ImageOutputFormat::Png)
        .expect("png encoding of the test image");
    out
}

fn watermark() -> Watermark {
    Watermark::from_bytes(&png_bytes(8, 8)).expect("watermark must decode")
}

fn engine(w: u32, h: u32) -> Photon {
    Photon::from_bytes(&png_bytes(w, h), &watermark()).expect("test image must decode")
}

#[test]
fn construction_rejects_garbage() {
    let wm = watermark();
    match Photon::from_bytes(&[1, 2, 3, 4], &wm) {
        Err(ServiceError::DecodeFailure) => {},
        _ => panic!("garbage bytes must fail with DecodeFailure"),
    }
    match Watermark::from_bytes(&[9, 9, 9]) {
        Err(ServiceError::DecodeFailure) => {},
        _ => panic!("garbage watermark must fail with DecodeFailure"),
    }
}

#[test]
fn flip_h_twice_restores_the_buffer() {
    let mut p = engine(13, 9);
    let before = p.raw_pixels();
    p.apply(&[Operation::FlipH]).unwrap();
    assert_ne!(p.raw_pixels(), before, "one flip must change an asymmetric buffer");
    p.apply(&[Operation::FlipH]).unwrap();
    assert_eq!(p.raw_pixels(), before);
}

#[test]
fn flip_v_twice_restores_the_buffer() {
    let mut p = engine(13, 9);
    let before = p.raw_pixels();
    p.apply(&[Operation::FlipV]).unwrap();
    assert_ne!(p.raw_pixels(), before, "one flip must change an asymmetric buffer");
    p.apply(&[Operation::FlipV]).unwrap();
    assert_eq!(p.raw_pixels(), before);
}

#[test]
fn crop_inside_bounds_yields_its_rectangle() {
    let mut p = engine(100, 100);
    p.apply(&[Operation::Crop { x1: 10, y1: 10, x2: 90, y2: 90 }]).unwrap();
    assert_eq!(p.width(), 80);
    assert_eq!(p.height(), 80);
}

#[test]
fn crop_with_reversed_rectangle_is_invalid() {
    let mut p = engine(100, 100);
    let r = p.apply(&[Operation::Crop { x1: 50, y1: 0, x2: 10, y2: 100 }]);
    assert_eq!(r, Err(ServiceError::InvalidOperation));
}

#[test]
fn crop_outside_bounds_is_invalid() {
    let mut p = engine(100, 100);
    let r = p.apply(&[Operation::Crop { x1: 0, y1: 0, x2: 101, y2: 50 }]);
    assert_eq!(r, Err(ServiceError::InvalidOperation));
}

#[test]
fn resize_yields_exactly_the_requested_dimensions() {
    let mut p = engine(100, 60);
    p.apply(&[Operation::Resize {
        width: 40,
        height: 40,
        mode: ResizeMode::Normal,
        sample: SampleFilter::CatmullRom,
    }])
    .unwrap();
    assert_eq!((p.width(), p.height()), (40, 40));
}

#[test]
fn undefined_sampling_falls_back_to_nearest() {
    let resize = |sample| Operation::Resize { width: 9, height: 7, mode: ResizeMode::Normal, sample };
    let mut a = engine(20, 15);
    let mut b = engine(20, 15);
    a.apply(&[resize(SampleFilter::Undefined)]).unwrap();
    b.apply(&[resize(SampleFilter::Nearest)]).unwrap();
    assert_eq!(a.raw_pixels(), b.raw_pixels());
}

#[test]
fn resize_to_zero_is_invalid() {
    let mut p = engine(10, 10);
    let r = p.apply(&[Operation::Resize {
        width: 0,
        height: 10,
        mode: ResizeMode::Normal,
        sample: SampleFilter::Nearest,
    }]);
    assert_eq!(r, Err(ServiceError::InvalidOperation));
}

#[test]
fn content_aware_resize_shrinks_to_exact_dimensions() {
    let mut p = engine(40, 40);
    p.apply(&[Operation::Resize {
        width: 20,
        height: 20,
        mode: ResizeMode::ContentAware,
        sample: SampleFilter::Undefined,
    }])
    .unwrap();
    assert_eq!((p.width(), p.height()), (20, 20));
}

#[test]
fn content_aware_resize_cannot_grow() {
    let mut p = engine(20, 20);
    let r = p.apply(&[Operation::Resize {
        width: 30,
        height: 20,
        mode: ResizeMode::ContentAware,
        sample: SampleFilter::Undefined,
    }]);
    assert_eq!(r, Err(ServiceError::InvalidOperation));
}

#[test]
fn unspecified_filter_is_a_no_op() {
    let mut p = engine(17, 11);
    let before = p.raw_pixels();
    p.apply(&[Operation::Filter { kind: 0 }]).unwrap();
    assert_eq!(p.raw_pixels(), before);
}

#[test]
fn unrecognized_filter_kind_is_a_no_op() {
    let mut p = engine(17, 11);
    let before = p.raw_pixels();
    p.apply(&[Operation::Filter { kind: 999 }]).unwrap();
    assert_eq!(p.raw_pixels(), before);
}

#[test]
fn marine_filter_changes_the_buffer() {
    let mut p = engine(17, 11);
    let before = p.raw_pixels();
    p.apply(&[Operation::Filter { kind: 3 }]).unwrap();
    assert_ne!(p.raw_pixels(), before);
    assert_eq!((p.width(), p.height()), (17, 11));
}

#[test]
fn contrast_changes_the_buffer() {
    let mut p = engine(17, 11);
    let before = p.raw_pixels();
    p.apply(&[Operation::Contrast { level: 60 }]).unwrap();
    assert_ne!(p.raw_pixels(), before);
    assert_eq!((p.width(), p.height()), (17, 11));
}

#[test]
fn watermark_keeps_dimensions_and_marks_pixels() {
    let mut p = engine(32, 32);
    let before = p.raw_pixels();
    p.apply(&[Operation::Watermark { x: 1, y: 1 }]).unwrap();
    assert_eq!((p.width(), p.height()), (32, 32));
    assert_ne!(p.raw_pixels(), before);
}

#[test]
fn unknown_operation_is_skipped() {
    let mut p = engine(21, 14);
    let before = p.raw_pixels();
    p.apply(&[Operation::Unknown { tag: 9 }]).unwrap();
    assert_eq!(p.raw_pixels(), before);
}

#[test]
fn unknown_operation_between_known_ones_is_skipped() {
    let mut a = engine(21, 14);
    let mut b = engine(21, 14);
    a.apply(&[Operation::FlipH, Operation::Unknown { tag: 200 }, Operation::FlipV]).unwrap();
    b.apply(&[Operation::FlipH, Operation::FlipV]).unwrap();
    assert_eq!(a.raw_pixels(), b.raw_pixels());
}

#[test]
fn application_order_matters() {
    // Mirroring before cropping keeps the other side of the buffer than
    // cropping before mirroring, so the two orders give different pixels of
    // equal dimensions.
    let crop = Operation::Crop { x1: 0, y1: 0, x2: 25, y2: 20 };
    let mut a = engine(50, 40);
    let mut b = engine(50, 40);
    a.apply(&[crop, Operation::FlipH]).unwrap();
    b.apply(&[Operation::FlipH, crop]).unwrap();
    assert_eq!((a.width(), a.height()), (25, 20));
    assert_eq!((b.width(), b.height()), (25, 20));
    assert_ne!(a.raw_pixels(), b.raw_pixels());
}

#[test]
fn apply_stops_at_the_first_invalid_operation() {
    let mut p = engine(50, 50);
    let r = p.apply(&[
        Operation::Crop { x1: 0, y1: 0, x2: 25, y2: 25 },
        Operation::Crop { x1: 30, y1: 0, x2: 50, y2: 10 },  // outside the 25x25 buffer
        Operation::FlipH,
    ]);
    assert_eq!(r, Err(ServiceError::InvalidOperation));
    // The first crop had been applied; nothing later was.
    assert_eq!((p.width(), p.height()), (25, 25));
}

#[test]
fn generate_encodes_png_and_jpeg() {
    let p = engine(24, 16);
    let png = p.generate(OutputFormat::Png).unwrap();
    assert_eq!(&png[..8], &[0x89, b'P', b'N', b'G', 0x0d, 0x0a, 0x1a, 0x0a]);

    let p = engine(24, 16);
    let jpg = p.generate(OutputFormat::Jpeg { quality: 85 }).unwrap();
    assert_eq!(&jpg[..2], &[0xff, 0xd8]);
}

#[test]
fn generate_fails_on_dimensions_jpeg_cannot_hold() {
    let mut p = engine(8, 8);
    p.apply(&[Operation::Resize {
        width: 70000,
        height: 1,
        mode: ResizeMode::Normal,
        sample: SampleFilter::Nearest,
    }])
    .unwrap();
    match p.generate(OutputFormat::Jpeg { quality: 85 }) {
        Err(ServiceError::EncodeFailure) => {},
        _ => panic!("a 70000 pixel wide JPEG must fail to encode"),
    }
}

#[test]
fn full_pipeline_token_to_output_bytes() {
    let ops = vec![
        Operation::Resize {
            width: 48,
            height: 48,
            mode: ResizeMode::Normal,
            sample: SampleFilter::CatmullRom,
        },
        Operation::Watermark { x: 4, y: 4 },
        Operation::Filter { kind: 3 },
    ];
    let token = thumbor::codec::encode_token(&ops);
    let decoded = thumbor::codec::decode_token(token.as_str()).unwrap();
    let mut p = engine(100, 80);
    p.apply(&decoded).unwrap();
    let out = p.generate(OutputFormat::Jpeg { quality: 85 }).unwrap();
    assert!(!out.is_empty());
}
