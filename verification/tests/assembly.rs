//! Tests of plane extraction (padding removal) and of the
//! zero-copy/copy output assembly.

use vvdec::assembler::assemble_plane;
use vvdec::extract_plane_data;
use vvdec::remove_padding;
use vvdec::ColorFormat;
use vvdec::Frame;
use vvdec::FrameFormat;
use vvdec::Plane;

#[test]
fn extract_plane_data_removes_padding() {
    let plane = Plane::from_parts(
        vec![1, 2, 101, 102, 3, 4, 103, 104],
        2,
        2,
        4,
        1,
    )
    .unwrap();
    assert_eq!(extract_plane_data(&plane), vec![1, 2, 3, 4]);
}

#[test]
fn extract_plane_data_two_bytes_per_sample() {
    let plane = Plane::from_parts(
        vec![1, 2, 3, 4, 9, 9, 5, 6, 7, 8, 9, 9],
        2,
        2,
        6,
        2,
    )
    .unwrap();
    assert_eq!(extract_plane_data(&plane), vec![1, 2, 3, 4, 5, 6, 7, 8]);
}

#[test]
fn extract_plane_data_without_padding_is_identity() {
    let plane = Plane::from_parts(vec![1, 2, 3, 4, 5, 6], 3, 2, 3, 1).unwrap();
    assert_eq!(extract_plane_data(&plane), vec![1, 2, 3, 4, 5, 6]);
}

#[test]
fn remove_padding_packs_three_planes() {
    let frame = Frame {
        planes: vec![
            Plane::from_parts(vec![1, 2, 0, 0, 3, 4, 0, 0], 2, 2, 4, 1).unwrap(),
            Plane::from_parts(vec![5, 0, 6, 0], 1, 2, 2, 1).unwrap(),
            Plane::from_parts(vec![7, 0, 8, 0], 1, 2, 2, 1).unwrap(),
        ],
        width: 2,
        height: 2,
        bit_depth: 8,
        sequence_number: 0,
        cts: None,
        frame_format: FrameFormat::Progressive,
        color_format: ColorFormat::Yuv420Planar,
        picture_attributes: None,
    };
    let (y, u, v) = remove_padding(&frame);
    assert_eq!(y, vec![1, 2, 3, 4]);
    assert_eq!(u, vec![5, 6]);
    assert_eq!(v, vec![7, 8]);
}

#[test]
fn alias_taken_when_strides_match() {
    let plane = Plane::from_parts(vec![1, 2, 3, 4, 5, 6], 3, 2, 3, 1).unwrap();
    let assembled = assemble_plane(&plane, 3, false);
    assert!(assembled.aliased);
    assert_eq!(assembled.bytes, vec![1, 2, 3, 4, 5, 6]);
}

#[test]
fn alias_taken_when_stride_metadata_supported() {
    let plane = Plane::from_parts(vec![1, 2, 3, 4, 5, 6, 7, 8], 3, 2, 4, 1).unwrap();
    let assembled = assemble_plane(&plane, 3, true);
    assert!(assembled.aliased);
    assert_eq!(assembled.bytes, vec![1, 2, 3, 4, 5, 6, 7, 8]);
}

#[test]
fn copy_taken_on_stride_mismatch() {
    let plane = Plane::from_parts(vec![1, 2, 3, 9, 4, 5, 6, 9], 3, 2, 4, 1).unwrap();
    let assembled = assemble_plane(&plane, 3, false);
    assert!(!assembled.aliased);
    assert_eq!(assembled.bytes, vec![1, 2, 3, 4, 5, 6]);
}

#[test]
fn alias_and_copy_agree_on_valid_region() {
    // The same decoded plane, aliased and forcibly copied: sample by
    // sample, the valid (non-padding) region is identical.
    let width: usize = 3;
    let height: usize = 4;
    let src_stride: usize = 5;
    let dest_stride: usize = 3;
    let mut data = Vec::new();
    for i in 0..(src_stride * height) {
        data.push((i * 7 + 13) as u8);
    }
    let plane = Plane::from_parts(
        data,
        width as u32,
        height as u32,
        src_stride as u32,
        1,
    )
    .unwrap();
    let aliased = assemble_plane(&plane, dest_stride as u32, true);
    let copied = assemble_plane(&plane, dest_stride as u32, false);
    assert!(aliased.aliased);
    assert!(!copied.aliased);
    for row in 0..height {
        for col in 0..width {
            assert_eq!(
                aliased.bytes[row * src_stride + col],
                copied.bytes[row * dest_stride + col]
            );
        }
    }
}

#[test]
fn copy_keeps_shorter_destination_rows() {
    // A destination stride below the source stride copies only the bytes
    // that fit each destination row.
    let plane = Plane::from_parts(vec![1, 2, 3, 4, 5, 6, 7, 8], 2, 2, 4, 1).unwrap();
    let assembled = assemble_plane(&plane, 2, false);
    assert!(!assembled.aliased);
    assert_eq!(assembled.bytes, vec![1, 2, 5, 6]);
}
