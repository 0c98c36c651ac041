use gigantomachia::render::{
    fluid::{plan_stream_buffers, stream_capacity},
    mesh::MeshResidency,
    offscreen::{readback_rows, strip_row_padding},
    validate_extent, ExtentError,
};
use std::cell::Cell;

#[test]
fn render_dimensions_must_be_within_device_limits() {
    assert_eq!(validate_extent(320, 180, 8192), Ok(()));
    assert_eq!(validate_extent(8192, 8192, 8192), Ok(()));
    assert_eq!(validate_extent(0, 180, 8192), Err(ExtentError { max: 8192 }));
    assert_eq!(validate_extent(320, 0, 8192), Err(ExtentError { max: 8192 }));
    assert_eq!(validate_extent(8193, 1, 8192), Err(ExtentError { max: 8192 }));
}

#[test]
fn readback_rows_are_padded_to_256_bytes() {
    assert_eq!(readback_rows(1), (4, 256));
    assert_eq!(readback_rows(64), (256, 256));
    assert_eq!(readback_rows(65), (260, 512));
    assert_eq!(readback_rows(173), (692, 768));
    assert_eq!(readback_rows(0), (0, 0));
}

#[test]
fn unaligned_rows_are_unpadded() {
    let (row, padded) = readback_rows(3);
    let height = 2u32;
    let mut mapped = vec![0u8; (padded * height) as usize];
    for r in 0..height as usize {
        for c in 0..row as usize {
            mapped[r * padded as usize + c] = (r * 100 + c) as u8;
        }
        mapped[r * padded as usize + row as usize] = 255;
    }
    let pixels = strip_row_padding(&mapped, row, padded, height);
    assert_eq!(pixels.len(), 24);
    assert_eq!(&pixels[..12], &(0..12).collect::<Vec<u8>>()[..]);
    assert_eq!(&pixels[12..], &(100..112).collect::<Vec<u8>>()[..]);
    assert!(!pixels.contains(&255));
}

#[test]
fn shared_meshes_are_uploaded_once_and_released_when_unused() {
    let uploads = Cell::new(0);
    let mut residency: MeshResidency<usize> = MeshResidency::new();
    residency.prepare(&[7, 7, 9], |i| {
        uploads.set(uploads.get() + 1);
        i
    });
    assert_eq!(uploads.get(), 2);
    assert_eq!(residency.resident_meshes(), 2);
    assert_eq!(residency.get(7), Some(&0));
    assert_eq!(residency.get(9), Some(&2));
    residency.prepare(&[9, 11], |i| {
        uploads.set(uploads.get() + 1);
        100 + i
    });
    assert_eq!(uploads.get(), 3);
    assert_eq!(residency.resident_meshes(), 2);
    assert_eq!(residency.get(7), None);
    assert_eq!(residency.get(9), Some(&2));
    assert_eq!(residency.get(11), Some(&101));
    residency.prepare(&[], |i| i);
    assert_eq!(residency.resident_meshes(), 0);
}

#[test]
fn stream_buffers_grow_to_powers_of_two_only_when_too_small() {
    assert_eq!(stream_capacity(0), 4);
    assert_eq!(stream_capacity(4), 4);
    assert_eq!(stream_capacity(5), 8);
    assert_eq!(stream_capacity(1024), 1024);
    assert_eq!(stream_capacity(1025), 2048);
    assert_eq!(stream_capacity(1 << 63), 1 << 63);
    assert_eq!(plan_stream_buffers(None, 100, 12), Some((128, 16)));
    assert_eq!(plan_stream_buffers(Some((128, 16)), 100, 16), None);
    assert_eq!(plan_stream_buffers(Some((128, 16)), 129, 4), Some((256, 4)));
    assert_eq!(plan_stream_buffers(Some((128, 16)), 0, 17), Some((4, 32)));
}
