use std::io::{Cursor, Write};

use egde::scene::chunk::chunk_content::{
    slice_name, ChunkContent, ChunkContentLoadingError, Dimensions, RgbaSlice, VOXEL_COMPONENTS,
};

fn png_rgba(width: u32, height: u32, color: [u8; 4]) -> Vec<u8> {
    let image = image::RgbaImage::from_pixel(width, height, image::Rgba(color));
    let mut bytes = Vec::new();
    image
        .write_to(&mut Cursor::new(&mut bytes), image::ImageFormat::Png)
        .unwrap();
    bytes
}

fn png_rgb(width: u32, height: u32, color: [u8; 3]) -> Vec<u8> {
    let image = image::RgbImage::from_pixel(width, height, image::Rgb(color));
    let mut bytes = Vec::new();
    image
        .write_to(&mut Cursor::new(&mut bytes), image::ImageFormat::Png)
        .unwrap();
    bytes
}

fn zip_of(entries: &[(&str, Vec<u8>)]) -> Vec<u8> {
    let mut writer = zip::ZipWriter::new(Cursor::new(Vec::new()));
    for (name, bytes) in entries {
        writer
            .start_file(*name, zip::write::SimpleFileOptions::default())
            .unwrap();
        writer.write_all(bytes).unwrap();
    }
    writer.finish().unwrap().into_inner()
}

fn slice(width: u32, height: u32, value: u8) -> RgbaSlice {
    RgbaSlice {
        width,
        height,
        pixels: vec![value; (width * height * 4) as usize],
    }
}

#[test]
fn raw_data_keeps_dimensions() {
    let dims = Dimensions::new(2, 3, 4);
    let content = ChunkContent::from_raw_data(vec![7u8; 2 * 3 * 4 * 4], dims).unwrap();
    assert_eq!(content.dimensions, Dimensions::new(2, 3, 4));
    assert_eq!(content.albedo, vec![7u8; 96]);
}

#[test]
fn raw_data_single_voxel() {
    let content = ChunkContent::from_raw_data(vec![1, 2, 3, 4], Dimensions::new(1, 1, 1)).unwrap();
    assert_eq!(content.dimensions, Dimensions { x: 1, y: 1, z: 1 });
    assert_eq!(content.albedo, vec![1, 2, 3, 4]);
}

#[test]
fn raw_data_rejects_zero_dimension() {
    for dims in [
        Dimensions::new(0, 2, 2),
        Dimensions::new(2, 0, 2),
        Dimensions::new(2, 2, 0),
        Dimensions::new(0, 0, 0),
    ] {
        let r = ChunkContent::from_raw_data(vec![0u8; 16], dims);
        assert!(matches!(r, Err(ChunkContentLoadingError::InvalidDimensions)));
    }
}

#[test]
fn slice_names_are_decimal() {
    let as_string = |i: usize| slice_name(i).into_iter().collect::<String>();
    assert_eq!(as_string(0), "0");
    assert_eq!(as_string(4), "4");
    assert_eq!(as_string(10), "10");
    assert_eq!(as_string(123), "123");
    assert_eq!(as_string(4096), "4096");
}

#[test]
fn slices_stack_in_order() {
    let content = ChunkContent::from_slices(vec![slice(2, 1, 1), slice(2, 1, 2), slice(2, 1, 3)])
        .unwrap();
    assert_eq!(content.dimensions, Dimensions::new(2, 1, 3));
    let mut expected = vec![1u8; 8];
    expected.extend(vec![2u8; 8]);
    expected.extend(vec![3u8; 8]);
    assert_eq!(content.albedo, expected);
}

#[test]
fn no_slices_is_invalid_file() {
    let r = ChunkContent::from_slices(Vec::new());
    assert!(matches!(r, Err(ChunkContentLoadingError::InvalidChunkFile)));
}

#[test]
fn slice_of_other_width_is_invalid_file() {
    let r = ChunkContent::from_slices(vec![slice(2, 2, 0), slice(3, 2, 0)]);
    assert!(matches!(r, Err(ChunkContentLoadingError::InvalidChunkFile)));
}

#[test]
fn slice_of_other_height_is_invalid_file() {
    let r = ChunkContent::from_slices(vec![slice(2, 2, 0), slice(2, 2, 0), slice(2, 1, 0)]);
    assert!(matches!(r, Err(ChunkContentLoadingError::InvalidChunkFile)));
}

#[test]
fn incomplete_slice_is_invalid_file() {
    let short = RgbaSlice { width: 2, height: 2, pixels: vec![0u8; 15] };
    let r = ChunkContent::from_slices(vec![slice(2, 2, 0), short]);
    assert!(matches!(r, Err(ChunkContentLoadingError::InvalidChunkFile)));
}

#[test]
fn empty_images_are_invalid_dimensions() {
    let r = ChunkContent::from_slices(vec![slice(0, 3, 0), slice(0, 3, 0)]);
    assert!(matches!(r, Err(ChunkContentLoadingError::InvalidDimensions)));
}

#[test]
fn archive_of_five_slices() {
    let entries: Vec<(String, Vec<u8>)> =
        (0..5u8).map(|i| (i.to_string(), png_rgba(3, 2, [i, 10, 20, 255]))).collect();
    let borrowed: Vec<(&str, Vec<u8>)> =
        entries.iter().map(|(n, b)| (n.as_str(), b.clone())).collect();
    let content = ChunkContent::from_chunk_file(zip_of(&borrowed)).unwrap();
    assert_eq!(content.dimensions, Dimensions::new(3, 2, 5));
    assert_eq!(content.albedo.len(), 3 * 2 * 5 * 4);
    for layer in 0..5usize {
        let texel = &content.albedo[layer * 24..layer * 24 + 4];
        assert_eq!(texel, &[layer as u8, 10, 20, 255]);
    }
}

#[test]
fn archive_entries_in_any_order() {
    let archive = zip_of(&[
        ("1", png_rgba(2, 2, [1, 1, 1, 1])),
        ("0", png_rgba(2, 2, [0, 0, 0, 0])),
    ]);
    let content = ChunkContent::from_chunk_file(archive).unwrap();
    assert_eq!(content.dimensions, Dimensions::new(2, 2, 2));
    assert_eq!(&content.albedo[..16], &[0u8; 16]);
    assert_eq!(&content.albedo[16..], &[1u8; 16]);
}

#[test]
fn archive_missing_slice_two() {
    let archive = zip_of(&[
        ("0", png_rgba(3, 2, [0, 0, 0, 255])),
        ("1", png_rgba(3, 2, [0, 0, 0, 255])),
        ("3", png_rgba(3, 2, [0, 0, 0, 255])),
        ("4", png_rgba(3, 2, [0, 0, 0, 255])),
        ("5", png_rgba(3, 2, [0, 0, 0, 255])),
    ]);
    let r = ChunkContent::from_chunk_file(archive);
    assert!(matches!(r, Err(ChunkContentLoadingError::InvalidChunkFile)));
}

#[test]
fn archive_slice_one_wider() {
    let archive = zip_of(&[
        ("0", png_rgba(3, 2, [0, 0, 0, 255])),
        ("1", png_rgba(4, 2, [0, 0, 0, 255])),
    ]);
    let r = ChunkContent::from_chunk_file(archive);
    assert!(matches!(r, Err(ChunkContentLoadingError::InvalidChunkFile)));
}

#[test]
fn archive_with_undecodable_slice() {
    let archive = zip_of(&[
        ("0", png_rgba(3, 2, [0, 0, 0, 255])),
        ("1", vec![1, 2, 3, 4, 5]),
    ]);
    let r = ChunkContent::from_chunk_file(archive);
    assert!(matches!(r, Err(ChunkContentLoadingError::InvalidChunkFile)));
}

#[test]
fn bytes_that_are_no_archive() {
    let r = ChunkContent::from_chunk_file(vec![0u8; 64]);
    assert!(matches!(r, Err(ChunkContentLoadingError::InvalidChunkFile)));
}

#[test]
fn empty_archive_is_invalid_file() {
    let r = ChunkContent::from_chunk_file(zip_of(&[]));
    assert!(matches!(r, Err(ChunkContentLoadingError::InvalidChunkFile)));
}

#[test]
fn rgb_slices_become_rgba() {
    let archive = zip_of(&[("0", png_rgb(1, 1, [9, 8, 7]))]);
    let content = ChunkContent::from_chunk_file(archive).unwrap();
    assert_eq!(content.dimensions, Dimensions::new(1, 1, 1));
    assert_eq!(content.albedo, vec![9, 8, 7, 255]);
}

#[test]
fn constant_color_cube_of_two() {
    let color = [200u8, 40, 60, 255];
    let archive = zip_of(&[("0", png_rgba(2, 2, color)), ("1", png_rgba(2, 2, color))]);
    let content = ChunkContent::from_chunk_file(archive).unwrap();
    assert_eq!(content.dimensions, Dimensions::new(2, 2, 2));
    for texel in content.albedo.chunks(4) {
        assert_eq!(texel, &color);
    }
}

#[test]
fn dimensions_within_device_limit() {
    assert!(Dimensions::new(2048, 2048, 2048).fits_within(2048));
    assert!(Dimensions::new(1, 1, 1).fits_within(1));
    assert!(!Dimensions::new(2049, 1, 1).fits_within(2048));
    assert!(!Dimensions::new(1, 2049, 1).fits_within(2048));
    assert!(!Dimensions::new(1, 1, 2049).fits_within(2048));
}

#[test]
fn voxels_record_albedo() {
    assert_eq!(VOXEL_COMPONENTS, ["albedo"]);
}
