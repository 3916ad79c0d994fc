//! End-to-end scenarios for the batch packer, exercised with real PNG byte
//! streams built through the codec crate.
use gpkpack::errors::PackError;
use gpkpack::pack::{is_eligible, pack_batch, pack_one, SrcFile};

/// Encodes a solid-color RGB image of the given size into PNG bytes.
fn solid_png(width: u32, height: u32, rgb: [u8; 3]) -> Vec<u8> {
    let mut out: Vec<u8> = Vec::new();
    let mut enc = png::Encoder::new(&mut out, width, height);
    enc.set_color(png::ColorType::Rgb);
    enc.set_depth(png::BitDepth::Eight);
    let mut writer = enc.write_header().unwrap();
    let mut data: Vec<u8> = Vec::new();
    for _ in 0..(width * height) {
        data.extend_from_slice(&rgb);
    }
    writer.write_image_data(&data).unwrap();
    writer.finish().unwrap();
    out
}

/// Like `solid_png` but stored without compression, so a re-encode at the
/// default level cannot reproduce the input bytes unchanged.
fn solid_png_uncompressed(width: u32, height: u32, rgb: [u8; 3]) -> Vec<u8> {
    let mut out: Vec<u8> = Vec::new();
    let mut enc = png::Encoder::new(&mut out, width, height);
    enc.set_color(png::ColorType::Rgb);
    enc.set_depth(png::BitDepth::Eight);
    enc.set_compression(png::Compression::NoCompression);
    let mut writer = enc.write_header().unwrap();
    let mut data: Vec<u8> = Vec::new();
    for _ in 0..(width * height) {
        data.extend_from_slice(&rgb);
    }
    writer.write_image_data(&data).unwrap();
    writer.finish().unwrap();
    out
}

/// Encodes an animated image: one solid full-frame per color given.
fn animated_png(width: u32, height: u32, colors: &[[u8; 3]]) -> Vec<u8> {
    let mut out: Vec<u8> = Vec::new();
    let mut enc = png::Encoder::new(&mut out, width, height);
    enc.set_color(png::ColorType::Rgb);
    enc.set_depth(png::BitDepth::Eight);
    enc.set_animated(colors.len() as u32, 0).unwrap();
    let mut writer = enc.write_header().unwrap();
    for rgb in colors {
        let mut data: Vec<u8> = Vec::new();
        for _ in 0..(width * height) {
            data.extend_from_slice(rgb);
        }
        writer.write_image_data(&data).unwrap();
    }
    writer.finish().unwrap();
    out
}

/// Decodes every frame of a PNG stream into pixel byte vectors.
fn decode_all_frames(bytes: &[u8]) -> Vec<Vec<u8>> {
    let cursor = std::io::Cursor::new(bytes.to_vec());
    let mut reader = png::Decoder::new(cursor).read_info().unwrap();
    let mut buf = vec![0u8; reader.output_buffer_size().unwrap()];
    let mut frames = Vec::new();
    while let Ok(info) = reader.next_frame(&mut buf) {
        frames.push(buf[..info.buffer_size()].to_vec());
    }
    frames
}

/// Decodes one frame of a PNG stream into (width, height, pixel bytes).
fn decode_pixels(bytes: &[u8]) -> (u32, u32, Vec<u8>) {
    let cursor = std::io::Cursor::new(bytes.to_vec());
    let mut reader = png::Decoder::new(cursor).read_info().unwrap();
    let mut buf = vec![0u8; reader.output_buffer_size().unwrap()];
    let info = reader.next_frame(&mut buf).unwrap();
    let n = info.buffer_size();
    (info.width, info.height, buf[..n].to_vec())
}

/// A PNG whose header parses but whose image data is cut off, so frame
/// decoding fails after zero valid frames.
fn truncated_png() -> Vec<u8> {
    let whole = solid_png(4, 4, [1, 2, 3]);
    let idat = whole
        .windows(4)
        .position(|w| w == b"IDAT")
        .expect("stream has an image data chunk");
    whole[..idat + 6].to_vec()
}

fn file(name: &str, data: Vec<u8>) -> SrcFile {
    SrcFile { name: name.as_bytes().to_vec(), data }
}

#[test]
fn single_png_packs_and_other_files_are_ignored() {
    let src = solid_png(2, 2, [10, 20, 30]);
    let files = vec![file("a.png", src), file("b.txt", b"hello".to_vec())];
    let run = pack_batch(&files, 0).unwrap();
    assert_eq!(run.entries.len(), 1);
    assert_eq!(run.entries[0].name, b"a.png".to_vec());
    assert_eq!(run.entries[0].offset, 0);
    let size = run.entries[0].size;
    assert!(size > 0);
    assert_eq!(run.archive.len() as u64, size);
    let expected = format!("a.png 0 {}\n", size).into_bytes();
    assert_eq!(run.index, expected);
    assert_eq!(run.end_offset, size);
}

#[test]
fn two_pngs_pack_in_order_with_adjacent_offsets() {
    let files = vec![
        file("a.png", solid_png(2, 2, [10, 20, 30])),
        file("b.png", solid_png(3, 1, [200, 0, 50])),
    ];
    let run = pack_batch(&files, 0).unwrap();
    assert_eq!(run.entries.len(), 2);
    let s1 = run.entries[0].size;
    let s2 = run.entries[1].size;
    assert_eq!(run.entries[0].offset, 0);
    assert_eq!(run.entries[1].offset, s1);
    assert!(run.entries[0].offset < run.entries[1].offset);
    assert_eq!(run.archive.len() as u64, s1 + s2);
    assert_eq!(run.end_offset, s1 + s2);
    let expected = format!("a.png 0 {}\nb.png {} {}\n", s1, s1, s2).into_bytes();
    assert_eq!(run.index, expected);
}

#[test]
fn packed_range_decodes_to_source_pixels() {
    let src = solid_png(2, 2, [9, 8, 7]);
    let files = vec![file("a.png", src.clone())];
    let run = pack_batch(&files, 0).unwrap();
    let e = &run.entries[0];
    let lo = e.offset as usize;
    let hi = (e.offset + e.size) as usize;
    let extracted = &run.archive[lo..hi];
    assert_eq!(decode_pixels(extracted), decode_pixels(&src));
}

#[test]
fn transcode_reencodes_rather_than_copying() {
    let src = solid_png_uncompressed(16, 16, [5, 5, 5]);
    let files = vec![file("a.png", src.clone())];
    let run = pack_batch(&files, 0).unwrap();
    assert_ne!(run.archive, src);
    assert!(run.archive.len() < src.len());
    assert_eq!(decode_pixels(&run.archive), decode_pixels(&src));
}

#[test]
fn second_run_appends_disjoint_entries() {
    let files1 = vec![file("a.png", solid_png(2, 2, [1, 1, 1]))];
    let files2 = vec![file("c.png", solid_png(2, 2, [2, 2, 2]))];
    let run1 = pack_batch(&files1, 0).unwrap();
    let run2 = pack_batch(&files2, run1.end_offset).unwrap();

    // The caller appends, as the packer's driver does.
    let mut archive = run1.archive.clone();
    archive.extend_from_slice(&run2.archive);
    let mut index = run1.index.clone();
    index.extend_from_slice(&run2.index);

    // Run 1's lines and bytes are untouched.
    assert_eq!(&index[..run1.index.len()], &run1.index[..]);
    assert_eq!(&archive[..run1.archive.len()], &run1.archive[..]);

    // Run 2's entries all begin at or after run 1's end.
    for e in &run2.entries {
        assert!(e.offset >= run1.end_offset);
    }
    let e1 = &run1.entries[0];
    let e2 = &run2.entries[0];
    assert!(e1.offset + e1.size <= e2.offset);

    // Both entries extract from the combined archive.
    let x1 = &archive[e1.offset as usize..(e1.offset + e1.size) as usize];
    let x2 = &archive[e2.offset as usize..(e2.offset + e2.size) as usize];
    assert_eq!(decode_pixels(x1), decode_pixels(&files1[0].data));
    assert_eq!(decode_pixels(x2), decode_pixels(&files2[0].data));
}

#[test]
fn animated_source_repacks_every_frame() {
    let src = animated_png(2, 2, &[[250, 0, 0], [0, 250, 0], [0, 0, 250]]);
    let out = pack_one(&file("anim.png", src.clone()), 0)
        .unwrap()
        .unwrap();
    let original = decode_all_frames(&src);
    let repacked = decode_all_frames(&out.bytes);
    assert_eq!(original.len(), 3);
    assert_eq!(repacked, original);
}

#[test]
fn corrupt_frame_aborts_batch_with_no_entries() {
    let files = vec![
        file("a.png", truncated_png()),
        file("b.png", solid_png(2, 2, [4, 4, 4])),
    ];
    let err = pack_batch(&files, 0).unwrap_err();
    assert_eq!(err, PackError::FrameDecode);
}

#[test]
fn frame_the_encoder_rejects_reports_frame_encode() {
    // The second animation frame covers only one pixel; the re-encoder,
    // configured from the header alone, expects full frames and rejects it.
    let mut out: Vec<u8> = Vec::new();
    {
        let mut enc = png::Encoder::new(&mut out, 2, 2);
        enc.set_color(png::ColorType::Rgb);
        enc.set_depth(png::BitDepth::Eight);
        enc.set_animated(2, 0).unwrap();
        let mut writer = enc.write_header().unwrap();
        writer.write_image_data(&[7u8; 12]).unwrap();
        writer.set_frame_dimension(1, 1).unwrap();
        writer.write_image_data(&[9u8; 3]).unwrap();
        writer.finish().unwrap();
    }
    let err = pack_one(&file("anim.png", out), 0).unwrap_err();
    assert_eq!(err, PackError::FrameEncode);
}

#[test]
fn header_the_encoder_refuses_reports_encode_init() {
    // An animated source whose stored image is a separate default image
    // decodes to header metadata with animation control but no frame control;
    // copying that header unchanged into a fresh encoder is refused.
    let mut out: Vec<u8> = Vec::new();
    {
        let mut enc = png::Encoder::new(&mut out, 2, 2);
        enc.set_color(png::ColorType::Rgb);
        enc.set_depth(png::BitDepth::Eight);
        enc.set_animated(1, 0).unwrap();
        enc.set_sep_def_img(true).unwrap();
        let mut writer = enc.write_header().unwrap();
        writer.write_image_data(&[7u8; 12]).unwrap();
        writer.write_image_data(&[9u8; 12]).unwrap();
        writer.finish().unwrap();
    }
    let err = pack_one(&file("anim.png", out), 0).unwrap_err();
    assert_eq!(err, PackError::EncodeInit);
}

#[test]
fn undecodable_source_reports_decode_init() {
    let files = vec![file("a.png", b"this is not an image".to_vec())];
    let err = pack_batch(&files, 0).unwrap_err();
    assert_eq!(err, PackError::DecodeInit);
}

#[test]
fn offset_at_limit_reports_overflow() {
    let f = file("a.png", solid_png(2, 2, [3, 3, 3]));
    let err = pack_one(&f, u64::MAX).unwrap_err();
    assert_eq!(err, PackError::OffsetOverflow);
}

#[test]
fn ineligible_name_is_skipped() {
    let f = file("b.txt", b"hello".to_vec());
    assert!(pack_one(&f, 0).unwrap().is_none());
}

#[test]
fn run_with_no_eligible_files_appends_nothing() {
    let files = vec![file("a.txt", b"x".to_vec()), file("b.PNG", b"y".to_vec())];
    let run = pack_batch(&files, 7).unwrap();
    assert!(run.entries.is_empty());
    assert!(run.archive.is_empty());
    assert!(run.index.is_empty());
    assert_eq!(run.end_offset, 7);
}

#[test]
fn empty_directory_packs_to_empty_run() {
    let run = pack_batch(&Vec::new(), 0).unwrap();
    assert!(run.entries.is_empty());
    assert!(run.archive.is_empty());
    assert!(run.index.is_empty());
    assert_eq!(run.end_offset, 0);
}

#[test]
fn eligibility_is_case_sensitive_and_needs_a_stem() {
    assert!(is_eligible(&b"a.png".to_vec()));
    assert!(is_eligible(&b"archive.tar.png".to_vec()));
    assert!(!is_eligible(&b".png".to_vec()));
    assert!(!is_eligible(&b"apng".to_vec()));
    assert!(!is_eligible(&b"a.PNG".to_vec()));
    assert!(!is_eligible(&b"b.txt".to_vec()));
    assert!(!is_eligible(&b"png".to_vec()));
}

#[test]
fn error_descriptions_are_non_empty() {
    let errs = [
        PackError::DecodeInit,
        PackError::FrameDecode,
        PackError::EncodeInit,
        PackError::FrameEncode,
        PackError::EncodeFinalize,
        PackError::OffsetOverflow,
    ];
    for e in errs {
        assert!(!e.describe().is_empty());
    }
    assert_eq!(
        PackError::DecodeInit.describe(),
        "source is not a decodable image"
    );
    assert_eq!(
        PackError::FrameDecode.describe(),
        "a frame failed to decode mid-stream"
    );
}
