use imagegen::load::{load_dir, load_gif, load_image};
use imagegen::model::{AnimatedImage, Error, Image, Manifest};
use imagegen::pipeline::LoadedAsset;
use imagegen::classify::AssetKind;
use imagegen::pipeline::{build_context, classify_manifest};
use std::io::Cursor;

fn png_bytes(w: u32, h: u32, rgba: [u8; 4]) -> Vec<u8> {
    let img = image::RgbaImage::from_pixel(w, h, image::Rgba(rgba));
    let mut buf = Cursor::new(Vec::new());
    img.write_to(&mut buf, image::ImageFormat::Png).unwrap();
    buf.into_inner()
}

fn gif_bytes(w: u16, h: u16, colors: &[[u8; 3]]) -> Vec<u8> {
    let mut out = Vec::new();
    {
        let mut enc = gif::Encoder::new(&mut out, w, h, &[]).unwrap();
        for c in colors {
            let mut pixels: Vec<u8> = Vec::new();
            for _ in 0..(w as usize * h as usize) {
                pixels.extend_from_slice(c);
            }
            let frame = gif::Frame::from_rgb(w, h, &pixels);
            enc.write_frame(&frame).unwrap();
        }
    }
    out
}

#[test]
fn still_image_is_resized_and_encoded() {
    // a 4x4 solid red source resized to the 2x2 target: four pixels, all
    // the packed value of RGB (255, 0, 0) with alpha dropped
    let bytes = png_bytes(4, 4, [255, 0, 0, 255]);
    let img = load_image("a".to_string(), &b"a.png".to_vec(), &bytes, 2, 2).unwrap();
    assert_eq!(img.name, "a");
    assert_eq!(img.pixels.len(), 4);
    for p in &img.pixels {
        assert_eq!(*p, 0x0000FF);
    }
}

#[test]
fn still_image_pixel_count_tracks_target_not_source() {
    let bytes = png_bytes(3, 5, [0, 0, 255, 255]);
    let img = load_image("b".to_string(), &b"b.png".to_vec(), &bytes, 7, 2).unwrap();
    assert_eq!(img.pixels.len(), 14);
}

#[test]
fn still_image_failure_names_path() {
    let garbage = vec![1u8, 2, 3, 4, 5];
    let r = load_image("x".to_string(), &b"missing/x.png".to_vec(), &garbage, 2, 2);
    match r {
        Err(Error::ImageDecode(p, _)) => assert_eq!(p, b"missing/x.png".to_vec()),
        _ => panic!("expected an image-decode error"),
    }
}

#[test]
fn gif_frames_are_counted_and_named() {
    let bytes = gif_bytes(2, 2, &[[255, 0, 0], [0, 255, 0], [0, 0, 255]]);
    let anim = load_gif("anim", &b"anim.gif".to_vec(), bytes, 2, 2).unwrap();
    assert_eq!(anim.name, "anim");
    assert_eq!(anim.frame_count, 3);
    assert_eq!(anim.frames.len(), 3);
    assert_eq!(anim.frames[0].name, "anim_0");
    assert_eq!(anim.frames[1].name, "anim_1");
    assert_eq!(anim.frames[2].name, "anim_2");
    for f in &anim.frames {
        assert_eq!(f.pixels.len(), 4);
    }
}

#[test]
fn gif_partial_frame_is_rejected() {
    // a frame smaller than the canvas is a partial update, not a
    // complete self-contained image; the whole asset fails
    let mut out = Vec::new();
    {
        let mut enc = gif::Encoder::new(&mut out, 4, 4, &[]).unwrap();
        let pixels: Vec<u8> = vec![255u8, 0, 0].repeat(4);
        let frame = gif::Frame::from_rgb(2, 2, &pixels);
        enc.write_frame(&frame).unwrap();
    }
    let r = load_gif("p", &b"p.gif".to_vec(), out, 2, 2);
    match r {
        Err(Error::AnimationDecode(p, _)) => assert_eq!(p, b"p.gif".to_vec()),
        _ => panic!("expected an animation-decode error"),
    }
}

#[test]
fn empty_sequence_flows_through_context() {
    // a sequence of zero frames is representable and must not trip up
    // context assembly
    let m = Manifest::new(2, 2, 5, Vec::new()).unwrap();
    let empty = AnimatedImage { name: "empty".to_string(), frames: Vec::new(), frame_count: 0 };
    let c = build_context(&m, vec![LoadedAsset::Animated(empty)]);
    assert_eq!(c.animated_images.len(), 1);
    assert_eq!(c.animated_images[0].frame_count, 0);
    assert_eq!(c.animated_images[0].frames.len(), 0);
    assert_eq!(c.images.len(), 0);
}

#[test]
fn directory_with_no_entries_yields_empty_sequence() {
    let anim = load_dir("none", Vec::new(), 2, 2).unwrap();
    assert_eq!(anim.frame_count, 0);
    assert_eq!(anim.frames.len(), 0);
    assert_eq!(anim.name, "none");
}

#[test]
fn gif_failure_names_path() {
    let garbage = vec![9u8, 9, 9];
    let r = load_gif("bad", &b"bad.gif".to_vec(), garbage, 2, 2);
    match r {
        Err(Error::AnimationDecode(p, _)) => assert_eq!(p, b"bad.gif".to_vec()),
        _ => panic!("expected an animation-decode error"),
    }
}

#[test]
fn directory_sequence_sorts_lexicographically() {
    // f10 sorts between nothing incorrectly: ascending byte order of the
    // full path gives f0, f1, f10, however the listing arrived
    let entries = vec![
        (b"frames/f10.png".to_vec(), png_bytes(2, 2, [0, 0, 255, 255])),
        (b"frames/f0.png".to_vec(), png_bytes(2, 2, [255, 0, 0, 255])),
        (b"frames/f1.png".to_vec(), png_bytes(2, 2, [0, 255, 0, 255])),
    ];
    let anim = load_dir("dirname", entries, 2, 2).unwrap();
    assert_eq!(anim.frame_count, 3);
    assert_eq!(anim.frames[0].name, "dirname_0");
    assert_eq!(anim.frames[1].name, "dirname_1");
    assert_eq!(anim.frames[2].name, "dirname_2");
    // the colors show which source file each frame came from
    assert_eq!(anim.frames[0].pixels[0], 0x0000FF);
    assert_eq!(anim.frames[1].pixels[0], 0x00FF00);
    assert_eq!(anim.frames[2].pixels[0], 0xFF0000);
}

#[test]
fn directory_failure_names_failing_entry() {
    let entries = vec![
        (b"d/ok.png".to_vec(), png_bytes(2, 2, [1, 2, 3, 255])),
        (b"d/broken.png".to_vec(), vec![0u8, 1, 2]),
    ];
    let r = load_dir("d", entries, 2, 2);
    match r {
        Err(Error::ImageDecode(p, _)) => assert_eq!(p, b"d/broken.png".to_vec()),
        _ => panic!("expected an image-decode error"),
    }
}

#[test]
fn pipeline_is_deterministic_on_unchanged_inputs() {
    let bytes = png_bytes(4, 4, [10, 20, 30, 40]);
    let a = load_image("p".to_string(), &b"p.png".to_vec(), &bytes, 3, 3).unwrap();
    let b = load_image("p".to_string(), &b"p.png".to_vec(), &bytes, 3, 3).unwrap();
    assert_eq!(a.name, b.name);
    assert_eq!(a.pixels, b.pixels);

    let mk = || {
        vec![
            (b"s/a.png".to_vec(), png_bytes(2, 2, [5, 6, 7, 255])),
            (b"s/b.png".to_vec(), png_bytes(2, 2, [8, 9, 10, 255])),
        ]
    };
    let mut reversed = mk();
    reversed.reverse();
    let first = load_dir("s", mk(), 2, 2).unwrap();
    let second = load_dir("s", reversed, 2, 2).unwrap();
    assert_eq!(first.frame_count, second.frame_count);
    for (x, y) in first.frames.iter().zip(second.frames.iter()) {
        assert_eq!(x.name, y.name);
        assert_eq!(x.pixels, y.pixels);
    }
}

#[test]
fn context_partitions_in_manifest_order() {
    let m = Manifest::new(2, 2, 5, Vec::new()).unwrap();
    let still_a = Image { name: "a".to_string(), pixels: vec![1, 2, 3, 4] };
    let still_c = Image { name: "c".to_string(), pixels: vec![5, 6, 7, 8] };
    let anim_b = AnimatedImage { name: "b".to_string(), frames: Vec::new(), frame_count: 0 };
    let loaded = vec![
        LoadedAsset::Still(still_a),
        LoadedAsset::Animated(anim_b),
        LoadedAsset::Still(still_c),
    ];
    let c = build_context(&m, loaded);
    assert_eq!(c.width, 2);
    assert_eq!(c.height, 2);
    assert_eq!(c.data_pin, 5);
    assert_eq!(c.images.len(), 2);
    assert_eq!(c.images[0].name, "a");
    assert_eq!(c.images[1].name, "c");
    assert_eq!(c.animated_images.len(), 1);
    assert_eq!(c.animated_images[0].name, "b");
}

#[test]
fn classify_manifest_routes_each_entry() {
    let m = Manifest::new(
        2,
        2,
        5,
        vec![
            ("a".to_string(), b"a.png".to_vec()),
            ("b".to_string(), b"b.gif".to_vec()),
            ("c".to_string(), b"frames".to_vec()),
        ],
    )
    .unwrap();
    let kinds = classify_manifest(&m, &vec![false, false, true]).unwrap();
    assert_eq!(kinds, vec![
        AssetKind::StaticImage,
        AssetKind::AnimatedGif,
        AssetKind::DirectorySequence
    ]);
}

#[test]
fn classify_manifest_rejects_missing_extension() {
    let m = Manifest::new(
        2,
        2,
        5,
        vec![
            ("a".to_string(), b"a.png".to_vec()),
            ("b".to_string(), b"noext".to_vec()),
        ],
    )
    .unwrap();
    let r = classify_manifest(&m, &vec![false, false]);
    match r {
        Err(Error::MissingExtension(p)) => assert_eq!(p, b"noext".to_vec()),
        _ => panic!("expected a missing-extension error"),
    }
}

#[test]
fn end_to_end_single_red_still() {
    // the full decision path of the scenario: a 2x2 manifest with one
    // still asset backed by a 4x4 solid red source
    let m = Manifest::new(2, 2, 5, vec![("a".to_string(), b"a.png".to_vec())]).unwrap();
    let kinds = classify_manifest(&m, &vec![false]).unwrap();
    assert_eq!(kinds.len(), 1);
    let bytes = png_bytes(4, 4, [255, 0, 0, 255]);
    let img = load_image("a".to_string(), &m.images[0].1, &bytes, m.width, m.height).unwrap();
    let c = build_context(&m, vec![imagegen::pipeline::LoadedAsset::Still(img)]);
    assert_eq!(c.images.len(), 1);
    assert_eq!(c.animated_images.len(), 0);
    assert_eq!(c.images[0].name, "a");
    assert_eq!(c.images[0].pixels, vec![0x0000FF; 4]);
}
