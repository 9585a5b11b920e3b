use imagegen::classify::{classify, extension_of, AssetKind};
use imagegen::model::{Error, Manifest};
use imagegen::order::{lex_le_bytes, sort_entries};
use imagegen::pixel::{encode_pixel, encode_pixels};
use imagegen::text::{frame_name, u32_string};

#[test]
fn encode_pixel_packs_little_endian_rgb() {
    // red, green, blue each land in their own byte of the low 24 bits
    assert_eq!(encode_pixel(255, 0, 0, 255), 0x0000FF);
    assert_eq!(encode_pixel(0, 255, 0, 255), 0x00FF00);
    assert_eq!(encode_pixel(0, 0, 255, 255), 0xFF0000);
    assert_eq!(encode_pixel(0x12, 0x34, 0x56, 0x78), 0x563412);
    assert_eq!(encode_pixel(255, 255, 255, 255), 0xFFFFFF);
    assert_eq!(encode_pixel(0, 0, 0, 0), 0);
}

#[test]
fn encode_pixel_is_alpha_blind() {
    for a1 in [0u8, 1, 127, 255] {
        for a2 in [0u8, 42, 200, 255] {
            assert_eq!(encode_pixel(10, 20, 30, a1), encode_pixel(10, 20, 30, a2));
        }
    }
}

#[test]
fn encode_pixels_walks_buffer_in_pixel_steps() {
    let raw: Vec<u8> = vec![255, 0, 0, 255, 0, 255, 0, 0, 1, 2, 3, 4];
    let out = encode_pixels(&raw);
    assert_eq!(out, vec![0x0000FF, 0x00FF00, 0x030201]);
    let empty: Vec<u8> = Vec::new();
    assert_eq!(encode_pixels(&empty), Vec::<u32>::new());
}

#[test]
fn extension_of_takes_last_dot_of_file_name() {
    assert_eq!(extension_of(&b"a.png".to_vec()), Some(b"png".to_vec()));
    assert_eq!(extension_of(&b"dir/a.tar.gz".to_vec()), Some(b"gz".to_vec()));
    assert_eq!(extension_of(&b"dir.d/file".to_vec()), None);
    assert_eq!(extension_of(&b"noext".to_vec()), None);
    assert_eq!(extension_of(&b".hidden".to_vec()), None);
    assert_eq!(extension_of(&b"a.".to_vec()), Some(b"".to_vec()));
}

#[test]
fn classify_follows_precedence() {
    // a directory wins over any extension
    assert_eq!(
        classify(true, &b"frames.gif".to_vec()).unwrap(),
        AssetKind::DirectorySequence
    );
    assert_eq!(
        classify(false, &b"anim.gif".to_vec()).unwrap(),
        AssetKind::AnimatedGif
    );
    assert_eq!(
        classify(false, &b"photo.png".to_vec()).unwrap(),
        AssetKind::StaticImage
    );
    // the match on "gif" is case-sensitive and literal
    assert_eq!(
        classify(false, &b"anim.GIF".to_vec()).unwrap(),
        AssetKind::StaticImage
    );
}

#[test]
fn classify_requires_an_extension() {
    let r = classify(false, &b"assets/noext".to_vec());
    match r {
        Err(Error::MissingExtension(p)) => assert_eq!(p, b"assets/noext".to_vec()),
        _ => panic!("expected a missing-extension error"),
    }
}

#[test]
fn lex_le_bytes_is_bytewise_lexicographic() {
    assert!(lex_le_bytes(&b"a".to_vec(), &b"b".to_vec()));
    assert!(lex_le_bytes(&b"a".to_vec(), &b"a".to_vec()));
    assert!(lex_le_bytes(&b"a".to_vec(), &b"ab".to_vec()));
    assert!(!lex_le_bytes(&b"ab".to_vec(), &b"a".to_vec()));
    assert!(lex_le_bytes(&b"f1.png".to_vec(), &b"f10.png".to_vec()));
    assert!(!lex_le_bytes(&b"f10.png".to_vec(), &b"f1.png".to_vec()));
}

#[test]
fn sort_entries_orders_by_full_path() {
    let entries = vec![
        (b"frames/f10.png".to_vec(), vec![2u8]),
        (b"frames/f0.png".to_vec(), vec![0u8]),
        (b"frames/f1.png".to_vec(), vec![1u8]),
    ];
    let sorted = sort_entries(entries);
    let paths: Vec<Vec<u8>> = sorted.iter().map(|e| e.0.clone()).collect();
    assert_eq!(
        paths,
        vec![
            b"frames/f0.png".to_vec(),
            b"frames/f1.png".to_vec(),
            b"frames/f10.png".to_vec()
        ]
    );
    // the data travels with its path
    assert_eq!(sorted[0].1, vec![0u8]);
    assert_eq!(sorted[1].1, vec![1u8]);
    assert_eq!(sorted[2].1, vec![2u8]);
}

#[test]
fn sort_entries_is_independent_of_listing_order() {
    let a = vec![
        (b"x/b.png".to_vec(), vec![1u8]),
        (b"x/a.png".to_vec(), vec![0u8]),
        (b"x/c.png".to_vec(), vec![2u8]),
    ];
    let mut b = a.clone();
    b.reverse();
    assert_eq!(sort_entries(a), sort_entries(b));
}

#[test]
fn u32_string_writes_decimal() {
    assert_eq!(u32_string(0), "0");
    assert_eq!(u32_string(7), "7");
    assert_eq!(u32_string(10), "10");
    assert_eq!(u32_string(105), "105");
    assert_eq!(u32_string(4294967295), "4294967295");
}

#[test]
fn frame_name_appends_zero_based_index() {
    assert_eq!(frame_name("dirname", 0), "dirname_0");
    assert_eq!(frame_name("dirname", 1), "dirname_1");
    assert_eq!(frame_name("dirname", 2), "dirname_2");
    assert_eq!(frame_name("anim", 12), "anim_12");
}

#[test]
fn manifest_rejects_zero_dimensions() {
    let r = Manifest::new(0, 2, 5, Vec::new());
    assert!(matches!(r, Err(Error::ManifestParse(_))));
    let r = Manifest::new(2, 0, 5, Vec::new());
    assert!(matches!(r, Err(Error::ManifestParse(_))));
    let r = Manifest::new(0, 0, 5, Vec::new());
    assert!(matches!(r, Err(Error::ManifestParse(_))));
}

#[test]
fn manifest_keeps_valid_fields() {
    let m = Manifest::new(2, 3, 5, vec![("a".to_string(), b"a.png".to_vec())]).unwrap();
    assert_eq!(m.width, 2);
    assert_eq!(m.height, 3);
    assert_eq!(m.data_pin, 5);
    assert_eq!(m.images.len(), 1);
    assert_eq!(m.images[0].0, "a");
    assert_eq!(m.images[0].1, b"a.png".to_vec());
}
