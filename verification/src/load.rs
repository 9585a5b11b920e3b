use vstd::prelude::*;
use vstd::string::StringExecFns;
use crate::model::{AnimatedImage, Error, Image};
use crate::order;
use crate::order::entries_sorted;
use crate::pixel;
use crate::pixel::encoded_pixels;
use crate::raster;
use crate::raster::{decoded, gif_canvas, gif_clean, gif_decoding, gif_remaining, resized};
use crate::text;
use crate::text::frame_label;

verus! {

/// What a successfully loaded still image is: the bytes decode, and the
/// image holds the given name and the encoding of the decoded pixels
/// resampled to the target dimensions.
pub open spec fn image_ok(
    name: Seq<char>,
    bytes: Seq<u8>,
    width: u32,
    height: u32,
    img: Image,
) -> bool {
    match decoded(bytes) {
        Some(d) => img.name@ == name && img.pixels@ == encoded_pixels(
            resized(d.2, d.0, d.1, width, height),
        ) && img.pixels@.len() == width * height,
        None => false,
    }
}

/// Decode one still image from its file bytes, resample it to the target
/// dimensions, and encode its pixels. Succeeds exactly when the bytes are
/// a decodable image; a failure names the asset's path.
pub fn load_image(name: String, path: &Vec<u8>, bytes: &Vec<u8>, width: u32, height: u32) -> (r:
    Result<Image, Error>)
    requires
        4 * width * height <= usize::MAX,
    ensures
        r is Ok <==> decoded(bytes@) is Some,
        match r {
            Ok(img) => image_ok(name@, bytes@, width, height, img),
            Err(e) => e matches Error::ImageDecode(p, _) && p@ == path@,
        },
{
    match raster::decode_rgba(bytes) {
        Ok(full) => {
            let small = raster::resize_rgba(&full, width, height);
            let raw = raster::rgba_into_raw(small);
            proof {
                let x = (width as int) * (height as int);
                assert(raw@.len() == 4 * x) by (nonlinear_arith)
                    requires
                        raw@.len() == 4 * (width as int) * (height as int),
                        x == (width as int) * (height as int),
                ;
                assert((4 * x) % 4 == 0 && (4 * x) / 4 == x) by (nonlinear_arith);
            }
            let pixels = pixel::encode_pixels(&raw);
            Ok(Image { name, pixels })
        },
        Err(e) => Err(Error::ImageDecode(path.clone(), raster::image_error_text(&e))),
    }
}

/// What a successfully loaded frame list is, given the frame sources: one
/// frame per source, named `<base>_<index>` from index zero up with no
/// gaps, each the encoding of its source resampled to the target
/// dimensions.
pub open spec fn frames_ok(
    base: Seq<char>,
    sources: Seq<(u16, u16, Seq<u8>)>,
    width: u32,
    height: u32,
    frames: Seq<Image>,
) -> bool {
    &&& frames.len() == sources.len()
    &&& forall|i: int|
        0 <= i < sources.len() ==> {
            &&& (#[trigger] frames[i]).name@ == frame_label(base, i)
            &&& frames[i].pixels@ == encoded_pixels(
                resized(sources[i].2, sources[i].0 as u32, sources[i].1 as u32, width, height),
            )
            &&& frames[i].pixels@.len() == width * height
        }
}

/// When a byte string can be loaded as a GIF animation: its header
/// decodes, every frame it holds is a complete canvas-sized image, the
/// container ends cleanly after its frames, and the frame count fits the
/// stored counter.
pub open spec fn gif_loadable(bytes: Seq<u8>) -> bool {
    match gif_decoding(bytes) {
        Some(info) => info.3 && info.2.len() <= u32::MAX && (forall|i: int|
            0 <= i < info.2.len() ==> (#[trigger] info.2[i]).0 == info.0 && info.2[i].1 == info.1),
        None => false,
    }
}

/// Decode a GIF animation from its file bytes: every frame is resampled to
/// the target dimensions, encoded, and named `<base>_<index>` in container
/// order. A partial (non-canvas-sized) frame, a mid-stream decode error,
/// or an undecodable header each abort with an error naming the path; no
/// partial sequence is returned. An empty container yields a sequence of
/// zero frames.
#[verifier::loop_isolation(false)]
pub fn load_gif(name: &str, path: &Vec<u8>, bytes: Vec<u8>, width: u32, height: u32) -> (r: Result<
    AnimatedImage,
    Error,
>)
    requires
        4 * width * height <= usize::MAX,
    ensures
        r is Ok <==> gif_loadable(bytes@),
        match r {
            Ok(a) => a.name@ == name@ && a.wf() && frames_ok(
                name@,
                gif_decoding(bytes@).unwrap().2,
                width,
                height,
                a.frames@,
            ),
            Err(e) => e matches Error::AnimationDecode(p, _) && p@ == path@,
        },
{
    let ghost gbytes = bytes@;
    let mut d = match raster::gif_open(bytes) {
        Ok(d) => d,
        Err(e) => {
            return Err(Error::AnimationDecode(path.clone(), raster::gif_error_text(&e)));
        },
    };
    let ghost info = gif_decoding(gbytes).unwrap();
    let canvas_w = raster::gif_width(&d);
    let canvas_h = raster::gif_height(&d);
    let mut frames: Vec<Image> = Vec::new();
    let mut index: u32 = 0;
    loop
        invariant
            4 * width * height <= usize::MAX,
            gif_decoding(gbytes) == Some(info),
            gif_canvas(d) == (info.0, info.1),
            gif_clean(d) == info.3,
            canvas_w == info.0,
            canvas_h == info.1,
            index == frames@.len(),
            index <= info.2.len(),
            gif_remaining(d) == info.2.skip(index as int),
            forall|i: int|
                0 <= i < index ==> (#[trigger] info.2[i]).0 == info.0 && info.2[i].1 == info.1,
            frames_ok(name@, info.2.take(index as int), width, height, frames@),
        decreases info.2.len() - index,
    {
        let step = raster::gif_next_frame(&mut d);
        match step {
            Err(e) => {
                proof {
                    assert(!info.3);
                }
                return Err(Error::AnimationDecode(path.clone(), raster::gif_error_text(&e)));
            },
            Ok(None) => {
                proof {
                    assert(info.2.skip(index as int).len() == 0);
                    assert(index == info.2.len());
                    assert(info.2.take(index as int) =~= info.2);
                }
                return Ok(AnimatedImage { name: name.to_owned(), frames, frame_count: index });
            },
            Ok(Some(f)) => {
                proof {
                    assert(info.2.skip(index as int)[0] == info.2[index as int]);
                }
                if f.0 != canvas_w || f.1 != canvas_h {
                    // A frame smaller than the canvas is a partial update,
                    // not a complete, self-contained image.
                    return Err(
                        Error::AnimationDecode(
                            path.clone(),
                            "frame is not a complete canvas-sized image".to_owned(),
                        ),
                    );
                }
                if index == u32::MAX {
                    return Err(
                        Error::AnimationDecode(path.clone(), "too many frames".to_owned()),
                    );
                }
                let fname = text::frame_name(name, index);
                let (fw, fh, buf) = f;
                let full = match raster::rgba_from_vec(fw as u32, fh as u32, buf) {
                    Some(img) => img,
                    None => unreached(),
                };
                let small = raster::resize_rgba(&full, width, height);
                let raw = raster::rgba_into_raw(small);
                proof {
                    let x = (width as int) * (height as int);
                    assert(raw@.len() == 4 * x) by (nonlinear_arith)
                        requires
                            raw@.len() == 4 * (width as int) * (height as int),
                            x == (width as int) * (height as int),
                    ;
                    assert((4 * x) % 4 == 0 && (4 * x) / 4 == x) by (nonlinear_arith);
                }
                let pixels = pixel::encode_pixels(&raw);
                frames.push(Image { name: fname, pixels });
                index = index + 1;
                proof {
                    assert(info.2.skip(index - 1 as int).drop_first() =~= info.2.skip(
                        index as int,
                    ));
                    let taken = info.2.take(index as int);
                    assert(taken.len() == index);
                    assert forall|i: int| 0 <= i < index implies (#[trigger] frames@[i]).name@
                        == frame_label(name@, i) && frames@[i].pixels@ == encoded_pixels(
                        resized(taken[i].2, taken[i].0 as u32, taken[i].1 as u32, width, height),
                    ) && frames@[i].pixels@.len() == width * height by {
                        assert(taken[i] == info.2[i]);
                        if i < index - 1 {
                            assert(info.2.take(index - 1 as int)[i] == info.2[i]);
                        }
                    }
                }
            },
        }
    }
}

/// What a successfully loaded directory sequence is, frame by frame: one
/// frame per entry, in entry order, named `<base>_<index>` from index zero
/// up with no gaps, each loaded as a still image from the entry's bytes.
pub open spec fn dir_frames_ok(
    base: Seq<char>,
    entries: Seq<(Vec<u8>, Vec<u8>)>,
    width: u32,
    height: u32,
    frames: Seq<Image>,
) -> bool {
    &&& frames.len() == entries.len()
    &&& forall|i: int|
        0 <= i < entries.len() ==> image_ok(
            frame_label(base, i),
            (#[trigger] entries[i]).1@,
            width,
            height,
            frames[i],
        )
}

/// Load a list of frame files, already in playback order, as the frames of
/// one animated sequence. Succeeds exactly when every entry's bytes decode
/// as a still image; the first failure aborts, naming the failing entry's
/// path. An empty list yields a sequence of zero frames.
#[verifier::loop_isolation(false)]
pub fn load_frames(name: &str, entries: Vec<(Vec<u8>, Vec<u8>)>, width: u32, height: u32) -> (r:
    Result<AnimatedImage, Error>)
    requires
        4 * width * height <= usize::MAX,
        entries@.len() <= u32::MAX,
    ensures
        r is Ok <==> (forall|i: int|
            0 <= i < entries@.len() ==> decoded((#[trigger] entries@[i]).1@) is Some),
        match r {
            Ok(a) => a.name@ == name@ && a.wf() && dir_frames_ok(
                name@,
                entries@,
                width,
                height,
                a.frames@,
            ),
            Err(e) => e matches Error::ImageDecode(p, _) && (exists|i: int|
                0 <= i < entries@.len() && (#[trigger] entries@[i]).0@ == p@ && decoded(
                    entries@[i].1@,
                ) is None),
        },
{
    let mut frames: Vec<Image> = Vec::new();
    let n = entries.len();
    let mut i: usize = 0;
    while i < n
        invariant
            i <= n,
            frames@.len() == i,
            forall|j: int|
                0 <= j < i ==> image_ok(
                    frame_label(name@, j),
                    (#[trigger] entries@[j]).1@,
                    width,
                    height,
                    frames@[j],
                ),
        decreases n - i,
    {
        let fname = text::frame_name(name, i as u32);
        match load_image(fname, &entries[i].0, &entries[i].1, width, height) {
            Ok(img) => {
                frames.push(img);
            },
            Err(e) => {
                return Err(e);
            },
        }
        i = i + 1;
    }
    Ok(AnimatedImage { name: name.to_owned(), frames, frame_count: i as u32 })
}

/// Sequences holding the same entries, however ordered, hold the same
/// elements.
proof fn lemma_multiset_elements(a: Seq<(Vec<u8>, Vec<u8>)>, b: Seq<(Vec<u8>, Vec<u8>)>)
    requires
        a.to_multiset() == b.to_multiset(),
    ensures
        forall|x: (Vec<u8>, Vec<u8>)| a.contains(x) <==> b.contains(x),
{
    assert forall|x: (Vec<u8>, Vec<u8>)| a.contains(x) <==> b.contains(x) by {
        vstd::seq_lib::to_multiset_contains(a, x);
        vstd::seq_lib::to_multiset_contains(b, x);
        assert(a.to_multiset().count(x) == b.to_multiset().count(x));
    }
}

/// Load a directory's entries as one animated sequence: the entries are
/// first sorted by their full path in ascending lexicographic order —
/// whatever order the directory listing reported them in — then loaded as
/// frames named `<base>_<index>` in sorted order. Succeeds exactly when
/// every entry's bytes decode as a still image.
pub fn load_dir(name: &str, entries: Vec<(Vec<u8>, Vec<u8>)>, width: u32, height: u32) -> (r:
    Result<AnimatedImage, Error>)
    requires
        4 * width * height <= usize::MAX,
        entries@.len() <= u32::MAX,
    ensures
        r is Ok <==> (forall|i: int|
            0 <= i < entries@.len() ==> decoded((#[trigger] entries@[i]).1@) is Some),
        match r {
            Ok(a) => a.name@ == name@ && a.wf() && (exists|s: Seq<(Vec<u8>, Vec<u8>)>|
                entries_sorted(s) && s.to_multiset() == entries@.to_multiset()
                    && #[trigger] dir_frames_ok(name@, s, width, height, a.frames@)),
            Err(e) => e matches Error::ImageDecode(p, _) && (exists|i: int|
                0 <= i < entries@.len() && (#[trigger] entries@[i]).0@ == p@ && decoded(
                    entries@[i].1@,
                ) is None),
        },
{
    let ghost orig = entries@;
    let sorted = order::sort_entries(entries);
    proof {
        lemma_multiset_elements(sorted@, orig);
    }
    let r = load_frames(name, sorted, width, height);
    proof {
        if forall|i: int| 0 <= i < orig.len() ==> decoded((#[trigger] orig[i]).1@) is Some {
            assert forall|i: int|
                0 <= i < sorted@.len() implies decoded((#[trigger] sorted@[i]).1@) is Some by {
                assert(sorted@.contains(sorted@[i]));
                assert(orig.contains(sorted@[i]));
                let j = choose|j: int| 0 <= j < orig.len() && orig[j] == sorted@[i];
                assert(decoded(orig[j].1@) is Some);
            }
        }
        if forall|i: int| 0 <= i < sorted@.len() ==> decoded((#[trigger] sorted@[i]).1@) is Some {
            assert forall|i: int|
                0 <= i < orig.len() implies decoded((#[trigger] orig[i]).1@) is Some by {
                assert(orig.contains(orig[i]));
                assert(sorted@.contains(orig[i]));
                let j = choose|j: int| 0 <= j < sorted@.len() && sorted@[j] == orig[i];
                assert(decoded(sorted@[j].1@) is Some);
            }
        }
    }
    match &r {
        Ok(a) => {
            proof {
                assert(entries_sorted(sorted@) && sorted@.to_multiset() == orig.to_multiset()
                    && dir_frames_ok(name@, sorted@, width, height, a.frames@));
            }
        },
        Err(e) => {
            proof {
                let p = e->ImageDecode_0;
                let i = choose|i: int|
                    0 <= i < sorted@.len() && (#[trigger] sorted@[i]).0@ == p@ && decoded(
                        sorted@[i].1@,
                    ) is None;
                assert(sorted@.contains(sorted@[i]));
                assert(orig.contains(sorted@[i]));
                let j = choose|j: int| 0 <= j < orig.len() && orig[j] == sorted@[i];
                assert(orig[j].0@ == p@ && decoded(orig[j].1@) is None);
            }
        },
    }
    r
}

} // verus!
