use vstd::prelude::*;
use crate::classify;
use crate::classify::{gif_ext, spec_extension, AssetKind};
use crate::model::{AnimatedImage, Context, Error, Image, Manifest};

verus! {

/// Whether an asset can be classified at all: directories always can, a
/// file needs an extension.
pub open spec fn classifiable(is_dir: bool, p: Seq<u8>) -> bool {
    is_dir || spec_extension(p) is Some
}

/// The loader category of an asset, by the classifier's precedence: a
/// directory is a frame sequence, then the literal extension `gif` marks
/// an animation, and any other file is a still image.
pub open spec fn spec_kind(is_dir: bool, p: Seq<u8>) -> AssetKind {
    if is_dir {
        AssetKind::DirectorySequence
    } else if spec_extension(p) == Some(gif_ext()) {
        AssetKind::AnimatedGif
    } else {
        AssetKind::StaticImage
    }
}

/// Classify every manifest entry, in manifest order. `dir_flags[i]` says
/// whether entry `i`'s path is a directory on the filesystem. Succeeds
/// exactly when every non-directory entry has a file extension; the first
/// entry without one aborts the run, naming its path.
#[verifier::loop_isolation(false)]
pub fn classify_manifest(m: &Manifest, dir_flags: &Vec<bool>) -> (r: Result<Vec<AssetKind>, Error>)
    requires
        dir_flags@.len() == m.images@.len(),
    ensures
        r is Ok <==> (forall|i: int|
            0 <= i < m.images@.len() ==> classifiable(dir_flags@[i], (#[trigger] m.images@[i]).1@)),
        match r {
            Ok(kinds) => kinds@.len() == m.images@.len() && (forall|i: int|
                0 <= i < kinds@.len() ==> #[trigger] kinds@[i] == spec_kind(
                    dir_flags@[i],
                    m.images@[i].1@,
                )),
            Err(e) => e matches Error::MissingExtension(p) && (exists|i: int|
                0 <= i < m.images@.len() && (#[trigger] m.images@[i]).1@ == p@ && !dir_flags@[i]
                    && spec_extension(m.images@[i].1@) is None),
        },
{
    let mut kinds: Vec<AssetKind> = Vec::new();
    let n = m.images.len();
    let mut i: usize = 0;
    while i < n
        invariant
            i <= n,
            kinds@.len() == i,
            forall|j: int|
                0 <= j < i ==> #[trigger] kinds@[j] == spec_kind(dir_flags@[j], m.images@[j].1@)
                    && classifiable(dir_flags@[j], m.images@[j].1@),
        decreases n - i,
    {
        match classify::classify(dir_flags[i], &m.images[i].1) {
            Ok(kind) => {
                kinds.push(kind);
            },
            Err(e) => {
                return Err(e);
            },
        }
        i = i + 1;
    }
    proof {
        assert forall|j: int|
            0 <= j < m.images@.len() implies classifiable(
            dir_flags@[j],
            (#[trigger] m.images@[j]).1@,
        ) by {
            assert(kinds@[j] == spec_kind(dir_flags@[j], m.images@[j].1@));
        }
    }
    Ok(kinds)
}

/// One loaded asset, as the orchestration routes it: either a still image
/// for the flat image list or an animated sequence for the animation list.
pub enum LoadedAsset {
    Still(Image),
    Animated(AnimatedImage),
}

/// The still images among a load sequence, in order.
pub open spec fn stills_of(s: Seq<LoadedAsset>) -> Seq<Image>
    decreases s.len(),
{
    if s.len() == 0 {
        Seq::empty()
    } else {
        match s.last() {
            LoadedAsset::Still(img) => stills_of(s.drop_last()).push(img),
            LoadedAsset::Animated(_) => stills_of(s.drop_last()),
        }
    }
}

/// The animated sequences among a load sequence, in order.
pub open spec fn anims_of(s: Seq<LoadedAsset>) -> Seq<AnimatedImage>
    decreases s.len(),
{
    if s.len() == 0 {
        Seq::empty()
    } else {
        match s.last() {
            LoadedAsset::Still(_) => anims_of(s.drop_last()),
            LoadedAsset::Animated(a) => anims_of(s.drop_last()).push(a),
        }
    }
}

/// Assemble the generation context: the manifest's dimensions and pin, and
/// the loaded assets partitioned into the flat still-image list and the
/// animated-sequence list, each keeping manifest iteration order.
#[verifier::loop_isolation(false)]
pub fn build_context(m: &Manifest, loaded: Vec<LoadedAsset>) -> (c: Context)
    ensures
        c.width == m.width,
        c.height == m.height,
        c.data_pin == m.data_pin,
        c.images@ == stills_of(loaded@),
        c.animated_images@ == anims_of(loaded@),
{
    let ghost orig = loaded@;
    let mut rest = loaded;
    let mut images: Vec<Image> = Vec::new();
    let mut animated: Vec<AnimatedImage> = Vec::new();
    let ghost k: int = 0;
    while rest.len() > 0
        invariant
            0 <= k <= orig.len(),
            rest@ == orig.skip(k),
            images@ == stills_of(orig.take(k)),
            animated@ == anims_of(orig.take(k)),
        decreases rest@.len(),
    {
        let x = rest.remove(0);
        proof {
            assert(x == orig[k]);
            assert(orig.skip(k).drop_first() =~= orig.skip(k + 1));
            assert(orig.take(k + 1).drop_last() =~= orig.take(k));
            assert(orig.take(k + 1).last() == orig[k]);
        }
        match x {
            LoadedAsset::Still(img) => {
                images.push(img);
            },
            LoadedAsset::Animated(a) => {
                animated.push(a);
            },
        }
        proof {
            k = k + 1;
        }
    }
    proof {
        assert(orig.take(k) =~= orig);
    }
    Context { width: m.width, height: m.height, data_pin: m.data_pin, images, animated_images: animated }
}

} // verus!
