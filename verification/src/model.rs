use vstd::prelude::*;

verus! {

/// The error taxonomy of the pipeline. Every failure carries what a caller
/// needs to attribute it: the offending path where one exists, and the
/// text of the underlying decoder or renderer error.
#[derive(Debug)]
pub enum Error {
    /// The manifest path itself does not exist.
    ManifestNotFound(Vec<u8>),
    /// A still image could not be decoded; holds the asset path and the
    /// decoder's message.
    ImageDecode(Vec<u8>, String),
    /// An animation container could not be decoded in full; holds the
    /// asset path and the decoder's message.
    AnimationDecode(Vec<u8>, String),
    /// A non-directory asset path has no file extension to classify by.
    MissingExtension(Vec<u8>),
    /// The manifest text is malformed or its dimensions are invalid.
    ManifestParse(String),
    /// The templating collaborator refused the generation context.
    CodeGen(String),
    /// A read or write on the filesystem failed.
    Io(String),
}

/// One fully decoded still frame: its generated-code name and its pixels,
/// row-major, one 24-bit RGB value per pixel.
pub struct Image {
    pub name: String,
    pub pixels: Vec<u32>,
}

/// One multi-frame asset: its base name and its frames in playback order.
/// `frame_count` always equals the number of frames held.
pub struct AnimatedImage {
    pub name: String,
    pub frames: Vec<Image>,
    pub frame_count: u32,
}

impl AnimatedImage {
    /// The structural invariant of an animated sequence: the stored count
    /// is the length of the frame list. Zero frames is a valid sequence.
    pub open spec fn wf(self) -> bool {
        self.frame_count == self.frames@.len()
    }
}

/// Everything code generation consumes: the target dimensions, the output
/// pin, and the two asset lists in manifest iteration order.
pub struct Context {
    pub width: u32,
    pub height: u32,
    pub data_pin: u32,
    pub images: Vec<Image>,
    pub animated_images: Vec<AnimatedImage>,
}

/// The validated manifest: strictly positive target dimensions, the data
/// pin, and the named asset paths in iteration order.
pub struct Manifest {
    pub width: u32,
    pub height: u32,
    pub data_pin: u32,
    pub images: Vec<(String, Vec<u8>)>,
}

impl Manifest {
    /// The manifest invariant: width and height are strictly positive.
    pub open spec fn wf(self) -> bool {
        self.width >= 1 && self.height >= 1
    }

    /// Validate and build a manifest. A zero width or height is rejected
    /// here, before any asset is looked at.
    pub fn new(width: u32, height: u32, data_pin: u32, images: Vec<(String, Vec<u8>)>) -> (r:
        Result<Manifest, Error>)
        ensures
            r is Ok <==> (width >= 1 && height >= 1),
            match r {
                Ok(m) => m.width == width && m.height == height && m.data_pin == data_pin
                    && m.images == images && m.wf(),
                Err(e) => e matches Error::ManifestParse(_),
            },
    {
        if width == 0 || height == 0 {
            Err(Error::ManifestParse("width and height must be positive".to_owned()))
        } else {
            Ok(Manifest { width, height, data_pin, images })
        }
    }
}

/// The command-line surface: the manifest path to read and the output path
/// to write, both as raw path bytes.
pub struct Args {
    pub input: Vec<u8>,
    pub output: Vec<u8>,
}

} // verus!
