//! Pictures as files hold them.

use vstd::prelude::*;

verus! {

/// What the bytes of a decoded picture are.
#[derive(Clone, Copy, Debug, PartialEq, Eq, Structural)]
pub enum Channels {
    Grey,
    Rgb,
    Indexed,
    GreyAlpha,
    Rgba,
}

impl Channels {
    /// How many bytes a pixel is.
    pub open spec fn bytes(self) -> int {
        match self {
            Channels::Grey | Channels::Indexed => 1,
            Channels::GreyAlpha => 2,
            Channels::Rgb => 3,
            Channels::Rgba => 4,
        }
    }
}

/// A picture taken out of its file: eight bits a channel, row by row.
#[derive(Debug)]
pub struct Decoded {
    pub channels: Channels,
    pub width: u32,
    pub height: u32,
    pub data: Vec<u8>,
}

/// What `png::Decoder`, expanding palettes and narrow samples to whole bytes and
/// wide samples down to them, makes of a file: the channels, the width, the
/// height and the bytes of its first frame, or nothing where it is no such file.
pub uninterp spec fn png_decoded(file: Seq<u8>) -> Option<(Channels, u32, u32, Seq<u8>)>;

/// Decodes the first frame of a PNG file with `png::Decoder`.
///
/// What is claimed of the outside calls is that their outcome is a function of
/// the file's bytes, and that a picture has as many bytes as its size and its
/// channels come to. What the function is takes a whole format to say and is not
/// stated, nor is anything of a picture too large for the memory there is.
#[verifier::external_body]
pub(crate) fn decode_png(file: &[u8]) -> (r: Option<Decoded>)
    ensures
        match r {
            Some(d) => png_decoded(file@) == Some((d.channels, d.width, d.height, d.data@))
                && d.data@.len() == d.width * d.height * d.channels.bytes(),
            None => png_decoded(file@) is None,
        },
{
    let mut decoder = png::Decoder::new(std::io::Cursor::new(file));
    decoder.set_transformations(png::Transformations::normalize_to_color8());
    let mut reader = decoder.read_info().ok()?;
    let mut data = vec![0; reader.output_buffer_size()?];
    let info = reader.next_frame(&mut data).ok()?;
    data.truncate(info.buffer_size());
    let channels = match info.color_type {
        png::ColorType::Grayscale => Channels::Grey,
        png::ColorType::Rgb => Channels::Rgb,
        png::ColorType::Indexed => Channels::Indexed,
        png::ColorType::GrayscaleAlpha => Channels::GreyAlpha,
        png::ColorType::Rgba => Channels::Rgba,
    };
    Some(Decoded { channels, width: info.width, height: info.height, data })
}

/// How hard a file is pressed: the outside crate's levels of the same names.
#[derive(Clone, Copy, Debug, PartialEq, Eq, Structural)]
pub enum Effort {
    Fast,
    High,
}

/// A text a file carries besides its picture, as a keyword and what it says.
pub struct Remark {
    pub keyword: String,
    pub text: String,
}

/// The file `png::Encoder` makes of a picture of three bytes a pixel at a level
/// of compression, with two text chunks of a keyword and a text each, or what it
/// says where it refuses.
pub uninterp spec fn png_encoded(
    width: u32,
    height: u32,
    rgb: Seq<u8>,
    effort: Effort,
    first: (Seq<char>, Seq<char>),
    second: (Seq<char>, Seq<char>),
) -> Result<Seq<u8>, Seq<char>>;

/// Encodes a picture of three bytes a pixel with `png::Encoder`.
///
/// What is claimed of the outside calls is that their outcome is a function of
/// the picture, the level and the two remarks. Which bytes they are is not
/// stated.
#[verifier::external_body]
pub(crate) fn encode_png(
    width: u32,
    height: u32,
    rgb: &[u8],
    effort: Effort,
    first: Remark,
    second: Remark,
) -> (r: Result<Vec<u8>, String>)
    requires
        rgb@.len() == width * height * 3,
    ensures
        png_encoded(
            width,
            height,
            rgb@,
            effort,
            (first.keyword@, first.text@),
            (second.keyword@, second.text@),
        ) == match r {
            Ok(file) => Ok::<Seq<u8>, Seq<char>>(file@),
            Err(why) => Err::<Seq<u8>, Seq<char>>(why@),
        },
{
    let mut file = Vec::new();
    let mut encoder = png::Encoder::new(&mut file, width, height);
    encoder.add_text_chunk(first.keyword, first.text).map_err(|e| e.to_string())?;
    encoder.add_text_chunk(second.keyword, second.text).map_err(|e| e.to_string())?;
    encoder.set_color(png::ColorType::Rgb);
    encoder.set_depth(png::BitDepth::Eight);
    encoder.set_compression(match effort {
        Effort::Fast => png::Compression::Fast,
        Effort::High => png::Compression::High,
    });
    let mut writer = encoder.write_header().map_err(|e| e.to_string())?;
    writer.write_image_data(rgb).map_err(|e| e.to_string())?;
    writer.finish().map_err(|e| e.to_string())?;
    Ok(file)
}

/// A pixel takes a byte for every channel; an indexed one takes one for its index.
pub proof fn a_pixel_takes_a_byte_a_channel()
    ensures
        Channels::Grey.bytes() == 1,
        Channels::Indexed.bytes() == 1,
        Channels::GreyAlpha.bytes() == 2,
        Channels::Rgb.bytes() == 3,
        Channels::Rgba.bytes() == 4,
{
}

} // verus!
