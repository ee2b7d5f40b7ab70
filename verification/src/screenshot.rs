//! Screenshot image checks and encoding: a capture is kept only when it is a complete,
//! bounded PNG image.
use vstd::prelude::*;
use crate::text::{decimal, u64_to_decimal};

verus! {

/// The largest encoded screenshot kept, in bytes.
pub const MAX_SCREENSHOT_PNG_BYTES: usize = 67108864;
/// The largest decoded screenshot admitted, in bytes.
pub const MAX_SCREENSHOT_DECODED_BYTES: usize = 268435456;

/// The eight bytes every PNG file starts with.
pub open spec fn png_signature() -> Seq<u8> {
    seq![0x89u8, 0x50u8, 0x4eu8, 0x47u8, 0x0du8, 0x0au8, 0x1au8, 0x0au8]
}

/// The step of PNG encoding that failed.
#[derive(Clone, Copy, Debug, PartialEq, Eq, Structural)]
pub enum PngStage {
    Header,
    PixelData,
}

/// What the `png` crate's encoder produces for 8-bit RGBA pixels of the given size:
/// the file's bytes, or the step that failed with the encoder's message.
pub uninterp spec fn png_rgba_encoding(width: u32, height: u32, data: Seq<u8>) -> Result<Seq<u8>, (PngStage, Seq<char>)>;

/// What the `png` crate's decoder reads from a file's header: the size of a decoded
/// frame (`None` where it does not fit in memory), or the decoder's message.
pub uninterp spec fn png_frame_size(data: Seq<u8>) -> Result<Option<usize>, Seq<char>>;

/// What decoding the first frame of a file gives with the `png` crate's decoder: `None`
/// when it decodes, else the decoder's message.
pub uninterp spec fn png_frame_failure(data: Seq<u8>) -> Option<Seq<char>>;

/// Encodes with `png::Encoder` (RGBA, eight bits a sample): `write_header`, then
/// `write_image_data`. The contract names the outcome and says nothing more of it.
#[verifier::external_body]
fn png_encode(width: u32, height: u32, rgba: &[u8]) -> (r: Result<Vec<u8>, (PngStage, String)>)
    ensures
        match r {
            Ok(b) => png_rgba_encoding(width, height, rgba@) == Ok::<Seq<u8>, (PngStage, Seq<char>)>(b@),
            Err((stage, m)) => png_rgba_encoding(width, height, rgba@) == Err::<Seq<u8>, (PngStage, Seq<char>)>((stage, m@)),
        },
{
    let mut bytes = Vec::new();
    let mut encoder = png::Encoder::new(&mut bytes, width, height);
    encoder.set_color(png::ColorType::Rgba);
    encoder.set_depth(png::BitDepth::Eight);
    let mut writer = match encoder.write_header() {
        Ok(w) => w,
        Err(e) => return Err((PngStage::Header, e.to_string())),
    };
    if let Err(e) = writer.write_image_data(rgba) {
        return Err((PngStage::PixelData, e.to_string()));
    }
    drop(writer);
    Ok(bytes)
}

/// Reads a file's header with `png::Decoder::read_info` and asks the reader for
/// `output_buffer_size`. The contract names the outcome and says nothing more of it.
#[verifier::external_body]
fn png_read_size(data: &[u8]) -> (r: Result<Option<usize>, String>)
    ensures
        match r {
            Ok(s) => png_frame_size(data@) == Ok::<Option<usize>, Seq<char>>(s),
            Err(m) => png_frame_size(data@) == Err::<Option<usize>, Seq<char>>(m@),
        },
{
    match png::Decoder::new(std::io::Cursor::new(data)).read_info() {
        Ok(reader) => Ok(reader.output_buffer_size()),
        Err(e) => Err(e.to_string()),
    }
}

/// Decodes a file's first frame with `png::Reader::next_frame` into a buffer of the
/// size the header gives. The contract names the outcome and says nothing more of it.
#[verifier::external_body]
fn png_decode_frame(data: &[u8], size: usize) -> (r: Option<String>)
    requires
        png_frame_size(data@) == Ok::<Option<usize>, Seq<char>>(Some(size)),
        size <= MAX_SCREENSHOT_DECODED_BYTES,
    ensures
        match r {
            None => png_frame_failure(data@) is None,
            Some(m) => png_frame_failure(data@) == Some(m@),
        },
{
    let mut reader = match png::Decoder::new(std::io::Cursor::new(data)).read_info() {
        Ok(reader) => reader,
        Err(e) => return Some(e.to_string()),
    };
    let mut decoded = vec![0u8; size];
    reader.next_frame(&mut decoded).err().map(|e| e.to_string())
}

/// The outcome of encoding RGBA pixels into a PNG file, with the failed step named.
pub open spec fn encoding_outcome(width: u32, height: u32, data: Seq<u8>) -> Result<Seq<u8>, Seq<char>> {
    match png_rgba_encoding(width, height, data) {
        Ok(b) => Ok(b),
        Err((PngStage::Header, m)) => Err("could not write PNG header: "@ + m),
        Err((PngStage::PixelData, m)) => Err("could not write PNG pixel data: "@ + m),
    }
}

/// Encodes 8-bit RGBA pixels as a PNG file.
pub fn encode_rgba_to_png(width: u32, height: u32, rgba_data: &[u8]) -> (r: Result<Vec<u8>, String>)
    ensures
        match r {
            Ok(b) => encoding_outcome(width, height, rgba_data@) == Ok::<Seq<u8>, Seq<char>>(b@),
            Err(m) => encoding_outcome(width, height, rgba_data@) == Err::<Seq<u8>, Seq<char>>(m@),
        },
{
    match png_encode(width, height, rgba_data) {
        Ok(b) => Ok(b),
        Err((stage, m)) => {
            let prefix = match stage {
                PngStage::Header => {
                    proof { reveal_strlit("could not write PNG header: "); }
                    "could not write PNG header: "
                },
                PngStage::PixelData => {
                    proof { reveal_strlit("could not write PNG pixel data: "); }
                    "could not write PNG pixel data: "
                },
            };
            let mut e = prefix.to_string();
            e.append(m.as_str());
            Err(e)
        },
    }
}

/// `n` white, opaque RGBA bytes.
pub open spec fn white_pixels(n: nat) -> Seq<u8> {
    Seq::new(n, |i: int| 255u8)
}

/// A white PNG image of the given size.
pub fn create_blank_png(width: u32, height: u32) -> (r: Result<Vec<u8>, String>)
    requires
        width * height * 4 <= u32::MAX,
    ensures
        match r {
            Ok(b) => encoding_outcome(width, height, white_pixels((width * height * 4) as nat)) == Ok::<Seq<u8>, Seq<char>>(b@),
            Err(m) => encoding_outcome(width, height, white_pixels((width * height * 4) as nat)) == Err::<Seq<u8>, Seq<char>>(m@),
        },
{
    let n: usize = (width * height * 4) as usize;
    let mut data: Vec<u8> = Vec::new();
    let mut i: usize = 0;
    while i < n
        invariant
            i <= n,
            data@ == white_pixels(i as nat),
        decreases n - i,
    {
        data.push(255u8);
        assert(data@ =~= white_pixels((i + 1) as nat));
        i += 1;
    }
    encode_rgba_to_png(width, height, data.as_slice())
}

/// Whether the bytes start with the PNG signature.
pub open spec fn has_png_signature(data: Seq<u8>) -> bool {
    data.len() >= 8 && data.subrange(0, 8) == png_signature()
}

/// Why a screenshot is refused, or `None` when it is a complete PNG within the bounds.
pub open spec fn png_problem(data: Seq<u8>) -> Option<Seq<char>> {
    if !has_png_signature(data) {
        Some("native screenshot did not produce a PNG signature"@)
    } else if data.len() > MAX_SCREENSHOT_PNG_BYTES {
        Some("screenshot PNG is "@ + decimal(data.len()) + " bytes; maximum is 67108864 bytes"@)
    } else {
        match png_frame_size(data) {
            Err(m) => Some("screenshot PNG header is invalid: "@ + m),
            Ok(None) => Some("screenshot PNG decoded size is unavailable"@),
            Ok(Some(size)) => if size > MAX_SCREENSHOT_DECODED_BYTES {
                Some("screenshot PNG decodes to "@ + decimal(size as nat) + " bytes; maximum is 268435456 bytes"@)
            } else {
                match png_frame_failure(data) {
                    None => None,
                    Some(m) => Some("screenshot PNG data is invalid: "@ + m),
                }
            },
        }
    }
}

fn starts_with_png_signature(bytes: &[u8]) -> (b: bool)
    ensures
        b == has_png_signature(bytes@),
{
    if bytes.len() < 8 {
        return false;
    }
    let ok = bytes[0] == 0x89u8 && bytes[1] == 0x50u8 && bytes[2] == 0x4eu8 && bytes[3] == 0x47u8
        && bytes[4] == 0x0du8 && bytes[5] == 0x0au8 && bytes[6] == 0x1au8 && bytes[7] == 0x0au8;
    assert(ok == (bytes@.subrange(0, 8) =~= png_signature()));
    ok
}

fn with_prefix(prefix: &str, m: &str) -> (s: String)
    ensures
        s@ == prefix@ + m@,
{
    let mut s = prefix.to_string();
    s.append(m);
    s
}

fn size_message(before: &str, n: usize, after: &str) -> (s: String)
    ensures
        s@ == before@ + decimal(n as nat) + after@,
{
    let mut s = before.to_string();
    let d = u64_to_decimal(n as u64);
    s.append(d.as_str());
    s.append(after);
    s
}

/// Checks that the bytes are one complete PNG image within the size bounds.
pub fn validate_png(bytes: &[u8]) -> (r: Result<(), String>)
    ensures
        match r {
            Ok(()) => png_problem(bytes@) is None,
            Err(m) => png_problem(bytes@) == Some(m@),
        },
{
    if !starts_with_png_signature(bytes) {
        proof { reveal_strlit("native screenshot did not produce a PNG signature"); }
        return Err("native screenshot did not produce a PNG signature".to_string());
    }
    if bytes.len() > MAX_SCREENSHOT_PNG_BYTES {
        proof {
            reveal_strlit("screenshot PNG is ");
            reveal_strlit(" bytes; maximum is 67108864 bytes");
        }
        return Err(size_message("screenshot PNG is ", bytes.len(), " bytes; maximum is 67108864 bytes"));
    }
    match png_read_size(bytes) {
        Err(m) => {
            proof { reveal_strlit("screenshot PNG header is invalid: "); }
            Err(with_prefix("screenshot PNG header is invalid: ", m.as_str()))
        },
        Ok(None) => {
            proof { reveal_strlit("screenshot PNG decoded size is unavailable"); }
            Err("screenshot PNG decoded size is unavailable".to_string())
        },
        Ok(Some(size)) => {
            if size > MAX_SCREENSHOT_DECODED_BYTES {
                proof {
                    reveal_strlit("screenshot PNG decodes to ");
                    reveal_strlit(" bytes; maximum is 268435456 bytes");
                }
                return Err(size_message("screenshot PNG decodes to ", size, " bytes; maximum is 268435456 bytes"));
            }
            match png_decode_frame(bytes, size) {
                None => Ok(()),
                Some(m) => {
                    proof { reveal_strlit("screenshot PNG data is invalid: "); }
                    Err(with_prefix("screenshot PNG data is invalid: ", m.as_str()))
                },
            }
        },
    }
}

} // verus!
