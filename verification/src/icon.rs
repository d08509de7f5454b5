//! Unpacking of the embedded window-icon asset.
//!
//! The build step stores the icon as raw RGBA pixel data with two
//! trailing bytes carrying width and height (each one less than its
//! value), the whole buffer compressed with a size-prepended LZ4 block.
//! Unpacking decompresses, pops the two dimension bytes, and checks
//! that the rest is a whole pixel grid of those dimensions.

use vstd::prelude::*;

verus! {

/// What `lz4_flex::decompress_size_prepended` yields on a given input:
/// the decompressed bytes, or nothing when the input is not a valid
/// size-prepended block.  The result depends on the input bytes alone.
pub uninterp spec fn lz4_unpacked(s: Seq<u8>) -> Option<Seq<u8>>;

/// Relies on `lz4_flex::decompress_size_prepended`: decompresses a
/// block whose first four bytes carry the decompressed size, erring
/// exactly on malformed input.
#[verifier::external_body]
fn lz4_decompress(data: &[u8]) -> (r: Option<Vec<u8>>)
    ensures
        match r {
            Some(v) => lz4_unpacked(data@) == Some(v@),
            None => lz4_unpacked(data@) is None,
        },
{
    lz4_flex::decompress_size_prepended(data).ok()
}

/// Raw pixel data for the window icon, with its dimensions.
#[derive(Debug)]
pub struct IconData {
    pub rgba: Vec<u8>,
    pub width: u32,
    pub height: u32,
}

impl IconData {
    /// Exactly four bytes per pixel, as the windowing library's icon
    /// constructor demands.
    pub open spec fn wf(self) -> bool {
        self.rgba@.len() == 4 * self.width * self.height
    }
}

/// Unpack the embedded icon asset.  Returns the pixel data and the
/// dimensions recovered from the two trailing bytes; `None` exactly
/// when the asset does not decompress, is too short to carry the
/// dimensions, or does not leave a whole pixel grid of those
/// dimensions.
pub fn unpack_icon(packed: &[u8]) -> (r: Option<IconData>)
    ensures
        match r {
            Some(icon) => match lz4_unpacked(packed@) {
                Some(d) => d.len() >= 2 && icon.width == d[d.len() - 2] + 1 && icon.height
                    == d[d.len() - 1] + 1 && icon.rgba@ == d.take(d.len() - 2) && icon.wf(),
                None => false,
            },
            None => match lz4_unpacked(packed@) {
                Some(d) => d.len() < 2 || d.len() - 2 != 4 * (d[d.len() - 2] + 1) * (d[d.len() - 1]
                    + 1),
                None => true,
            },
        },
{
    let data = lz4_decompress(packed);
    match data {
        None => None,
        Some(mut v) => {
            if v.len() < 2 {
                return None;
            }
            let ghost d = v@;
            let hb = match v.pop() {
                Some(b) => b,
                None => {
                    return None;
                },
            };
            let wb = match v.pop() {
                Some(b) => b,
                None => {
                    return None;
                },
            };
            proof {
                assert(v@ =~= d.take(d.len() - 2));
            }
            let width: u32 = wb as u32 + 1;
            let height: u32 = hb as u32 + 1;
            let wu: usize = width as usize;
            let hu: usize = height as usize;
            proof {
                assert(4 * wu * hu <= 262144) by (nonlinear_arith)
                    requires
                        wu <= 256,
                        hu <= 256,
                ;
            }
            let expected: usize = 4 * wu * hu;
            if v.len() == expected {
                Some(IconData { rgba: v, width, height })
            } else {
                None
            }
        },
    }
}

} // verus!
