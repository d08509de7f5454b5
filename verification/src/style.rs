//! Startup selection of the style document.
//!
//! The style is a human-editable document.  At startup the shell tries
//! the on-disk copy first and falls back to the default document
//! embedded at build time, byte for byte, so a deleted style file never
//! fails; an unparsable document is the caller's concern and keeps the
//! prior style (see the driver's style poll).

use vstd::prelude::*;

verus! {

/// The bytes to try parsing as the style document: the on-disk document
/// when one could be read, otherwise the embedded default, unchanged.
pub fn style_source(disk: Option<Vec<u8>>, embedded: Vec<u8>) -> (r: Vec<u8>)
    ensures
        match disk {
            Some(d) => r@ == d@,
            None => r@ == embedded@,
        },
{
    match disk {
        Some(d) => d,
        None => embedded,
    }
}

} // verus!
