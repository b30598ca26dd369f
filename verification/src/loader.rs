//! Domain loader.
//!
//! A domain arrives as an opaque image blob with a small header: a
//! four-byte magic and the offset of the single exported entry symbol.
//! The loader parses the header, lays the image out, and can later
//! `reload` a fresh layout for restart without re-fetching the image.
//! Malformed images are rejected and never leave a partial layout.

use crate::error::{AlienError, AlienResult};
use vstd::prelude::*;

verus! {

/// First magic byte of a domain image.
pub const IMAGE_MAGIC_0: u8 = 0x7f;

/// Second magic byte of a domain image.
pub const IMAGE_MAGIC_1: u8 = 0x64;

/// Third magic byte of a domain image.
pub const IMAGE_MAGIC_2: u8 = 0x6f;

/// Fourth magic byte of a domain image.
pub const IMAGE_MAGIC_3: u8 = 0x6d;

/// Length of the image header: magic plus the entry offset.
pub const IMAGE_HEADER_LEN: usize = 12;

/// The entry offset stored in the header, little endian.
pub open spec fn entry_of(img: Seq<u8>) -> int
    recommends
        img.len() >= IMAGE_HEADER_LEN,
{
    img[4] + img[5] * 0x100 + img[6] * 0x1_0000 + img[7] * 0x100_0000 + img[8] * 0x1_0000_0000
        + img[9] * 0x100_0000_0000 + img[10] * 0x1_0000_0000_0000 + img[11]
        * 0x100_0000_0000_0000
}

/// A well-formed domain image: header present, magic right, entry offset
/// inside the image.
pub open spec fn image_valid(img: Seq<u8>) -> bool {
    &&& img.len() >= IMAGE_HEADER_LEN
    &&& img[0] == IMAGE_MAGIC_0
    &&& img[1] == IMAGE_MAGIC_1
    &&& img[2] == IMAGE_MAGIC_2
    &&& img[3] == IMAGE_MAGIC_3
    &&& entry_of(img) < img.len()
}

/// The loader retained by a proxy: the image bytes and, once laid out,
/// the resolved entry offset.
pub struct DomainLoader {
    /// The image blob, kept so restart needs no re-fetch.
    pub image: Vec<u8>,
    /// The resolved entry offset; `None` until `load` succeeds.
    pub entry: Option<usize>,
}

impl DomainLoader {
    /// A loader holding `image`, not yet laid out.
    pub fn new(image: Vec<u8>) -> (r: DomainLoader)
        ensures
            r.image@ == image@,
            r.entry is None,
    {
        DomainLoader { image, entry: None }
    }

    /// Parses the header and lays the image out, resolving the entry
    /// symbol. Rejects a malformed image (short, wrong magic, entry out of
    /// range) without leaving a partial layout.
    pub fn load(&mut self) -> (r: AlienResult<()>)
        ensures
            final(self).image@ == old(self).image@,
            image_valid(old(self).image@) ==> r == Ok::<(), AlienError>(()) && final(self).entry
                == Some(entry_of(old(self).image@) as usize),
            !image_valid(old(self).image@) ==> r == Err::<(), AlienError>(AlienError::InvalidArg)
                && final(self).entry is None,
    {
        self.entry = None;
        if self.image.len() < IMAGE_HEADER_LEN {
            return Err(AlienError::InvalidArg);
        }
        if self.image[0] != IMAGE_MAGIC_0 || self.image[1] != IMAGE_MAGIC_1 || self.image[2]
            != IMAGE_MAGIC_2 || self.image[3] != IMAGE_MAGIC_3 {
            return Err(AlienError::InvalidArg);
        }
        let b4 = self.image[4] as u64;
        let b5 = self.image[5] as u64;
        let b6 = self.image[6] as u64;
        let b7 = self.image[7] as u64;
        let b8 = self.image[8] as u64;
        let b9 = self.image[9] as u64;
        let b10 = self.image[10] as u64;
        let b11 = self.image[11] as u64;
        let entry: u64 = b4 + b5 * 0x100 + b6 * 0x1_0000 + b7 * 0x100_0000 + b8 * 0x1_0000_0000
            + b9 * 0x100_0000_0000 + b10 * 0x1_0000_0000_0000 + b11 * 0x100_0000_0000_0000;
        if entry >= self.image.len() as u64 {
            return Err(AlienError::InvalidArg);
        }
        self.entry = Some(entry as usize);
        Ok(())
    }

    /// Discards the current layout and lays the image out afresh, as
    /// restart requires. Repeating `reload` without an intervening call
    /// changes nothing: the outcome is a function of the image alone.
    pub fn reload(&mut self) -> (r: AlienResult<()>)
        ensures
            final(self).image@ == old(self).image@,
            image_valid(old(self).image@) ==> r == Ok::<(), AlienError>(()) && final(self).entry
                == Some(entry_of(old(self).image@) as usize),
            !image_valid(old(self).image@) ==> r == Err::<(), AlienError>(AlienError::InvalidArg)
                && final(self).entry is None,
    {
        self.load()
    }

    /// The resolved entry offset that `call` would invoke.
    pub fn entry_addr(&self) -> (r: AlienResult<usize>)
        ensures
            self.entry is Some ==> r == Ok::<usize, AlienError>(self.entry->Some_0),
            self.entry is None ==> r == Err::<usize, AlienError>(AlienError::InvalidArg),
    {
        match self.entry {
            Some(e) => Ok(e),
            None => Err(AlienError::InvalidArg),
        }
    }
}

} // verus!
