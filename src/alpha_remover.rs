//! Flattening of stored image bytes by pixel format, and the image-level
//! operation that swaps in the flattened data and its format tag.

use vstd::prelude::*;
use crate::composite::{
    flatten_samples, remove_alpha_from_4_channel, samples_of,
    samples_within,
};
use crate::packing::{
    bytes_of, lemma_unpack_packed, narrow_samples, pack_u16_be, packed, unpack_u16_be, unpacked,
    widen_samples,
};

verus! {

/// The pixel layout of decoded image data: channels and bits per channel.
#[derive(Clone, Copy, Debug, PartialEq, Eq, Structural)]
pub enum ColorType {
    L8,
    La8,
    Rgb8,
    Rgba8,
    L16,
    La16,
    Rgb16,
    Rgba16,
    Rgb32F,
    Rgba32F,
}

/// The color space tag that a document stores beside an image's data.
#[derive(Clone, Copy, Debug, PartialEq, Eq, Structural)]
pub enum ColorSpace {
    Rgb,
    Rgba,
    Palette,
    Cmyk,
    Greyscale,
    GreyscaleAlpha,
}

/// The flattened 8-bit RGBA bytes `data`: one byte per RGB sample.
pub open spec fn flattened_rgba8(data: Seq<u8>) -> Seq<u8> {
    flatten_samples(bytes_of(data), 255).map_values(|x: int| x as u8)
}

/// The flattened 16-bit RGBA bytes `data`: a big-endian pair per RGB sample.
pub open spec fn flattened_rgba16(data: Seq<u8>) -> Seq<u8> {
    packed(flatten_samples(unpacked(data), 65535))
}

/// What flattening does to `data` of layout `color_type`: the opaque RGB
/// bytes for whole 8-bit or 16-bit RGBA pixels, nothing for anything else.
pub open spec fn flattened(data: Seq<u8>, color_type: ColorType) -> Option<Seq<u8>> {
    match color_type {
        ColorType::Rgba8 => if data.len() % 4 == 0 {
            Some(flattened_rgba8(data))
        } else {
            None
        },
        ColorType::Rgba16 => if data.len() % 8 == 0 {
            Some(flattened_rgba16(data))
        } else {
            None
        },
        _ => None,
    }
}

/// Composites 8-bit RGBA pixels over white and drops their alpha.
pub fn flatten_rgba8(image_data: &[u8]) -> (r: Vec<u8>)
    requires
        image_data@.len() % 4 == 0,
    ensures
        r@ == flattened_rgba8(image_data@),
        bytes_of(r@) == flatten_samples(bytes_of(image_data@), 255),
        r@.len() == image_data@.len() / 4 * 3,
{
    let samples = widen_samples(image_data);
    proof {
        assert(samples@.len() == image_data@.len());
        assert forall|i: int| 0 <= i < samples_of(samples@).len() implies 0 <= #[trigger] samples_of(
            samples@,
        )[i] <= 255 by {
            assert(samples_of(samples@)[i] == bytes_of(image_data@)[i]);
        }
    }
    let flat = remove_alpha_from_4_channel(&samples, 255);
    proof {
        assert forall|i: int| 0 <= i < flat@.len() implies #[trigger] flat@[i] <= 255 by {
            assert(samples_of(flat@)[i] == flat@[i] as int);
        }
    }
    let r = narrow_samples(&flat);
    proof {
        let f = flatten_samples(bytes_of(image_data@), 255);
        assert(bytes_of(r@) == f);
        assert(r@ =~= f.map_values(|x: int| x as u8)) by {
            assert forall|i: int| 0 <= i < r@.len() implies r@[i] == f.map_values(
                |x: int| x as u8,
            )[i] by {
                assert(bytes_of(r@)[i] == r@[i] as int);
            }
        }
    }
    r
}

/// Composites 16-bit RGBA pixels, stored as big-endian byte pairs, over
/// white and drops their alpha.
pub fn flatten_rgba16(image_data: &[u8]) -> (r: Vec<u8>)
    requires
        image_data@.len() % 8 == 0,
    ensures
        r@ == flattened_rgba16(image_data@),
        unpacked(r@) == flatten_samples(unpacked(image_data@), 65535),
        r@.len() == image_data@.len() / 8 * 6,
{
    let samples = unpack_u16_be(image_data);
    proof {
        assert(samples@.len() == image_data@.len() / 2);
        assert forall|i: int| 0 <= i < samples_of(samples@).len() implies 0 <= #[trigger] samples_of(
            samples@,
        )[i] <= 65535 by {
            assert(samples_of(samples@)[i] == samples@[i] as int);
        }
    }
    let flat = remove_alpha_from_4_channel(&samples, 65535);
    let n: usize = image_data.len();
    assert(flat@.len() * 2 <= n);
    let r = pack_u16_be(&flat);
    proof {
        let f = flatten_samples(unpacked(image_data@), 65535);
        assert(samples_within(f, 65535));
        lemma_unpack_packed(f);
    }
    r
}

/// Flattens `image_data` of layout `color_type`: the opaque RGB bytes for
/// 8-bit or 16-bit RGBA data made of whole pixels, `None` (nothing to do) for
/// any other layout.
pub fn flatten(image_data: &[u8], color_type: ColorType) -> (r: Option<Vec<u8>>)
    ensures
        r is Some <==> flattened(image_data@, color_type) is Some,
        r is Some ==> flattened(image_data@, color_type) == Some(r->0@),
{
    match color_type {
        ColorType::Rgba8 => {
            if image_data.len() % 4 == 0 {
                Some(flatten_rgba8(image_data))
            } else {
                None
            }
        },
        ColorType::Rgba16 => {
            if image_data.len() % 8 == 0 {
                Some(flatten_rgba16(image_data))
            } else {
                None
            }
        },
        _ => None,
    }
}

/// Removes the alpha channel of an image by compositing it over white.
pub trait RemoveAlpha {
    /// The image's stored sample bytes.
    spec fn image_data_view(&self) -> Seq<u8>;

    /// The image's color space tag.
    spec fn color_space_view(&self) -> ColorSpace;

    /// Replaces 8-bit or 16-bit RGBA data by its flattened RGB bytes and
    /// tags it RGB; leaves an image of any other layout as it is.
    fn remove_alpha(&mut self, color_type: ColorType)
        ensures
            flattened(old(self).image_data_view(), color_type) is Some ==> {
                &&& Some(final(self).image_data_view()) == flattened(
                    old(self).image_data_view(),
                    color_type,
                )
                &&& final(self).color_space_view() == ColorSpace::Rgb
            },
            flattened(old(self).image_data_view(), color_type) is None ==> {
                &&& final(self).image_data_view() == old(self).image_data_view()
                &&& final(self).color_space_view() == old(self).color_space_view()
            },
    ;
}

/// Image data as a document holds it: the raw sample bytes and their color
/// space tag.
pub struct RasterImage {
    pub image_data: Vec<u8>,
    pub color_space: ColorSpace,
}

impl RemoveAlpha for RasterImage {
    open spec fn image_data_view(&self) -> Seq<u8> {
        self.image_data@
    }

    open spec fn color_space_view(&self) -> ColorSpace {
        self.color_space
    }

    fn remove_alpha(&mut self, color_type: ColorType) {
        match flatten(self.image_data.as_slice(), color_type) {
            Some(new_image_data) => {
                self.image_data = new_image_data;
                self.color_space = ColorSpace::Rgb;
            },
            None => {},
        }
    }
}

} // verus!
