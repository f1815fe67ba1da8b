use vstd::prelude::*;
use crate::types::AssetFeature;

verus! {

/// The attributes packed in `code`: destiny in bits 28..32, lightness in bits
/// 24..28, saturation in bits 16..24 and elements in bits 0..16.
pub open spec fn feature_of(code: u32) -> AssetFeature {
    AssetFeature {
        destiny: (code / 0x1000_0000) as u8,
        elements: (code % 0x1_0000) as u16,
        saturation: ((code / 0x1_0000) % 0x100) as u8,
        lightness: ((code / 0x100_0000) % 0x10) as u8,
    }
}

/// Unpacks the decorative attributes of an asset class from a 32-bit code.
pub fn new_feature_detail(code: u32) -> (r: AssetFeature)
    ensures
        r == feature_of(code),
{
    let destiny: u32 = code >> 28u32;
    let elements: u32 = code & 0xFFFFu32;
    let lightness: u32 = (code >> 24u32) & 0x0Fu32;
    let saturation: u32 = (code >> 16u32) & 0xFFu32;
    assert(destiny == code / 0x1000_0000) by (bit_vector)
        requires
            destiny == code >> 28u32,
    ;
    assert(elements == code % 0x1_0000) by (bit_vector)
        requires
            elements == code & 0xFFFFu32,
    ;
    assert(lightness == (code / 0x100_0000) % 0x10) by (bit_vector)
        requires
            lightness == (code >> 24u32) & 0x0Fu32,
    ;
    assert(saturation == (code / 0x1_0000) % 0x100) by (bit_vector)
        requires
            saturation == (code >> 16u32) & 0xFFu32,
    ;
    AssetFeature {
        destiny: destiny as u8,
        elements: elements as u16,
        saturation: saturation as u8,
        lightness: lightness as u8,
    }
}

} // verus!
