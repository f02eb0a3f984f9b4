//! Deterministic chart colors for the usage popover's stacked bars: a fixed
//! six-color palette, and a per-model color picked by hashing the model id.

use vstd::prelude::*;
use std::collections::hash_map::DefaultHasher;
use std::hash::Hasher;
use vstd::std_specs::hash::DefaultHasherAdditionalSpecFns;
use vstd::string::StringSliceAdditionalSpecFns;

verus! {

/// An 8-bit-per-channel RGBA color.
#[derive(Clone, Copy, Debug, PartialEq, Eq, Structural)]
pub struct ChartColor {
    pub r: u8,
    pub g: u8,
    pub b: u8,
    pub a: u8,
}

/// The six chart colors, in order: magenta, blue, yellow, lavender, green, red.
pub open spec fn palette_color(i: int) -> ChartColor {
    if i == 0 { ChartColor { r: 0xff, g: 0x8f, b: 0xfd, a: 0xff } }
    else if i == 1 { ChartColor { r: 0xa5, g: 0xd5, b: 0xfe, a: 0xff } }
    else if i == 2 { ChartColor { r: 0xfe, g: 0xfd, b: 0xc2, a: 0xff } }
    else if i == 3 { ChartColor { r: 0xd0, g: 0xd1, b: 0xfe, a: 0xff } }
    else if i == 4 { ChartColor { r: 0xb4, g: 0xfa, b: 0x72, a: 0xff } }
    else { ChartColor { r: 0xff, g: 0x82, b: 0x72, a: 0xff } }
}

/// The chart palette shared by the popover's stacked bars.
pub fn chart_palette() -> (p: [ChartColor; 6])
    ensures
        forall|i: int| 0 <= i < 6 ==> #[trigger] p@[i] == palette_color(i),
        p@[0] == (ChartColor { r: 0xff, g: 0x8f, b: 0xfd, a: 0xff }),
        p@[1] == (ChartColor { r: 0xa5, g: 0xd5, b: 0xfe, a: 0xff }),
        p@[2] == (ChartColor { r: 0xfe, g: 0xfd, b: 0xc2, a: 0xff }),
        p@[3] == (ChartColor { r: 0xd0, g: 0xd1, b: 0xfe, a: 0xff }),
        p@[4] == (ChartColor { r: 0xb4, g: 0xfa, b: 0x72, a: 0xff }),
        p@[5] == (ChartColor { r: 0xff, g: 0x82, b: 0x72, a: 0xff }),
        forall|i: int, j: int| 0 <= i < j < 6 ==> #[trigger] p@[i] != #[trigger] p@[j],
{
    [
        ChartColor { r: 0xff, g: 0x8f, b: 0xfd, a: 0xff },
        ChartColor { r: 0xa5, g: 0xd5, b: 0xfe, a: 0xff },
        ChartColor { r: 0xfe, g: 0xfd, b: 0xc2, a: 0xff },
        ChartColor { r: 0xd0, g: 0xd1, b: 0xfe, a: 0xff },
        ChartColor { r: 0xb4, g: 0xfa, b: 0x72, a: 0xff },
        ChartColor { r: 0xff, g: 0x82, b: 0x72, a: 0xff },
    ]
}

/// What a fresh `DefaultHasher` finishes with after hashing the string whose
/// UTF-8 bytes are `bytes` (`str`'s `Hash` writes its bytes, then `0xff`).
pub open spec fn model_id_hash(bytes: Seq<u8>) -> u64 {
    DefaultHasher::spec_finish(seq![bytes, seq![0xffu8]])
}

/// The palette color at the model id's hash modulo the palette size.
pub open spec fn model_color(model_id: &str) -> ChartColor {
    palette_color((model_id_hash(model_id.spec_bytes()) % 6) as int)
}

/// Deterministic color of a model for the MODEL USAGE bar and its row swatches:
/// the palette entry picked by the model id's `DefaultHasher` hash.
pub fn color_for_model(model_id: &str) -> (c: ChartColor)
    ensures
        c == model_color(model_id),
{
    let palette = chart_palette();
    let mut hasher = DefaultHasher::new();
    assert(hasher@ == Seq::<Seq<u8>>::empty());
    let bytes = model_id.as_bytes();
    assert(bytes@ == model_id.spec_bytes());
    hasher.write(bytes);
    assert(hasher@ == Seq::<Seq<u8>>::empty().push(model_id.spec_bytes()));
    let terminator: Vec<u8> = vec![0xffu8];
    assert(terminator@ == seq![0xffu8]);
    let ts = terminator.as_slice();
    assert(ts@ == seq![0xffu8]);
    hasher.write(ts);
    assert(hasher@ =~= seq![model_id.spec_bytes(), seq![0xffu8]]);
    let idx = (hasher.finish() % 6) as usize;
    palette[idx]
}


/// A model's color depends only on the text of its id: equal ids always get
/// the same color.
pub proof fn lemma_model_color_is_deterministic(a: &str, b: &str)
    requires
        a@ == b@,
    ensures
        model_color(a) == model_color(b),
{
}

/// The palette holds the six chart colors (magenta, blue, yellow, lavender,
/// green, red) at their indices, all distinct, and every model's color is one
/// of them.
pub proof fn lemma_palette_is_six_distinct_chart_colors(model_id: &str)
    ensures
        palette_color(0) == (ChartColor { r: 0xff, g: 0x8f, b: 0xfd, a: 0xff }),
        palette_color(1) == (ChartColor { r: 0xa5, g: 0xd5, b: 0xfe, a: 0xff }),
        palette_color(2) == (ChartColor { r: 0xfe, g: 0xfd, b: 0xc2, a: 0xff }),
        palette_color(3) == (ChartColor { r: 0xd0, g: 0xd1, b: 0xfe, a: 0xff }),
        palette_color(4) == (ChartColor { r: 0xb4, g: 0xfa, b: 0x72, a: 0xff }),
        palette_color(5) == (ChartColor { r: 0xff, g: 0x82, b: 0x72, a: 0xff }),
        forall|i: int, j: int| 0 <= i < j < 6 ==> #[trigger] palette_color(i) != #[trigger] palette_color(j),
        exists|i: int| 0 <= i < 6 && model_color(model_id) == palette_color(i),
{
    let i = (model_id_hash(model_id.spec_bytes()) % 6) as int;
    assert(model_color(model_id) == palette_color(i));
}

} // verus!
