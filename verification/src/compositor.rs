//! The display compositor: from the packed frame buffer to a dense buffer of
//! colours, one entry per pixel, repainting only what changed since the last
//! frame that was composited.

use crate::bits::{lemma_lit_mask, lemma_lit_xor, lit};
use crate::display::{unpack, FrameBuffer, FRAME_BYTES, PIXELS};
use vstd::prelude::*;

verus! {

/// The colour of a pixel that is on.
pub const ON_COLOR: u32 = 0x00FF00;

/// The colour of a pixel that is off.
pub const OFF_COLOR: u32 = 0;

/// The colour that shows a pixel's state.
pub open spec fn color_of(on: bool) -> u32 {
    if on {
        ON_COLOR
    } else {
        OFF_COLOR
    }
}

/// The colour buffer after a frame has been composited: a pixel whose state
/// differs from the frame shown before takes the colour of its new state,
/// every other entry keeps the value it had.
pub open spec fn composited(shown: Seq<bool>, pixels: Seq<bool>, colors: Seq<u32>) -> Seq<u32> {
    Seq::new(
        PIXELS as nat,
        |i: int|
            if shown[i] != pixels[i] {
                color_of(pixels[i])
            } else {
                colors[i]
            },
    )
}

/// What a compositor holds: the frame it composited last and the colours it
/// handed out for it.
pub struct Screen {
    /// The pixels of the frame composited last, row by row.
    pub shown: Seq<bool>,
    /// The colour of each pixel, row by row.
    pub colors: Seq<u32>,
}

impl Screen {
    /// Both sequences have one entry per display pixel, and every colour is
    /// the colour of the pixel it stands for.
    pub open spec fn wf(self) -> bool {
        &&& self.shown.len() == PIXELS
        &&& self.colors.len() == PIXELS
        &&& forall|i: int| 0 <= i < PIXELS ==> self.colors[i] == color_of(#[trigger] self.shown[i])
    }

    /// The screen before any frame has been composited: all pixels off.
    pub open spec fn blank() -> Screen {
        Screen {
            shown: Seq::new(PIXELS as nat, |i: int| false),
            colors: Seq::new(PIXELS as nat, |i: int| OFF_COLOR),
        }
    }

    /// The screen after `pixels` has been composited onto it.
    pub open spec fn composite(self, pixels: Seq<bool>) -> Screen {
        Screen { shown: pixels, colors: composited(self.shown, pixels, self.colors) }
    }
}

/// Compositing keeps a screen well formed, and then every colour is simply
/// the colour of the frame's pixel.
pub proof fn composite_paints_frame(screen: Screen, pixels: Seq<bool>)
    requires
        screen.wf(),
        pixels.len() == PIXELS,
    ensures
        screen.composite(pixels).wf(),
        screen.composite(pixels).colors == Seq::new(PIXELS as nat, |i: int| color_of(pixels[i])),
{
    let after = screen.composite(pixels);
    assert forall|i: int| 0 <= i < PIXELS implies after.colors[i] == color_of(
        #[trigger] after.shown[i],
    ) by {
        assert(screen.colors[i] == color_of(screen.shown[i]));
    }
    assert(after.colors =~= Seq::new(PIXELS as nat, |i: int| color_of(pixels[i])));
}

/// Compositing changes the colour of exactly the pixels whose state differs
/// from the frame shown before. So after a draw that changed one pixel, one
/// colour changes, at that pixel's index.
pub proof fn composite_changes_what_differs(screen: Screen, pixels: Seq<bool>, i: int)
    requires
        screen.wf(),
        pixels.len() == PIXELS,
        0 <= i < PIXELS,
    ensures
        (screen.composite(pixels).colors[i] != screen.colors[i]) <==> (pixels[i]
            != screen.shown[i]),
{
    assert(screen.colors[i] == color_of(screen.shown[i]));
}

/// Compositing the same frame again, with no draw in between, changes
/// nothing.
pub proof fn composite_again_changes_nothing(screen: Screen, pixels: Seq<bool>)
    requires
        pixels.len() == PIXELS,
    ensures
        screen.composite(pixels).composite(pixels) == screen.composite(pixels),
{
    let once = screen.composite(pixels);
    assert(once.composite(pixels).colors =~= once.colors);
}

/// Repaints the entries of `colors` whose pixel differs between `prev` and
/// `bytes`, then records `bytes` in `prev`.
fn repaint(prev: &mut [u8; 256], colors: &mut Vec<u32>, bytes: &[u8; 256])
    requires
        old(colors)@.len() == PIXELS,
    ensures
        final(prev)@ == bytes@,
        final(colors)@ == composited(unpack(old(prev)@), unpack(bytes@), old(colors)@),
    no_unwind
{
    let ghost target = composited(unpack(prev@), unpack(bytes@), colors@);
    let mut byte_idx: usize = 0;
    while byte_idx < FRAME_BYTES
        invariant
            byte_idx <= FRAME_BYTES,
            prev@ == old(prev)@,
            colors@.len() == PIXELS,
            target == composited(unpack(old(prev)@), unpack(bytes@), old(colors)@),
            forall|i: int| 0 <= i < byte_idx * 8 ==> colors@[i] == target[i],
            forall|i: int| byte_idx * 8 <= i < PIXELS ==> colors@[i] == old(colors)@[i],
        decreases FRAME_BYTES - byte_idx,
    {
        let current_byte: u8 = prev[byte_idx];
        let new_byte: u8 = bytes[byte_idx];
        let changed_bits: u8 = current_byte ^ new_byte;
        if changed_bits != 0 {
            let mut bit_offset: u8 = 0;
            while bit_offset < 8
                invariant
                    byte_idx < FRAME_BYTES,
                    bit_offset <= 8,
                    prev@ == old(prev)@,
                    current_byte == prev@[byte_idx as int],
                    new_byte == bytes@[byte_idx as int],
                    changed_bits == current_byte ^ new_byte,
                    colors@.len() == PIXELS,
                    target == composited(unpack(old(prev)@), unpack(bytes@), old(colors)@),
                    forall|i: int| 0 <= i < byte_idx * 8 ==> colors@[i] == target[i],
                    forall|i: int|
                        byte_idx * 8 + 8 - bit_offset <= i < byte_idx * 8 + 8 ==> colors@[i]
                            == target[i],
                    forall|i: int|
                        byte_idx * 8 <= i < byte_idx * 8 + 8 - bit_offset ==> colors@[i] == old(
                            colors,
                        )@[i],
                    forall|i: int| byte_idx * 8 + 8 <= i < PIXELS ==> colors@[i] == old(colors)@[i],
                decreases 8 - bit_offset,
            {
                let pixel_index: usize = byte_idx * 8 + (7 - bit_offset as usize);
                proof {
                    lemma_lit_mask(changed_bits, bit_offset);
                    lemma_lit_mask(new_byte, bit_offset);
                    lemma_lit_xor(current_byte, new_byte, 7 - bit_offset);
                    assert(pixel_index as int / 8 == byte_idx);
                    assert(pixel_index as int % 8 == 7 - bit_offset);
                }
                if changed_bits & (1u8 << bit_offset) != 0 {
                    let new_bit: bool = new_byte & (1u8 << bit_offset) != 0;
                    colors[pixel_index] = if new_bit {
                        ON_COLOR
                    } else {
                        OFF_COLOR
                    };
                }
                bit_offset += 1;
            }
        } else {
            proof {
                assert(current_byte == new_byte) by (bit_vector)
                    requires
                        current_byte ^ new_byte == 0,
                ;
                assert forall|i: int| byte_idx * 8 <= i < byte_idx * 8 + 8 implies colors@[i]
                    == target[i] by {
                    assert(i / 8 == byte_idx);
                }
            }
        }
        byte_idx += 1;
    }
    *prev = *bytes;
    proof {
        assert(colors@ =~= target);
    }
}

/// The display compositor.
pub struct Compositor {
    prev_buffer: [u8; 256],
    color_display_buffer: Vec<u32>,
}

impl View for Compositor {
    type V = Screen;

    closed spec fn view(&self) -> Screen {
        Screen { shown: unpack(self.prev_buffer@), colors: self.color_display_buffer@ }
    }
}

impl Compositor {
    /// What holds of every compositor at all times: its screen is well
    /// formed.
    #[verifier::type_invariant]
    pub open spec fn inv(&self) -> bool {
        self@.wf()
    }

    /// A compositor that has shown nothing yet: every pixel off.
    pub fn new() -> (compositor: Compositor)
        ensures
            compositor@ == Screen::blank(),
            compositor@.wf(),
    {
        let mut colors: Vec<u32> = Vec::new();
        let mut i: usize = 0;
        while i < PIXELS
            invariant
                i <= PIXELS,
                colors@.len() == i,
                forall|j: int| 0 <= j < i ==> colors@[j] == OFF_COLOR,
            decreases PIXELS - i,
        {
            colors.push(OFF_COLOR);
            i += 1;
        }
        let prev: [u8; 256] = [0u8; 256];
        proof {
            assert forall|i: int| 0 <= i < PIXELS implies !(#[trigger] unpack(prev@)[i]) by {
                crate::bits::lemma_lit_zero(i % 8);
            }
            assert(unpack(prev@) =~= Screen::blank().shown);
            assert(colors@ =~= Screen::blank().colors);
        }
        Compositor { prev_buffer: prev, color_display_buffer: colors }
    }

    /// Compares `frame` with the frame composited last and repaints the
    /// colour of every pixel that changed; `frame` then becomes the frame
    /// composited last.
    pub fn composite(&mut self, frame: &FrameBuffer)
        ensures
            final(self)@ == old(self)@.composite(frame@),
            final(self)@.wf(),
    {
        proof {
            use_type_invariant(&*self);
            frame.lemma_len();
            composite_paints_frame(self@, frame@);
        }
        let bytes: &[u8; 256] = frame.as_bytes();
        repaint(&mut self.prev_buffer, &mut self.color_display_buffer, bytes);
    }

    /// The colour of each pixel as of the last composite, row by row.
    pub fn colors(&self) -> (colors: &Vec<u32>)
        ensures
            colors@ == self@.colors,
            colors@.len() == PIXELS,
    {
        proof {
            use_type_invariant(self);
        }
        &self.color_display_buffer
    }
}

} // verus!
