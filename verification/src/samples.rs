//! The swatches of the editor: 26 slots, each naming an entry of the colour
//! table.

use crate::error::AssetError;
use crate::palette::{
    entry, lemma_rgba_bytes_push, lookup, palette_entry, push_rgba, rgba_bytes, Rgb,
};
use vstd::prelude::*;

verus! {

/// Slots in a set of swatches.
pub const SAMPLE_SLOTS: usize = 26;

/// The swatches: for each slot the index of its colour in the table. Every
/// index is below 64.
pub struct Samples {
    color_indices: [u8; SAMPLE_SLOTS],
}

impl View for Samples {
    type V = Seq<u8>;

    closed spec fn view(&self) -> Seq<u8> {
        self.color_indices@
    }
}

impl Samples {
    #[verifier::type_invariant]
    spec fn indices_in_table(self) -> bool {
        forall|slot: int| 0 <= slot < 26 ==> self.color_indices@[slot] < 64
    }

    /// The colours that the slots show, in slot order.
    pub open spec fn colors(&self) -> Seq<Rgb> {
        Seq::new(26, |slot: int| palette_entry(self@[slot] as int))
    }

    /// Swatches that all name entry 0 of the table.
    pub fn new() -> (samples: Self)
        ensures
            samples@.len() == 26,
            forall|slot: int| 0 <= slot < 26 ==> samples@[slot] == 0,
    {
        Samples { color_indices: [0u8; SAMPLE_SLOTS] }
    }

    /// The table index of every slot.
    pub fn color_indices(&self) -> (indices: &[u8; SAMPLE_SLOTS])
        ensures
            indices@ == self@,
            forall|slot: int| 0 <= slot < 26 ==> indices@[slot] < 64,
    {
        proof {
            use_type_invariant(self);
        }
        &self.color_indices
    }

    /// The colour that a slot shows: the table entry that the slot names.
    /// There are 26 slots; a slot past the last is refused.
    pub fn color_of(&self, slot: usize) -> (r: Result<Rgb, AssetError>)
        ensures
            slot < 26 ==> r is Ok && r->Ok_0 == palette_entry(self@[slot as int] as int),
            slot < 26 ==> r->Ok_0 == self.colors()[slot as int],
            slot >= 26 ==> r is Err && r->Err_0 == AssetError::IndexOutOfRange,
    {
        proof {
            use_type_invariant(self);
        }
        if slot < SAMPLE_SLOTS {
            lookup(self.color_indices[slot] as usize)
        } else {
            Err(AssetError::IndexOutOfRange)
        }
    }

    /// Points one slot at another entry of the table and leaves the other
    /// slots alone. A slot past the last, or an index past the end of the
    /// table, is refused, and then nothing changes.
    pub fn set_slot(&mut self, slot: usize, palette_index: u8) -> (r: Result<(), AssetError>)
        ensures
            slot < 26 && palette_index < 64 ==> r is Ok,
            slot < 26 && palette_index < 64 ==> final(self)@ == old(self)@.update(
                slot as int,
                palette_index,
            ),
            slot >= 26 || palette_index >= 64 ==> r is Err && r->Err_0
                == AssetError::IndexOutOfRange,
            slot >= 26 || palette_index >= 64 ==> *final(self) == *old(self),
    {
        proof {
            use_type_invariant(&*self);
        }
        if slot < SAMPLE_SLOTS && palette_index < 64 {
            self.color_indices[slot] = palette_index;
            Ok(())
        } else {
            Err(AssetError::IndexOutOfRange)
        }
    }

    /// The swatches as the bytes of a 13 by 2 image with four channels, one
    /// pixel per slot, in slot order.
    pub fn image_data(&self) -> (image: Vec<u8>)
        ensures
            image@ == rgba_bytes(self.colors()),
            image@.len() == 104,
    {
        proof {
            use_type_invariant(self);
        }
        let mut image: Vec<u8> = Vec::new();
        let mut slot: usize = 0;
        while slot < SAMPLE_SLOTS
            invariant
                slot <= 26,
                forall|s: int| 0 <= s < 26 ==> self.color_indices@[s] < 64,
                image@ == rgba_bytes(self.colors().take(slot as int)),
            decreases 26 - slot,
        {
            let color = entry(self.color_indices[slot] as usize);
            proof {
                lemma_rgba_bytes_push(self.colors().take(slot as int), color);
                assert(self.colors().take(slot as int).push(color) =~= self.colors().take(
                    slot as int + 1,
                ));
            }
            push_rgba(&mut image, color);
            slot += 1;
        }
        assert(self.colors().take(26) =~= self.colors());
        image
    }
}

} // verus!
