//! Layout of an art object's options in its packed uniform slots.
use vstd::prelude::*;

verus! {

/// Number of packed option values an object's fragment uniforms hold.
pub const OPTION_SLOTS: usize = 8;

/// The kind of an option in the panel, as far as packing is concerned.
#[derive(PartialEq, Eq, Structural, Clone, Copy, Debug)]
pub enum OptionKind {
    /// Packed as `1.0` or `0.0`.
    Checkbox,
    /// A float slider, packed as its value.
    SliderF32,
    /// An integer slider, packed as its value.
    SliderI32,
    /// A stroke, packed as the red, green and blue of its color.
    Stroke,
}

/// Number of packed values an option takes.
pub open spec fn width(k: OptionKind) -> nat {
    match k {
        OptionKind::Stroke => 3,
        _ => 1,
    }
}

/// Number of packed values the first `n` options take.
pub open spec fn packed_len(kinds: Seq<OptionKind>, n: int) -> nat
    decreases n,
{
    if n <= 0 {
        0
    } else {
        packed_len(kinds, n - 1) + width(kinds[n - 1])
    }
}

/// Where each option's values start in the packed slots, options packed one
/// after another in order. `None` if they need more than
/// [`OPTION_SLOTS`] values.
pub fn option_offsets(kinds: &Vec<OptionKind>) -> (r: Option<Vec<usize>>)
    ensures
        match r {
            Some(offs) => {
                &&& packed_len(kinds@, kinds.len() as int) <= OPTION_SLOTS
                &&& offs.len() == kinds.len()
                &&& forall|i: int| 0 <= i < kinds.len() ==> #[trigger] offs@[i] == packed_len(kinds@, i)
            },
            None => packed_len(kinds@, kinds.len() as int) > OPTION_SLOTS,
        },
{
    let mut offs: Vec<usize> = Vec::new();
    let mut next: usize = 0;
    let mut i: usize = 0;
    while i < kinds.len()
        invariant
            i <= kinds.len(),
            next == packed_len(kinds@, i as int),
            next <= OPTION_SLOTS,
            offs.len() == i,
            forall|j: int| 0 <= j < i ==> #[trigger] offs@[j] == packed_len(kinds@, j),
        decreases kinds.len() - i,
    {
        let w: usize = match kinds[i] {
            OptionKind::Stroke => 3,
            _ => 1,
        };
        offs.push(next);
        if next + w > OPTION_SLOTS {
            proof {
                lemma_packed_len_mono(kinds@, i + 1, kinds.len() as int);
            }
            return None;
        }
        next = next + w;
        i = i + 1;
    }
    Some(offs)
}

proof fn lemma_packed_len_mono(kinds: Seq<OptionKind>, a: int, b: int)
    requires
        0 <= a <= b,
    ensures
        packed_len(kinds, a) <= packed_len(kinds, b),
    decreases b - a,
{
    if a < b {
        lemma_packed_len_mono(kinds, a, b - 1);
    }
}

} // verus!
