//! Memory layouts and the alignment classifier.
//!
//! A `Layout` describes the memory shape of one monomorphized key or
//! value type: its stack size and its alignment, both in bytes. The
//! runtime's storage format packs a key slot and a value slot next to
//! each other and needs to know which of the two comes first and
//! whether the pair is 8- or 16-byte aligned; `Alignment` is that
//! packing decision, derived deterministically from the two layouts.

use vstd::prelude::*;

verus! {

/// Memory shape of one concrete key or value type: its size on the
/// stack and its alignment, in bytes. Produced by the type-checking
/// phase, read-only here.
#[derive(Clone, Copy, PartialEq, Eq, Structural, Debug)]
pub struct Layout {
    pub size_bytes: u32,
    pub alignment_bytes: u32,
}

impl Layout {
    /// The number of bytes one value of this layout occupies.
    pub fn stack_size(&self) -> (n: u32)
        ensures
            n == self.size_bytes,
    {
        self.size_bytes
    }

    /// The alignment of one value of this layout, in bytes.
    pub fn alignment_bytes(&self) -> (n: u32)
        ensures
            n == self.alignment_bytes,
    {
        self.alignment_bytes
    }

    /// The runtime storage format supports exactly two alignment
    /// classes; a layout outside them never reaches the dispatcher.
    pub open spec fn supported_alignment(self) -> bool {
        self.alignment_bytes == 8 || self.alignment_bytes == 16
    }
}

/// Packing order of a (key, value) slot pair: the operand with the
/// larger alignment is stored first, ties favor the key, and the class
/// is the larger of the two alignments.
#[derive(Clone, Copy, PartialEq, Eq, Structural, Debug)]
pub enum Alignment {
    Align16KeyFirst,
    Align16ValueFirst,
    Align8KeyFirst,
    Align8ValueFirst,
}

/// The packing class for the given key and value alignments: key first
/// when its alignment is at least the value's, and the 16-byte class
/// exactly when the larger alignment is 16.
pub open spec fn classify(key_align: u32, value_align: u32) -> Alignment {
    if key_align >= value_align {
        if key_align == 16 {
            Alignment::Align16KeyFirst
        } else {
            Alignment::Align8KeyFirst
        }
    } else {
        if value_align == 16 {
            Alignment::Align16ValueFirst
        } else {
            Alignment::Align8ValueFirst
        }
    }
}

/// The one-byte encoding of a packing class, as the runtime entry
/// points receive it.
pub open spec fn alignment_byte(a: Alignment) -> u8 {
    match a {
        Alignment::Align16KeyFirst => 0,
        Alignment::Align16ValueFirst => 1,
        Alignment::Align8KeyFirst => 2,
        Alignment::Align8ValueFirst => 3,
    }
}

impl Alignment {
    /// Classifies a key/value layout pair. Total over the two
    /// alignments the runtime supports; any other alignment is an
    /// upstream invariant violation and is excluded here.
    pub fn from_key_value_layout(key: &Layout, value: &Layout) -> (r: Alignment)
        requires
            key.supported_alignment(),
            value.supported_alignment(),
        ensures
            r == classify(key.alignment_bytes, value.alignment_bytes),
    {
        let key_align = key.alignment_bytes();
        let value_align = value.alignment_bytes();

        if key_align >= value_align {
            if key_align == 16 {
                Alignment::Align16KeyFirst
            } else {
                Alignment::Align8KeyFirst
            }
        } else {
            if value_align == 16 {
                Alignment::Align16ValueFirst
            } else {
                Alignment::Align8ValueFirst
            }
        }
    }

    /// The byte the dispatcher passes to the runtime for this class.
    pub fn as_byte(self) -> (b: u8)
        ensures
            b == alignment_byte(self),
    {
        match self {
            Alignment::Align16KeyFirst => 0,
            Alignment::Align16ValueFirst => 1,
            Alignment::Align8KeyFirst => 2,
            Alignment::Align8ValueFirst => 3,
        }
    }

    /// Whether this class stores the key slot first.
    pub open spec fn key_first(self) -> bool {
        self == Alignment::Align16KeyFirst || self == Alignment::Align8KeyFirst
    }
}

/// Classification is deterministic and swaps sides with the operands:
/// whichever operand has the strictly larger alignment is stored
/// first, on both orderings of the pair.
pub proof fn lemma_classify_swap(a: u32, b: u32)
    requires
        a == 8 || a == 16,
        b == 8 || b == 16,
        a > b,
    ensures
        classify(a, b).key_first(),
        !classify(b, a).key_first(),
{
}

/// Equal alignments always put the key first, in both classes.
pub proof fn lemma_classify_tie(a: u32)
    requires
        a == 8 || a == 16,
    ensures
        classify(a, a).key_first(),
{
}

/// The dictionary shape of an operand as the preceding phases declare
/// it: a populated dictionary with its key and value layouts, or the
/// statically empty dictionary, which owes no storage at all. Any
/// other shape is an upstream invariant violation and has no
/// representation here.
#[derive(Clone, Copy, Debug)]
pub enum DictLayout {
    Dict(Layout, Layout),
    EmptyDict,
}

/// Which adjustment a synthesized refcount adapter performs: increment
/// by a positive count, or decrement once.
#[derive(Clone, Copy, PartialEq, Eq, Structural, Debug)]
pub enum RefcountMode {
    Inc(u64),
    Dec,
}

impl RefcountMode {
    /// An increment is always by a positive count.
    pub open spec fn valid(self) -> bool {
        match self {
            RefcountMode::Inc(n) => n >= 1,
            RefcountMode::Dec => true,
        }
    }
}

} // verus!
