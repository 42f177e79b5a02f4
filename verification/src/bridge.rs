//! Representation bridge between the compiler's container handle and
//! the runtime library's aggregate.
//!
//! The two aggregate types are bit-compatible by construction; crossing
//! the boundary reinterprets the same value under the other name and
//! must neither copy payload bytes nor touch reference counts. Here the
//! shared content is the stored entry sequence, and each reinterpretation
//! moves it unchanged — both directions preserve the abstract contents
//! exactly.

use vstd::prelude::*;

use crate::model::EntryModel;

verus! {

/// One stored (key, value) pair, each side an opaque byte string of
/// its layout's stack size.
pub struct Entry {
    pub key: Vec<u8>,
    pub value: Vec<u8>,
}

impl View for Entry {
    type V = EntryModel;

    open spec fn view(&self) -> EntryModel {
        EntryModel { key: self.key@, value: self.value@ }
    }
}

/// The abstract contents of a stored entry sequence.
pub open spec fn entries_model(s: Seq<Entry>) -> Seq<EntryModel> {
    s.map_values(|e: Entry| e@)
}

/// The compiler-native value standing for a dictionary: the handle the
/// surrounding code generator passes around. Its only resource is the
/// storage behind the entries, owned by the runtime.
pub struct ContainerHandle {
    pub entries: Vec<Entry>,
}

impl View for ContainerHandle {
    type V = Seq<EntryModel>;

    open spec fn view(&self) -> Seq<EntryModel> {
        entries_model(self.entries@)
    }
}

/// The runtime library's own aggregate for the same dictionary,
/// nominally distinct from `ContainerHandle` but carrying identical
/// contents.
pub struct RuntimeDict {
    pub entries: Vec<Entry>,
}

impl View for RuntimeDict {
    type V = Seq<EntryModel>;

    open spec fn view(&self) -> Seq<EntryModel> {
        entries_model(self.entries@)
    }
}

/// Reinterprets a compiler-native handle as the runtime's aggregate.
/// The contents cross the boundary unchanged.
pub fn struct_to_zig_dict(dict: ContainerHandle) -> (r: RuntimeDict)
    ensures
        r@ == dict@,
{
    RuntimeDict { entries: dict.entries }
}

/// The inverse reinterpretation, used after a runtime call produces a
/// fresh aggregate.
pub fn zig_dict_to_struct(zig_dict: RuntimeDict) -> (r: ContainerHandle)
    ensures
        r@ == zig_dict@,
{
    ContainerHandle { entries: zig_dict.entries }
}

} // verus!
