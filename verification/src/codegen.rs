//! The wrapper-function synthesizer and the code-generation state.
//!
//! The type-erased runtime calls back into compiled code through three
//! capability function pointers — hash, equality, refcount — each
//! specialized to one concrete layout. A wrapper is synthesized at most
//! once per `(operation, layout[, mode])` key and found in the cache on
//! every later request: the monomorphization-cache invariant, which
//! both code size and the runtime's function-pointer identity
//! assumptions depend on. Synthesis may happen while the shared
//! instruction cursor sits inside another function's body, so it
//! captures the cursor and debug location on entry and restores them
//! on every exit path, cache hit or miss.

use vstd::prelude::*;

use crate::layout::Layout;
use crate::layout::RefcountMode;

verus! {

/// The three operation families a synthesized wrapper can adapt.
#[derive(Clone, Copy, PartialEq, Eq, Structural, Debug)]
pub enum WrapperKind {
    Hash,
    Equality,
    Refcount,
}

/// One synthesized adapter function in the compilation unit's function
/// table. Its body loads the opaque operand(s) at the concrete layout
/// and delegates to the generic routine for its kind; it is marked
/// always-inline as a hint only.
#[derive(Clone, Copy, Debug)]
pub struct WrapperFn {
    pub kind: WrapperKind,
    pub layout: Layout,
    pub mode: Option<RefcountMode>,
    pub always_inline: bool,
}

/// Whether a table entry answers a request for the given key.
pub open spec fn key_matches(
    f: WrapperFn,
    kind: WrapperKind,
    layout: Layout,
    mode: Option<RefcountMode>,
) -> bool {
    f.kind == kind && f.layout == layout && f.mode == mode
}

/// Position of the first table entry with the given key, if any.
pub open spec fn spec_find(
    fns: Seq<WrapperFn>,
    kind: WrapperKind,
    layout: Layout,
    mode: Option<RefcountMode>,
) -> Option<int>
    decreases fns.len(),
{
    if fns.len() == 0 {
        None
    } else if key_matches(fns[0], kind, layout, mode) {
        Some(0)
    } else {
        match spec_find(fns.subrange(1, fns.len() as int), kind, layout, mode) {
            Some(i) => Some(i + 1),
            None => None,
        }
    }
}

/// Outcome of one synthesis request: the table afterwards and the
/// position of the wrapper that answers the request.
#[verifier::ext_equal]
pub ghost struct SynthStep {
    pub fns: Seq<WrapperFn>,
    pub id: int,
}

/// Effect of requesting a wrapper: a hit returns the cached entry's
/// position and leaves the table alone; a miss appends one fresh
/// always-inline wrapper.
pub open spec fn synth_step(
    fns: Seq<WrapperFn>,
    kind: WrapperKind,
    layout: Layout,
    mode: Option<RefcountMode>,
) -> SynthStep {
    match spec_find(fns, kind, layout, mode) {
        Some(i) => SynthStep { fns, id: i },
        None => SynthStep {
            fns: fns.push(WrapperFn { kind, layout, mode, always_inline: true }),
            id: fns.len() as int,
        },
    }
}

/// No two table entries share a key: at most one wrapper per distinct
/// `(operation, layout[, mode])` triple exists at any time.
pub open spec fn cache_wf(fns: Seq<WrapperFn>) -> bool {
    forall|i: int, j: int|
        #![trigger fns[i], fns[j]]
        0 <= i < j < fns.len() ==> !key_matches(fns[j], fns[i].kind, fns[i].layout, fns[i].mode)
}

/// `spec_find` answers exactly the first matching entry.
pub proof fn lemma_spec_find_props(
    fns: Seq<WrapperFn>,
    kind: WrapperKind,
    layout: Layout,
    mode: Option<RefcountMode>,
)
    ensures
        match spec_find(fns, kind, layout, mode) {
            Some(i) => 0 <= i < fns.len() && key_matches(fns[i], kind, layout, mode) && forall|
                j: int,
            | 0 <= j < i ==> !key_matches(#[trigger] fns[j], kind, layout, mode),
            None => forall|j: int|
                0 <= j < fns.len() ==> !key_matches(#[trigger] fns[j], kind, layout, mode),
        },
    decreases fns.len(),
{
    if fns.len() > 0 && !key_matches(fns[0], kind, layout, mode) {
        let tail = fns.subrange(1, fns.len() as int);
        lemma_spec_find_props(tail, kind, layout, mode);
        assert forall|j: int| 1 <= j < fns.len() implies fns[j] == tail[j - 1] by {}
    }
}

/// Appending an entry for a key the table lacks makes that entry the
/// one `spec_find` answers.
pub proof fn lemma_spec_find_push_miss(
    fns: Seq<WrapperFn>,
    kind: WrapperKind,
    layout: Layout,
    mode: Option<RefcountMode>,
    f: WrapperFn,
)
    requires
        spec_find(fns, kind, layout, mode) is None,
        key_matches(f, kind, layout, mode),
    ensures
        spec_find(fns.push(f), kind, layout, mode) == Some(fns.len() as int),
    decreases fns.len(),
{
    let p = fns.push(f);
    if fns.len() == 0 {
        assert(key_matches(p[0], kind, layout, mode));
    } else {
        assert(!key_matches(p[0], kind, layout, mode));
        let tail = fns.subrange(1, fns.len() as int);
        assert(p.subrange(1, p.len() as int) =~= tail.push(f));
        lemma_spec_find_push_miss(tail, kind, layout, mode, f);
    }
}

/// Monomorphization-cache law: requesting the same wrapper twice
/// answers the identical function both times, and the second request
/// changes nothing.
pub proof fn lemma_synth_idempotent(
    fns: Seq<WrapperFn>,
    kind: WrapperKind,
    layout: Layout,
    mode: Option<RefcountMode>,
)
    ensures
        synth_step(synth_step(fns, kind, layout, mode).fns, kind, layout, mode) == synth_step(
            fns,
            kind,
            layout,
            mode,
        ),
{
    let first = synth_step(fns, kind, layout, mode);
    match spec_find(fns, kind, layout, mode) {
        Some(i) => {},
        None => {
            lemma_spec_find_push_miss(
                fns,
                kind,
                layout,
                mode,
                WrapperFn { kind, layout, mode, always_inline: true },
            );
        },
    }
}

/// The shared instruction cursor: which basic block instructions are
/// appended to, and the current debug-info location. Both are unset
/// until the surrounding code generator positions the builder inside a
/// function.
#[derive(Clone, Copy, Debug)]
pub struct Builder {
    pub insert_block: Option<u64>,
    pub debug_location: Option<u64>,
}

/// Whether the builder sits inside a function with a debug location
/// set — the state wrapper synthesis captures and restores.
pub open spec fn positioned(b: Builder) -> bool {
    b.insert_block is Some && b.debug_location is Some
}

/// The runtime entry points the dispatcher can invoke, one symbol per
/// dictionary primitive.
#[derive(Clone, Copy, PartialEq, Eq, Structural, Debug)]
pub enum EntryPoint {
    Len,
    Empty,
    Insert,
    Remove,
    Contains,
    Get,
    ElementsRc,
    Keys,
    Values,
    Union,
    Intersection,
    Difference,
}

/// One emitted call into the runtime: the entry point and the scalar
/// arguments marshalled for it — the packing-class byte, the key and
/// value byte widths, and the table positions of the capability
/// wrappers passed as function pointers, in the entry point's fixed
/// positional order. Entry points that take no such argument carry
/// none.
#[derive(Clone, Debug)]
pub struct RuntimeCall {
    pub entry: EntryPoint,
    pub alignment: Option<u8>,
    pub key_width: Option<u64>,
    pub value_width: Option<u64>,
    pub wrappers: Vec<usize>,
}

/// The abstract record of one emitted runtime call.
#[verifier::ext_equal]
pub ghost struct CallModel {
    pub entry: EntryPoint,
    pub alignment: Option<u8>,
    pub key_width: Option<u64>,
    pub value_width: Option<u64>,
    pub wrappers: Seq<int>,
}

impl View for RuntimeCall {
    type V = CallModel;

    open spec fn view(&self) -> CallModel {
        CallModel {
            entry: self.entry,
            alignment: self.alignment,
            key_width: self.key_width,
            value_width: self.value_width,
            wrappers: self.wrappers@.map_values(|u: usize| u as int),
        }
    }
}

/// The code-generation state one compilation unit owns: the table of
/// synthesized wrappers, the shared instruction cursor, and the calls
/// emitted so far, in order.
pub struct CodeGen {
    pub functions: Vec<WrapperFn>,
    pub builder: Builder,
    pub calls: Vec<RuntimeCall>,
}

/// The abstract code-generation state.
#[verifier::ext_equal]
pub ghost struct CodeGenModel {
    pub functions: Seq<WrapperFn>,
    pub builder: Builder,
    pub calls: Seq<CallModel>,
}

impl View for CodeGen {
    type V = CodeGenModel;

    open spec fn view(&self) -> CodeGenModel {
        CodeGenModel {
            functions: self.functions@,
            builder: self.builder,
            calls: self.calls@.map_values(|c: RuntimeCall| c@),
        }
    }
}

impl CodeGen {
    /// A fresh compilation unit: no wrappers, no calls, cursor unset.
    pub fn new() -> (r: CodeGen)
        ensures
            r@.functions == Seq::<WrapperFn>::empty(),
            r@.calls == Seq::<CallModel>::empty(),
            r@.builder.insert_block is None,
            r@.builder.debug_location is None,
    {
        let r = CodeGen {
            functions: Vec::new(),
            builder: Builder { insert_block: None, debug_location: None },
            calls: Vec::new(),
        };
        proof {
            assert(r@.calls =~= Seq::<CallModel>::empty());
        }
        r
    }

    /// Positions the shared cursor at the end of a basic block, as the
    /// surrounding code generator does before emitting into a function.
    pub fn position_at_end(&mut self, block: u64)
        ensures
            final(self)@.builder.insert_block == Some(block),
            final(self)@.builder.debug_location == old(self)@.builder.debug_location,
            final(self)@.functions == old(self)@.functions,
            final(self)@.calls == old(self)@.calls,
    {
        self.builder.insert_block = Some(block);
    }

    /// Sets the current debug-info location.
    pub fn set_current_debug_location(&mut self, location: u64)
        ensures
            final(self)@.builder.debug_location == Some(location),
            final(self)@.builder.insert_block == old(self)@.builder.insert_block,
            final(self)@.functions == old(self)@.functions,
            final(self)@.calls == old(self)@.calls,
    {
        self.builder.debug_location = Some(location);
    }
}

/// Position of the first cached wrapper with the given key, if any.
fn find_wrapper(
    fns: &Vec<WrapperFn>,
    kind: WrapperKind,
    layout: &Layout,
    mode: &Option<RefcountMode>,
) -> (r: Option<usize>)
    ensures
        match r {
            Some(i) => spec_find(fns@, kind, *layout, *mode) == Some(i as int),
            None => spec_find(fns@, kind, *layout, *mode) is None,
        },
{
    let n = fns.len();
    let mut i: usize = 0;
    while i < n
        invariant
            n == fns@.len(),
            0 <= i <= n,
            forall|j: int| 0 <= j < i ==> !key_matches(#[trigger] fns@[j], kind, *layout, *mode),
        decreases n - i,
    {
        let f = &fns[i];
        let kind_eq = f.kind == kind;
        let layout_eq = f.layout.size_bytes == layout.size_bytes && f.layout.alignment_bytes
            == layout.alignment_bytes;
        let mode_eq = match (&f.mode, mode) {
            (Option::None, Option::None) => true,
            (Option::Some(a), Option::Some(b)) => *a == *b,
            _ => false,
        };
        if kind_eq && layout_eq && mode_eq {
            proof {
                lemma_spec_find_props(fns@, kind, *layout, *mode);
                assert(key_matches(fns@[i as int], kind, *layout, *mode));
                if spec_find(fns@, kind, *layout, *mode) is None {
                    assert(!key_matches(fns@[i as int], kind, *layout, *mode));
                }
                let w = spec_find(fns@, kind, *layout, *mode).unwrap();
                if w < i as int {
                    assert(!key_matches(fns@[w], kind, *layout, *mode));
                }
                if w > i as int {
                    assert(!key_matches(fns@[i as int], kind, *layout, *mode));
                }
            }
            return Some(i);
        }
        proof {
            assert(!key_matches(fns@[i as int], kind, *layout, *mode));
        }
        i += 1;
    }
    proof {
        lemma_spec_find_props(fns@, kind, *layout, *mode);
        if spec_find(fns@, kind, *layout, *mode) is Some {
            let w = spec_find(fns@, kind, *layout, *mode).unwrap();
            assert(!key_matches(fns@[w], kind, *layout, *mode));
        }
    }
    None
}

/// Obtains the wrapper for a key: the cached function when one exists,
/// a freshly synthesized one otherwise. Captures the shared cursor and
/// debug location, and restores both on either path before returning.
fn build_wrapper(
    cg: &mut CodeGen,
    kind: WrapperKind,
    layout: Layout,
    mode: Option<RefcountMode>,
) -> (id: usize)
    requires
        positioned(old(cg)@.builder),
        cache_wf(old(cg)@.functions),
    ensures
        final(cg)@.functions == synth_step(old(cg)@.functions, kind, layout, mode).fns,
        id as int == synth_step(old(cg)@.functions, kind, layout, mode).id,
        final(cg)@.builder == old(cg)@.builder,
        final(cg)@.calls == old(cg)@.calls,
        cache_wf(final(cg)@.functions),
{
    let ghost fns0 = cg.functions@;
    let block = cg.builder.insert_block.unwrap();
    let di = cg.builder.debug_location.unwrap();

    let id = match find_wrapper(&cg.functions, kind, &layout, &mode) {
        Some(i) => i,
        None => {
            let fresh = cg.functions.len();
            cg.functions.push(WrapperFn { kind, layout, mode, always_inline: true });
            // Enter the new function's entry block and emit its body: a
            // typed load of the opaque operand(s) at `layout`, then the
            // delegate call into the generic routine for `kind`.
            cg.builder.insert_block = Some(fresh as u64);
            proof {
                lemma_spec_find_props(fns0, kind, layout, mode);
                assert forall|p: int, q: int|
                    #![trigger cg.functions@[p], cg.functions@[q]]
                    0 <= p < q < cg.functions@.len() implies !key_matches(
                    cg.functions@[q],
                    cg.functions@[p].kind,
                    cg.functions@[p].layout,
                    cg.functions@[p].mode,
                ) by {
                    if q == fns0.len() as int {
                        assert(cg.functions@[p] == fns0[p]);
                        if key_matches(
                            cg.functions@[q],
                            cg.functions@[p].kind,
                            cg.functions@[p].layout,
                            cg.functions@[p].mode,
                        ) {
                            assert(key_matches(fns0[p], kind, layout, mode));
                        }
                    } else {
                        assert(cg.functions@[p] == fns0[p] && cg.functions@[q] == fns0[q]);
                    }
                }
            }
            fresh
        },
    };

    // restore the captured cursor and debug location, cache hit or miss
    cg.builder.insert_block = Some(block);
    cg.builder.debug_location = Some(di);
    id
}

/// Obtains the hash wrapper for a key layout: `(seed, opaque value
/// pointer) -> 64-bit hash`, delegating to the generic hashing routine.
pub fn build_hash_wrapper(cg: &mut CodeGen, layout: &Layout) -> (id: usize)
    requires
        positioned(old(cg)@.builder),
        cache_wf(old(cg)@.functions),
    ensures
        final(cg)@.functions == synth_step(
            old(cg)@.functions,
            WrapperKind::Hash,
            *layout,
            None,
        ).fns,
        id as int == synth_step(old(cg)@.functions, WrapperKind::Hash, *layout, None).id,
        final(cg)@.builder == old(cg)@.builder,
        final(cg)@.calls == old(cg)@.calls,
        cache_wf(final(cg)@.functions),
{
    build_wrapper(cg, WrapperKind::Hash, *layout, None)
}

/// Obtains the equality wrapper for a key layout: `(opaque pointer,
/// opaque pointer) -> bool`, delegating to the generic equality
/// routine.
pub fn build_eq_wrapper(cg: &mut CodeGen, layout: &Layout) -> (id: usize)
    requires
        positioned(old(cg)@.builder),
        cache_wf(old(cg)@.functions),
    ensures
        final(cg)@.functions == synth_step(
            old(cg)@.functions,
            WrapperKind::Equality,
            *layout,
            None,
        ).fns,
        id as int == synth_step(old(cg)@.functions, WrapperKind::Equality, *layout, None).id,
        final(cg)@.builder == old(cg)@.builder,
        final(cg)@.calls == old(cg)@.calls,
        cache_wf(final(cg)@.functions),
{
    build_wrapper(cg, WrapperKind::Equality, *layout, None)
}

/// Obtains the refcount wrapper for a layout and adjustment mode:
/// `(opaque value pointer) -> void`, delegating to the generic
/// increment or decrement routine.
pub fn build_rc_wrapper(cg: &mut CodeGen, layout: &Layout, rc_operation: RefcountMode) -> (id:
    usize)
    requires
        positioned(old(cg)@.builder),
        cache_wf(old(cg)@.functions),
        rc_operation.valid(),
    ensures
        final(cg)@.functions == synth_step(
            old(cg)@.functions,
            WrapperKind::Refcount,
            *layout,
            Some(rc_operation),
        ).fns,
        id as int == synth_step(
            old(cg)@.functions,
            WrapperKind::Refcount,
            *layout,
            Some(rc_operation),
        ).id,
        final(cg)@.builder == old(cg)@.builder,
        final(cg)@.calls == old(cg)@.calls,
        cache_wf(final(cg)@.functions),
{
    build_wrapper(cg, WrapperKind::Refcount, *layout, Some(rc_operation))
}

} // verus!
