//! The dictionary operation dispatcher.
//!
//! One entry point per dictionary primitive. All share a common shape:
//! reinterpret the operand handles for the runtime, compute byte widths
//! from the layouts and the packing class from the alignments, obtain
//! the capability wrappers the entry point needs, record the runtime
//! call with its fixed positional scalar arguments, and repack the
//! result as a compiler-native handle. Each contract states both the
//! code-generation effect — which wrappers are obtained and what call
//! is emitted — and the result's relation to the operands under the
//! entry model.

use vstd::prelude::*;

use crate::bridge::ContainerHandle;
use crate::bridge::struct_to_zig_dict;
use crate::bridge::zig_dict_to_struct;
use crate::codegen::CallModel;
use crate::codegen::CodeGen;
use crate::codegen::CodeGenModel;
use crate::codegen::EntryPoint;
use crate::codegen::RuntimeCall;
use crate::codegen::WrapperKind;
use crate::codegen::build_eq_wrapper;
use crate::codegen::build_hash_wrapper;
use crate::codegen::build_rc_wrapper;
use crate::codegen::cache_wf;
use crate::codegen::positioned;
use crate::codegen::synth_step;
use crate::layout::Alignment;
use crate::layout::DictLayout;
use crate::layout::Layout;
use crate::layout::RefcountMode;
use crate::layout::alignment_byte;
use crate::layout::classify;
use crate::model::EntryModel;
use crate::model::difference_entries;
use crate::model::has_key;
use crate::model::insert_entry;
use crate::model::intersect_entries;
use crate::model::keys_unique;
use crate::model::lemma_difference_entries;
use crate::model::lemma_filtered_widths;
use crate::model::lemma_index_of;
use crate::model::lemma_insert_entry;
use crate::model::lemma_insert_widths;
use crate::model::lemma_intersect_entries;
use crate::model::lemma_remove_entry;
use crate::model::lemma_remove_widths;
use crate::model::lemma_union_entries;
use crate::model::lemma_union_widths;
use crate::model::remove_entry;
use crate::model::union_entries;
use crate::model::value_of;
use crate::model::widths_ok;
use crate::model::zero_bytes;
use crate::bridge::RuntimeDict;
use crate::runtime::copy_bytes;
use crate::runtime::zeroed;

verus! {

/// What a dispatcher needs of the code-generation state: a positioned
/// cursor and a deduplicated wrapper table.
pub open spec fn dispatch_ready(cg: CodeGenModel) -> bool {
    positioned(cg.builder) && cache_wf(cg.functions)
}

/// A valid dictionary operand for the given layouts: unique keys, and
/// every slot of its layout's width.
pub open spec fn dict_wf(s: Seq<EntryModel>, kl: Layout, vl: Layout) -> bool {
    keys_unique(s) && widths_ok(s, kl.size_bytes as nat, vl.size_bytes as nat)
}

/// The scalar-argument record every width-carrying entry point gets:
/// packing class byte, key width, value width, and the wrapper ids in
/// positional order.
pub open spec fn call_model(
    entry: EntryPoint,
    kl: Layout,
    vl: Layout,
    wrappers: Seq<int>,
) -> CallModel {
    CallModel {
        entry,
        alignment: Some(alignment_byte(classify(kl.alignment_bytes, vl.alignment_bytes))),
        key_width: Some(kl.size_bytes as u64),
        value_width: Some(vl.size_bytes as u64),
        wrappers,
    }
}

/// Effect of an entry point taking hash, equality, and the two
/// decrement capabilities: `insert`, `remove`, `intersection` and
/// `difference`, which may each release displaced or unretained
/// payload.
pub open spec fn dec_pair_effect(
    cg: CodeGenModel,
    entry: EntryPoint,
    kl: Layout,
    vl: Layout,
) -> CodeGenModel {
    let s1 = synth_step(cg.functions, WrapperKind::Hash, kl, None);
    let s2 = synth_step(s1.fns, WrapperKind::Equality, kl, None);
    let s3 = synth_step(s2.fns, WrapperKind::Refcount, kl, Some(RefcountMode::Dec));
    let s4 = synth_step(s3.fns, WrapperKind::Refcount, vl, Some(RefcountMode::Dec));
    CodeGenModel {
        functions: s4.fns,
        builder: cg.builder,
        calls: cg.calls.push(call_model(entry, kl, vl, seq![s1.id, s2.id, s3.id, s4.id])),
    }
}

/// Effect of `union`, which takes hash, equality, and the two
/// increment capabilities so shared payload can be referenced from
/// both input and output without a double free.
pub open spec fn union_effect(cg: CodeGenModel, kl: Layout, vl: Layout) -> CodeGenModel {
    let s1 = synth_step(cg.functions, WrapperKind::Hash, kl, None);
    let s2 = synth_step(s1.fns, WrapperKind::Equality, kl, None);
    let s3 = synth_step(s2.fns, WrapperKind::Refcount, kl, Some(RefcountMode::Inc(1)));
    let s4 = synth_step(s3.fns, WrapperKind::Refcount, vl, Some(RefcountMode::Inc(1)));
    CodeGenModel {
        functions: s4.fns,
        builder: cg.builder,
        calls: cg.calls.push(
            call_model(EntryPoint::Union, kl, vl, seq![s1.id, s2.id, s3.id, s4.id]),
        ),
    }
}

/// Effect of `contains`: hash and equality only.
pub open spec fn contains_effect(cg: CodeGenModel, kl: Layout, vl: Layout) -> CodeGenModel {
    let s1 = synth_step(cg.functions, WrapperKind::Hash, kl, None);
    let s2 = synth_step(s1.fns, WrapperKind::Equality, kl, None);
    CodeGenModel {
        functions: s2.fns,
        builder: cg.builder,
        calls: cg.calls.push(call_model(EntryPoint::Contains, kl, vl, seq![s1.id, s2.id])),
    }
}

/// Effect of `get`: hash, equality, and an increment of the value by
/// one, since a found payload gains the caller as an owner.
pub open spec fn get_effect(cg: CodeGenModel, kl: Layout, vl: Layout) -> CodeGenModel {
    let s1 = synth_step(cg.functions, WrapperKind::Hash, kl, None);
    let s2 = synth_step(s1.fns, WrapperKind::Equality, kl, None);
    let s3 = synth_step(s2.fns, WrapperKind::Refcount, vl, Some(RefcountMode::Inc(1)));
    CodeGenModel {
        functions: s3.fns,
        builder: cg.builder,
        calls: cg.calls.push(call_model(EntryPoint::Get, kl, vl, seq![s1.id, s2.id, s3.id])),
    }
}

/// Effect of the bulk element-refcount entry point: one refcount
/// wrapper per side, both in the requested mode.
pub open spec fn elements_rc_effect(
    cg: CodeGenModel,
    kl: Layout,
    vl: Layout,
    rc_operation: RefcountMode,
) -> CodeGenModel {
    let s1 = synth_step(cg.functions, WrapperKind::Refcount, kl, Some(rc_operation));
    let s2 = synth_step(s1.fns, WrapperKind::Refcount, vl, Some(rc_operation));
    CodeGenModel {
        functions: s2.fns,
        builder: cg.builder,
        calls: cg.calls.push(call_model(EntryPoint::ElementsRc, kl, vl, seq![s1.id, s2.id])),
    }
}

/// Effect of `keys`: an increment of the key by one, since the fresh
/// list also owns each key.
pub open spec fn keys_effect(cg: CodeGenModel, kl: Layout, vl: Layout) -> CodeGenModel {
    let s1 = synth_step(cg.functions, WrapperKind::Refcount, kl, Some(RefcountMode::Inc(1)));
    CodeGenModel {
        functions: s1.fns,
        builder: cg.builder,
        calls: cg.calls.push(call_model(EntryPoint::Keys, kl, vl, seq![s1.id])),
    }
}

/// Effect of `values`: an increment of the value by one.
pub open spec fn values_effect(cg: CodeGenModel, kl: Layout, vl: Layout) -> CodeGenModel {
    let s1 = synth_step(cg.functions, WrapperKind::Refcount, vl, Some(RefcountMode::Inc(1)));
    CodeGenModel {
        functions: s1.fns,
        builder: cg.builder,
        calls: cg.calls.push(call_model(EntryPoint::Values, kl, vl, seq![s1.id])),
    }
}

/// Effect of an entry point that takes only aggregate pointers:
/// `length` and construction need no widths and no capabilities.
pub open spec fn plain_effect(cg: CodeGenModel, entry: EntryPoint) -> CodeGenModel {
    CodeGenModel {
        functions: cg.functions,
        builder: cg.builder,
        calls: cg.calls.push(
            CallModel {
                entry,
                alignment: None,
                key_width: None,
                value_width: None,
                wrappers: Seq::empty(),
            },
        ),
    }
}

/// Appends one emitted runtime call to the log.
fn record_call(cg: &mut CodeGen, call: RuntimeCall)
    ensures
        final(cg)@.calls == old(cg)@.calls.push(call@),
        final(cg)@.functions == old(cg)@.functions,
        final(cg)@.builder == old(cg)@.builder,
{
    let ghost cv = call@;
    let ghost calls0 = cg@.calls;
    cg.calls.push(call);
    proof {
        assert(cg@.calls =~= calls0.push(cv));
    }
}

/// Emits the code for `Dict.insert`: binds `key` to `value` in `dict`,
/// with the second binding winning on an existing key. Obtains hash,
/// equality, and the two decrement capabilities — the runtime releases
/// any key and value a collision displaces — and invokes the insertion
/// entry point on the reinterpreted operands.
pub fn dict_insert(
    cg: &mut CodeGen,
    dict: ContainerHandle,
    key: Vec<u8>,
    key_layout: &Layout,
    value: Vec<u8>,
    value_layout: &Layout,
) -> (r: ContainerHandle)
    requires
        dispatch_ready(old(cg)@),
        key_layout.supported_alignment(),
        value_layout.supported_alignment(),
        dict_wf(dict@, *key_layout, *value_layout),
        key@.len() == key_layout.size_bytes,
        value@.len() == value_layout.size_bytes,
    ensures
        final(cg)@ == dec_pair_effect(old(cg)@, EntryPoint::Insert, *key_layout, *value_layout),
        dispatch_ready(final(cg)@),
        r@ == insert_entry(dict@, key@, value@),
        dict_wf(r@, *key_layout, *value_layout),
{
    let ghost cg0 = cg@;
    let ghost d0 = dict@;
    let ghost kk = key@;
    let ghost vv = value@;

    let zig_dict = struct_to_zig_dict(dict);

    let key_width = key_layout.stack_size() as u64;
    let value_width = value_layout.stack_size() as u64;

    let alignment = Alignment::from_key_value_layout(key_layout, value_layout);
    let alignment_iv = alignment.as_byte();

    let hash_fn = build_hash_wrapper(cg, key_layout);
    let eq_fn = build_eq_wrapper(cg, key_layout);
    let dec_key_fn = build_rc_wrapper(cg, key_layout, RefcountMode::Dec);
    let dec_value_fn = build_rc_wrapper(cg, value_layout, RefcountMode::Dec);

    let call = RuntimeCall {
        entry: EntryPoint::Insert,
        alignment: Some(alignment_iv),
        key_width: Some(key_width),
        value_width: Some(value_width),
        wrappers: vec![hash_fn, eq_fn, dec_key_fn, dec_value_fn],
    };
    let ghost cv = call@;
    record_call(cg, call);

    let result = zig_dict.insert(key, value);

    proof {
        let eff = dec_pair_effect(cg0, EntryPoint::Insert, *key_layout, *value_layout);
        assert(cv.wrappers =~= eff.calls.last().wrappers);
        assert(cv =~= eff.calls.last());
        assert(cg@.calls =~= eff.calls);
        assert(cg@ =~= eff);
        lemma_insert_entry(d0, kk, vv);
        lemma_insert_widths(d0, kk, vv, key_layout.size_bytes as nat, value_layout.size_bytes as nat);
    }
    zig_dict_to_struct(result)
}

/// Emits the code for `Dict.remove`: drops the entry holding `key`,
/// if any, releasing the dropped payload through the decrement
/// capabilities; an absent key leaves the dictionary unchanged.
pub fn dict_remove(
    cg: &mut CodeGen,
    dict: ContainerHandle,
    key: Vec<u8>,
    key_layout: &Layout,
    value_layout: &Layout,
) -> (r: ContainerHandle)
    requires
        dispatch_ready(old(cg)@),
        key_layout.supported_alignment(),
        value_layout.supported_alignment(),
        dict_wf(dict@, *key_layout, *value_layout),
        key@.len() == key_layout.size_bytes,
    ensures
        final(cg)@ == dec_pair_effect(old(cg)@, EntryPoint::Remove, *key_layout, *value_layout),
        dispatch_ready(final(cg)@),
        r@ == remove_entry(dict@, key@),
        dict_wf(r@, *key_layout, *value_layout),
{
    let ghost cg0 = cg@;
    let ghost d0 = dict@;
    let ghost kk = key@;

    let zig_dict = struct_to_zig_dict(dict);

    let key_width = key_layout.stack_size() as u64;
    let value_width = value_layout.stack_size() as u64;

    let alignment = Alignment::from_key_value_layout(key_layout, value_layout);
    let alignment_iv = alignment.as_byte();

    let hash_fn = build_hash_wrapper(cg, key_layout);
    let eq_fn = build_eq_wrapper(cg, key_layout);
    let dec_key_fn = build_rc_wrapper(cg, key_layout, RefcountMode::Dec);
    let dec_value_fn = build_rc_wrapper(cg, value_layout, RefcountMode::Dec);

    let call = RuntimeCall {
        entry: EntryPoint::Remove,
        alignment: Some(alignment_iv),
        key_width: Some(key_width),
        value_width: Some(value_width),
        wrappers: vec![hash_fn, eq_fn, dec_key_fn, dec_value_fn],
    };
    let ghost cv = call@;
    record_call(cg, call);

    let result = zig_dict.remove(&key);

    proof {
        let eff = dec_pair_effect(cg0, EntryPoint::Remove, *key_layout, *value_layout);
        assert(cv.wrappers =~= eff.calls.last().wrappers);
        assert(cv =~= eff.calls.last());
        assert(cg@.calls =~= eff.calls);
        assert(cg@ =~= eff);
        lemma_remove_entry(d0, kk);
        lemma_remove_widths(d0, kk, key_layout.size_bytes as nat, value_layout.size_bytes as nat);
    }
    zig_dict_to_struct(result)
}

/// Emits the code for `Dict.contains`: whether the dictionary holds
/// the probed key. Needs hash and equality only — membership moves no
/// payload.
pub fn dict_contains(
    cg: &mut CodeGen,
    dict: ContainerHandle,
    key: Vec<u8>,
    key_layout: &Layout,
    value_layout: &Layout,
) -> (r: bool)
    requires
        dispatch_ready(old(cg)@),
        key_layout.supported_alignment(),
        value_layout.supported_alignment(),
        dict_wf(dict@, *key_layout, *value_layout),
        key@.len() == key_layout.size_bytes,
    ensures
        final(cg)@ == contains_effect(old(cg)@, *key_layout, *value_layout),
        dispatch_ready(final(cg)@),
        r == has_key(dict@, key@),
{
    let ghost cg0 = cg@;

    let zig_dict = struct_to_zig_dict(dict);

    let key_width = key_layout.stack_size() as u64;
    let value_width = value_layout.stack_size() as u64;

    let alignment = Alignment::from_key_value_layout(key_layout, value_layout);
    let alignment_iv = alignment.as_byte();

    let hash_fn = build_hash_wrapper(cg, key_layout);
    let eq_fn = build_eq_wrapper(cg, key_layout);

    let call = RuntimeCall {
        entry: EntryPoint::Contains,
        alignment: Some(alignment_iv),
        key_width: Some(key_width),
        value_width: Some(value_width),
        wrappers: vec![hash_fn, eq_fn],
    };
    let ghost cv = call@;
    record_call(cg, call);

    proof {
        let eff = contains_effect(cg0, *key_layout, *value_layout);
        assert(cv.wrappers =~= eff.calls.last().wrappers);
        assert(cv =~= eff.calls.last());
        assert(cg@.calls =~= eff.calls);
        assert(cg@ =~= eff);
    }
    zig_dict.contains(&key)
}

/// What `Dict.get` hands back: the probed key's payload and whether it
/// was found. On a miss the payload is the value type's all-zero bit
/// pattern, never a stale read.
pub struct GetResult {
    pub value: Vec<u8>,
    pub found: bool,
}

/// Emits the code for `Dict.get`. The runtime answers a found flag and
/// a payload pointer that is meaningless on a miss, so the result is
/// materialized by branch and merge: the pointer is read only on the
/// found path, and the miss path supplies the zero default.
pub fn dict_get(
    cg: &mut CodeGen,
    dict: ContainerHandle,
    key: Vec<u8>,
    key_layout: &Layout,
    value_layout: &Layout,
) -> (r: GetResult)
    requires
        dispatch_ready(old(cg)@),
        key_layout.supported_alignment(),
        value_layout.supported_alignment(),
        dict_wf(dict@, *key_layout, *value_layout),
        key@.len() == key_layout.size_bytes,
    ensures
        final(cg)@ == get_effect(old(cg)@, *key_layout, *value_layout),
        dispatch_ready(final(cg)@),
        r.found == has_key(dict@, key@),
        r.found ==> r.value@ == value_of(dict@, key@),
        !r.found ==> r.value@ == zero_bytes(value_layout.size_bytes as nat),
        r.value@.len() == value_layout.size_bytes,
{
    let ghost cg0 = cg@;
    let ghost d0 = dict@;
    let ghost kk = key@;

    let zig_dict = struct_to_zig_dict(dict);

    let key_width = key_layout.stack_size() as u64;
    let value_width = value_layout.stack_size() as u64;

    let alignment = Alignment::from_key_value_layout(key_layout, value_layout);
    let alignment_iv = alignment.as_byte();

    let hash_fn = build_hash_wrapper(cg, key_layout);
    let eq_fn = build_eq_wrapper(cg, key_layout);
    let inc_value_fn = build_rc_wrapper(cg, value_layout, RefcountMode::Inc(1));

    let call = RuntimeCall {
        entry: EntryPoint::Get,
        alignment: Some(alignment_iv),
        key_width: Some(key_width),
        value_width: Some(value_width),
        wrappers: vec![hash_fn, eq_fn, inc_value_fn],
    };
    let ghost cv = call@;
    record_call(cg, call);

    proof {
        let eff = get_effect(cg0, *key_layout, *value_layout);
        assert(cv.wrappers =~= eff.calls.last().wrappers);
        assert(cv =~= eff.calls.last());
        assert(cg@.calls =~= eff.calls);
        assert(cg@ =~= eff);
    }

    // branch and merge: dereference the payload only when it exists,
    // take the zero default otherwise
    let (found, value) = match zig_dict.get_ptr(&key) {
        Some(payload) => (true, copy_bytes(payload)),
        None => (false, zeroed(value_layout.stack_size() as usize)),
    };
    proof {
        if found {
            lemma_index_of(d0, kk);
            assert(d0[crate::model::index_of(d0, kk)].value.len()
                == value_layout.size_bytes as nat);
        }
    }
    GetResult { value, found }
}

/// Emits the code for a bulk refcount pass over every stored key and
/// value, in the requested mode — used when a whole dictionary is
/// duplicated or dropped. Side effect only: the contents are untouched.
pub fn dict_elements_rc(
    cg: &mut CodeGen,
    dict: &ContainerHandle,
    key_layout: &Layout,
    value_layout: &Layout,
    rc_operation: RefcountMode,
)
    requires
        dispatch_ready(old(cg)@),
        key_layout.supported_alignment(),
        value_layout.supported_alignment(),
        dict_wf(dict@, *key_layout, *value_layout),
        rc_operation.valid(),
    ensures
        final(cg)@ == elements_rc_effect(old(cg)@, *key_layout, *value_layout, rc_operation),
        dispatch_ready(final(cg)@),
{
    let ghost cg0 = cg@;

    let key_width = key_layout.stack_size() as u64;
    let value_width = value_layout.stack_size() as u64;

    let alignment = Alignment::from_key_value_layout(key_layout, value_layout);
    let alignment_iv = alignment.as_byte();

    let inc_key_fn = build_rc_wrapper(cg, key_layout, rc_operation);
    let inc_value_fn = build_rc_wrapper(cg, value_layout, rc_operation);

    let call = RuntimeCall {
        entry: EntryPoint::ElementsRc,
        alignment: Some(alignment_iv),
        key_width: Some(key_width),
        value_width: Some(value_width),
        wrappers: vec![inc_key_fn, inc_value_fn],
    };
    let ghost cv = call@;
    record_call(cg, call);

    proof {
        let eff = elements_rc_effect(cg0, *key_layout, *value_layout, rc_operation);
        assert(cv.wrappers =~= eff.calls.last().wrappers);
        assert(cv =~= eff.calls.last());
        assert(cg@.calls =~= eff.calls);
        assert(cg@ =~= eff);
    }
}

/// Emits the code for `Dict.keys`: a fresh list of the stored keys in
/// storage order, each bumped once because the list now also owns it.
pub fn dict_keys(
    cg: &mut CodeGen,
    dict: ContainerHandle,
    key_layout: &Layout,
    value_layout: &Layout,
) -> (r: Vec<Vec<u8>>)
    requires
        dispatch_ready(old(cg)@),
        key_layout.supported_alignment(),
        value_layout.supported_alignment(),
        dict_wf(dict@, *key_layout, *value_layout),
    ensures
        final(cg)@ == keys_effect(old(cg)@, *key_layout, *value_layout),
        dispatch_ready(final(cg)@),
        r@.len() == dict@.len(),
        forall|i: int| 0 <= i < dict@.len() ==> #[trigger] r@[i]@ == dict@[i].key,
{
    let ghost cg0 = cg@;

    let zig_dict = struct_to_zig_dict(dict);

    let key_width = key_layout.stack_size() as u64;
    let value_width = value_layout.stack_size() as u64;

    let alignment = Alignment::from_key_value_layout(key_layout, value_layout);
    let alignment_iv = alignment.as_byte();

    let inc_key_fn = build_rc_wrapper(cg, key_layout, RefcountMode::Inc(1));

    let call = RuntimeCall {
        entry: EntryPoint::Keys,
        alignment: Some(alignment_iv),
        key_width: Some(key_width),
        value_width: Some(value_width),
        wrappers: vec![inc_key_fn],
    };
    let ghost cv = call@;
    record_call(cg, call);

    proof {
        let eff = keys_effect(cg0, *key_layout, *value_layout);
        assert(cv.wrappers =~= eff.calls.last().wrappers);
        assert(cv =~= eff.calls.last());
        assert(cg@.calls =~= eff.calls);
        assert(cg@ =~= eff);
    }
    zig_dict.keys()
}

/// Emits the code for `Dict.values`: a fresh list of the stored values
/// in storage order, each bumped once.
pub fn dict_values(
    cg: &mut CodeGen,
    dict: ContainerHandle,
    key_layout: &Layout,
    value_layout: &Layout,
) -> (r: Vec<Vec<u8>>)
    requires
        dispatch_ready(old(cg)@),
        key_layout.supported_alignment(),
        value_layout.supported_alignment(),
        dict_wf(dict@, *key_layout, *value_layout),
    ensures
        final(cg)@ == values_effect(old(cg)@, *key_layout, *value_layout),
        dispatch_ready(final(cg)@),
        r@.len() == dict@.len(),
        forall|i: int| 0 <= i < dict@.len() ==> #[trigger] r@[i]@ == dict@[i].value,
{
    let ghost cg0 = cg@;

    let zig_dict = struct_to_zig_dict(dict);

    let key_width = key_layout.stack_size() as u64;
    let value_width = value_layout.stack_size() as u64;

    let alignment = Alignment::from_key_value_layout(key_layout, value_layout);
    let alignment_iv = alignment.as_byte();

    let inc_value_fn = build_rc_wrapper(cg, value_layout, RefcountMode::Inc(1));

    let call = RuntimeCall {
        entry: EntryPoint::Values,
        alignment: Some(alignment_iv),
        key_width: Some(key_width),
        value_width: Some(value_width),
        wrappers: vec![inc_value_fn],
    };
    let ghost cv = call@;
    record_call(cg, call);

    proof {
        let eff = values_effect(cg0, *key_layout, *value_layout);
        assert(cv.wrappers =~= eff.calls.last().wrappers);
        assert(cv =~= eff.calls.last());
        assert(cg@.calls =~= eff.calls);
        assert(cg@ =~= eff);
    }
    zig_dict.values()
}

/// Emits the code for `Dict.union`: a dictionary holding the entries
/// of both operands; on a shared key the second operand's binding
/// wins. The increment capabilities let shared payload be owned by
/// input and output at once.
pub fn dict_union(
    cg: &mut CodeGen,
    dict1: ContainerHandle,
    dict2: ContainerHandle,
    key_layout: &Layout,
    value_layout: &Layout,
) -> (r: ContainerHandle)
    requires
        dispatch_ready(old(cg)@),
        key_layout.supported_alignment(),
        value_layout.supported_alignment(),
        dict_wf(dict1@, *key_layout, *value_layout),
        dict_wf(dict2@, *key_layout, *value_layout),
    ensures
        final(cg)@ == union_effect(old(cg)@, *key_layout, *value_layout),
        dispatch_ready(final(cg)@),
        r@ == union_entries(dict1@, dict2@),
        dict_wf(r@, *key_layout, *value_layout),
{
    let ghost cg0 = cg@;
    let ghost a0 = dict1@;
    let ghost b0 = dict2@;

    let zig_dict1 = struct_to_zig_dict(dict1);
    let zig_dict2 = struct_to_zig_dict(dict2);

    let key_width = key_layout.stack_size() as u64;
    let value_width = value_layout.stack_size() as u64;

    let alignment = Alignment::from_key_value_layout(key_layout, value_layout);
    let alignment_iv = alignment.as_byte();

    let hash_fn = build_hash_wrapper(cg, key_layout);
    let eq_fn = build_eq_wrapper(cg, key_layout);
    let inc_key_fn = build_rc_wrapper(cg, key_layout, RefcountMode::Inc(1));
    let inc_value_fn = build_rc_wrapper(cg, value_layout, RefcountMode::Inc(1));

    let call = RuntimeCall {
        entry: EntryPoint::Union,
        alignment: Some(alignment_iv),
        key_width: Some(key_width),
        value_width: Some(value_width),
        wrappers: vec![hash_fn, eq_fn, inc_key_fn, inc_value_fn],
    };
    let ghost cv = call@;
    record_call(cg, call);

    let output = zig_dict1.union(&zig_dict2);

    proof {
        let eff = union_effect(cg0, *key_layout, *value_layout);
        assert(cv.wrappers =~= eff.calls.last().wrappers);
        assert(cv =~= eff.calls.last());
        assert(cg@.calls =~= eff.calls);
        assert(cg@ =~= eff);
        lemma_union_entries(a0, b0);
        lemma_union_widths(a0, b0, key_layout.size_bytes as nat, value_layout.size_bytes as nat);
    }
    zig_dict_to_struct(output)
}

/// Emits the code for `Dict.intersection`: the entries of the first
/// operand whose key the second also holds, keeping the first's
/// values. The decrement capabilities release the side not retained.
pub fn dict_intersection(
    cg: &mut CodeGen,
    dict1: ContainerHandle,
    dict2: ContainerHandle,
    key_layout: &Layout,
    value_layout: &Layout,
) -> (r: ContainerHandle)
    requires
        dispatch_ready(old(cg)@),
        key_layout.supported_alignment(),
        value_layout.supported_alignment(),
        dict_wf(dict1@, *key_layout, *value_layout),
        dict_wf(dict2@, *key_layout, *value_layout),
    ensures
        final(cg)@ == dec_pair_effect(
            old(cg)@,
            EntryPoint::Intersection,
            *key_layout,
            *value_layout,
        ),
        dispatch_ready(final(cg)@),
        r@ == intersect_entries(dict1@, dict2@),
        dict_wf(r@, *key_layout, *value_layout),
{
    let ghost cg0 = cg@;
    let ghost a0 = dict1@;
    let ghost b0 = dict2@;

    let zig_dict1 = struct_to_zig_dict(dict1);
    let zig_dict2 = struct_to_zig_dict(dict2);

    let key_width = key_layout.stack_size() as u64;
    let value_width = value_layout.stack_size() as u64;

    let alignment = Alignment::from_key_value_layout(key_layout, value_layout);
    let alignment_iv = alignment.as_byte();

    let hash_fn = build_hash_wrapper(cg, key_layout);
    let eq_fn = build_eq_wrapper(cg, key_layout);
    let dec_key_fn = build_rc_wrapper(cg, key_layout, RefcountMode::Dec);
    let dec_value_fn = build_rc_wrapper(cg, value_layout, RefcountMode::Dec);

    let call = RuntimeCall {
        entry: EntryPoint::Intersection,
        alignment: Some(alignment_iv),
        key_width: Some(key_width),
        value_width: Some(value_width),
        wrappers: vec![hash_fn, eq_fn, dec_key_fn, dec_value_fn],
    };
    let ghost cv = call@;
    record_call(cg, call);

    let output = zig_dict1.intersection(&zig_dict2);

    proof {
        let eff = dec_pair_effect(cg0, EntryPoint::Intersection, *key_layout, *value_layout);
        assert(cv.wrappers =~= eff.calls.last().wrappers);
        assert(cv =~= eff.calls.last());
        assert(cg@.calls =~= eff.calls);
        assert(cg@ =~= eff);
        lemma_intersect_entries(a0, b0);
        lemma_filtered_widths(a0, b0, key_layout.size_bytes as nat, value_layout.size_bytes as nat);
    }
    zig_dict_to_struct(output)
}

/// Emits the code for `Dict.difference`: the entries of the first
/// operand whose key the second does not hold, with the same release
/// policy as intersection.
pub fn dict_difference(
    cg: &mut CodeGen,
    dict1: ContainerHandle,
    dict2: ContainerHandle,
    key_layout: &Layout,
    value_layout: &Layout,
) -> (r: ContainerHandle)
    requires
        dispatch_ready(old(cg)@),
        key_layout.supported_alignment(),
        value_layout.supported_alignment(),
        dict_wf(dict1@, *key_layout, *value_layout),
        dict_wf(dict2@, *key_layout, *value_layout),
    ensures
        final(cg)@ == dec_pair_effect(
            old(cg)@,
            EntryPoint::Difference,
            *key_layout,
            *value_layout,
        ),
        dispatch_ready(final(cg)@),
        r@ == difference_entries(dict1@, dict2@),
        dict_wf(r@, *key_layout, *value_layout),
{
    let ghost cg0 = cg@;
    let ghost a0 = dict1@;
    let ghost b0 = dict2@;

    let zig_dict1 = struct_to_zig_dict(dict1);
    let zig_dict2 = struct_to_zig_dict(dict2);

    let key_width = key_layout.stack_size() as u64;
    let value_width = value_layout.stack_size() as u64;

    let alignment = Alignment::from_key_value_layout(key_layout, value_layout);
    let alignment_iv = alignment.as_byte();

    let hash_fn = build_hash_wrapper(cg, key_layout);
    let eq_fn = build_eq_wrapper(cg, key_layout);
    let dec_key_fn = build_rc_wrapper(cg, key_layout, RefcountMode::Dec);
    let dec_value_fn = build_rc_wrapper(cg, value_layout, RefcountMode::Dec);

    let call = RuntimeCall {
        entry: EntryPoint::Difference,
        alignment: Some(alignment_iv),
        key_width: Some(key_width),
        value_width: Some(value_width),
        wrappers: vec![hash_fn, eq_fn, dec_key_fn, dec_value_fn],
    };
    let ghost cv = call@;
    record_call(cg, call);

    let output = zig_dict1.difference(&zig_dict2);

    proof {
        let eff = dec_pair_effect(cg0, EntryPoint::Difference, *key_layout, *value_layout);
        assert(cv.wrappers =~= eff.calls.last().wrappers);
        assert(cv =~= eff.calls.last());
        assert(cg@.calls =~= eff.calls);
        assert(cg@ =~= eff);
        lemma_difference_entries(a0, b0);
        lemma_filtered_widths(a0, b0, key_layout.size_bytes as nat, value_layout.size_bytes as nat);
    }
    zig_dict_to_struct(output)
}

/// Emits the code for `Dict.len`. A populated dictionary is counted by
/// the runtime; the statically empty shape short-circuits to zero
/// without a runtime call.
pub fn dict_len(cg: &mut CodeGen, dict: ContainerHandle, dict_layout: &DictLayout) -> (r: u64)
    requires
        dispatch_ready(old(cg)@),
        *dict_layout is EmptyDict ==> dict@.len() == 0,
    ensures
        r == dict@.len(),
        *dict_layout is Dict ==> final(cg)@ == plain_effect(old(cg)@, EntryPoint::Len),
        *dict_layout is EmptyDict ==> final(cg)@ == old(cg)@,
        dispatch_ready(final(cg)@),
{
    let ghost cg0 = cg@;
    match dict_layout {
        DictLayout::Dict(_, _) => {
            let zig_dict = struct_to_zig_dict(dict);
            let call = RuntimeCall {
                entry: EntryPoint::Len,
                alignment: None,
                key_width: None,
                value_width: None,
                wrappers: Vec::new(),
            };
            let ghost cv = call@;
            record_call(cg, call);
            proof {
                let eff = plain_effect(cg0, EntryPoint::Len);
                assert(cv.wrappers =~= eff.calls.last().wrappers);
                assert(cv =~= eff.calls.last());
                assert(cg@.calls =~= eff.calls);
                assert(cg@ =~= eff);
            }
            zig_dict.len() as u64
        },
        DictLayout::EmptyDict => 0,
    }
}

/// Emits the code for `Dict.empty`: a freshly constructed zero-entry
/// dictionary, written by the runtime into caller-provided storage and
/// reinterpreted as a native handle.
pub fn dict_empty(cg: &mut CodeGen) -> (r: ContainerHandle)
    requires
        dispatch_ready(old(cg)@),
    ensures
        final(cg)@ == plain_effect(old(cg)@, EntryPoint::Empty),
        dispatch_ready(final(cg)@),
        r@ == Seq::<EntryModel>::empty(),
{
    let ghost cg0 = cg@;
    let call = RuntimeCall {
        entry: EntryPoint::Empty,
        alignment: None,
        key_width: None,
        value_width: None,
        wrappers: Vec::new(),
    };
    let ghost cv = call@;
    record_call(cg, call);
    proof {
        let eff = plain_effect(cg0, EntryPoint::Empty);
        assert(cv.wrappers =~= eff.calls.last().wrappers);
        assert(cv =~= eff.calls.last());
        assert(cg@.calls =~= eff.calls);
        assert(cg@ =~= eff);
    }
    let result = RuntimeDict::empty();
    zig_dict_to_struct(result)
}

} // verus!
