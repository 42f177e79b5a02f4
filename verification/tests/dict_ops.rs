use codegen_core::bridge::ContainerHandle;
use codegen_core::codegen::CodeGen;
use codegen_core::codegen::EntryPoint;
use codegen_core::codegen::WrapperKind;
use codegen_core::dispatch::dict_contains;
use codegen_core::dispatch::dict_difference;
use codegen_core::dispatch::dict_elements_rc;
use codegen_core::dispatch::dict_empty;
use codegen_core::dispatch::dict_get;
use codegen_core::dispatch::dict_insert;
use codegen_core::dispatch::dict_intersection;
use codegen_core::dispatch::dict_keys;
use codegen_core::dispatch::dict_len;
use codegen_core::dispatch::dict_remove;
use codegen_core::dispatch::dict_union;
use codegen_core::dispatch::dict_values;
use codegen_core::layout::DictLayout;
use codegen_core::layout::Layout;
use codegen_core::layout::RefcountMode;

const KEY_LAYOUT: Layout = Layout { size_bytes: 8, alignment_bytes: 8 };
const VALUE_LAYOUT: Layout = Layout { size_bytes: 1, alignment_bytes: 8 };

fn ready_codegen() -> CodeGen {
    let mut cg = CodeGen::new();
    cg.position_at_end(0);
    cg.set_current_debug_location(0);
    cg
}

fn key(n: u64) -> Vec<u8> {
    n.to_le_bytes().to_vec()
}

fn val(b: u8) -> Vec<u8> {
    vec![b]
}

/// `{1: "x"}`
fn dict_a(cg: &mut CodeGen) -> ContainerHandle {
    let d = dict_empty(cg);
    dict_insert(cg, d, key(1), &KEY_LAYOUT, val(b'x'), &VALUE_LAYOUT)
}

/// `{1: "y", 2: "z"}`
fn dict_b(cg: &mut CodeGen) -> ContainerHandle {
    let d = dict_empty(cg);
    let d = dict_insert(cg, d, key(1), &KEY_LAYOUT, val(b'y'), &VALUE_LAYOUT);
    dict_insert(cg, d, key(2), &KEY_LAYOUT, val(b'z'), &VALUE_LAYOUT)
}

#[test]
fn get_on_empty_dict_is_zeroed_miss() {
    let mut cg = ready_codegen();
    let d = dict_empty(&mut cg);
    let r = dict_get(&mut cg, d, key(1), &KEY_LAYOUT, &VALUE_LAYOUT);
    assert!(!r.found);
    assert_eq!(r.value, vec![0u8]);
}

#[test]
fn get_on_absent_key_is_zeroed_miss() {
    let mut cg = ready_codegen();
    let a = dict_a(&mut cg);
    let r = dict_get(&mut cg, a, key(2), &KEY_LAYOUT, &VALUE_LAYOUT);
    assert!(!r.found);
    assert_eq!(r.value, vec![0u8]);
}

#[test]
fn insert_then_get_round_trip() {
    let mut cg = ready_codegen();
    let d = dict_empty(&mut cg);
    let d = dict_insert(&mut cg, d, key(42), &KEY_LAYOUT, val(b'q'), &VALUE_LAYOUT);
    let r = dict_get(&mut cg, d, key(42), &KEY_LAYOUT, &VALUE_LAYOUT);
    assert!(r.found);
    assert_eq!(r.value, val(b'q'));
}

#[test]
fn insert_overwrites_existing_binding() {
    let mut cg = ready_codegen();
    let d = dict_empty(&mut cg);
    let d = dict_insert(&mut cg, d, key(1), &KEY_LAYOUT, val(b'a'), &VALUE_LAYOUT);
    let d = dict_insert(&mut cg, d, key(1), &KEY_LAYOUT, val(b'b'), &VALUE_LAYOUT);
    let len = dict_len(&mut cg, d, &DictLayout::Dict(KEY_LAYOUT, VALUE_LAYOUT));
    assert_eq!(len, 1);

    let d = {
        let d = dict_empty(&mut cg);
        let d = dict_insert(&mut cg, d, key(1), &KEY_LAYOUT, val(b'a'), &VALUE_LAYOUT);
        dict_insert(&mut cg, d, key(1), &KEY_LAYOUT, val(b'b'), &VALUE_LAYOUT)
    };
    let r = dict_get(&mut cg, d, key(1), &KEY_LAYOUT, &VALUE_LAYOUT);
    assert!(r.found);
    assert_eq!(r.value, val(b'b'));
}

#[test]
fn remove_then_contains_is_false() {
    let mut cg = ready_codegen();
    let a = dict_a(&mut cg);
    let a = dict_remove(&mut cg, a, key(1), &KEY_LAYOUT, &VALUE_LAYOUT);
    let found = dict_contains(&mut cg, a, key(1), &KEY_LAYOUT, &VALUE_LAYOUT);
    assert!(!found);
}

#[test]
fn remove_absent_key_keeps_length() {
    let mut cg = ready_codegen();
    let a = dict_a(&mut cg);
    let a = dict_remove(&mut cg, a, key(2), &KEY_LAYOUT, &VALUE_LAYOUT);
    let len = dict_len(&mut cg, a, &DictLayout::Dict(KEY_LAYOUT, VALUE_LAYOUT));
    assert_eq!(len, 1);
}

#[test]
fn union_scenario_second_argument_wins() {
    let mut cg = ready_codegen();
    let a = dict_a(&mut cg);
    let b = dict_b(&mut cg);
    let u = dict_union(&mut cg, a, b, &KEY_LAYOUT, &VALUE_LAYOUT);

    let len = dict_len(&mut cg, u, &DictLayout::Dict(KEY_LAYOUT, VALUE_LAYOUT));
    assert_eq!(len, 2);

    let u = {
        let a = dict_a(&mut cg);
        let b = dict_b(&mut cg);
        dict_union(&mut cg, a, b, &KEY_LAYOUT, &VALUE_LAYOUT)
    };
    let r2 = dict_get(&mut cg, u, key(2), &KEY_LAYOUT, &VALUE_LAYOUT);
    assert!(r2.found);
    assert_eq!(r2.value, val(b'z'));

    let u = {
        let a = dict_a(&mut cg);
        let b = dict_b(&mut cg);
        dict_union(&mut cg, a, b, &KEY_LAYOUT, &VALUE_LAYOUT)
    };
    let r1 = dict_get(&mut cg, u, key(1), &KEY_LAYOUT, &VALUE_LAYOUT);
    assert!(r1.found);
    assert_eq!(r1.value, val(b'y'));
}

#[test]
fn union_length_bounded_by_sum() {
    let mut cg = ready_codegen();
    let a = dict_a(&mut cg);
    let b = dict_b(&mut cg);
    let u = dict_union(&mut cg, a, b, &KEY_LAYOUT, &VALUE_LAYOUT);
    let len = dict_len(&mut cg, u, &DictLayout::Dict(KEY_LAYOUT, VALUE_LAYOUT));
    assert!(len <= 1 + 2);
}

#[test]
fn intersection_scenario() {
    let mut cg = ready_codegen();
    let a = dict_a(&mut cg);
    let b = dict_b(&mut cg);
    let i = dict_intersection(&mut cg, a, b, &KEY_LAYOUT, &VALUE_LAYOUT);
    let len = dict_len(&mut cg, i, &DictLayout::Dict(KEY_LAYOUT, VALUE_LAYOUT));
    assert_eq!(len, 1);

    let i = {
        let a = dict_a(&mut cg);
        let b = dict_b(&mut cg);
        dict_intersection(&mut cg, a, b, &KEY_LAYOUT, &VALUE_LAYOUT)
    };
    let found = dict_contains(&mut cg, i, key(1), &KEY_LAYOUT, &VALUE_LAYOUT);
    assert!(found);
}

#[test]
fn difference_scenario() {
    let mut cg = ready_codegen();
    let a = dict_a(&mut cg);
    let b = dict_b(&mut cg);
    let d = dict_difference(&mut cg, a, b, &KEY_LAYOUT, &VALUE_LAYOUT);
    let len = dict_len(&mut cg, d, &DictLayout::Dict(KEY_LAYOUT, VALUE_LAYOUT));
    assert_eq!(len, 0);

    let d = {
        let b = dict_b(&mut cg);
        let a = dict_a(&mut cg);
        dict_difference(&mut cg, b, a, &KEY_LAYOUT, &VALUE_LAYOUT)
    };
    let len = dict_len(&mut cg, d, &DictLayout::Dict(KEY_LAYOUT, VALUE_LAYOUT));
    assert_eq!(len, 1);
    let d = {
        let b = dict_b(&mut cg);
        let a = dict_a(&mut cg);
        dict_difference(&mut cg, b, a, &KEY_LAYOUT, &VALUE_LAYOUT)
    };
    let found = dict_contains(&mut cg, d, key(2), &KEY_LAYOUT, &VALUE_LAYOUT);
    assert!(found);
}

#[test]
fn keys_and_values_in_storage_order() {
    let mut cg = ready_codegen();
    let b = dict_b(&mut cg);
    let ks = dict_keys(&mut cg, b, &KEY_LAYOUT, &VALUE_LAYOUT);
    assert_eq!(ks, vec![key(1), key(2)]);

    let b = dict_b(&mut cg);
    let vs = dict_values(&mut cg, b, &KEY_LAYOUT, &VALUE_LAYOUT);
    assert_eq!(vs, vec![val(b'y'), val(b'z')]);
}

#[test]
fn empty_dict_layout_short_circuits_length() {
    let mut cg = ready_codegen();
    let d = dict_empty(&mut cg);
    let calls_before = cg.calls.len();
    let len = dict_len(&mut cg, d, &DictLayout::EmptyDict);
    assert_eq!(len, 0);
    // the statically empty shape answers without a runtime call
    assert_eq!(cg.calls.len(), calls_before);
}

#[test]
fn dict_len_emits_a_runtime_call() {
    let mut cg = ready_codegen();
    let a = dict_a(&mut cg);
    let calls_before = cg.calls.len();
    let len = dict_len(&mut cg, a, &DictLayout::Dict(KEY_LAYOUT, VALUE_LAYOUT));
    assert_eq!(len, 1);
    assert_eq!(cg.calls.len(), calls_before + 1);
    let call = cg.calls.last().unwrap();
    assert_eq!(call.entry, EntryPoint::Len);
    assert_eq!(call.alignment, None);
    assert!(call.wrappers.is_empty());
}

#[test]
fn insert_marshals_scalar_arguments() {
    let mut cg = ready_codegen();
    let d = dict_empty(&mut cg);
    let _ = dict_insert(&mut cg, d, key(1), &KEY_LAYOUT, val(b'x'), &VALUE_LAYOUT);
    let call = cg.calls.last().unwrap();
    assert_eq!(call.entry, EntryPoint::Insert);
    assert_eq!(call.alignment, Some(2));
    assert_eq!(call.key_width, Some(8));
    assert_eq!(call.value_width, Some(1));
    assert_eq!(call.wrappers.len(), 4);
}

#[test]
fn union_marshals_increment_capabilities() {
    let mut cg = ready_codegen();
    let a = dict_a(&mut cg);
    let b = dict_b(&mut cg);
    let _ = dict_union(&mut cg, a, b, &KEY_LAYOUT, &VALUE_LAYOUT);
    let call = cg.calls.last().unwrap();
    assert_eq!(call.entry, EntryPoint::Union);
    assert_eq!(call.wrappers.len(), 4);
    assert_eq!(cg.functions[call.wrappers[0]].kind, WrapperKind::Hash);
    assert_eq!(cg.functions[call.wrappers[1]].kind, WrapperKind::Equality);
    assert_eq!(cg.functions[call.wrappers[2]].mode, Some(RefcountMode::Inc(1)));
    assert_eq!(cg.functions[call.wrappers[3]].mode, Some(RefcountMode::Inc(1)));
}

#[test]
fn operations_share_wrappers_for_equal_layouts() {
    let mut cg = ready_codegen();
    let d = dict_empty(&mut cg);
    let d = dict_insert(&mut cg, d, key(1), &KEY_LAYOUT, val(b'x'), &VALUE_LAYOUT);
    let insert_call = cg.calls.last().unwrap().clone();
    let _ = dict_remove(&mut cg, d, key(1), &KEY_LAYOUT, &VALUE_LAYOUT);
    let remove_call = cg.calls.last().unwrap().clone();
    // insert and remove need the same four capabilities, so the cache
    // answers the remove without synthesizing anything new
    assert_eq!(insert_call.wrappers, remove_call.wrappers);
    assert_eq!(cg.functions.len(), 4);
}

#[test]
fn elements_rc_obtains_both_wrappers() {
    let mut cg = ready_codegen();
    let a = dict_a(&mut cg);
    let fns_before = cg.functions.len();
    dict_elements_rc(&mut cg, &a, &KEY_LAYOUT, &VALUE_LAYOUT, RefcountMode::Inc(1));
    assert_eq!(cg.functions.len(), fns_before + 2);
    let call = cg.calls.last().unwrap();
    assert_eq!(call.entry, EntryPoint::ElementsRc);
    assert_eq!(call.wrappers.len(), 2);
}
