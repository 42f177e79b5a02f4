use codegen_core::codegen::CodeGen;
use codegen_core::codegen::WrapperKind;
use codegen_core::codegen::build_eq_wrapper;
use codegen_core::codegen::build_hash_wrapper;
use codegen_core::codegen::build_rc_wrapper;
use codegen_core::layout::Layout;
use codegen_core::layout::RefcountMode;

fn ready_codegen() -> CodeGen {
    let mut cg = CodeGen::new();
    cg.position_at_end(7);
    cg.set_current_debug_location(3);
    cg
}

#[test]
fn hash_wrapper_synthesized_once_per_layout() {
    let mut cg = ready_codegen();
    let layout = Layout { size_bytes: 8, alignment_bytes: 8 };

    let first = build_hash_wrapper(&mut cg, &layout);
    let second = build_hash_wrapper(&mut cg, &layout);

    assert_eq!(first, second);
    assert_eq!(cg.functions.len(), 1);
    assert_eq!(cg.functions[first].kind, WrapperKind::Hash);
    assert!(cg.functions[first].always_inline);
}

#[test]
fn wrappers_distinct_per_kind_layout_and_mode() {
    let mut cg = ready_codegen();
    let small = Layout { size_bytes: 8, alignment_bytes: 8 };
    let large = Layout { size_bytes: 24, alignment_bytes: 8 };

    let hash_small = build_hash_wrapper(&mut cg, &small);
    let hash_large = build_hash_wrapper(&mut cg, &large);
    let eq_small = build_eq_wrapper(&mut cg, &small);
    let inc_small = build_rc_wrapper(&mut cg, &small, RefcountMode::Inc(1));
    let dec_small = build_rc_wrapper(&mut cg, &small, RefcountMode::Dec);

    assert_ne!(hash_small, hash_large);
    assert_ne!(hash_small, eq_small);
    assert_ne!(inc_small, dec_small);
    assert_eq!(cg.functions.len(), 5);

    // every later request is answered from the cache
    assert_eq!(build_hash_wrapper(&mut cg, &small), hash_small);
    assert_eq!(build_rc_wrapper(&mut cg, &small, RefcountMode::Dec), dec_small);
    assert_eq!(cg.functions.len(), 5);
}

#[test]
fn builder_cursor_restored_after_synthesis() {
    let mut cg = ready_codegen();
    let layout = Layout { size_bytes: 16, alignment_bytes: 16 };

    // a miss synthesizes a new function body elsewhere ...
    build_hash_wrapper(&mut cg, &layout);
    assert_eq!(cg.builder.insert_block, Some(7));
    assert_eq!(cg.builder.debug_location, Some(3));

    // ... and a hit restores the cursor just the same
    build_hash_wrapper(&mut cg, &layout);
    assert_eq!(cg.builder.insert_block, Some(7));
    assert_eq!(cg.builder.debug_location, Some(3));
}

#[test]
fn wrapper_synthesis_emits_no_runtime_call() {
    let mut cg = ready_codegen();
    let layout = Layout { size_bytes: 8, alignment_bytes: 8 };
    build_hash_wrapper(&mut cg, &layout);
    build_eq_wrapper(&mut cg, &layout);
    assert!(cg.calls.is_empty());
}
