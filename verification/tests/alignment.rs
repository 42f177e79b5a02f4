use codegen_core::layout::Alignment;
use codegen_core::layout::Layout;

fn layout(size: u32, align: u32) -> Layout {
    Layout { size_bytes: size, alignment_bytes: align }
}

#[test]
fn classify_equal_alignments_put_key_first() {
    let a = Alignment::from_key_value_layout(&layout(8, 8), &layout(1, 8));
    assert_eq!(a, Alignment::Align8KeyFirst);
    assert_eq!(a.as_byte(), 2);

    let a = Alignment::from_key_value_layout(&layout(16, 16), &layout(16, 16));
    assert_eq!(a, Alignment::Align16KeyFirst);
    assert_eq!(a.as_byte(), 0);
}

#[test]
fn classify_larger_alignment_goes_first() {
    let a = Alignment::from_key_value_layout(&layout(16, 16), &layout(8, 8));
    assert_eq!(a, Alignment::Align16KeyFirst);
    assert_eq!(a.as_byte(), 0);

    let swapped = Alignment::from_key_value_layout(&layout(8, 8), &layout(16, 16));
    assert_eq!(swapped, Alignment::Align16ValueFirst);
    assert_eq!(swapped.as_byte(), 1);
}

#[test]
fn classify_class_is_larger_alignment() {
    let a = Alignment::from_key_value_layout(&layout(4, 8), &layout(4, 8));
    assert_eq!(a.as_byte(), 2);
    let b = Alignment::from_key_value_layout(&layout(4, 8), &layout(4, 16));
    assert_eq!(b.as_byte(), 1);
    let c = Alignment::from_key_value_layout(&layout(4, 16), &layout(4, 8));
    assert_eq!(c.as_byte(), 0);
    let d = Alignment::from_key_value_layout(&layout(4, 16), &layout(4, 16));
    assert_eq!(d.as_byte(), 0);
}
