use flat_attention::arith::usize_is_power_of_two;
use flat_attention::canonical_text::{
    push_bool, push_decimal, push_hex16, push_text, push_u32_array, push_usize_array,
};

#[test]
fn canonical_fields_append_exact_text() {
    let mut out = String::from("x=");
    push_decimal(&mut out, 0);
    push_text(&mut out, ";");
    push_decimal(&mut out, 18_446_744_073_709_551_615);
    push_text(&mut out, ";");
    push_hex16(&mut out, 0xcbf2_9ce4_8422_2325);
    push_text(&mut out, ";");
    push_u32_array(&mut out, &[]);
    push_u32_array(&mut out, &[7, 10, 4_294_967_295]);
    push_usize_array(&mut out, &[0, 12]);
    push_bool(&mut out, true);
    push_bool(&mut out, false);
    assert_eq!(
        out,
        "x=0;18446744073709551615;cbf29ce484222325;[][7,10,4294967295][0,12]truefalse"
    );
}

#[test]
fn powers_of_two_are_recognized_exactly() {
    assert!(!usize_is_power_of_two(0));
    assert!(usize_is_power_of_two(1));
    assert!(usize_is_power_of_two(2));
    assert!(!usize_is_power_of_two(3));
    assert!(usize_is_power_of_two(4096));
    assert!(!usize_is_power_of_two(4095));
    assert!(usize_is_power_of_two(1usize << (usize::BITS - 1)));
    assert!(!usize_is_power_of_two(usize::MAX));
}
