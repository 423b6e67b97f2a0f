use sdsl::backend::sdsl_c::FunctionBuilder;
use sdsl::meta::common::{get_target_file_name, make_target_file_name, BuildError};
use sdsl::meta::common::params::{get_capture_group_name, Parameter};
use sdsl::text::{
    concat2, concat3, find_from, format_usize, join_strings, replace_str, trimmed_substring,
};

#[test]
fn target_file_names_carry_the_identifier() {
    assert_eq!(
        get_target_file_name("int_vector.hpp", "0123").unwrap(),
        "int_vector_0123.hpp"
    );
    assert_eq!(
        get_target_file_name("bit_vectors/rrr_vector.cpp", "ff00").unwrap(),
        "rrr_vector_ff00.cpp"
    );
    assert_eq!(make_target_file_name("io", "ab", "hpp"), "io_ab.hpp");
}

#[test]
fn target_file_name_requires_stem_and_extension() {
    match get_target_file_name("noextension", "id") {
        Err(BuildError::TargetFileName { path }) => assert_eq!(path, "noextension"),
        other => panic!("unexpected result: {:?}", other),
    }
    assert!(get_target_file_name(".hpp", "id").is_err());
}

#[test]
fn symbol_names_join_component_function_and_identifier() {
    let with_base = FunctionBuilder::new(Some("int_vector"), "0123");
    assert_eq!(with_base.full_name("get_element"), "int_vector_get_element_0123");
    let without_base = FunctionBuilder::new(None, "0123");
    assert_eq!(without_base.full_name("store_to_file"), "store_to_file_0123");
}

#[test]
fn capture_group_names_follow_the_slot_index() {
    assert_eq!(get_capture_group_name(0), "i0");
    assert_eq!(get_capture_group_name(12), "i12");
    let p = Parameter::integer(3, true, 2);
    assert_eq!(p.capture_group_name, "i3");
    assert!(p.has_default);
    assert!(!p.is_sdsl_type);
    assert_eq!(p.c_index, 2);
    let q = Parameter::sdsl(0, false, 1);
    assert!(q.is_sdsl_type);
}

#[test]
fn text_utilities_behave() {
    assert_eq!(format_usize(0), "0");
    assert_eq!(format_usize(105), "105");
    assert_eq!(concat2("a", "bc"), "abc");
    assert_eq!(concat3("a", "b", "c"), "abc");
    assert_eq!(find_from("abcabc", "bc", 0), Some(1));
    assert_eq!(find_from("abcabc", "bc", 2), Some(4));
    assert_eq!(find_from("abcabc", "zz", 0), None);
    assert_eq!(replace_str("aXbXc", "X", "--"), "a--b--c");
    assert_eq!(replace_str("aaa", "aa", "b"), "ba");
    assert_eq!(trimmed_substring("  hi  ", 0, 6), "hi");
    assert_eq!(trimmed_substring("a, b ,c", 2, 5), "b");
    let parts = vec![String::from("x"), String::from("y"), String::from("z")];
    assert_eq!(join_strings(&parts, ", "), "x, y, z");
    assert_eq!(join_strings(&Vec::new(), ", "), "");
}
