use sdsl::backend::analyse::{analyse, CodeMeta};
use sdsl::backend::sdsl_c::specification::get_id;
use sdsl::meta::common::{BuildError, CFileType};

fn run(mir: &str) -> Vec<sdsl::backend::sdsl_c::specification::Specification> {
    analyse(&CodeMeta { mir: String::from(mir) }).unwrap()
}

#[test]
fn foo() {
    let x = analyse(&CodeMeta {
        mir: "        let _44: sdsl::wavelet_trees::WtHuff; ".to_string(),
    })
    .unwrap();
    println!("{:#?}", x);
}

#[test]
fn int_vector_scenario() {
    let specs = run(" sdsl::int_vector::IntVector<1_u32>;");
    assert_eq!(specs.len(), 1);
    let spec = &specs[0];
    assert_eq!(spec.c_code, "sdsl::int_vector<1>");
    let id = get_id("sdsl::int_vector<1>");
    assert_eq!(spec.id, id);
    assert_eq!(spec.files[0].target_file_name, format!("int_vector_{}.cpp", id));
    assert_eq!(spec.files[0].c_file_type, CFileType::Cpp);
    assert_eq!(spec.files[1].target_file_name, format!("int_vector_{}.hpp", id));
    assert_eq!(spec.files[1].c_file_type, CFileType::Hpp);
}

#[test]
fn bare_wt_huff_equals_explicit_defaults() {
    let bare = run("        let _44: sdsl::wavelet_trees::WtHuff; ");
    assert_eq!(bare.len(), 1);
    let explicit = run(
        " sdsl::wavelet_trees::WtHuff<sdsl::bit_vectors::BitVector, \
         sdsl::rank_supports::RankSupportV<sdsl::bit_patterns::P1>, \
         sdsl::select_supports::SelectSupportMcl<sdsl::bit_patterns::P1>, \
         sdsl::select_supports::SelectSupportMcl<sdsl::bit_patterns::P0>, \
         sdsl::wavelet_trees::layouts::ByteTree<sdsl::wavelet_trees::layouts::BreadthFirstSearch>>;",
    );
    assert_eq!(explicit.len(), 1);
    assert_eq!(bare[0], explicit[0]);
    assert_eq!(
        bare[0].c_code,
        "sdsl::wt_huff<sdsl::bit_vector, sdsl::rank_support_v<1, 1>, \
         sdsl::select_support_mcl<1, 1>, sdsl::select_support_mcl<0, 1>, sdsl::byte_tree<false>>"
    );
}

#[test]
fn rrr_vector_embeds_nested_int_vector() {
    let specs = run(" sdsl::bit_vectors::RrrVector<sdsl::int_vector::IntVector<28_u32>, 10_u32, 2_u32>;");
    assert_eq!(specs.len(), 1);
    let outer = &specs[0];
    assert_eq!(outer.c_code, "sdsl::rrr_vector<10, sdsl::int_vector<28>, 2>");
    assert!(!outer.c_code.contains("IntVector"));
    let inner = run(" sdsl::int_vector::IntVector<28_u32>;");
    assert_eq!(inner.len(), 1);
    for file in &inner[0].files {
        assert!(outer.files.contains(file));
    }
}

#[test]
fn elided_trailing_defaults_match() {
    let one = run(" sdsl::wavelet_trees::WtHuff<sdsl::bit_vectors::BitVector>;");
    assert_eq!(one.len(), 1);
    let bare = run(" sdsl::wavelet_trees::WtHuff;");
    assert_eq!(one, bare);
}

#[test]
fn extra_parameter_does_not_match() {
    let specs = run(" sdsl::int_vector::IntVector<1_u32, 2_u32>;");
    assert_eq!(specs.len(), 0);
}

#[test]
fn elided_required_parameter_does_not_match() {
    let specs = run(" sdsl::bit_vectors::RrrVector<sdsl::int_vector::IntVector<28_u32>, 10_u32>;");
    assert_eq!(specs.len(), 0);
}

#[test]
fn identical_instantiations_share_an_identifier() {
    let a = run(" sdsl::bit_vectors::RrrVector<sdsl::int_vector::IntVector<28_u32>,10_u32,2_u32>;");
    let b = run(" sdsl::bit_vectors::RrrVector<  sdsl::int_vector::IntVector<28_u32> , 10_u32 , 2_u32 >;");
    assert_eq!(a.len(), 1);
    assert_eq!(b.len(), 1);
    assert_eq!(a[0].c_code, b[0].c_code);
    assert_eq!(a[0].id, b[0].id);
}

#[test]
fn different_instantiations_get_different_identifiers() {
    let one = run(" sdsl::int_vector::IntVector<1_u32>;");
    let other = run(" sdsl::int_vector::IntVector<28_u32>;");
    assert_ne!(one[0].id, other[0].id);
    assert_ne!(get_id("sdsl::int_vector<1>"), get_id("sdsl::int_vector<28>"));
}

#[test]
fn unresolvable_nested_parameter_is_an_error() {
    let r = analyse(&CodeMeta {
        mir: String::from(
            " sdsl::bit_vectors::RrrVector<sdsl::unknown::Thing, 10_u32, 2_u32>;",
        ),
    });
    match r {
        Err(BuildError::AmbiguousNestedType { value, count }) => {
            assert_eq!(value, "sdsl::unknown::Thing");
            assert_eq!(count, 0);
        },
        other => panic!("unexpected result: {:?}", other),
    }
}

#[test]
fn nested_without_layout_files_is_an_error() {
    let r = analyse(&CodeMeta {
        mir: String::from(
            " sdsl::wavelet_trees::WtHuff<sdsl::bit_patterns::P0, sdsl::bit_patterns::P0, \
             sdsl::bit_patterns::P0, sdsl::bit_patterns::P0, sdsl::bit_patterns::P0>;",
        ),
    });
    match r {
        Err(BuildError::MissingNestedFileSpecs) => {},
        other => panic!("unexpected result: {:?}", other),
    }
}

#[test]
fn empty_text_yields_nothing() {
    assert_eq!(run("").len(), 0);
    assert_eq!(run("fn main() {}").len(), 0);
}

#[test]
fn identifier_is_32_hex_characters() {
    let id = get_id("sdsl::bit_vector");
    assert_eq!(id.len(), 32);
    assert!(id.chars().all(|c| c.is_ascii_hexdigit()));
}

#[test]
fn bare_wt_int_uses_its_defaults() {
    let specs = run(" sdsl::wavelet_trees::WtInt;");
    assert_eq!(specs.len(), 1);
    assert_eq!(
        specs[0].c_code,
        "sdsl::wt_int<sdsl::bit_vector, sdsl::rank_support_v<1, 1>, \
         sdsl::select_support_mcl<1, 1>, sdsl::select_support_mcl<0, 1>>"
    );
}

#[test]
fn select_support_resolves_its_pattern() {
    let specs = run(" sdsl::select_supports::SelectSupportMcl<sdsl::bit_patterns::P10>;");
    assert_eq!(specs.len(), 1);
    assert_eq!(specs[0].c_code, "sdsl::select_support_mcl<10, 2>");
    let header = &specs[0].files[1];
    assert_eq!(
        header.target_file_name,
        format!("select_support_mcl_{}.hpp", specs[0].id)
    );
    assert!(header.replacements.iter().any(
        |r| r.from == "#define SELECT_SUPPORT_MCL_TEMPLATE 1, 1"
            && r.to == "#define SELECT_SUPPORT_MCL_TEMPLATE 10, 2"
    ));
}

#[test]
fn runaway_nesting_hits_the_recursion_bound() {
    let mut value = String::from("sdsl::wavelet_trees::WtHuff");
    for _ in 0..20 {
        value = format!("sdsl::wavelet_trees::WtHuff<{}>", value);
    }
    let r = analyse(&CodeMeta { mir: format!(" {};", value) });
    match r {
        Err(BuildError::RecursionLimit { value: _ }) => {},
        other => panic!("unexpected result: {:?}", other),
    }
}
