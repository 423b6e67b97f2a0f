use sdsl::interface::common::bit_patterns::{BitPattern, P0, P01, P1, P10};
use sdsl::interface::wavelet_trees::layouts::byte_tree::ByteTree;
use sdsl::interface::wavelet_trees::layouts::common::{
    BreadthFirstSearch, DepthFirstSearch, MemoryLayout,
};
use sdsl::meta::get_metas;

#[test]
fn registry_is_stable_and_complete() {
    let metas = get_metas();
    assert_eq!(metas.len(), 13);
    let paths: Vec<String> = metas.iter().map(|m| m.path()).collect();
    assert_eq!(
        paths,
        vec![
            "sdsl::int_vector::IntVector",
            "sdsl::rank_supports::RankSupportV",
            "sdsl::select_supports::SelectSupportMcl",
            "sdsl::bit_patterns::P0",
            "sdsl::bit_patterns::P1",
            "sdsl::bit_patterns::P10",
            "sdsl::bit_patterns::P01",
            "sdsl::bit_vectors::BitVector",
            "sdsl::bit_vectors::RrrVector",
            "sdsl::wavelet_trees::WtHuff",
            "sdsl::wavelet_trees::WtInt",
            "sdsl::wavelet_trees::layouts::BreadthFirstSearch",
            "sdsl::wavelet_trees::layouts::ByteTree",
        ]
    );
    let again = get_metas();
    let paths_again: Vec<String> = again.iter().map(|m| m.path()).collect();
    assert_eq!(paths, paths_again);
}

#[test]
fn descriptors_render_native_code() {
    let metas = get_metas();
    let values = vec![String::from("8")];
    assert_eq!(metas[0].c_code(&values), "sdsl::int_vector<8>");
    assert_eq!(metas[1].c_code(&vec![String::from("1, 1")]), "sdsl::rank_support_v<1, 1>");
    assert_eq!(metas[3].c_code(&Vec::new()), "0, 1");
    assert_eq!(metas[4].c_code(&Vec::new()), "1, 1");
    assert_eq!(metas[5].c_code(&Vec::new()), "10, 2");
    assert_eq!(metas[6].c_code(&Vec::new()), "1, 2");
    assert_eq!(metas[7].c_code(&Vec::new()), "sdsl::bit_vector");
    let rrr_values = vec![
        String::from("sdsl::int_vector<28>"),
        String::from("10"),
        String::from("2"),
    ];
    assert_eq!(metas[8].c_code(&rrr_values), "sdsl::rrr_vector<10, sdsl::int_vector<28>, 2>");
    assert_eq!(metas[11].c_code(&Vec::new()), "false");
}

#[test]
fn bit_pattern_markers_expose_pattern_and_code() {
    assert_eq!(P0 {}.bit_pattern(), (0, 1));
    assert_eq!(P1 {}.bit_pattern(), (1, 1));
    assert_eq!(P10 {}.bit_pattern(), (10, 2));
    assert_eq!(P01 {}.bit_pattern(), (1, 2));
    assert_eq!(P0 {}.c_code(), "0, 1");
    assert_eq!(P1 {}.c_code(), "1, 1");
    assert_eq!(P10 {}.c_code(), "10, 2");
    assert_eq!(P01 {}.c_code(), "1, 2");
    assert_eq!(BitPattern::to_string(&P0 {}), "P0");
    assert_eq!(BitPattern::to_string(&P01 {}), "P01");
}

#[test]
fn layout_markers_expose_their_flag() {
    assert!(!BreadthFirstSearch {}.lex_ordered());
    assert!(DepthFirstSearch {}.lex_ordered());
    assert_eq!(BreadthFirstSearch {}.c_code(), "false");
    assert_eq!(DepthFirstSearch {}.c_code(), "true");
    let tree = ByteTree { layout: BreadthFirstSearch {} };
    assert_eq!(tree.c_code(), "sdsl::byte_tree<false>");
    assert_eq!(tree.parameters_c_code(), vec![String::from("false")]);
}
