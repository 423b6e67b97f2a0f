//! Descriptor of the Huffman-shaped wavelet tree structure.

use vstd::prelude::*;
use crate::meta::common::{
    self, BuildError, FileSpecModel, FileSpecification, Meta, MetaKind, MetaModel, Replacement,
    ReplacementModel, leaf_model, models_of, spec_c_sorted, params_of,
};
use crate::text::join_with;

verus! {

/// Descriptor of the Huffman wavelet tree: five defaulted structure
/// parameters (bit vector, rank support, two select supports, tree
/// layout).
#[derive(Debug)]
pub struct WtHuffMeta {
    pub parameters_default_meta: Vec<Meta>,
}

/// The default parameter descriptors of the Huffman wavelet tree: a plain
/// bit vector, rank support over ones, select support over ones and over
/// zeros, and a breadth-first byte tree.
pub open spec fn spec_default_models() -> Seq<MetaModel> {
    seq![
        leaf_model(MetaKind::BitVector),
        MetaModel {
            kind: MetaKind::RankSupportV,
            value: seq![],
            defaults: seq![leaf_model(MetaKind::P1)],
        },
        MetaModel {
            kind: MetaKind::SelectSupportMcl,
            value: seq![],
            defaults: seq![leaf_model(MetaKind::P1)],
        },
        MetaModel {
            kind: MetaKind::SelectSupportMcl,
            value: seq![],
            defaults: seq![leaf_model(MetaKind::P0)],
        },
        super::layouts::byte_tree::spec_default_model(),
    ]
}

/// The model of the Huffman wavelet tree descriptor.
pub open spec fn spec_model() -> MetaModel {
    MetaModel { kind: MetaKind::WtHuff, value: seq![], defaults: spec_default_models() }
}

impl WtHuffMeta {
    /// The Huffman wavelet tree descriptor with its default parameter
    /// tree.
    pub fn new() -> (r: Self)
        ensures
            models_of(r.parameters_default_meta@) == spec_default_models(),
    {
        let mut defaults: Vec<Meta> = Vec::new();
        defaults.push(
            Meta::BitVector(crate::meta::bit_vectors::bit_vector::BitVectorMeta::new()),
        );
        let mut p1: Vec<Meta> = Vec::new();
        p1.push(Meta::P1(common::bit_patterns::P1Meta::new()));
        proof {
            common::lemma_models_of(p1@);
            assert(models_of(p1@) =~= seq![leaf_model(MetaKind::P1)]);
        }
        defaults.push(
            Meta::RankSupportV(
                crate::meta::rank_support_v::RankSupportVMeta::new_parameterized(p1),
            ),
        );
        let mut p1: Vec<Meta> = Vec::new();
        p1.push(Meta::P1(common::bit_patterns::P1Meta::new()));
        proof {
            common::lemma_models_of(p1@);
            assert(models_of(p1@) =~= seq![leaf_model(MetaKind::P1)]);
        }
        defaults.push(
            Meta::SelectSupportMcl(
                crate::meta::select_support_mcl::SelectSupportMclMeta::new_parameterized(p1),
            ),
        );
        let mut p0: Vec<Meta> = Vec::new();
        p0.push(Meta::P0(common::bit_patterns::P0Meta::new()));
        proof {
            common::lemma_models_of(p0@);
            assert(models_of(p0@) =~= seq![leaf_model(MetaKind::P0)]);
        }
        defaults.push(
            Meta::SelectSupportMcl(
                crate::meta::select_support_mcl::SelectSupportMclMeta::new_parameterized(p0),
            ),
        );
        let mut bfs: Vec<Meta> = Vec::new();
        bfs.push(
            Meta::BreadthFirstSearch(super::layouts::common::BreadthFirstSearchMeta::new()),
        );
        proof {
            common::lemma_models_of(bfs@);
            assert(models_of(bfs@) =~= seq![leaf_model(MetaKind::BreadthFirstSearch)]);
        }
        defaults.push(
            Meta::ByteTree(super::layouts::byte_tree::ByteTreeMeta::new_parameterized(bfs)),
        );
        proof {
            common::lemma_models_of(defaults@);
            assert(models_of(defaults@) =~= spec_default_models());
        }
        WtHuffMeta { parameters_default_meta: defaults }
    }
}

/// The substitutions of the wavelet tree header: its identifier, its
/// template arguments in native order, and the include of its tree layout
/// header.
pub open spec fn spec_header_replacements(
    values: Seq<Seq<char>>,
    tree_strategy_target: Seq<char>,
    id: Seq<char>,
) -> Seq<ReplacementModel> {
    seq![
        ReplacementModel { from: "#define WT_HUFF_ID _id"@, to: "#define WT_HUFF_ID _"@ + id },
        ReplacementModel {
            from:
                "#define WT_HUFF_TEMPLATE sdsl::bit_vector, sdsl::bit_vector::rank_1_type, sdsl::bit_vector::select_1_type, sdsl::bit_vector::select_0_type, sdsl::byte_tree<>"@,
            to: "#define WT_HUFF_TEMPLATE "@ + join_with(
                spec_c_sorted(params_of(MetaKind::WtHuff), values),
                ", "@,
            ),
        },
        common::include_repl("byte_tree.hpp"@, tree_strategy_target),
    ]
}

/// The files a wavelet tree instantiation materializes: its own source and
/// header, the shared bit vector files, the serialization pair, and the
/// already-resolved header of its tree layout parameter, spliced in
/// unmodified. `None` when no tree layout file specifications were
/// supplied.
pub open spec fn spec_file_specs(
    values: Seq<Seq<char>>,
    nested: Seq<Seq<FileSpecModel>>,
    id: Seq<char>,
) -> Option<Seq<FileSpecModel>> {
    if nested.len() == 0 || nested.last().len() == 0 {
        None
    } else {
        let tree_strategy = nested.last()[0];
        let c_code = common::spec_c_code_kind(MetaKind::WtHuff, values);
        Some(
            seq![
                common::spec_source_spec("wt_huff.hpp"@, "wt_huff.cpp"@, "wt_huff"@, id),
                common::spec_header_spec(
                    "wt_huff.hpp"@,
                    "wt_huff"@,
                    id,
                    spec_header_replacements(values, tree_strategy.target_file_name, id),
                ),
            ] + crate::meta::bit_vectors::bit_vector::spec_file_specs()
                + common::io::spec_file_specs(c_code, None, id) + seq![tree_strategy],
        )
    }
}

/// Build the file specifications of a wavelet tree instantiation.
pub fn file_specifications(
    parameters_c_code: &Vec<String>,
    parameters_file_specs: &Vec<Vec<FileSpecification>>,
    id: &str,
) -> (r: Result<Vec<FileSpecification>, BuildError>)
    requires
        parameters_c_code@.len() == 5,
    ensures
        match r {
            Ok(v) => spec_file_specs(
                parameters_c_code.deep_view(),
                parameters_file_specs.deep_view(),
                id@,
            ) == Some(v.deep_view()),
            Err(e) => spec_file_specs(
                parameters_c_code.deep_view(),
                parameters_file_specs.deep_view(),
                id@,
            ) is None && e is MissingNestedFileSpecs,
        },
{
    if parameters_file_specs.len() == 0 {
        return Err(BuildError::MissingNestedFileSpecs);
    }
    let last = &parameters_file_specs[parameters_file_specs.len() - 1];
    if last.len() == 0 {
        return Err(BuildError::MissingNestedFileSpecs);
    }
    let tree_strategy = common::duplicate_file(&last[0]);
    let source = common::source_specification_for("wt_huff.hpp", "wt_huff.cpp", "wt_huff", id);
    let params = parameters_exec();
    let sorted = common::c_sorted_parameters(parameters_c_code, &params);
    let joined = crate::text::join_strings(&sorted, ", ");
    let mut replacements: Vec<Replacement> = Vec::new();
    replacements.push(
        common::prefixed_replacement("#define WT_HUFF_ID _id", "#define WT_HUFF_ID _", id),
    );
    replacements.push(
        common::prefixed_replacement(
            "#define WT_HUFF_TEMPLATE sdsl::bit_vector, sdsl::bit_vector::rank_1_type, sdsl::bit_vector::select_1_type, sdsl::bit_vector::select_0_type, sdsl::byte_tree<>",
            "#define WT_HUFF_TEMPLATE ",
            joined.as_str(),
        ),
    );
    replacements.push(
        common::include_replacement("byte_tree.hpp", tree_strategy.target_file_name.as_str()),
    );
    let header = common::header_specification_for("wt_huff.hpp", "wt_huff", id, replacements);
    let bit_vector_specs = crate::meta::bit_vectors::bit_vector::file_specifications();
    let c_code = c_code_exec(parameters_c_code);
    let io_specifications = common::io::file_specifications(c_code.as_str(), None, id);
    let mut specifications: Vec<FileSpecification> = Vec::new();
    specifications.push(source);
    specifications.push(header);
    let mut rest = bit_vector_specs;
    specifications.append(&mut rest);
    let mut rest = io_specifications;
    specifications.append(&mut rest);
    specifications.push(tree_strategy);
    proof {
        let nested = parameters_file_specs.deep_view();
        assert(nested.len() == parameters_file_specs@.len());
        assert(nested.last() == parameters_file_specs@[nested.len() - 1].deep_view());
        assert(specifications.deep_view()[1].replacements =~= spec_header_replacements(
            parameters_c_code.deep_view(),
            nested.last()[0].target_file_name,
            id@,
        ));
        assert(specifications.deep_view() =~= spec_file_specs(
            parameters_c_code.deep_view(),
            nested,
            id@,
        )->0);
    }
    Ok(specifications)
}

/// Render the native instantiation expression of the Huffman wavelet tree.
pub fn c_code_exec(parameters_c_code: &Vec<String>) -> (r: String)
    requires
        parameters_c_code@.len() == 5,
    ensures
        r@ == common::spec_c_code_kind(MetaKind::WtHuff, parameters_c_code.deep_view()),
{
    let params = parameters_exec();
    common::render_angle("sdsl::wt_huff", &params, parameters_c_code)
}

/// The declared parameter list of the Huffman wavelet tree.
pub fn parameters_exec() -> (r: Vec<common::params::Parameter>)
    ensures
        r.deep_view() == common::params_of(MetaKind::WtHuff),
{
    let mut r: Vec<common::params::Parameter> = Vec::new();
    r.push(common::params::Parameter::sdsl(0, true, 0));
    r.push(common::params::Parameter::sdsl(1, true, 1));
    r.push(common::params::Parameter::sdsl(2, true, 2));
    r.push(common::params::Parameter::sdsl(3, true, 3));
    r.push(common::params::Parameter::sdsl(4, true, 4));
    proof {
        assert(r.deep_view() =~= common::params_of(MetaKind::WtHuff));
    }
    r
}

} // verus!
