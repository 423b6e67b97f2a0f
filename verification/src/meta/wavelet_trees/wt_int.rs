//! Descriptor of the integer wavelet tree structure.

use vstd::prelude::*;
use crate::meta::common::{
    self, FileSpecModel, FileSpecification, Meta, MetaKind, MetaModel, Replacement,
    ReplacementModel, leaf_model, models_of, spec_c_sorted, params_of,
};
use crate::text::join_with;

verus! {

/// Descriptor of the integer wavelet tree: four defaulted structure
/// parameters (bit vector, rank support, two select supports).
#[derive(Debug)]
pub struct WtIntMeta {
    pub parameters_default_meta: Vec<Meta>,
}

/// The default parameter descriptors of the integer wavelet tree: a plain
/// bit vector, rank support over ones, select support over ones and over
/// zeros.
pub open spec fn spec_default_models() -> Seq<MetaModel> {
    seq![
        leaf_model(MetaKind::BitVector),
        MetaModel {
            kind: MetaKind::RankSupportV,
            value: seq![],
            defaults: seq![leaf_model(MetaKind::P1)],
        },
        MetaModel {
            kind: MetaKind::SelectSupportMcl,
            value: seq![],
            defaults: seq![leaf_model(MetaKind::P1)],
        },
        MetaModel {
            kind: MetaKind::SelectSupportMcl,
            value: seq![],
            defaults: seq![leaf_model(MetaKind::P0)],
        },
    ]
}

/// The model of the integer wavelet tree descriptor.
pub open spec fn spec_model() -> MetaModel {
    MetaModel { kind: MetaKind::WtInt, value: seq![], defaults: spec_default_models() }
}

impl WtIntMeta {
    /// The integer wavelet tree descriptor with its default parameter
    /// tree.
    pub fn new() -> (r: Self)
        ensures
            models_of(r.parameters_default_meta@) == spec_default_models(),
    {
        let mut defaults: Vec<Meta> = Vec::new();
        defaults.push(
            Meta::BitVector(crate::meta::bit_vectors::bit_vector::BitVectorMeta::new()),
        );
        let mut p1: Vec<Meta> = Vec::new();
        p1.push(Meta::P1(common::bit_patterns::P1Meta::new()));
        proof {
            common::lemma_models_of(p1@);
            assert(models_of(p1@) =~= seq![leaf_model(MetaKind::P1)]);
        }
        defaults.push(
            Meta::RankSupportV(
                crate::meta::rank_support_v::RankSupportVMeta::new_parameterized(p1),
            ),
        );
        let mut p1: Vec<Meta> = Vec::new();
        p1.push(Meta::P1(common::bit_patterns::P1Meta::new()));
        proof {
            common::lemma_models_of(p1@);
            assert(models_of(p1@) =~= seq![leaf_model(MetaKind::P1)]);
        }
        defaults.push(
            Meta::SelectSupportMcl(
                crate::meta::select_support_mcl::SelectSupportMclMeta::new_parameterized(p1),
            ),
        );
        let mut p0: Vec<Meta> = Vec::new();
        p0.push(Meta::P0(common::bit_patterns::P0Meta::new()));
        proof {
            common::lemma_models_of(p0@);
            assert(models_of(p0@) =~= seq![leaf_model(MetaKind::P0)]);
        }
        defaults.push(
            Meta::SelectSupportMcl(
                crate::meta::select_support_mcl::SelectSupportMclMeta::new_parameterized(p0),
            ),
        );
        proof {
            common::lemma_models_of(defaults@);
            assert(models_of(defaults@) =~= spec_default_models());
        }
        WtIntMeta { parameters_default_meta: defaults }
    }
}

/// The substitutions of the integer wavelet tree header: its identifier
/// and its template arguments in native order.
pub open spec fn spec_header_replacements(
    values: Seq<Seq<char>>,
    id: Seq<char>,
) -> Seq<ReplacementModel> {
    seq![
        ReplacementModel { from: "#define WT_INT_ID _id"@, to: "#define WT_INT_ID _"@ + id },
        ReplacementModel {
            from:
                "#define WT_INT_TEMPLATE sdsl::bit_vector, sdsl::bit_vector::rank_1_type, sdsl::bit_vector::select_1_type, sdsl::bit_vector::select_0_type"@,
            to: "#define WT_INT_TEMPLATE "@ + join_with(
                spec_c_sorted(params_of(MetaKind::WtInt), values),
                ", "@,
            ),
        },
    ]
}

/// The files an integer wavelet tree instantiation materializes: its own
/// source and header, the shared bit vector files, and the serialization
/// pair.
pub open spec fn spec_file_specs(values: Seq<Seq<char>>, id: Seq<char>) -> Seq<FileSpecModel> {
    let c_code = common::spec_c_code_kind(MetaKind::WtInt, values);
    seq![
        common::spec_source_spec("wt_int.hpp"@, "wt_int.cpp"@, "wt_int"@, id),
        common::spec_header_spec(
            "wt_int.hpp"@,
            "wt_int"@,
            id,
            spec_header_replacements(values, id),
        ),
    ] + crate::meta::bit_vectors::bit_vector::spec_file_specs() + common::io::spec_file_specs(
        c_code,
        None,
        id,
    )
}

/// Build the file specifications of an integer wavelet tree instantiation.
pub fn file_specifications(parameters_c_code: &Vec<String>, id: &str) -> (r: Vec<
    FileSpecification,
>)
    requires
        parameters_c_code@.len() == 4,
    ensures
        r.deep_view() == spec_file_specs(parameters_c_code.deep_view(), id@),
{
    let source = common::source_specification_for("wt_int.hpp", "wt_int.cpp", "wt_int", id);
    let params = parameters_exec();
    let sorted = common::c_sorted_parameters(parameters_c_code, &params);
    let joined = crate::text::join_strings(&sorted, ", ");
    let mut replacements: Vec<Replacement> = Vec::new();
    replacements.push(
        common::prefixed_replacement("#define WT_INT_ID _id", "#define WT_INT_ID _", id),
    );
    replacements.push(
        common::prefixed_replacement(
            "#define WT_INT_TEMPLATE sdsl::bit_vector, sdsl::bit_vector::rank_1_type, sdsl::bit_vector::select_1_type, sdsl::bit_vector::select_0_type",
            "#define WT_INT_TEMPLATE ",
            joined.as_str(),
        ),
    );
    let header = common::header_specification_for("wt_int.hpp", "wt_int", id, replacements);
    let bit_vector_specs = crate::meta::bit_vectors::bit_vector::file_specifications();
    let c_code = c_code_exec(parameters_c_code);
    let io_specifications = common::io::file_specifications(c_code.as_str(), None, id);
    let mut specifications: Vec<FileSpecification> = Vec::new();
    specifications.push(source);
    specifications.push(header);
    let mut rest = bit_vector_specs;
    specifications.append(&mut rest);
    let mut rest = io_specifications;
    specifications.append(&mut rest);
    proof {
        assert(specifications.deep_view()[1].replacements =~= spec_header_replacements(
            parameters_c_code.deep_view(),
            id@,
        ));
        assert(specifications.deep_view() =~= spec_file_specs(
            parameters_c_code.deep_view(),
            id@,
        ));
    }
    specifications
}

/// Render the native instantiation expression of the integer wavelet
/// tree.
pub fn c_code_exec(parameters_c_code: &Vec<String>) -> (r: String)
    requires
        parameters_c_code@.len() == 4,
    ensures
        r@ == common::spec_c_code_kind(MetaKind::WtInt, parameters_c_code.deep_view()),
{
    let params = parameters_exec();
    common::render_angle("sdsl::wt_int", &params, parameters_c_code)
}

/// The declared parameter list of the integer wavelet tree.
pub fn parameters_exec() -> (r: Vec<common::params::Parameter>)
    ensures
        r.deep_view() == common::params_of(MetaKind::WtInt),
{
    let mut r: Vec<common::params::Parameter> = Vec::new();
    r.push(common::params::Parameter::sdsl(0, true, 0));
    r.push(common::params::Parameter::sdsl(1, true, 1));
    r.push(common::params::Parameter::sdsl(2, true, 2));
    r.push(common::params::Parameter::sdsl(3, true, 3));
    proof {
        assert(r.deep_view() =~= common::params_of(MetaKind::WtInt));
    }
    r
}

} // verus!
