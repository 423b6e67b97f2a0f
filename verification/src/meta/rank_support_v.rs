//! Descriptor of the rank support structure.

use vstd::prelude::*;
use crate::meta::common::{
    self, FileSpecModel, FileSpecification, Meta, MetaKind, Replacement, ReplacementModel,
};
use crate::text::join_with;

verus! {

/// Descriptor of the rank support: one non-defaulted structure parameter.
#[derive(Debug)]
pub struct RankSupportVMeta {
    pub parameters_default_meta: Vec<Meta>,
}

impl RankSupportVMeta {
    /// The descriptor without default parameter descriptors.
    pub fn new() -> (r: Self)
        ensures
            r.parameters_default_meta@.len() == 0,
    {
        RankSupportVMeta { parameters_default_meta: Vec::new() }
    }

    /// The descriptor with the given default parameter descriptors; used
    /// inside the default trees of the wavelet tree descriptors.
    pub fn new_parameterized(parameters_default_meta: Vec<Meta>) -> (r: Self)
        ensures
            r.parameters_default_meta == parameters_default_meta,
    {
        RankSupportVMeta { parameters_default_meta }
    }
}

/// The substitutions of the rank support header: its identifier and its template
/// arguments.
pub open spec fn spec_header_replacements(
    values: Seq<Seq<char>>,
    id: Seq<char>,
) -> Seq<ReplacementModel> {
    seq![
        ReplacementModel {
            from: "#define RANK_SUPPORT_V_ID _id"@,
            to: "#define RANK_SUPPORT_V_ID _"@ + id,
        },
        ReplacementModel {
            from: "#define RANK_SUPPORT_V_TEMPLATE 1, 1"@,
            to: "#define RANK_SUPPORT_V_TEMPLATE "@ + join_with(values, ", "@),
        },
    ]
}

/// The files a rank support instantiation materializes: its own source and
/// header, then the shared serialization pair.
pub open spec fn spec_file_specs(values: Seq<Seq<char>>, id: Seq<char>) -> Seq<FileSpecModel> {
    let c_code = common::spec_c_code_kind(MetaKind::RankSupportV, values);
    seq![
        common::spec_source_spec("rank_support_v.hpp"@, "rank_support_v.cpp"@, "rank_support_v"@, id),
        common::spec_header_spec(
            "rank_support_v.hpp"@,
            "rank_support_v"@,
            id,
            spec_header_replacements(values, id),
        ),
    ] + common::io::spec_file_specs(c_code, None, id)
}

/// Build the file specifications of a rank support instantiation.
pub fn file_specifications(parameters_c_code: &Vec<String>, id: &str) -> (r: Vec<
    FileSpecification,
>)
    requires
        parameters_c_code@.len() == 1,
    ensures
        r.deep_view() == spec_file_specs(parameters_c_code.deep_view(), id@),
{
    let source = common::source_specification_for("rank_support_v.hpp", "rank_support_v.cpp", "rank_support_v", id);
    let joined = crate::text::join_strings(parameters_c_code, ", ");
    let mut replacements: Vec<Replacement> = Vec::new();
    replacements.push(
        common::prefixed_replacement(
            "#define RANK_SUPPORT_V_ID _id",
            "#define RANK_SUPPORT_V_ID _",
            id,
        ),
    );
    replacements.push(
        common::prefixed_replacement(
            "#define RANK_SUPPORT_V_TEMPLATE 1, 1",
            "#define RANK_SUPPORT_V_TEMPLATE ",
            joined.as_str(),
        ),
    );
    let header = common::header_specification_for("rank_support_v.hpp", "rank_support_v", id, replacements);
    let c_code = c_code_exec(parameters_c_code);
    let io_specifications = common::io::file_specifications(c_code.as_str(), None, id);
    let mut specifications: Vec<FileSpecification> = Vec::new();
    specifications.push(source);
    specifications.push(header);
    let mut rest = io_specifications;
    specifications.append(&mut rest);
    proof {
        assert(specifications.deep_view()[1].replacements =~= spec_header_replacements(
            parameters_c_code.deep_view(),
            id@,
        ));
        assert(specifications.deep_view() =~= spec_file_specs(
            parameters_c_code.deep_view(),
            id@,
        ));
    }
    specifications
}

/// Render the native instantiation expression of the rank support.
pub fn c_code_exec(parameters_c_code: &Vec<String>) -> (r: String)
    requires
        parameters_c_code@.len() == 1,
    ensures
        r@ == common::spec_c_code_kind(MetaKind::RankSupportV, parameters_c_code.deep_view()),
{
    let params = parameters_exec();
    common::render_angle("sdsl::rank_support_v", &params, parameters_c_code)
}

/// The declared parameter list of the rank support.
pub fn parameters_exec() -> (r: Vec<common::params::Parameter>)
    ensures
        r.deep_view() == common::params_of(MetaKind::RankSupportV),
{
    let mut r: Vec<common::params::Parameter> = Vec::new();
    r.push(common::params::Parameter::sdsl(0, false, 0));
    proof {
        assert(r.deep_view() =~= common::params_of(MetaKind::RankSupportV));
    }
    r
}

} // verus!
