//! Descriptor of the select support structure.

use vstd::prelude::*;
use crate::meta::common::{
    self, FileSpecModel, FileSpecification, Meta, MetaKind, Replacement, ReplacementModel,
};
use crate::text::join_with;

verus! {

/// Descriptor of the select support: one non-defaulted structure parameter.
#[derive(Debug)]
pub struct SelectSupportMclMeta {
    pub parameters_default_meta: Vec<Meta>,
}

impl SelectSupportMclMeta {
    /// The descriptor without default parameter descriptors.
    pub fn new() -> (r: Self)
        ensures
            r.parameters_default_meta@.len() == 0,
    {
        SelectSupportMclMeta { parameters_default_meta: Vec::new() }
    }

    /// The descriptor with the given default parameter descriptors; used
    /// inside the default trees of the wavelet tree descriptors.
    pub fn new_parameterized(parameters_default_meta: Vec<Meta>) -> (r: Self)
        ensures
            r.parameters_default_meta == parameters_default_meta,
    {
        SelectSupportMclMeta { parameters_default_meta }
    }
}

/// The substitutions of the select support header: its identifier and its template
/// arguments.
pub open spec fn spec_header_replacements(
    values: Seq<Seq<char>>,
    id: Seq<char>,
) -> Seq<ReplacementModel> {
    seq![
        ReplacementModel {
            from: "#define SELECT_SUPPORT_MCL_ID _id"@,
            to: "#define SELECT_SUPPORT_MCL_ID _"@ + id,
        },
        ReplacementModel {
            from: "#define SELECT_SUPPORT_MCL_TEMPLATE 1, 1"@,
            to: "#define SELECT_SUPPORT_MCL_TEMPLATE "@ + join_with(values, ", "@),
        },
    ]
}

/// The files a select support instantiation materializes: its own source and
/// header, then the shared serialization pair.
pub open spec fn spec_file_specs(values: Seq<Seq<char>>, id: Seq<char>) -> Seq<FileSpecModel> {
    let c_code = common::spec_c_code_kind(MetaKind::SelectSupportMcl, values);
    seq![
        common::spec_source_spec("select_support_mcl.hpp"@, "select_support_mcl.cpp"@, "select_support_mcl"@, id),
        common::spec_header_spec(
            "select_support_mcl.hpp"@,
            "select_support_mcl"@,
            id,
            spec_header_replacements(values, id),
        ),
    ] + common::io::spec_file_specs(c_code, None, id)
}

/// Build the file specifications of a select support instantiation.
pub fn file_specifications(parameters_c_code: &Vec<String>, id: &str) -> (r: Vec<
    FileSpecification,
>)
    requires
        parameters_c_code@.len() == 1,
    ensures
        r.deep_view() == spec_file_specs(parameters_c_code.deep_view(), id@),
{
    let source = common::source_specification_for("select_support_mcl.hpp", "select_support_mcl.cpp", "select_support_mcl", id);
    let joined = crate::text::join_strings(parameters_c_code, ", ");
    let mut replacements: Vec<Replacement> = Vec::new();
    replacements.push(
        common::prefixed_replacement(
            "#define SELECT_SUPPORT_MCL_ID _id",
            "#define SELECT_SUPPORT_MCL_ID _",
            id,
        ),
    );
    replacements.push(
        common::prefixed_replacement(
            "#define SELECT_SUPPORT_MCL_TEMPLATE 1, 1",
            "#define SELECT_SUPPORT_MCL_TEMPLATE ",
            joined.as_str(),
        ),
    );
    let header = common::header_specification_for("select_support_mcl.hpp", "select_support_mcl", id, replacements);
    let c_code = c_code_exec(parameters_c_code);
    let io_specifications = common::io::file_specifications(c_code.as_str(), None, id);
    let mut specifications: Vec<FileSpecification> = Vec::new();
    specifications.push(source);
    specifications.push(header);
    let mut rest = io_specifications;
    specifications.append(&mut rest);
    proof {
        assert(specifications.deep_view()[1].replacements =~= spec_header_replacements(
            parameters_c_code.deep_view(),
            id@,
        ));
        assert(specifications.deep_view() =~= spec_file_specs(
            parameters_c_code.deep_view(),
            id@,
        ));
    }
    specifications
}

/// Render the native instantiation expression of the select support.
pub fn c_code_exec(parameters_c_code: &Vec<String>) -> (r: String)
    requires
        parameters_c_code@.len() == 1,
    ensures
        r@ == common::spec_c_code_kind(MetaKind::SelectSupportMcl, parameters_c_code.deep_view()),
{
    let params = parameters_exec();
    common::render_angle("sdsl::select_support_mcl", &params, parameters_c_code)
}

/// The declared parameter list of the select support.
pub fn parameters_exec() -> (r: Vec<common::params::Parameter>)
    ensures
        r.deep_view() == common::params_of(MetaKind::SelectSupportMcl),
{
    let mut r: Vec<common::params::Parameter> = Vec::new();
    r.push(common::params::Parameter::sdsl(0, false, 0));
    proof {
        assert(r.deep_view() =~= common::params_of(MetaKind::SelectSupportMcl));
    }
    r
}

} // verus!
