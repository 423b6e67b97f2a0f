//! Descriptor of the integer vector structure.

use vstd::prelude::*;
use crate::meta::common::{
    self, FileSpecModel, FileSpecification, MetaKind, Replacement, ReplacementModel,
};
use crate::text::join_with;

verus! {

/// Descriptor of the integer vector: one non-defaulted width parameter.
#[derive(Clone, Debug)]
pub struct IntVectorMeta {}

impl IntVectorMeta {
    /// The integer vector descriptor.
    pub fn new() -> (r: Self) {
        IntVectorMeta {  }
    }
}

/// The substitutions of the integer vector header: its template arguments
/// and its identifier.
pub open spec fn spec_header_replacements(
    values: Seq<Seq<char>>,
    id: Seq<char>,
) -> Seq<ReplacementModel> {
    seq![
        ReplacementModel {
            from: "#define INT_VECTOR_ID _id"@,
            to: "#define INT_VECTOR_ID _"@ + id,
        },
        ReplacementModel {
            from: "#define INT_VECTOR_TEMPLATE"@,
            to: "#define INT_VECTOR_TEMPLATE "@ + join_with(values, ", "@),
        },
    ]
}

/// The files an integer vector instantiation materializes: its own source
/// and header, then the shared utility and serialization pairs.
pub open spec fn spec_file_specs(values: Seq<Seq<char>>, id: Seq<char>) -> Seq<FileSpecModel> {
    let c_code = common::spec_c_code_kind(MetaKind::IntVector, values);
    seq![
        common::spec_source_spec("int_vector.hpp"@, "int_vector.cpp"@, "int_vector"@, id),
        common::spec_header_spec(
            "int_vector.hpp"@,
            "int_vector"@,
            id,
            spec_header_replacements(values, id),
        ),
    ] + common::util::spec_file_specs(c_code, id) + common::io::spec_file_specs(
        c_code,
        Some(c_code),
        id,
    )
}

/// Build the file specifications of an integer vector instantiation.
pub fn file_specifications(parameters_c_code: &Vec<String>, id: &str) -> (r: Vec<
    FileSpecification,
>)
    requires
        parameters_c_code@.len() == 1,
    ensures
        r.deep_view() == spec_file_specs(parameters_c_code.deep_view(), id@),
{
    let source = common::source_specification_for("int_vector.hpp", "int_vector.cpp", "int_vector", id);
    let joined = crate::text::join_strings(parameters_c_code, ", ");
    let mut replacements: Vec<Replacement> = Vec::new();
    replacements.push(
        common::prefixed_replacement(
            "#define INT_VECTOR_ID _id",
            "#define INT_VECTOR_ID _",
            id,
        ),
    );
    replacements.push(
        common::prefixed_replacement(
            "#define INT_VECTOR_TEMPLATE",
            "#define INT_VECTOR_TEMPLATE ",
            joined.as_str(),
        ),
    );
    let header = common::header_specification_for("int_vector.hpp", "int_vector", id, replacements);
    let c_code = c_code_exec(parameters_c_code);
    let util_specifications = common::util::file_specifications(c_code.as_str(), id);
    let io_specifications = common::io::file_specifications(
        c_code.as_str(),
        Some(c_code.as_str()),
        id,
    );
    let mut specifications: Vec<FileSpecification> = Vec::new();
    specifications.push(source);
    specifications.push(header);
    let mut rest = util_specifications;
    specifications.append(&mut rest);
    let mut rest = io_specifications;
    specifications.append(&mut rest);
    proof {
        assert(specifications.deep_view()[1].replacements =~= spec_header_replacements(
            parameters_c_code.deep_view(),
            id@,
        ));
        assert(specifications.deep_view() =~= spec_file_specs(
            parameters_c_code.deep_view(),
            id@,
        ));
    }
    specifications
}

/// Render the native instantiation expression of the integer vector.
pub fn c_code_exec(parameters_c_code: &Vec<String>) -> (r: String)
    requires
        parameters_c_code@.len() == 1,
    ensures
        r@ == common::spec_c_code_kind(MetaKind::IntVector, parameters_c_code.deep_view()),
{
    let params = parameters_exec();
    common::render_angle("sdsl::int_vector", &params, parameters_c_code)
}

/// The declared parameter list of the integer vector.
pub fn parameters_exec() -> (r: Vec<common::params::Parameter>)
    ensures
        r.deep_view() == common::params_of(MetaKind::IntVector),
{
    let mut r: Vec<common::params::Parameter> = Vec::new();
    r.push(common::params::Parameter::integer(0, false, 0));
    proof {
        assert(r.deep_view() =~= common::params_of(MetaKind::IntVector));
    }
    r
}

} // verus!
