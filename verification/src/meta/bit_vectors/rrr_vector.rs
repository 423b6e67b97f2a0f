//! Descriptor of the RRR-compressed bit vector structure.

use vstd::prelude::*;
use crate::meta::common::{
    self, FileSpecModel, FileSpecification, MetaKind, Replacement, ReplacementModel,
    spec_c_sorted, params_of,
};
use crate::text::join_with;

verus! {

/// Descriptor of the compressed bit vector: a nested integer vector, a
/// block size and a rank sample rate, none defaulted.
#[derive(Clone, Debug)]
pub struct RrrVectorMeta {}

impl RrrVectorMeta {
    /// The compressed bit vector descriptor.
    pub fn new() -> (r: Self) {
        RrrVectorMeta {  }
    }
}

/// The substitutions of the compressed bit vector header: its identifier
/// and its template arguments in native order.
pub open spec fn spec_header_replacements(
    values: Seq<Seq<char>>,
    id: Seq<char>,
) -> Seq<ReplacementModel> {
    seq![
        ReplacementModel {
            from: "#define RRR_VECTOR_ID _id"@,
            to: "#define RRR_VECTOR_ID _"@ + id,
        },
        ReplacementModel {
            from: "#define RRR_VECTOR_TEMPLATE 63, sdsl::int_vector<>, 32"@,
            to: "#define RRR_VECTOR_TEMPLATE "@ + join_with(
                spec_c_sorted(params_of(MetaKind::RrrVector), values),
                ", "@,
            ),
        },
    ]
}

/// The files a compressed bit vector instantiation materializes: its own
/// source and header, the shared bit vector files, the serialization pair,
/// and the complete file lists of its nested structure parameters, spliced
/// in unmodified.
pub open spec fn spec_file_specs(
    values: Seq<Seq<char>>,
    nested: Seq<Seq<FileSpecModel>>,
    id: Seq<char>,
) -> Seq<FileSpecModel> {
    let c_code = common::spec_c_code_kind(MetaKind::RrrVector, values);
    seq![
        common::spec_source_spec(
            "bit_vectors/rrr_vector.hpp"@,
            "bit_vectors/rrr_vector.cpp"@,
            "rrr_vector"@,
            id,
        ),
        common::spec_header_spec(
            "bit_vectors/rrr_vector.hpp"@,
            "rrr_vector"@,
            id,
            spec_header_replacements(values, id),
        ),
    ] + crate::meta::bit_vectors::bit_vector::spec_file_specs() + common::io::spec_file_specs(
        c_code,
        None,
        id,
    ) + concat_files(nested)
}

/// Nested file specification lists, concatenated in parameter order.
pub open spec fn concat_files(nested: Seq<Seq<FileSpecModel>>) -> Seq<FileSpecModel>
    decreases nested,
{
    if nested.len() == 0 {
        seq![]
    } else {
        concat_files(nested.drop_last()) + nested.last()
    }
}

/// Build the file specifications of a compressed bit vector instantiation.
pub fn file_specifications(
    parameters_c_code: &Vec<String>,
    parameters_file_specs: &Vec<Vec<FileSpecification>>,
    id: &str,
) -> (r: Vec<FileSpecification>)
    requires
        parameters_c_code@.len() == 3,
    ensures
        r.deep_view() == spec_file_specs(
            parameters_c_code.deep_view(),
            parameters_file_specs.deep_view(),
            id@,
        ),
{
    let source = common::source_specification_for(
        "bit_vectors/rrr_vector.hpp",
        "bit_vectors/rrr_vector.cpp",
        "rrr_vector",
        id,
    );
    let params = parameters_exec();
    let sorted = common::c_sorted_parameters(parameters_c_code, &params);
    let joined = crate::text::join_strings(&sorted, ", ");
    let mut replacements: Vec<Replacement> = Vec::new();
    replacements.push(
        common::prefixed_replacement(
            "#define RRR_VECTOR_ID _id",
            "#define RRR_VECTOR_ID _",
            id,
        ),
    );
    replacements.push(
        common::prefixed_replacement(
            "#define RRR_VECTOR_TEMPLATE 63, sdsl::int_vector<>, 32",
            "#define RRR_VECTOR_TEMPLATE ",
            joined.as_str(),
        ),
    );
    let header = common::header_specification_for(
        "bit_vectors/rrr_vector.hpp",
        "rrr_vector",
        id,
        replacements,
    );
    let bit_vector_specs = crate::meta::bit_vectors::bit_vector::file_specifications();
    let c_code = c_code_exec(parameters_c_code);
    let io_specifications = common::io::file_specifications(c_code.as_str(), None, id);
    let mut specifications: Vec<FileSpecification> = Vec::new();
    specifications.push(source);
    specifications.push(header);
    let mut rest = bit_vector_specs;
    specifications.append(&mut rest);
    let mut rest = io_specifications;
    specifications.append(&mut rest);
    let ghost base = specifications.deep_view();
    let ghost nested = parameters_file_specs.deep_view();
    let mut k: usize = 0;
    proof {
        assert(nested.take(0) =~= Seq::<Seq<FileSpecModel>>::empty());
        assert(base + concat_files(nested.take(0)) =~= base);
    }
    while k < parameters_file_specs.len()
        invariant
            0 <= k <= parameters_file_specs@.len(),
            nested == parameters_file_specs.deep_view(),
            nested.len() == parameters_file_specs@.len(),
            forall|j: int|
                0 <= j < parameters_file_specs@.len() ==> (
                #[trigger] parameters_file_specs@[j]).deep_view() == nested[j],
            specifications.deep_view() == base + concat_files(nested.take(k as int)),
        decreases parameters_file_specs@.len() - k,
    {
        let ghost before = specifications.deep_view();
        let mut files = crate::backend::sdsl_c::specification::duplicate_files(
            &parameters_file_specs[k],
        );
        specifications.append(&mut files);
        proof {
            assert(nested.take(k + 1).drop_last() =~= nested.take(k as int));
            assert(nested.take(k + 1).last() == nested[k as int]);
            assert(specifications.deep_view() =~= before + nested[k as int]);
        }
        k += 1;
    }
    proof {
        assert(nested.take(nested.len() as int) =~= nested);
        assert(specifications.deep_view()[1].replacements =~= spec_header_replacements(
            parameters_c_code.deep_view(),
            id@,
        ));
        assert(specifications.deep_view() =~= spec_file_specs(
            parameters_c_code.deep_view(),
            nested,
            id@,
        ));
    }
    specifications
}

/// Render the native instantiation expression of the compressed bit
/// vector.
pub fn c_code_exec(parameters_c_code: &Vec<String>) -> (r: String)
    requires
        parameters_c_code@.len() == 3,
    ensures
        r@ == common::spec_c_code_kind(MetaKind::RrrVector, parameters_c_code.deep_view()),
{
    let params = parameters_exec();
    common::render_angle("sdsl::rrr_vector", &params, parameters_c_code)
}

/// The declared parameter list of the compressed bit vector.
pub fn parameters_exec() -> (r: Vec<common::params::Parameter>)
    ensures
        r.deep_view() == common::params_of(MetaKind::RrrVector),
{
    let mut r: Vec<common::params::Parameter> = Vec::new();
    r.push(common::params::Parameter::sdsl(0, false, 1));
    r.push(common::params::Parameter::integer(1, false, 0));
    r.push(common::params::Parameter::integer(2, false, 2));
    proof {
        assert(r.deep_view() =~= common::params_of(MetaKind::RrrVector));
    }
    r
}

} // verus!
