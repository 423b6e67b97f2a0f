//! Descriptor of the plain bit vector structure.

use vstd::prelude::*;
use crate::backend::sdsl_c::specification::{get_id, id_of};
use crate::meta::common::{
    self, CFileType, FileSpecModel, FileSpecification, MetaKind, Replacement, ReplacementModel,
    literal_code,
};

verus! {

/// Descriptor of the plain bit vector: no generic parameters, one shared
/// native rendering.
#[derive(Clone, Debug)]
pub struct BitVectorMeta {}

impl BitVectorMeta {
    /// The bit vector descriptor.
    pub fn new() -> (r: Self) {
        BitVectorMeta {  }
    }
}

/// The substitution of the bit vector header: its identifier alone.
pub open spec fn spec_header_replacements(id: Seq<char>) -> Seq<ReplacementModel> {
    seq![
        ReplacementModel {
            from: "#define BIT_VECTOR_ID _id"@,
            to: "#define BIT_VECTOR_ID _"@ + id,
        },
    ]
}

/// The files the bit vector materializes. The type has no generic
/// parameters, so one identifier, derived from its fixed native
/// rendering, is shared across every instantiation that uses it, and the
/// file names are not suffixed.
pub open spec fn spec_file_specs() -> Seq<FileSpecModel> {
    let c_code = literal_code(MetaKind::BitVector);
    let own_id = id_of(c_code);
    seq![
        FileSpecModel {
            replacements: seq![],
            template_file_name: "bit_vector.cpp"@,
            target_file_name: "bit_vector.cpp"@,
            c_file_type: CFileType::Cpp,
        },
        FileSpecModel {
            replacements: spec_header_replacements(own_id),
            template_file_name: "bit_vector.hpp"@,
            target_file_name: "bit_vector.hpp"@,
            c_file_type: CFileType::Hpp,
        },
    ] + common::util::spec_file_specs(c_code, own_id) + common::io::spec_file_specs(
        c_code,
        Some(c_code),
        own_id,
    )
}

/// Build the file specifications of the bit vector.
pub fn file_specifications() -> (r: Vec<FileSpecification>)
    ensures
        r.deep_view() == spec_file_specs(),
{
    let c_code: &str = "sdsl::bit_vector";
    let own_id = get_id(c_code);
    let source = FileSpecification {
        replacements: Vec::new(),
        template_file_name: "bit_vector.cpp".to_owned(),
        target_file_name: "bit_vector.cpp".to_owned(),
        c_file_type: CFileType::Cpp,
    };
    let mut replacements: Vec<Replacement> = Vec::new();
    replacements.push(
        common::prefixed_replacement(
            "#define BIT_VECTOR_ID _id",
            "#define BIT_VECTOR_ID _",
            own_id.as_str(),
        ),
    );
    let header = FileSpecification {
        replacements,
        template_file_name: "bit_vector.hpp".to_owned(),
        target_file_name: "bit_vector.hpp".to_owned(),
        c_file_type: CFileType::Hpp,
    };
    let util_specifications = common::util::file_specifications(c_code, own_id.as_str());
    let io_specifications = common::io::file_specifications(c_code, Some(c_code), own_id.as_str());
    let mut specifications: Vec<FileSpecification> = Vec::new();
    specifications.push(source);
    specifications.push(header);
    let mut rest = util_specifications;
    specifications.append(&mut rest);
    let mut rest = io_specifications;
    specifications.append(&mut rest);
    proof {
        assert(specifications.deep_view()[0].replacements =~= Seq::<ReplacementModel>::empty());
        assert(specifications.deep_view()[1].replacements =~= spec_header_replacements(
            id_of(literal_code(MetaKind::BitVector)),
        ));
        assert(specifications.deep_view() =~= spec_file_specs());
    }
    specifications
}

} // verus!
