//! File specifications for the shared utility interface materialized by
//! the vector-backed structures.

use vstd::prelude::*;
use crate::meta::common::{
    CFileType, FileSpecModel, FileSpecification, Replacement, ReplacementModel, include_repl,
    include_replacement, make_target, make_target_file_name, prefixed_replacement,
};

verus! {

/// The substitutions of the utility header: its identifier and the
/// structure it operates on.
pub open spec fn spec_header_replacements(
    struct_c_code: Seq<char>,
    id: Seq<char>,
) -> Seq<ReplacementModel> {
    seq![
        ReplacementModel { from: "#define UTIL_ID _id"@, to: "#define UTIL_ID _"@ + id },
        ReplacementModel {
            from: "#define STRUCTURE sdsl::int_vector<0>"@,
            to: "#define STRUCTURE "@ + struct_c_code,
        },
    ]
}

/// The utility header and source pair for one instantiation.
pub open spec fn spec_file_specs(struct_c_code: Seq<char>, id: Seq<char>) -> Seq<FileSpecModel> {
    seq![
        FileSpecModel {
            replacements: spec_header_replacements(struct_c_code, id),
            template_file_name: "util.hpp"@,
            target_file_name: make_target("util"@, id, "hpp"@),
            c_file_type: CFileType::Hpp,
        },
        FileSpecModel {
            replacements: seq![include_repl("util.hpp"@, make_target("util"@, id, "hpp"@))],
            template_file_name: "util.cpp"@,
            target_file_name: make_target("util"@, id, "cpp"@),
            c_file_type: CFileType::Cpp,
        },
    ]
}

/// Build the utility header and source specifications.
pub fn file_specifications(struct_c_code: &str, id: &str) -> (r: Vec<FileSpecification>)
    ensures
        r.deep_view() == spec_file_specs(struct_c_code@, id@),
{
    let mut replacements: Vec<Replacement> = Vec::new();
    replacements.push(prefixed_replacement("#define UTIL_ID _id", "#define UTIL_ID _", id));
    replacements.push(
        prefixed_replacement(
            "#define STRUCTURE sdsl::int_vector<0>",
            "#define STRUCTURE ",
            struct_c_code,
        ),
    );
    let header = FileSpecification {
        replacements,
        template_file_name: "util.hpp".to_owned(),
        target_file_name: make_target_file_name("util", id, "hpp"),
        c_file_type: CFileType::Hpp,
    };
    let mut source_replacements: Vec<Replacement> = Vec::new();
    let target = make_target_file_name("util", id, "hpp");
    source_replacements.push(include_replacement("util.hpp", target.as_str()));
    let source = FileSpecification {
        replacements: source_replacements,
        template_file_name: "util.cpp".to_owned(),
        target_file_name: make_target_file_name("util", id, "cpp"),
        c_file_type: CFileType::Cpp,
    };
    let mut r: Vec<FileSpecification> = Vec::new();
    r.push(header);
    r.push(source);
    proof {
        assert(r.deep_view()[0].replacements =~= spec_header_replacements(struct_c_code@, id@));
        assert(r.deep_view()[1].replacements =~= spec_file_specs(
            struct_c_code@,
            id@,
        )[1].replacements);
        assert(r.deep_view() =~= spec_file_specs(struct_c_code@, id@));
    }
    r
}

} // verus!
