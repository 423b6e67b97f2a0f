//! File specifications for the shared serialization interface that every
//! instantiation materializes alongside its own files.

use vstd::prelude::*;
use crate::meta::common::{
    CFileType, FileSpecModel, FileSpecification, Replacement, ReplacementModel, include_repl,
    include_replacement, make_target, make_target_file_name, prefixed_replacement,
};

verus! {

/// The substitutions of the serialization header: its identifier, the
/// structure it serializes, and, for vector-backed structures, the
/// concrete integer vector type.
pub open spec fn spec_header_replacements(
    struct_c_code: Seq<char>,
    int_vector_struct_c_code: Option<Seq<char>>,
    id: Seq<char>,
) -> Seq<ReplacementModel> {
    let tail = seq![
        ReplacementModel { from: "#define IO_ID _id"@, to: "#define IO_ID _"@ + id },
        ReplacementModel {
            from: "#define STRUCTURE sdsl::int_vector<0>"@,
            to: "#define STRUCTURE "@ + struct_c_code,
        },
    ];
    match int_vector_struct_c_code {
        Some(v) => seq![
            ReplacementModel {
                from: "#define INT_VECTOR_STRUCTURE sdsl::int_vector<0>"@,
                to: "#define INT_VECTOR_STRUCTURE "@ + v,
            },
        ] + tail,
        None => tail,
    }
}

/// The serialization header and source pair for one instantiation.
pub open spec fn spec_file_specs(
    struct_c_code: Seq<char>,
    int_vector_struct_c_code: Option<Seq<char>>,
    id: Seq<char>,
) -> Seq<FileSpecModel> {
    seq![
        FileSpecModel {
            replacements: spec_header_replacements(struct_c_code, int_vector_struct_c_code, id),
            template_file_name: "io.hpp"@,
            target_file_name: make_target("io"@, id, "hpp"@),
            c_file_type: CFileType::Hpp,
        },
        FileSpecModel {
            replacements: seq![include_repl("io.hpp"@, make_target("io"@, id, "hpp"@))],
            template_file_name: "io.cpp"@,
            target_file_name: make_target("io"@, id, "cpp"@),
            c_file_type: CFileType::Cpp,
        },
    ]
}

/// Build the serialization header and source specifications.
pub fn file_specifications(
    struct_c_code: &str,
    int_vector_struct_c_code: Option<&str>,
    id: &str,
) -> (r: Vec<FileSpecification>)
    ensures
        r.deep_view() == spec_file_specs(
            struct_c_code@,
            match int_vector_struct_c_code {
                Some(v) => Some(v@),
                None => None,
            },
            id@,
        ),
{
    let mut replacements: Vec<Replacement> = Vec::new();
    match int_vector_struct_c_code {
        Some(v) => {
            replacements.push(
                prefixed_replacement(
                    "#define INT_VECTOR_STRUCTURE sdsl::int_vector<0>",
                    "#define INT_VECTOR_STRUCTURE ",
                    v,
                ),
            );
        },
        None => {},
    }
    replacements.push(prefixed_replacement("#define IO_ID _id", "#define IO_ID _", id));
    replacements.push(
        prefixed_replacement(
            "#define STRUCTURE sdsl::int_vector<0>",
            "#define STRUCTURE ",
            struct_c_code,
        ),
    );
    let header_target = make_target_file_name("io", id, "hpp");
    let header = FileSpecification {
        replacements,
        template_file_name: "io.hpp".to_owned(),
        target_file_name: header_target,
        c_file_type: CFileType::Hpp,
    };
    let mut source_replacements: Vec<Replacement> = Vec::new();
    let target = make_target_file_name("io", id, "hpp");
    source_replacements.push(include_replacement("io.hpp", target.as_str()));
    let source = FileSpecification {
        replacements: source_replacements,
        template_file_name: "io.cpp".to_owned(),
        target_file_name: make_target_file_name("io", id, "cpp"),
        c_file_type: CFileType::Cpp,
    };
    let mut r: Vec<FileSpecification> = Vec::new();
    r.push(header);
    r.push(source);
    proof {
        let iv = match int_vector_struct_c_code {
            Some(v) => Some(v@),
            None => None,
        };
        assert(r.deep_view()[0].replacements =~= spec_header_replacements(
            struct_c_code@,
            iv,
            id@,
        ));
        assert(r.deep_view()[1].replacements =~= spec_file_specs(
            struct_c_code@,
            iv,
            id@,
        )[1].replacements);
        assert(r.deep_view() =~= spec_file_specs(struct_c_code@, iv, id@));
    }
    r
}

} // verus!
