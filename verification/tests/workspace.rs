use sdsl::backend::analyse::{analyse, CodeMeta};
use sdsl::backend::sdsl_c::specification::{
    replace_lines, setup, setup_static_files, StaticFilesState,
};
use sdsl::meta::common::{CFileType, Replacement};

fn specs_of(mir: &str) -> Vec<sdsl::backend::sdsl_c::specification::Specification> {
    analyse(&CodeMeta { mir: String::from(mir) }).unwrap()
}

#[test]
fn first_build_copies_and_substitutes_everything_once() {
    let specs = specs_of(" sdsl::int_vector::IntVector<1_u32>;");
    let plan = setup(&specs, &Vec::new(), &Vec::new());
    // one source, one header, util pair, serialization pair
    assert_eq!(plan.copies.len(), 6);
    assert_eq!(plan.substitutions.len(), 6);
    assert_eq!(plan.stale_include.len(), 0);
    assert_eq!(plan.stale_src.len(), 0);
    for copy in &plan.copies {
        assert!(plan
            .substitutions
            .iter()
            .any(|s| s.target_file_name == copy.target_file_name
                && s.c_file_type == copy.c_file_type));
    }
}

#[test]
fn second_build_writes_nothing() {
    let specs = specs_of(" sdsl::int_vector::IntVector<1_u32>;");
    let first = setup(&specs, &Vec::new(), &Vec::new());
    let mut existing_include: Vec<String> = Vec::new();
    let mut existing_src: Vec<String> = Vec::new();
    for copy in &first.copies {
        match copy.c_file_type {
            CFileType::Hpp => existing_include.push(copy.target_file_name.clone()),
            CFileType::Cpp => existing_src.push(copy.target_file_name.clone()),
        }
    }
    let second = setup(&specs, &existing_include, &existing_src);
    assert_eq!(second.copies.len(), 0);
    assert_eq!(second.substitutions.len(), 0);
    assert_eq!(second.stale_include.len(), 0);
    assert_eq!(second.stale_src.len(), 0);
}

#[test]
fn surviving_files_are_never_substituted() {
    let specs = specs_of(" sdsl::int_vector::IntVector<1_u32>;");
    let first = setup(&specs, &Vec::new(), &Vec::new());
    let header = first
        .copies
        .iter()
        .find(|c| c.c_file_type == CFileType::Hpp)
        .unwrap()
        .target_file_name
        .clone();
    let existing_include = vec![header.clone()];
    let partial = setup(&specs, &existing_include, &Vec::new());
    assert!(partial.copies.iter().all(|c| c.target_file_name != header));
    assert!(partial
        .substitutions
        .iter()
        .all(|s| s.c_file_type != CFileType::Hpp || s.target_file_name != header));
}

#[test]
fn stale_files_are_removed_and_the_shared_header_is_kept() {
    let specs = specs_of(" sdsl::int_vector::IntVector<1_u32>;");
    let existing_include = vec![
        String::from("int_vector_deadbeef.hpp"),
        String::from("common.hpp"),
    ];
    let existing_src = vec![String::from("orphan.cpp")];
    let plan = setup(&specs, &existing_include, &existing_src);
    assert!(plan
        .stale_include
        .contains(&String::from("int_vector_deadbeef.hpp")));
    assert!(!plan.stale_include.contains(&String::from("common.hpp")));
    assert!(plan.stale_src.contains(&String::from("orphan.cpp")));
}

#[test]
fn replace_lines_substitutes_each_line() {
    let content = "#define IO_ID _id\nkeep this line\n#define STRUCTURE sdsl::int_vector<0>";
    let replacements = vec![
        Replacement {
            from: String::from("#define IO_ID _id"),
            to: String::from("#define IO_ID _0123"),
        },
        Replacement {
            from: String::from("#define STRUCTURE sdsl::int_vector<0>"),
            to: String::from("#define STRUCTURE sdsl::int_vector<1>"),
        },
    ];
    let rewritten = replace_lines(content, &replacements);
    assert_eq!(
        rewritten,
        "#define IO_ID _0123\nkeep this line\n#define STRUCTURE sdsl::int_vector<1>"
    );
    let again = replace_lines(rewritten.as_str(), &replacements);
    assert_eq!(again, rewritten);
}

#[test]
fn static_files_are_copied_only_when_absent() {
    let plan = setup_static_files(&StaticFilesState {
        common_header_present: false,
        lib_directory_present: true,
        build_config_present: false,
    });
    assert!(plan.copy_common_header);
    assert!(!plan.copy_lib_directory);
    assert!(plan.copy_build_config);
    let populated = setup_static_files(&StaticFilesState {
        common_header_present: true,
        lib_directory_present: true,
        build_config_present: true,
    });
    assert!(!populated.copy_common_header);
    assert!(!populated.copy_lib_directory);
    assert!(!populated.copy_build_config);
}
