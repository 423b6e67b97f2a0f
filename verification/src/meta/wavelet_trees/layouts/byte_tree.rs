//! Descriptor of the byte tree layout strategy.

use vstd::prelude::*;
use crate::meta::common::{
    self, CFileType, FileSpecModel, FileSpecification, Meta, MetaKind, MetaModel, Replacement,
    ReplacementModel, leaf_model, models_of,
};

verus! {

/// Descriptor of the byte tree layout: one defaulted layout parameter.
#[derive(Debug)]
pub struct ByteTreeMeta {
    pub parameters_default_meta: Vec<Meta>,
}

/// The model of the byte tree descriptor with the breadth-first layout as
/// its default parameter.
pub open spec fn spec_default_model() -> MetaModel {
    MetaModel {
        kind: MetaKind::ByteTree,
        value: seq![],
        defaults: seq![leaf_model(MetaKind::BreadthFirstSearch)],
    }
}

impl ByteTreeMeta {
    /// The byte tree descriptor, defaulting to the breadth-first layout.
    pub fn new() -> (r: Self)
        ensures
            models_of(r.parameters_default_meta@) == seq![
                leaf_model(MetaKind::BreadthFirstSearch),
            ],
    {
        let mut parameters_default_meta: Vec<Meta> = Vec::new();
        parameters_default_meta.push(
            Meta::BreadthFirstSearch(super::common::BreadthFirstSearchMeta::new()),
        );
        proof {
            common::lemma_models_of(parameters_default_meta@);
            assert(models_of(parameters_default_meta@) =~= seq![
                leaf_model(MetaKind::BreadthFirstSearch),
            ]);
        }
        ByteTreeMeta { parameters_default_meta }
    }

    /// The byte tree descriptor with the given default parameter
    /// descriptors; used inside the default trees of the wavelet tree
    /// descriptors.
    pub fn new_parameterized(parameters_default_meta: Vec<Meta>) -> (r: Self)
        ensures
            r.parameters_default_meta == parameters_default_meta,
    {
        ByteTreeMeta { parameters_default_meta }
    }
}

/// The substitution of the byte tree header: its lexicographic-ordering
/// flag. The file keeps its template name: one shared header serves every
/// instantiation with the same layout flag.
pub open spec fn spec_file_specs(values: Seq<Seq<char>>) -> Seq<FileSpecModel> {
    seq![
        FileSpecModel {
            replacements: seq![
                ReplacementModel {
                    from: "#define LEX_ORDERED false"@,
                    to: "#define LEX_ORDERED "@ + values[0],
                },
            ],
            template_file_name: "wavelet_trees/layouts/byte_tree.hpp"@,
            target_file_name: "wavelet_trees/layouts/byte_tree.hpp"@,
            c_file_type: CFileType::Hpp,
        },
    ]
}

/// Build the file specification of a byte tree instantiation.
pub fn file_specifications(parameters_c_code: &Vec<String>) -> (r: Vec<FileSpecification>)
    requires
        parameters_c_code@.len() == 1,
    ensures
        r.deep_view() == spec_file_specs(parameters_c_code.deep_view()),
{
    let mut replacements: Vec<Replacement> = Vec::new();
    replacements.push(
        common::prefixed_replacement(
            "#define LEX_ORDERED false",
            "#define LEX_ORDERED ",
            parameters_c_code[0].as_str(),
        ),
    );
    let header = FileSpecification {
        replacements,
        template_file_name: "wavelet_trees/layouts/byte_tree.hpp".to_owned(),
        target_file_name: "wavelet_trees/layouts/byte_tree.hpp".to_owned(),
        c_file_type: CFileType::Hpp,
    };
    let mut r: Vec<FileSpecification> = Vec::new();
    r.push(header);
    proof {
        assert(r.deep_view()[0].replacements =~= spec_file_specs(
            parameters_c_code.deep_view(),
        )[0].replacements);
        assert(r.deep_view() =~= spec_file_specs(parameters_c_code.deep_view()));
    }
    r
}

/// The declared parameter list of the byte tree.
pub fn parameters_exec() -> (r: Vec<common::params::Parameter>)
    ensures
        r.deep_view() == common::params_of(MetaKind::ByteTree),
{
    let mut r: Vec<common::params::Parameter> = Vec::new();
    r.push(common::params::Parameter::sdsl(0, true, 0));
    proof {
        assert(r.deep_view() =~= common::params_of(MetaKind::ByteTree));
    }
    r
}

} // verus!
