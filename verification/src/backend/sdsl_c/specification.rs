//! Content-addressed identifiers and fully resolved instantiation
//! specifications.

use vstd::prelude::*;
use vstd::string::StringSliceAdditionalSpecFns;
use crate::meta::common::{
    BuildError, CFileType, FileSpecModel, FileSpecification, Meta, MetaModel, Replacement,
    ReplacementModel, params_of, params_perm_wf, spec_c_code, spec_file_specs,
};
use crate::text::{join_with, replace_all, split_lines};

verus! {

/// The 64 lowercase hex digits of the digest of `bytes`; a function of the
/// input bytes alone.
pub uninterp spec fn blake3_hex(bytes: Seq<u8>) -> Seq<char>;

/// Relies on blake3::hash and blake3::Hash::to_hex: the digest of the
/// input bytes alone, rendered as 64 lowercase hex characters.
#[verifier::external_body]
fn blake3_hex_digest(bytes: &Vec<u8>) -> (r: String)
    ensures
        r@ == blake3_hex(bytes@),
        r@.len() == 64,
{
    blake3::hash(bytes.as_slice()).to_hex().as_str().to_string()
}

/// The eight little-endian bytes of `n`.
pub open spec fn u64_le_bytes(n: u64) -> Seq<u8> {
    seq![
        (n & 0xff) as u8,
        ((n >> 8) & 0xff) as u8,
        ((n >> 16) & 0xff) as u8,
        ((n >> 24) & 0xff) as u8,
        ((n >> 32) & 0xff) as u8,
        ((n >> 40) & 0xff) as u8,
        ((n >> 48) & 0xff) as u8,
        ((n >> 56) & 0xff) as u8,
    ]
}

/// Relies on bincode::serialize for &str: a fixed-width little-endian
/// length followed by the UTF-8 bytes of the string. Serialization into a
/// byte vector cannot fail.
#[verifier::external_body]
fn bincode_serialize_str(s: &str) -> (r: Vec<u8>)
    ensures
        r@ == u64_le_bytes(s.spec_bytes().len() as u64) + s.spec_bytes(),
{
    bincode::serialize(s).unwrap()
}

/// The content identifier of a native code expression: the first 32 hex
/// digits of the digest of its serialized form.
pub open spec fn id_of(c_code: Seq<char>) -> Seq<char> {
    blake3_hex(
        u64_le_bytes(vstd::utf8::encode_utf8(c_code).len() as u64) + vstd::utf8::encode_utf8(
            c_code,
        ),
    ).take(32)
}

/// Derive the content identifier of a native code expression.
pub fn get_id(c_code: &str) -> (r: String)
    ensures
        r@ == id_of(c_code@),
        r@.len() == 32,
{
    let serialized = bincode_serialize_str(c_code);
    let hex = blake3_hex_digest(&serialized);
    let prefix = hex.as_str().substring_char(0, 32);
    proof {
        assert(prefix@ =~= id_of(c_code@));
    }
    prefix.to_owned()
}

/// The fully resolved, buildable description of one concrete
/// instantiation: its content identifier, the files to materialize, and
/// the canonical native code expression.
#[derive(Clone, Debug, PartialEq, Eq)]
pub struct Specification {
    pub id: String,
    pub files: Vec<FileSpecification>,
    pub c_code: String,
}

/// A `Specification` as the contracts see it.
pub ghost struct SpecificationModel {
    pub id: Seq<char>,
    pub files: Seq<FileSpecModel>,
    pub c_code: Seq<char>,
}

impl DeepView for Specification {
    type V = SpecificationModel;

    open spec fn deep_view(&self) -> SpecificationModel {
        SpecificationModel {
            id: self.id@,
            files: self.files.deep_view(),
            c_code: self.c_code@,
        }
    }
}

impl SpecificationModel {
    /// The identifier is derived from the native code expression.
    pub open spec fn wf(self) -> bool {
        self.id == id_of(self.c_code)
    }
}

/// The specification a descriptor and resolved parameter specifications
/// produce: the native code expression over the parameters' native code,
/// the identifier derived from it, and the descriptor's files.
pub open spec fn spec_from_parameterized(
    m: MetaModel,
    params: Seq<SpecificationModel>,
) -> Option<SpecificationModel> {
    let values = params.map_values(|s: SpecificationModel| s.c_code);
    let c_code = spec_c_code(m, values);
    let id = id_of(c_code);
    match spec_file_specs(m, values, params.map_values(|s: SpecificationModel| s.files), id) {
        Some(files) => Some(SpecificationModel { id, files, c_code }),
        None => None,
    }
}

/// The specifications of a sequence of default descriptors, in order.
pub open spec fn defaults_specs(ds: Seq<MetaModel>) -> Seq<Option<SpecificationModel>>
    decreases ds,
{
    if ds.len() == 0 {
        seq![]
    } else {
        defaults_specs(ds.drop_last()).push(spec_from_default(ds.last()))
    }
}

/// The specification of a descriptor's own default instantiation: each
/// default parameter descriptor resolved to its default specification,
/// then combined as a parameterized instantiation.
pub open spec fn spec_from_default(m: MetaModel) -> Option<SpecificationModel>
    decreases m,
{
    let kids = defaults_specs(m.defaults);
    if exists|i: int| 0 <= i < kids.len() && kids[i] is None {
        None
    } else {
        spec_from_parameterized(
            m,
            kids.map_values(|o: Option<SpecificationModel>| o->0),
        )
    }
}

/// The default descriptors of a well-formed descriptor are themselves
/// well formed and fully defaulted.
pub proof fn lemma_children_usable(meta: Meta, children: Seq<crate::meta::common::Meta>)
    requires
        meta.model().wf(),
        meta.model().defaults == crate::meta::common::models_of(children),
    ensures
        crate::meta::common::models_of(children).len() == children.len(),
        forall|i: int|
            0 <= i < children.len() ==> crate::meta::common::models_of(children)[i] == (
            #[trigger] children[i]).model(),
        forall|i: int|
            0 <= i < children.len() ==> (#[trigger] children[i]).model().wf()
                && children[i].model().defaults.len() == params_of(
                children[i].model().kind,
            ).len(),
{
    crate::meta::common::lemma_models_of(children);
    let ds = meta.model().defaults;
    assert forall|i: int| 0 <= i < children.len() implies (#[trigger] children[i]).model().wf()
        && children[i].model().defaults.len() == params_of(children[i].model().kind).len() by {
        assert(crate::meta::common::meta_model_wf(ds[i]));
        assert(ds[i].defaults.len() == params_of(ds[i].kind).len());
    }
}

/// A failing default child makes the whole default specification fail.
proof fn lemma_child_failure(meta: Meta, children: Seq<crate::meta::common::Meta>)
    requires
        meta.model().defaults == crate::meta::common::models_of(children),
        exists|i: int|
            0 <= i < children.len() && spec_from_default(
                (#[trigger] children[i]).model(),
            ) is None,
    ensures
        spec_from_default(meta.model()) is None,
{
    crate::meta::common::lemma_models_of(children);
    lemma_defaults_specs(meta.model().defaults);
    let i = choose|i: int|
        0 <= i < children.len() && spec_from_default((#[trigger] children[i]).model()) is None;
    assert(defaults_specs(meta.model().defaults)[i] is None);
}

/// `defaults_specs` maps `spec_from_default` over the sequence.
pub proof fn lemma_defaults_specs(ds: Seq<MetaModel>)
    ensures
        defaults_specs(ds).len() == ds.len(),
        forall|i: int| 0 <= i < ds.len() ==> defaults_specs(ds)[i] == spec_from_default(ds[i]),
    decreases ds,
{
    if ds.len() > 0 {
        lemma_defaults_specs(ds.drop_last());
    }
}

impl Specification {
    /// Create a specification from a descriptor and its resolved parameter
    /// specifications.
    pub fn from_parameterized_meta(
        parameters_specifications: &Vec<Specification>,
        meta: &Meta,
    ) -> (r: Result<Specification, BuildError>)
        requires
            parameters_specifications@.len() == params_of(meta.model().kind).len(),
            params_perm_wf(params_of(meta.model().kind)),
        ensures
            match r {
                Ok(s) => spec_from_parameterized(
                    meta.model(),
                    parameters_specifications.deep_view(),
                ) == Some(s.deep_view()),
                Err(e) => spec_from_parameterized(
                    meta.model(),
                    parameters_specifications.deep_view(),
                ) is None && e is MissingNestedFileSpecs,
            },
    {
        let ghost pm = parameters_specifications.deep_view();
        let mut parameters_c_code: Vec<String> = Vec::new();
        let mut parameters_file_specs: Vec<Vec<FileSpecification>> = Vec::new();
        let mut i: usize = 0;
        while i < parameters_specifications.len()
            invariant
                0 <= i <= parameters_specifications@.len(),
                pm == parameters_specifications.deep_view(),
                parameters_c_code.deep_view() == pm.map_values(
                    |s: SpecificationModel| s.c_code,
                ).take(i as int),
                parameters_file_specs.deep_view() == pm.map_values(
                    |s: SpecificationModel| s.files,
                ).take(i as int),
            decreases parameters_specifications@.len() - i,
        {
            let ghost before_c = parameters_c_code.deep_view();
            let ghost before_f = parameters_file_specs.deep_view();
            parameters_c_code.push(parameters_specifications[i].c_code.clone());
            parameters_file_specs.push(duplicate_files(&parameters_specifications[i].files));
            proof {
                assert(parameters_c_code.deep_view() =~= before_c.push(pm[i as int].c_code));
                assert(parameters_file_specs.deep_view() =~= before_f.push(pm[i as int].files));
                assert(parameters_c_code.deep_view() =~= pm.map_values(
                    |s: SpecificationModel| s.c_code,
                ).take(i + 1));
                assert(parameters_file_specs.deep_view() =~= pm.map_values(
                    |s: SpecificationModel| s.files,
                ).take(i + 1));
            }
            i += 1;
        }
        proof {
            assert(parameters_c_code.deep_view() =~= pm.map_values(
                |s: SpecificationModel| s.c_code,
            ));
            assert(parameters_file_specs.deep_view() =~= pm.map_values(
                |s: SpecificationModel| s.files,
            ));
        }
        let c_code = meta.c_code(&parameters_c_code);
        let id = get_id(c_code.as_str());
        match meta.file_specifications(&parameters_c_code, &parameters_file_specs, id.as_str()) {
            Ok(files) => Ok(Specification { id, files, c_code }),
            Err(e) => Err(e),
        }
    }

    /// Create a specification from a descriptor and its default parameter
    /// descriptors.
    /// Create a specification from a descriptor and its default parameter
    /// descriptors.
    pub fn from_default_meta(meta: &Meta) -> (r: Result<Specification, BuildError>)
        requires
            meta.model().wf(),
            meta.model().defaults.len() == params_of(meta.model().kind).len(),
        ensures
            match r {
                Ok(s) => spec_from_default(meta.model()) == Some(s.deep_view()),
                Err(e) => spec_from_default(meta.model()) is None,
            },
        decreases *meta, 1int,
    {
        let children: Vec<Specification> = match Self::default_children_specs(meta) {
            Ok(v) => v,
            Err(e) => {
                return Err(e);
            },
        };
        proof {
            let ds = meta.model().defaults;
            lemma_defaults_specs(ds);
            assert(defaults_specs(ds).map_values(|o: Option<SpecificationModel>| o->0)
                =~= children.deep_view());
        }
        Specification::from_parameterized_meta(&children, meta)
    }

    /// Resolve each of this descriptor's default parameter descriptors to
    /// its default specification.
    fn default_children_specs(meta: &Meta) -> (r: Result<Vec<Specification>, BuildError>)
        requires
            meta.model().wf(),
        ensures
            match r {
                Ok(v) => v@.len() == meta.model().defaults.len() && forall|i: int|
                    0 <= i < v@.len() ==> spec_from_default(#[trigger] meta.model().defaults[i])
                        == Some(v.deep_view()[i]),
                Err(e) => spec_from_default(meta.model()) is None,
            },
        decreases *meta, 0int,
    {
        match meta {
            Meta::RankSupportV(m) => {
                proof {
                    assert(decreases_to!(*meta => (*meta)->RankSupportV_0));
                    assert(decreases_to!(m.parameters_default_meta => m.parameters_default_meta@));
                    lemma_children_usable(*meta, m.parameters_default_meta@);
                }
                match default_specs(&m.parameters_default_meta) {
                    Ok(v) => {
                        proof {
                            lemma_children_resolved(*meta, m.parameters_default_meta@, v@);
                        }
                        Ok(v)
                    },
                    Err(e) => {
                        proof {
                            lemma_child_failure(*meta, m.parameters_default_meta@);
                        }
                        Err(e)
                    },
                }
            },
            Meta::SelectSupportMcl(m) => {
                proof {
                    assert(decreases_to!(*meta => (*meta)->SelectSupportMcl_0));
                    assert(decreases_to!(m.parameters_default_meta => m.parameters_default_meta@));
                    lemma_children_usable(*meta, m.parameters_default_meta@);
                }
                match default_specs(&m.parameters_default_meta) {
                    Ok(v) => {
                        proof {
                            lemma_children_resolved(*meta, m.parameters_default_meta@, v@);
                        }
                        Ok(v)
                    },
                    Err(e) => {
                        proof {
                            lemma_child_failure(*meta, m.parameters_default_meta@);
                        }
                        Err(e)
                    },
                }
            },
            Meta::WtHuff(m) => {
                proof {
                    assert(decreases_to!(*meta => (*meta)->WtHuff_0));
                    assert(decreases_to!(m.parameters_default_meta => m.parameters_default_meta@));
                    lemma_children_usable(*meta, m.parameters_default_meta@);
                }
                match default_specs(&m.parameters_default_meta) {
                    Ok(v) => {
                        proof {
                            lemma_children_resolved(*meta, m.parameters_default_meta@, v@);
                        }
                        Ok(v)
                    },
                    Err(e) => {
                        proof {
                            lemma_child_failure(*meta, m.parameters_default_meta@);
                        }
                        Err(e)
                    },
                }
            },
            Meta::WtInt(m) => {
                proof {
                    assert(decreases_to!(*meta => (*meta)->WtInt_0));
                    assert(decreases_to!(m.parameters_default_meta => m.parameters_default_meta@));
                    lemma_children_usable(*meta, m.parameters_default_meta@);
                }
                match default_specs(&m.parameters_default_meta) {
                    Ok(v) => {
                        proof {
                            lemma_children_resolved(*meta, m.parameters_default_meta@, v@);
                        }
                        Ok(v)
                    },
                    Err(e) => {
                        proof {
                            lemma_child_failure(*meta, m.parameters_default_meta@);
                        }
                        Err(e)
                    },
                }
            },
            Meta::ByteTree(m) => {
                proof {
                    assert(decreases_to!(*meta => (*meta)->ByteTree_0));
                    assert(decreases_to!(m.parameters_default_meta => m.parameters_default_meta@));
                    lemma_children_usable(*meta, m.parameters_default_meta@);
                }
                match default_specs(&m.parameters_default_meta) {
                    Ok(v) => {
                        proof {
                            lemma_children_resolved(*meta, m.parameters_default_meta@, v@);
                        }
                        Ok(v)
                    },
                    Err(e) => {
                        proof {
                            lemma_child_failure(*meta, m.parameters_default_meta@);
                        }
                        Err(e)
                    },
                }
            },
            _ => Ok(Vec::new()),
        }
    }
}

/// The resolved default children line up with the descriptor's default
/// models.
proof fn lemma_children_resolved(
    meta: Meta,
    children: Seq<crate::meta::common::Meta>,
    specs: Seq<Specification>,
)
    requires
        meta.model().defaults == crate::meta::common::models_of(children),
        specs.len() == children.len(),
        forall|i: int|
            0 <= i < children.len() ==> spec_from_default((#[trigger] children[i]).model())
                == Some(specs[i].deep_view()),
    ensures
        specs.len() == meta.model().defaults.len(),
        forall|i: int|
            0 <= i < specs.len() ==> spec_from_default(#[trigger] meta.model().defaults[i])
                == Some(specs[i].deep_view()),
{
    crate::meta::common::lemma_models_of(children);
}

/// Resolve each default descriptor to its default specification.
fn default_specs(metas: &Vec<Meta>) -> (r: Result<Vec<Specification>, BuildError>)
    requires
        forall|i: int|
            0 <= i < metas@.len() ==> (#[trigger] metas@[i]).model().wf()
                && metas@[i].model().defaults.len() == params_of(metas@[i].model().kind).len(),
    ensures
        match r {
            Ok(v) => v@.len() == metas@.len() && forall|i: int|
                0 <= i < metas@.len() ==> spec_from_default((#[trigger] metas@[i]).model())
                    == Some(v.deep_view()[i]),
            Err(e) => exists|i: int|
                0 <= i < metas@.len() && spec_from_default((#[trigger] metas@[i]).model())
                    is None,
        },
    decreases metas@,
{
    let mut out: Vec<Specification> = Vec::new();
    let mut i: usize = 0;
    while i < metas.len()
        invariant
            0 <= i <= metas@.len(),
            out@.len() == i,
            forall|j: int|
                0 <= j < metas@.len() ==> (#[trigger] metas@[j]).model().wf()
                    && metas@[j].model().defaults.len() == params_of(
                    metas@[j].model().kind,
                ).len(),
            forall|j: int|
                0 <= j < i ==> spec_from_default((#[trigger] metas@[j]).model()) == Some(
                    out.deep_view()[j],
                ),
        decreases metas@.len() - i,
    {
        proof {
            assert(decreases_to!(metas@ => metas@[i as int]));
        }
        let ghost before = out.deep_view();
        match Specification::from_default_meta(&metas[i]) {
            Ok(s) => {
                out.push(s);
                proof {
                    assert(out.deep_view() =~= before.push(out@[i as int].deep_view()));
                }
            },
            Err(e) => {
                return Err(e);
            },
        }
        i += 1;
    }
    Ok(out)
}

/// Copy a list of file specifications, field by field.
pub fn duplicate_files(files: &Vec<FileSpecification>) -> (r: Vec<FileSpecification>)
    ensures
        r.deep_view() == files.deep_view(),
{
    let mut r: Vec<FileSpecification> = Vec::new();
    let mut i: usize = 0;
    while i < files.len()
        invariant
            0 <= i <= files@.len(),
            r.deep_view() == files.deep_view().take(i as int),
        decreases files@.len() - i,
    {
        let ghost before = r.deep_view();
        r.push(crate::meta::common::duplicate_file(&files[i]));
        proof {
            assert(r.deep_view() =~= before.push(files.deep_view()[i as int]));
            assert(r.deep_view() =~= files.deep_view().take(i + 1));
        }
        i += 1;
    }
    proof {
        assert(r.deep_view() =~= files.deep_view());
    }
    r
}

/// One file to copy from the unpacked template tree into the generated
/// interface tree.
pub struct CopyAction {
    pub template_file_name: String,
    pub target_file_name: String,
    pub c_file_type: CFileType,
}

/// A `CopyAction` as the contracts see it.
pub ghost struct CopyActionModel {
    pub template_file_name: Seq<char>,
    pub target_file_name: Seq<char>,
    pub c_file_type: CFileType,
}

impl DeepView for CopyAction {
    type V = CopyActionModel;

    open spec fn deep_view(&self) -> CopyActionModel {
        CopyActionModel {
            template_file_name: self.template_file_name@,
            target_file_name: self.target_file_name@,
            c_file_type: self.c_file_type,
        }
    }
}

/// One freshly materialized file to rewrite with its token substitutions.
pub struct SubstitutionAction {
    pub target_file_name: String,
    pub c_file_type: CFileType,
    pub replacements: Vec<Replacement>,
}

/// A `SubstitutionAction` as the contracts see it.
pub ghost struct SubstitutionActionModel {
    pub target_file_name: Seq<char>,
    pub c_file_type: CFileType,
    pub replacements: Seq<ReplacementModel>,
}

impl DeepView for SubstitutionAction {
    type V = SubstitutionActionModel;

    open spec fn deep_view(&self) -> SubstitutionActionModel {
        SubstitutionActionModel {
            target_file_name: self.target_file_name@,
            c_file_type: self.c_file_type,
            replacements: self.replacements.deep_view(),
        }
    }
}

/// Everything one build must do to the generated source tree: fresh
/// copies, one-time substitutions on the fresh copies, and removal of
/// stale files from earlier builds.
pub struct BuildPlan {
    pub copies: Vec<CopyAction>,
    pub substitutions: Vec<SubstitutionAction>,
    pub stale_include: Vec<String>,
    pub stale_src: Vec<String>,
}

/// The name of the shared header that every instantiation includes; it is
/// never removed as stale.
pub open spec fn protected_file_name() -> Seq<char> {
    "common.hpp"@
}

/// The files of all specifications, flattened in order.
pub open spec fn all_files(specs: Seq<SpecificationModel>) -> Seq<FileSpecModel>
    decreases specs,
{
    if specs.len() == 0 {
        seq![]
    } else {
        all_files(specs.drop_last()) + specs.last().files
    }
}

/// The placement state threaded through the copy pass: the copies decided
/// so far, the targets freshly created by them (per destination
/// directory), and every target seen so far (per destination directory).
pub ghost struct PlaceState {
    pub copies: Seq<CopyActionModel>,
    pub new_include: Seq<Seq<char>>,
    pub new_src: Seq<Seq<char>>,
    pub added_include: Seq<Seq<char>>,
    pub added_src: Seq<Seq<char>>,
}

/// The empty placement state.
pub open spec fn empty_place_state() -> PlaceState {
    PlaceState {
        copies: seq![],
        new_include: seq![],
        new_src: seq![],
        added_include: seq![],
        added_src: seq![],
    }
}

/// One step of the copy pass: a file is copied when its target exists
/// neither from an earlier build nor from an earlier copy of this pass;
/// every target is recorded for the stale-file sweep.
pub open spec fn place_step(
    f: FileSpecModel,
    existing_include: Seq<Seq<char>>,
    existing_src: Seq<Seq<char>>,
    st: PlaceState,
) -> PlaceState {
    let is_include = f.c_file_type is Hpp;
    let existing = if is_include {
        existing_include
    } else {
        existing_src
    };
    let fresh = if is_include {
        st.new_include
    } else {
        st.new_src
    };
    let copied = !existing.contains(f.target_file_name) && !fresh.contains(f.target_file_name);
    PlaceState {
        copies: if copied {
            st.copies.push(
                CopyActionModel {
                    template_file_name: f.template_file_name,
                    target_file_name: f.target_file_name,
                    c_file_type: f.c_file_type,
                },
            )
        } else {
            st.copies
        },
        new_include: if copied && is_include {
            st.new_include.push(f.target_file_name)
        } else {
            st.new_include
        },
        new_src: if copied && !is_include {
            st.new_src.push(f.target_file_name)
        } else {
            st.new_src
        },
        added_include: if is_include {
            st.added_include.push(f.target_file_name)
        } else {
            st.added_include
        },
        added_src: if is_include {
            st.added_src
        } else {
            st.added_src.push(f.target_file_name)
        },
    }
}

/// The copy pass from file `k` on.
pub open spec fn place_files(
    files: Seq<FileSpecModel>,
    k: int,
    existing_include: Seq<Seq<char>>,
    existing_src: Seq<Seq<char>>,
    st: PlaceState,
) -> PlaceState
    decreases files.len() - k,
{
    if k < 0 || k >= files.len() {
        st
    } else {
        place_files(
            files,
            k + 1,
            existing_include,
            existing_src,
            place_step(files[k], existing_include, existing_src, st),
        )
    }
}

/// The whole copy pass over the files of all specifications.
pub open spec fn spec_place(
    specs: Seq<SpecificationModel>,
    existing_include: Seq<Seq<char>>,
    existing_src: Seq<Seq<char>>,
) -> PlaceState {
    place_files(all_files(specs), 0, existing_include, existing_src, empty_place_state())
}

/// The stale files of one destination directory: everything listed that
/// this build did not produce, except the protected shared header.
pub open spec fn stale_of(listing: Seq<Seq<char>>, keep: Seq<Seq<char>>) -> Seq<Seq<char>>
    decreases listing,
{
    if listing.len() == 0 {
        seq![]
    } else {
        let rest = stale_of(listing.drop_first(), keep);
        if !keep.contains(listing[0]) && listing[0] != protected_file_name() {
            seq![listing[0]] + rest
        } else {
            rest
        }
    }
}

/// The substitution pass from file `k` on: every freshly materialized
/// target is substituted exactly once, with the replacements of the first
/// file specification that names it.
pub open spec fn subst_files(
    files: Seq<FileSpecModel>,
    k: int,
    new_include: Seq<Seq<char>>,
    new_src: Seq<Seq<char>>,
    processed_include: Seq<Seq<char>>,
    processed_src: Seq<Seq<char>>,
) -> Seq<SubstitutionActionModel>
    decreases files.len() - k,
{
    if k < 0 || k >= files.len() {
        seq![]
    } else {
        let f = files[k];
        let is_include = f.c_file_type is Hpp;
        let fresh = if is_include {
            new_include
        } else {
            new_src
        };
        let processed = if is_include {
            processed_include
        } else {
            processed_src
        };
        if fresh.contains(f.target_file_name) && !processed.contains(f.target_file_name) {
            seq![
                SubstitutionActionModel {
                    target_file_name: f.target_file_name,
                    c_file_type: f.c_file_type,
                    replacements: f.replacements,
                },
            ] + subst_files(
                files,
                k + 1,
                new_include,
                new_src,
                if is_include {
                    processed_include.push(f.target_file_name)
                } else {
                    processed_include
                },
                if is_include {
                    processed_src
                } else {
                    processed_src.push(f.target_file_name)
                },
            )
        } else {
            subst_files(files, k + 1, new_include, new_src, processed_include, processed_src)
        }
    }
}

/// Whether `v` holds a string whose characters equal `x`.
pub fn contains_string(v: &Vec<String>, x: &str) -> (r: bool)
    ensures
        r == v.deep_view().contains(x@),
{
    let mut i: usize = 0;
    while i < v.len()
        invariant
            0 <= i <= v@.len(),
            forall|k: int| 0 <= k < i ==> v.deep_view()[k] != x@,
        decreases v@.len() - i,
    {
        if crate::text::eq_str(v[i].as_str(), x) {
            proof {
                assert(v.deep_view()[i as int] == x@);
            }
            return true;
        }
        i += 1;
    }
    proof {
        assert forall|k: int| 0 <= k < v.deep_view().len() implies v.deep_view()[k] != x@ by {}
    }
    false
}

/// Flatten the files of all specifications, in order.
fn collect_files(specifications: &Vec<Specification>) -> (r: Vec<FileSpecification>)
    ensures
        r.deep_view() == all_files(specifications.deep_view()),
{
    let mut r: Vec<FileSpecification> = Vec::new();
    let mut i: usize = 0;
    let ghost sm = specifications.deep_view();
    proof {
        assert(sm.take(0) =~= Seq::<SpecificationModel>::empty());
        assert(r.deep_view() =~= all_files(sm.take(0)));
    }
    while i < specifications.len()
        invariant
            0 <= i <= specifications@.len(),
            sm == specifications.deep_view(),
            sm.len() == specifications@.len(),
            forall|k: int|
                0 <= k < specifications@.len() ==> (#[trigger] specifications@[k]).deep_view()
                    == sm[k],
            r.deep_view() == all_files(sm.take(i as int)),
        decreases specifications@.len() - i,
    {
        let ghost before = r.deep_view();
        let mut files = duplicate_files(&specifications[i].files);
        r.append(&mut files);
        proof {
            assert(sm.take(i + 1).drop_last() =~= sm.take(i as int));
            assert(sm.take(i + 1).last() == sm[i as int]);
            assert(r.deep_view() =~= before + sm[i as int].files);
        }
        i += 1;
    }
    proof {
        assert(sm.take(sm.len() as int) =~= sm);
    }
    r
}

/// Decide which template files to copy: one copy per target that neither
/// survives from an earlier build nor was already copied this pass. The
/// second and third results are the freshly created target names per
/// destination directory; the last two are every target this build wants,
/// per destination directory.
pub fn setup_source_files(
    specifications: &Vec<Specification>,
    existing_include: &Vec<String>,
    existing_src: &Vec<String>,
) -> (r: (Vec<CopyAction>, Vec<String>, Vec<String>, Vec<String>, Vec<String>))
    ensures
        ({
            let st = spec_place(
                specifications.deep_view(),
                existing_include.deep_view(),
                existing_src.deep_view(),
            );
            r.0.deep_view() == st.copies && r.1.deep_view() == st.new_include && r.2.deep_view()
                == st.new_src && r.3.deep_view() == st.added_include && r.4.deep_view()
                == st.added_src
        }),
{
    let files = collect_files(specifications);
    let ghost fs = files.deep_view();
    let ghost exi = existing_include.deep_view();
    let ghost exs = existing_src.deep_view();
    let mut copies: Vec<CopyAction> = Vec::new();
    let mut new_include: Vec<String> = Vec::new();
    let mut new_src: Vec<String> = Vec::new();
    let mut added_include: Vec<String> = Vec::new();
    let mut added_src: Vec<String> = Vec::new();
    let mut k: usize = 0;
    proof {
        assert(copies.deep_view() =~= empty_place_state().copies);
        assert(new_include.deep_view() =~= empty_place_state().new_include);
        assert(new_src.deep_view() =~= empty_place_state().new_src);
        assert(added_include.deep_view() =~= empty_place_state().added_include);
        assert(added_src.deep_view() =~= empty_place_state().added_src);
    }
    while k < files.len()
        invariant
            0 <= k <= files@.len(),
            fs == files.deep_view(),
            fs.len() == files@.len(),
            forall|j: int|
                0 <= j < files@.len() ==> (#[trigger] files@[j]).deep_view() == fs[j],
            exi == existing_include.deep_view(),
            exs == existing_src.deep_view(),
            place_files(fs, 0, exi, exs, empty_place_state()) == place_files(
                fs,
                k as int,
                exi,
                exs,
                PlaceState {
                    copies: copies.deep_view(),
                    new_include: new_include.deep_view(),
                    new_src: new_src.deep_view(),
                    added_include: added_include.deep_view(),
                    added_src: added_src.deep_view(),
                },
            ),
        decreases files@.len() - k,
    {
        let ghost st = PlaceState {
            copies: copies.deep_view(),
            new_include: new_include.deep_view(),
            new_src: new_src.deep_view(),
            added_include: added_include.deep_view(),
            added_src: added_src.deep_view(),
        };
        let f = &files[k];
        let is_include = match f.c_file_type {
            CFileType::Hpp => true,
            CFileType::Cpp => false,
        };
        let in_existing = if is_include {
            contains_string(existing_include, f.target_file_name.as_str())
        } else {
            contains_string(existing_src, f.target_file_name.as_str())
        };
        let in_fresh = if is_include {
            contains_string(&new_include, f.target_file_name.as_str())
        } else {
            contains_string(&new_src, f.target_file_name.as_str())
        };
        if !in_existing && !in_fresh {
            copies.push(
                CopyAction {
                    template_file_name: f.template_file_name.clone(),
                    target_file_name: f.target_file_name.clone(),
                    c_file_type: f.c_file_type,
                },
            );
            if is_include {
                new_include.push(f.target_file_name.clone());
            } else {
                new_src.push(f.target_file_name.clone());
            }
        }
        if is_include {
            added_include.push(f.target_file_name.clone());
        } else {
            added_src.push(f.target_file_name.clone());
        }
        proof {
            let st2 = place_step(fs[k as int], exi, exs, st);
            assert(copies.deep_view() =~= st2.copies);
            assert(new_include.deep_view() =~= st2.new_include);
            assert(new_src.deep_view() =~= st2.new_src);
            assert(added_include.deep_view() =~= st2.added_include);
            assert(added_src.deep_view() =~= st2.added_src);
        }
        k += 1;
    }
    (copies, new_include, new_src, added_include, added_src)
}

/// Decide which files of one destination directory are stale: everything
/// listed that is not among the files to keep, except the protected shared
/// header.
pub fn cleanup_stale_files(files_to_keep: &Vec<String>, listing: &Vec<String>) -> (r: Vec<
    String,
>)
    ensures
        r.deep_view() == stale_of(listing.deep_view(), files_to_keep.deep_view()),
{
    let ghost ls = listing.deep_view();
    let ghost keep = files_to_keep.deep_view();
    let mut r: Vec<String> = Vec::new();
    let mut i: usize = 0;
    proof {
        assert(r.deep_view() + stale_of(ls.skip(0), keep) =~= stale_of(ls.skip(0), keep));
        assert(ls.skip(0) =~= ls);
    }
    while i < listing.len()
        invariant
            0 <= i <= listing@.len(),
            ls == listing.deep_view(),
            ls.len() == listing@.len(),
            keep == files_to_keep.deep_view(),
            stale_of(ls, keep) == r.deep_view() + stale_of(ls.skip(i as int), keep),
        decreases listing@.len() - i,
    {
        let ghost before = r.deep_view();
        let ghost tail = ls.skip(i as int);
        proof {
            assert(tail[0] == ls[i as int]);
            assert(tail.drop_first() =~= ls.skip(i + 1));
        }
        let name = &listing[i];
        let keep_it = contains_string(files_to_keep, name.as_str());
        let protected = crate::text::eq_str(name.as_str(), "common.hpp");
        if !keep_it && !protected {
            r.push(name.clone());
            proof {
                assert(r.deep_view() =~= before.push(ls[i as int]));
                assert(before + (seq![ls[i as int]] + stale_of(ls.skip(i + 1), keep))
                    =~= r.deep_view() + stale_of(ls.skip(i + 1), keep));
            }
        }
        i += 1;
    }
    proof {
        assert(ls.skip(ls.len() as int) =~= Seq::<Seq<char>>::empty());
        assert(r.deep_view() + stale_of(ls.skip(ls.len() as int), keep) =~= r.deep_view());
    }
    r
}

/// Decide the one-time substitutions: every freshly materialized target is
/// rewritten once, with the replacements of the first file specification
/// that names it.
pub fn ensure_replacements(
    specifications: &Vec<Specification>,
    new_include: &Vec<String>,
    new_src: &Vec<String>,
) -> (r: Vec<SubstitutionAction>)
    ensures
        r.deep_view() == subst_files(
            all_files(specifications.deep_view()),
            0,
            new_include.deep_view(),
            new_src.deep_view(),
            seq![],
            seq![],
        ),
{
    let files = collect_files(specifications);
    let ghost fs = files.deep_view();
    let ghost ni = new_include.deep_view();
    let ghost ns = new_src.deep_view();
    let mut r: Vec<SubstitutionAction> = Vec::new();
    let mut processed_include: Vec<String> = Vec::new();
    let mut processed_src: Vec<String> = Vec::new();
    let mut k: usize = 0;
    proof {
        assert(processed_include.deep_view() =~= Seq::<Seq<char>>::empty());
        assert(processed_src.deep_view() =~= Seq::<Seq<char>>::empty());
        assert(r.deep_view() + subst_files(fs, 0, ni, ns, seq![], seq![]) =~= subst_files(
            fs,
            0,
            ni,
            ns,
            seq![],
            seq![],
        ));
    }
    while k < files.len()
        invariant
            0 <= k <= files@.len(),
            fs == files.deep_view(),
            fs.len() == files@.len(),
            forall|j: int|
                0 <= j < files@.len() ==> (#[trigger] files@[j]).deep_view() == fs[j],
            ni == new_include.deep_view(),
            ns == new_src.deep_view(),
            subst_files(fs, 0, ni, ns, seq![], seq![]) == r.deep_view() + subst_files(
                fs,
                k as int,
                ni,
                ns,
                processed_include.deep_view(),
                processed_src.deep_view(),
            ),
        decreases files@.len() - k,
    {
        let ghost before = r.deep_view();
        let ghost pi = processed_include.deep_view();
        let ghost ps = processed_src.deep_view();
        let f = &files[k];
        let is_include = match f.c_file_type {
            CFileType::Hpp => true,
            CFileType::Cpp => false,
        };
        let fresh = if is_include {
            contains_string(new_include, f.target_file_name.as_str())
        } else {
            contains_string(new_src, f.target_file_name.as_str())
        };
        let seen = if is_include {
            contains_string(&processed_include, f.target_file_name.as_str())
        } else {
            contains_string(&processed_src, f.target_file_name.as_str())
        };
        if fresh && !seen {
            let action = SubstitutionAction {
                target_file_name: f.target_file_name.clone(),
                c_file_type: f.c_file_type,
                replacements: crate::meta::common::duplicate_file(f).replacements,
            };
            proof {
                assert(action.deep_view().replacements =~= fs[k as int].replacements);
            }
            r.push(action);
            if is_include {
                processed_include.push(f.target_file_name.clone());
            } else {
                processed_src.push(f.target_file_name.clone());
            }
            proof {
                assert(r.deep_view() =~= before.push(
                    SubstitutionActionModel {
                        target_file_name: fs[k as int].target_file_name,
                        c_file_type: fs[k as int].c_file_type,
                        replacements: fs[k as int].replacements,
                    },
                ));
                if is_include {
                    assert(processed_include.deep_view() =~= pi.push(
                        fs[k as int].target_file_name,
                    ));
                } else {
                    assert(processed_src.deep_view() =~= ps.push(fs[k as int].target_file_name));
                }
                assert(before + (seq![
                    SubstitutionActionModel {
                        target_file_name: fs[k as int].target_file_name,
                        c_file_type: fs[k as int].c_file_type,
                        replacements: fs[k as int].replacements,
                    },
                ] + subst_files(
                    fs,
                    k + 1,
                    ni,
                    ns,
                    processed_include.deep_view(),
                    processed_src.deep_view(),
                )) =~= r.deep_view() + subst_files(
                    fs,
                    k + 1,
                    ni,
                    ns,
                    processed_include.deep_view(),
                    processed_src.deep_view(),
                ));
            }
        }
        k += 1;
    }
    proof {
        assert(r.deep_view() + subst_files(
            fs,
            fs.len() as int,
            ni,
            ns,
            processed_include.deep_view(),
            processed_src.deep_view(),
        ) =~= r.deep_view());
    }
    r
}

/// Apply every token substitution to each line of a file's text.
pub open spec fn apply_line_replacements(
    line: Seq<char>,
    reps: Seq<ReplacementModel>,
    k: int,
) -> Seq<char>
    decreases reps.len() - k,
{
    if k < 0 || k >= reps.len() {
        line
    } else if reps[k].from.len() == 0 {
        apply_line_replacements(line, reps, k + 1)
    } else {
        apply_line_replacements(replace_all(line, reps[k].from, reps[k].to), reps, k + 1)
    }
}

/// The whole substituted text: each line rewritten with every replacement
/// in order, the lines rejoined with line breaks.
pub open spec fn spec_replace_lines(content: Seq<char>, reps: Seq<ReplacementModel>) -> Seq<
    char,
> {
    join_with(
        split_lines(content).map_values(|l: Seq<char>| apply_line_replacements(l, reps, 0)),
        seq!['\n'],
    )
}

/// Rewrite a file's text: apply every replacement to each line.
pub fn replace_lines(content: &str, replacements: &Vec<Replacement>) -> (r: String)
    ensures
        r@ == spec_replace_lines(content@, replacements.deep_view()),
{
    let ghost reps = replacements.deep_view();
    let lines = crate::text::split_lines_exec(content);
    let ghost lv = lines.deep_view();
    let mut rewritten: Vec<String> = Vec::new();
    let mut i: usize = 0;
    while i < lines.len()
        invariant
            0 <= i <= lines@.len(),
            lv == lines.deep_view(),
            lv.len() == lines@.len(),
            forall|k: int| 0 <= k < lines@.len() ==> (#[trigger] lines@[k])@ == lv[k],
            reps == replacements.deep_view(),
            rewritten.deep_view() == lv.map_values(
                |l: Seq<char>| apply_line_replacements(l, reps, 0),
            ).take(i as int),
        decreases lines@.len() - i,
    {
        let ghost before = rewritten.deep_view();
        let mut line = lines[i].clone();
        let mut k: usize = 0;
        while k < replacements.len()
            invariant
                0 <= k <= replacements@.len(),
                reps == replacements.deep_view(),
                reps.len() == replacements@.len(),
                forall|x: int|
                    0 <= x < replacements@.len() ==> (#[trigger] replacements@[x]).deep_view()
                        == reps[x],
                apply_line_replacements(lv[i as int], reps, 0) == apply_line_replacements(
                    line@,
                    reps,
                    k as int,
                ),
                0 <= i < lv.len(),
                lv == lines.deep_view(),
            decreases replacements@.len() - k,
        {
            if !replacements[k].from.as_str().is_empty() {
                line = crate::text::replace_str(
                    line.as_str(),
                    replacements[k].from.as_str(),
                    replacements[k].to.as_str(),
                );
            }
            k += 1;
        }
        rewritten.push(line);
        proof {
            assert(rewritten.deep_view() =~= before.push(
                apply_line_replacements(lv[i as int], reps, 0),
            ));
            assert(rewritten.deep_view() =~= lv.map_values(
                |l: Seq<char>| apply_line_replacements(l, reps, 0),
            ).take(i + 1));
        }
        i += 1;
    }
    proof {
        assert(rewritten.deep_view() =~= lv.map_values(
            |l: Seq<char>| apply_line_replacements(l, reps, 0),
        ));
        reveal_strlit("\n");
        assert("\n"@ =~= seq!['\n']);
    }
    crate::text::join_strings(&rewritten, "\n")
}

/// What the static-file stage finds already in place.
pub struct StaticFilesState {
    pub common_header_present: bool,
    pub lib_directory_present: bool,
    pub build_config_present: bool,
}

/// What the static-file stage must copy.
pub struct StaticFilesPlan {
    pub copy_common_header: bool,
    pub copy_lib_directory: bool,
    pub copy_build_config: bool,
}

/// Decide which static support files to copy into the interface tree:
/// exactly the ones not already present. Re-running the stage on a
/// populated tree copies nothing.
pub fn setup_static_files(state: &StaticFilesState) -> (r: StaticFilesPlan)
    ensures
        r.copy_common_header == !state.common_header_present,
        r.copy_lib_directory == !state.lib_directory_present,
        r.copy_build_config == !state.build_config_present,
{
    StaticFilesPlan {
        copy_common_header: !state.common_header_present,
        copy_lib_directory: !state.lib_directory_present,
        copy_build_config: !state.build_config_present,
    }
}

/// Plan one build of the generated source tree from the resolved
/// specifications and the directory listings of an earlier build: the
/// fresh copies, the one-time substitutions on exactly those copies, and
/// the stale files to remove.
pub fn setup(
    specifications: &Vec<Specification>,
    existing_include: &Vec<String>,
    existing_src: &Vec<String>,
) -> (r: BuildPlan)
    ensures
        ({
            let st = spec_place(
                specifications.deep_view(),
                existing_include.deep_view(),
                existing_src.deep_view(),
            );
            r.copies.deep_view() == st.copies && r.substitutions.deep_view() == subst_files(
                all_files(specifications.deep_view()),
                0,
                st.new_include,
                st.new_src,
                seq![],
                seq![],
            ) && r.stale_include.deep_view() == stale_of(
                existing_include.deep_view(),
                st.added_include,
            ) && r.stale_src.deep_view() == stale_of(existing_src.deep_view(), st.added_src)
        }),
{
    let (copies, new_include, new_src, added_include, added_src) = setup_source_files(
        specifications,
        existing_include,
        existing_src,
    );
    let stale_include = cleanup_stale_files(&added_include, existing_include);
    let stale_src = cleanup_stale_files(&added_src, existing_src);
    let substitutions = ensure_replacements(specifications, &new_include, &new_src);
    BuildPlan { copies, substitutions, stale_include, stale_src }
}

/// Every specification the builders produce derives its identifier from
/// its native code expression.
pub proof fn lemma_built_specifications_wf(m: MetaModel, params: Seq<SpecificationModel>)
    ensures
        match spec_from_parameterized(m, params) {
            Some(s) => s.wf(),
            None => true,
        },
        match spec_from_default(m) {
            Some(s) => s.wf(),
            None => true,
        },
{
}

/// Two specifications with identical native code expressions carry
/// identical content identifiers: the identifier is a function of the
/// expression alone, never of where in the IR text the instantiation was
/// captured.
pub proof fn lemma_identical_code_identical_id(s1: SpecificationModel, s2: SpecificationModel)
    requires
        s1.wf(),
        s2.wf(),
        s1.c_code == s2.c_code,
    ensures
        s1.id == s2.id,
{
}

/// A descriptor's default specification equals the parameterized
/// specification built by explicitly supplying each default parameter's
/// own default specification.
pub proof fn lemma_default_is_parameterized_by_defaults(m: MetaModel)
    requires
        forall|i: int|
            0 <= i < m.defaults.len() ==> spec_from_default(#[trigger] m.defaults[i]) is Some,
    ensures
        spec_from_default(m) == spec_from_parameterized(
            m,
            Seq::new(m.defaults.len(), |i: int| spec_from_default(m.defaults[i])->0),
        ),
{
    lemma_defaults_specs(m.defaults);
    let kids = defaults_specs(m.defaults);
    assert forall|i: int| 0 <= i < kids.len() implies (#[trigger] kids[i]) is Some by {}
    assert(kids.map_values(|o: Option<SpecificationModel>| o->0) =~= Seq::new(
        m.defaults.len(),
        |i: int| spec_from_default(m.defaults[i])->0,
    ));
}

/// When every target a build wants already exists from an earlier build,
/// the copy pass copies nothing and creates nothing new.
pub proof fn lemma_place_cache_hit(
    files: Seq<FileSpecModel>,
    k: int,
    existing_include: Seq<Seq<char>>,
    existing_src: Seq<Seq<char>>,
    st: PlaceState,
)
    requires
        forall|i: int|
            0 <= i < files.len() ==> ((#[trigger] files[i]).c_file_type is Hpp
                ==> existing_include.contains(files[i].target_file_name)) && (
            files[i].c_file_type is Cpp ==> existing_src.contains(files[i].target_file_name)),
    ensures
        place_files(files, k, existing_include, existing_src, st).copies == st.copies,
        place_files(files, k, existing_include, existing_src, st).new_include == st.new_include,
        place_files(files, k, existing_include, existing_src, st).new_src == st.new_src,
    decreases files.len() - k,
{
    if 0 <= k < files.len() {
        lemma_place_cache_hit(
            files,
            k + 1,
            existing_include,
            existing_src,
            place_step(files[k], existing_include, existing_src, st),
        );
    }
}

/// With no freshly created files there is nothing to substitute.
pub proof fn lemma_subst_nothing_fresh(
    files: Seq<FileSpecModel>,
    k: int,
    processed_include: Seq<Seq<char>>,
    processed_src: Seq<Seq<char>>,
)
    ensures
        subst_files(files, k, seq![], seq![], processed_include, processed_src) == Seq::<
            SubstitutionActionModel,
        >::empty(),
    decreases files.len() - k,
{
    if 0 <= k < files.len() {
        lemma_subst_nothing_fresh(files, k + 1, processed_include, processed_src);
    }
}

/// Re-running the pipeline against an unchanged tree is a pure cache hit:
/// when every file of every specification already exists, the plan copies
/// nothing and substitutes nothing.
pub proof fn lemma_second_build_writes_nothing(
    specs: Seq<SpecificationModel>,
    existing_include: Seq<Seq<char>>,
    existing_src: Seq<Seq<char>>,
)
    requires
        forall|i: int|
            0 <= i < all_files(specs).len() ==> ((#[trigger] all_files(specs)[i]).c_file_type
                is Hpp ==> existing_include.contains(all_files(specs)[i].target_file_name)) && (
            all_files(specs)[i].c_file_type is Cpp ==> existing_src.contains(
                all_files(specs)[i].target_file_name,
            )),
    ensures
        spec_place(specs, existing_include, existing_src).copies == Seq::<
            CopyActionModel,
        >::empty(),
        subst_files(
            all_files(specs),
            0,
            spec_place(specs, existing_include, existing_src).new_include,
            spec_place(specs, existing_include, existing_src).new_src,
            seq![],
            seq![],
        ) == Seq::<SubstitutionActionModel>::empty(),
{
    lemma_place_cache_hit(all_files(specs), 0, existing_include, existing_src, empty_place_state());
    lemma_subst_nothing_fresh(all_files(specs), 0, seq![], seq![]);
}

/// The copy pass never counts a surviving file as fresh.
pub proof fn lemma_place_fresh_is_new(
    files: Seq<FileSpecModel>,
    k: int,
    existing_include: Seq<Seq<char>>,
    existing_src: Seq<Seq<char>>,
    st: PlaceState,
    name: Seq<char>,
)
    requires
        existing_include.contains(name) ==> !st.new_include.contains(name),
        existing_src.contains(name) ==> !st.new_src.contains(name),
    ensures
        existing_include.contains(name) ==> !place_files(
            files,
            k,
            existing_include,
            existing_src,
            st,
        ).new_include.contains(name),
        existing_src.contains(name) ==> !place_files(
            files,
            k,
            existing_include,
            existing_src,
            st,
        ).new_src.contains(name),
    decreases files.len() - k,
{
    if 0 <= k < files.len() {
        let st2 = place_step(files[k], existing_include, existing_src, st);
        assert(existing_include.contains(name) ==> !st2.new_include.contains(name));
        assert(existing_src.contains(name) ==> !st2.new_src.contains(name));
        lemma_place_fresh_is_new(files, k + 1, existing_include, existing_src, st2, name);
    }
}

/// Every substitution targets a freshly created file.
pub proof fn lemma_subst_targets_fresh(
    files: Seq<FileSpecModel>,
    k: int,
    new_include: Seq<Seq<char>>,
    new_src: Seq<Seq<char>>,
    processed_include: Seq<Seq<char>>,
    processed_src: Seq<Seq<char>>,
)
    ensures
        forall|i: int|
            0 <= i < subst_files(
                files,
                k,
                new_include,
                new_src,
                processed_include,
                processed_src,
            ).len() ==> {
                let a = #[trigger] subst_files(
                    files,
                    k,
                    new_include,
                    new_src,
                    processed_include,
                    processed_src,
                )[i];
                (a.c_file_type is Hpp ==> new_include.contains(a.target_file_name)) && (
                a.c_file_type is Cpp ==> new_src.contains(a.target_file_name))
            },
    decreases files.len() - k,
{
    if 0 <= k < files.len() {
        let f = files[k];
        let is_include = f.c_file_type is Hpp;
        let fresh = if is_include {
            new_include
        } else {
            new_src
        };
        let processed = if is_include {
            processed_include
        } else {
            processed_src
        };
        if fresh.contains(f.target_file_name) && !processed.contains(f.target_file_name) {
            lemma_subst_targets_fresh(
                files,
                k + 1,
                new_include,
                new_src,
                if is_include {
                    processed_include.push(f.target_file_name)
                } else {
                    processed_include
                },
                if is_include {
                    processed_src
                } else {
                    processed_src.push(f.target_file_name)
                },
            );
        } else {
            lemma_subst_targets_fresh(
                files,
                k + 1,
                new_include,
                new_src,
                processed_include,
                processed_src,
            );
        }
    }
}

/// A file that survives from an earlier build is never substituted:
/// substitution runs exactly once per physical file, the moment it is
/// created, so a second build leaves existing files byte-identical.
pub proof fn lemma_existing_files_never_substituted(
    specs: Seq<SpecificationModel>,
    existing_include: Seq<Seq<char>>,
    existing_src: Seq<Seq<char>>,
    name: Seq<char>,
)
    ensures
        forall|i: int|
            0 <= i < subst_files(
                all_files(specs),
                0,
                spec_place(specs, existing_include, existing_src).new_include,
                spec_place(specs, existing_include, existing_src).new_src,
                seq![],
                seq![],
            ).len() ==> {
                let a = #[trigger] subst_files(
                    all_files(specs),
                    0,
                    spec_place(specs, existing_include, existing_src).new_include,
                    spec_place(specs, existing_include, existing_src).new_src,
                    seq![],
                    seq![],
                )[i];
                (a.c_file_type is Hpp && existing_include.contains(name)
                    ==> a.target_file_name != name) && (a.c_file_type is Cpp
                    && existing_src.contains(name) ==> a.target_file_name != name)
            },
{
    let st = spec_place(specs, existing_include, existing_src);
    lemma_place_fresh_is_new(
        all_files(specs),
        0,
        existing_include,
        existing_src,
        empty_place_state(),
        name,
    );
    lemma_subst_targets_fresh(all_files(specs), 0, st.new_include, st.new_src, seq![], seq![]);
}

/// A file of an earlier build that this build does not produce is removed,
/// unless it is the protected shared header.
pub proof fn lemma_stale_files_removed(
    listing: Seq<Seq<char>>,
    keep: Seq<Seq<char>>,
    name: Seq<char>,
)
    requires
        listing.contains(name),
        !keep.contains(name),
        name != protected_file_name(),
    ensures
        stale_of(listing, keep).contains(name),
    decreases listing,
{
    if listing.len() > 0 {
        if listing[0] == name {
            assert(stale_of(listing, keep)[0] == name);
        } else {
            let i = choose|i: int| 0 <= i < listing.len() && listing[i] == name;
            assert(listing.drop_first()[i - 1] == name);
            assert(listing.drop_first().contains(name));
            lemma_stale_files_removed(listing.drop_first(), keep, name);
            let rest = stale_of(listing.drop_first(), keep);
            let j = choose|j: int| 0 <= j < rest.len() && rest[j] == name;
            if !keep.contains(listing[0]) && listing[0] != protected_file_name() {
                assert(stale_of(listing, keep)[j + 1] == name);
            }
        }
    }
}

/// The protected shared header is never removed as stale.
pub proof fn lemma_protected_file_kept(listing: Seq<Seq<char>>, keep: Seq<Seq<char>>)
    ensures
        !stale_of(listing, keep).contains(protected_file_name()),
    decreases listing,
{
    if listing.len() > 0 {
        lemma_protected_file_kept(listing.drop_first(), keep);
        let rest = stale_of(listing.drop_first(), keep);
        if !keep.contains(listing[0]) && listing[0] != protected_file_name() {
            assert forall|i: int|
                0 <= i < stale_of(listing, keep).len() implies stale_of(listing, keep)[i]
                != protected_file_name() by {
                if i > 0 {
                    assert(stale_of(listing, keep)[i] == rest[i - 1]);
                }
            }
        }
    }
}

/// The file name of the compiled shared-library artifact.
pub fn compile_artifact_name() -> (r: &'static str)
    ensures
        r@ == "libsdsl_c.so"@,
{
    "libsdsl_c.so"
}

} // verus!
