//! Shared descriptor machinery: the descriptor sum type, file
//! specifications, native-order re-sorting and target file naming.

use vstd::prelude::*;
use crate::text::join_with;
use crate::text::join_strings;

pub mod bit_patterns;
pub mod io;
pub mod params;
pub mod util;

pub use params::{Parameter, ParameterModel, params_perm_wf};

verus! {

/// Whether a generated file is a header or a translation unit; decides the
/// destination subdirectory.
#[derive(Clone, Copy, Debug, PartialEq, Eq, Structural)]
pub enum CFileType {
    Cpp,
    Hpp,
}

/// One literal token substitution: every occurrence of `from` in a line is
/// replaced by `to`.
#[derive(Clone, Debug, PartialEq, Eq)]
pub struct Replacement {
    pub from: String,
    pub to: String,
}

/// A `Replacement` as the contracts see it.
pub ghost struct ReplacementModel {
    pub from: Seq<char>,
    pub to: Seq<char>,
}

impl DeepView for Replacement {
    type V = ReplacementModel;

    open spec fn deep_view(&self) -> ReplacementModel {
        ReplacementModel { from: self.from@, to: self.to@ }
    }
}

impl Replacement {
    /// Pair a literal with its substitution.
    pub fn new(from: String, to: String) -> (r: Self)
        ensures
            r.deep_view() == (ReplacementModel { from: from@, to: to@ }),
    {
        Replacement { from, to }
    }
}

/// One template-to-target file materialization unit with its token
/// substitution rules.
#[derive(Clone, Debug, PartialEq, Eq)]
pub struct FileSpecification {
    pub replacements: Vec<Replacement>,
    pub template_file_name: String,
    pub target_file_name: String,
    pub c_file_type: CFileType,
}

/// A `FileSpecification` as the contracts see it.
pub ghost struct FileSpecModel {
    pub replacements: Seq<ReplacementModel>,
    pub template_file_name: Seq<char>,
    pub target_file_name: Seq<char>,
    pub c_file_type: CFileType,
}

impl DeepView for FileSpecification {
    type V = FileSpecModel;

    open spec fn deep_view(&self) -> FileSpecModel {
        FileSpecModel {
            replacements: self.replacements.deep_view(),
            template_file_name: self.template_file_name@,
            target_file_name: self.target_file_name@,
            c_file_type: self.c_file_type,
        }
    }
}

/// Everything that can go wrong while resolving instantiations and
/// rendering their files.
#[derive(Clone, Debug, PartialEq, Eq)]
pub enum BuildError {
    /// A template file name has no stem or no extension.
    TargetFileName { path: String },
    /// A descriptor expected the file specifications of a nested structure
    /// parameter and none were supplied.
    MissingNestedFileSpecs,
    /// A nested structure parameter resolved to zero or several
    /// specifications.
    AmbiguousNestedType { value: String, count: usize },
    /// Nested structure references exceeded the recursion bound.
    RecursionLimit { value: String },
}

/// The closed set of bindable structure kinds.
#[derive(Clone, Copy, Debug, PartialEq, Eq, Structural)]
pub enum MetaKind {
    IntVector,
    RankSupportV,
    SelectSupportMcl,
    BitVector,
    RrrVector,
    WtHuff,
    WtInt,
    ByteTree,
    BreadthFirstSearch,
    P0,
    P1,
    P10,
    P01,
    Generic,
}

/// A descriptor with a raw captured value in place of structure data; used
/// for integer-literal parameters.
#[derive(Clone, Debug)]
pub struct GenericMeta {
    pub value: String,
}

impl GenericMeta {
    /// Wrap a raw captured parameter value.
    pub fn new(value: &str) -> (r: Self)
        ensures
            r.value@ == value@,
    {
        GenericMeta { value: value.to_owned() }
    }
}

/// One bindable structure descriptor: the closed sum over every kind the
/// registry knows.
#[derive(Debug)]
pub enum Meta {
    IntVector(crate::meta::int_vector::IntVectorMeta),
    RankSupportV(crate::meta::rank_support_v::RankSupportVMeta),
    SelectSupportMcl(crate::meta::select_support_mcl::SelectSupportMclMeta),
    BitVector(crate::meta::bit_vectors::bit_vector::BitVectorMeta),
    RrrVector(crate::meta::bit_vectors::rrr_vector::RrrVectorMeta),
    WtHuff(crate::meta::wavelet_trees::wt_huff::WtHuffMeta),
    WtInt(crate::meta::wavelet_trees::wt_int::WtIntMeta),
    ByteTree(crate::meta::wavelet_trees::layouts::byte_tree::ByteTreeMeta),
    BreadthFirstSearch(crate::meta::wavelet_trees::layouts::common::BreadthFirstSearchMeta),
    P0(bit_patterns::P0Meta),
    P1(bit_patterns::P1Meta),
    P10(bit_patterns::P10Meta),
    P01(bit_patterns::P01Meta),
    Generic(GenericMeta),
}

/// A descriptor as the contracts see it: its kind, the raw value of a
/// generic descriptor, and the default descriptors of its parameters.
pub ghost struct MetaModel {
    pub kind: MetaKind,
    pub value: Seq<char>,
    pub defaults: Seq<MetaModel>,
}

impl Meta {
    /// The descriptor's abstract model.
    pub open spec fn model(self) -> MetaModel
        decreases self,
    {
        match self {
            Meta::IntVector(_) => leaf_model(MetaKind::IntVector),
            Meta::RankSupportV(m) => MetaModel {
                kind: MetaKind::RankSupportV,
                value: seq![],
                defaults: models_of(m.parameters_default_meta@),
            },
            Meta::SelectSupportMcl(m) => MetaModel {
                kind: MetaKind::SelectSupportMcl,
                value: seq![],
                defaults: models_of(m.parameters_default_meta@),
            },
            Meta::BitVector(_) => leaf_model(MetaKind::BitVector),
            Meta::RrrVector(_) => leaf_model(MetaKind::RrrVector),
            Meta::WtHuff(m) => MetaModel {
                kind: MetaKind::WtHuff,
                value: seq![],
                defaults: models_of(m.parameters_default_meta@),
            },
            Meta::WtInt(m) => MetaModel {
                kind: MetaKind::WtInt,
                value: seq![],
                defaults: models_of(m.parameters_default_meta@),
            },
            Meta::ByteTree(m) => MetaModel {
                kind: MetaKind::ByteTree,
                value: seq![],
                defaults: models_of(m.parameters_default_meta@),
            },
            Meta::BreadthFirstSearch(_) => leaf_model(MetaKind::BreadthFirstSearch),
            Meta::P0(_) => leaf_model(MetaKind::P0),
            Meta::P1(_) => leaf_model(MetaKind::P1),
            Meta::P10(_) => leaf_model(MetaKind::P10),
            Meta::P01(_) => leaf_model(MetaKind::P01),
            Meta::Generic(g) => MetaModel { kind: MetaKind::Generic, value: g.value@, defaults: seq![] },
        }
    }
}

impl DeepView for Meta {
    type V = MetaModel;

    open spec fn deep_view(&self) -> MetaModel {
        self.model()
    }
}

/// A model without defaults and without a raw value.
pub open spec fn leaf_model(kind: MetaKind) -> MetaModel {
    MetaModel { kind, value: seq![], defaults: seq![] }
}

/// The models of a sequence of descriptors, in order.
pub open spec fn models_of(s: Seq<Meta>) -> Seq<MetaModel>
    decreases s,
{
    if s.len() == 0 {
        seq![]
    } else {
        models_of(s.drop_last()).push(s.last().model())
    }
}

/// `models_of` maps `model` over the sequence.
pub proof fn lemma_models_of(s: Seq<Meta>)
    ensures
        models_of(s).len() == s.len(),
        forall|i: int| 0 <= i < s.len() ==> models_of(s)[i] == s[i].model(),
    decreases s,
{
    if s.len() > 0 {
        lemma_models_of(s.drop_last());
    }
}

/// The fully qualified path that anchors the descriptor's matches in IR
/// text.
pub open spec fn spec_path(kind: MetaKind) -> Seq<char> {
    match kind {
        MetaKind::IntVector => "sdsl::int_vector::IntVector"@,
        MetaKind::RankSupportV => "sdsl::rank_supports::RankSupportV"@,
        MetaKind::SelectSupportMcl => "sdsl::select_supports::SelectSupportMcl"@,
        MetaKind::BitVector => "sdsl::bit_vectors::BitVector"@,
        MetaKind::RrrVector => "sdsl::bit_vectors::RrrVector"@,
        MetaKind::WtHuff => "sdsl::wavelet_trees::WtHuff"@,
        MetaKind::WtInt => "sdsl::wavelet_trees::WtInt"@,
        MetaKind::ByteTree => "sdsl::wavelet_trees::layouts::ByteTree"@,
        MetaKind::BreadthFirstSearch => "sdsl::wavelet_trees::layouts::BreadthFirstSearch"@,
        MetaKind::P0 => "sdsl::bit_patterns::P0"@,
        MetaKind::P1 => "sdsl::bit_patterns::P1"@,
        MetaKind::P10 => "sdsl::bit_patterns::P10"@,
        MetaKind::P01 => "sdsl::bit_patterns::P01"@,
        MetaKind::Generic => ""@,
    }
}

/// The parameter slots each kind declares, in declaration order.
pub open spec fn params_of(kind: MetaKind) -> Seq<ParameterModel> {
    match kind {
        MetaKind::IntVector => seq![params::integer_param(false, 0)],
        MetaKind::RankSupportV => seq![params::sdsl_param(false, 0)],
        MetaKind::SelectSupportMcl => seq![params::sdsl_param(false, 0)],
        MetaKind::RrrVector => seq![
            params::sdsl_param(false, 1),
            params::integer_param(false, 0),
            params::integer_param(false, 2),
        ],
        MetaKind::WtHuff => seq![
            params::sdsl_param(true, 0),
            params::sdsl_param(true, 1),
            params::sdsl_param(true, 2),
            params::sdsl_param(true, 3),
            params::sdsl_param(true, 4),
        ],
        MetaKind::WtInt => seq![
            params::sdsl_param(true, 0),
            params::sdsl_param(true, 1),
            params::sdsl_param(true, 2),
            params::sdsl_param(true, 3),
        ],
        MetaKind::ByteTree => seq![params::sdsl_param(true, 0)],
        _ => seq![],
    }
}

/// The head of the native rendering for kinds that render as
/// `head<values...>`; `None` for kinds that render as a fixed literal or
/// as the raw captured value.
pub open spec fn angle_head(kind: MetaKind) -> Option<Seq<char>> {
    match kind {
        MetaKind::IntVector => Some("sdsl::int_vector"@),
        MetaKind::RankSupportV => Some("sdsl::rank_support_v"@),
        MetaKind::SelectSupportMcl => Some("sdsl::select_support_mcl"@),
        MetaKind::RrrVector => Some("sdsl::rrr_vector"@),
        MetaKind::WtHuff => Some("sdsl::wt_huff"@),
        MetaKind::WtInt => Some("sdsl::wt_int"@),
        MetaKind::ByteTree => Some("sdsl::byte_tree"@),
        _ => None,
    }
}

/// The fixed native rendering of kinds without parameters.
pub open spec fn literal_code(kind: MetaKind) -> Seq<char> {
    match kind {
        MetaKind::BitVector => "sdsl::bit_vector"@,
        MetaKind::BreadthFirstSearch => "false"@,
        MetaKind::P0 => "0, 1"@,
        MetaKind::P1 => "1, 1"@,
        MetaKind::P10 => "10, 2"@,
        MetaKind::P01 => "1, 2"@,
        _ => ""@,
    }
}

/// Captured values rearranged into native declaration order: the value of
/// the parameter declared at position `k` is placed at index
/// `params[k].c_index`.
pub open spec fn place_sorted(
    ps: Seq<ParameterModel>,
    values: Seq<Seq<char>>,
    k: int,
    acc: Seq<Seq<char>>,
) -> Seq<Seq<char>>
    decreases ps.len() - k,
{
    if k < 0 || k >= ps.len() || ps.len() != values.len() {
        acc
    } else {
        place_sorted(ps, values, k + 1, acc.update(ps[k].c_index, values[k]))
    }
}

/// Captured values in native declaration order.
pub open spec fn spec_c_sorted(ps: Seq<ParameterModel>, values: Seq<Seq<char>>) -> Seq<Seq<char>> {
    place_sorted(ps, values, 0, Seq::new(values.len(), |i: int| Seq::<char>::empty()))
}

/// Re-sorting sends each value to its parameter's native index.
pub proof fn lemma_c_sorted_maps(ps: Seq<ParameterModel>, values: Seq<Seq<char>>)
    requires
        params_perm_wf(ps),
        ps.len() == values.len(),
    ensures
        spec_c_sorted(ps, values).len() == values.len(),
        forall|i: int|
            0 <= i < ps.len() ==> spec_c_sorted(ps, values)[(#[trigger] ps[i]).c_index]
                == values[i],
{
    lemma_place_sorted(ps, values, 0, Seq::new(values.len(), |i: int| Seq::<char>::empty()));
}

proof fn lemma_place_sorted(
    ps: Seq<ParameterModel>,
    values: Seq<Seq<char>>,
    k: int,
    acc: Seq<Seq<char>>,
)
    requires
        params_perm_wf(ps),
        ps.len() == values.len(),
        acc.len() == values.len(),
        0 <= k <= ps.len(),
    ensures
        place_sorted(ps, values, k, acc).len() == values.len(),
        forall|i: int|
            k <= i < ps.len() ==> place_sorted(ps, values, k, acc)[(#[trigger] ps[i]).c_index]
                == values[i],
        forall|j: int|
            0 <= j < acc.len() && (forall|i: int| k <= i < ps.len() ==> (#[trigger] ps[i]).c_index
                != j) ==> place_sorted(ps, values, k, acc)[j] == acc[j],
    decreases ps.len() - k,
{
    if k < ps.len() {
        let acc2 = acc.update(ps[k].c_index, values[k]);
        lemma_place_sorted(ps, values, k + 1, acc2);
        let res = place_sorted(ps, values, k, acc);
        assert(res == place_sorted(ps, values, k + 1, acc2));
        assert forall|i: int| k <= i < ps.len() implies res[(#[trigger] ps[i]).c_index]
            == values[i] by {
            if i == k {
                assert forall|i2: int| k + 1 <= i2 < ps.len() implies (#[trigger] ps[i2]).c_index
                    != ps[k].c_index by {}
                assert(res[ps[k].c_index] == acc2[ps[k].c_index]);
            }
        }
        assert forall|j: int|
            0 <= j < acc.len() && (forall|i: int| k <= i < ps.len() ==> (#[trigger] ps[i]).c_index
                != j) implies place_sorted(ps, values, k, acc)[j] == acc[j] by {
            assert(ps[k].c_index != j);
            assert(acc2[j] == acc[j]);
        }
    }
}

/// The canonical native code expression of a non-generic descriptor kind
/// applied to resolved parameter values.
pub open spec fn spec_c_code_kind(kind: MetaKind, values: Seq<Seq<char>>) -> Seq<char> {
    match angle_head(kind) {
        Some(head) => head + "<"@ + join_with(spec_c_sorted(params_of(kind), values), ", "@)
            + ">"@,
        None => literal_code(kind),
    }
}

/// The canonical native code expression of a descriptor applied to
/// resolved parameter values.
pub open spec fn spec_c_code(m: MetaModel, values: Seq<Seq<char>>) -> Seq<char> {
    if m.kind is Generic {
        m.value
    } else {
        spec_c_code_kind(m.kind, values)
    }
}

/// A descriptor is well formed: its native indexes permute the declaration
/// order, defaults are absent or cover every parameter, kinds with
/// elidable parameters carry a full default list of the right shape, and
/// nested defaults are well formed in turn.
pub open spec fn meta_model_wf(m: MetaModel) -> bool
    decreases m,
{
    &&& params_perm_wf(params_of(m.kind))
    &&& m.defaults.len() == 0 || m.defaults.len() == params_of(m.kind).len()
    &&& (exists|i: int|
        0 <= i < params_of(m.kind).len() && (#[trigger] params_of(m.kind)[i]).has_default)
        ==> m.defaults.len() == params_of(m.kind).len()
    &&& (m.kind is WtHuff ==> m.defaults.len() == 5 && m.defaults[4].kind is ByteTree)
    &&& forall|i: int|
        0 <= i < m.defaults.len() ==> (#[trigger] m.defaults[i]).defaults.len() == params_of(
            m.defaults[i].kind,
        ).len()
    &&& forall|i: int| 0 <= i < m.defaults.len() ==> meta_model_wf(#[trigger] m.defaults[i])
}

impl MetaModel {
    /// Abbreviation for well-formedness of a descriptor model.
    pub open spec fn wf(self) -> bool {
        meta_model_wf(self)
    }
}

/// The sequence of values in native order, computed from declared
/// parameters and captured values.
pub fn c_sorted_parameters(
    parameters_c_code: &Vec<String>,
    parameter_definitions: &Vec<Parameter>,
) -> (r: Vec<String>)
    requires
        params_perm_wf(parameter_definitions.deep_view()),
        parameters_c_code@.len() == parameter_definitions@.len(),
    ensures
        r.deep_view() == spec_c_sorted(
            parameter_definitions.deep_view(),
            parameters_c_code.deep_view(),
        ),
{
    let n = parameters_c_code.len();
    let ghost ps = parameter_definitions.deep_view();
    let ghost vs = parameters_c_code.deep_view();
    let mut sorted: Vec<String> = Vec::new();
    while sorted.len() < n
        invariant
            sorted@.len() <= n,
            forall|j: int| 0 <= j < sorted@.len() ==> (#[trigger] sorted@[j])@ == Seq::<
                char,
            >::empty(),
        decreases n - sorted@.len(),
    {
        sorted.push(String::new());
    }
    let ghost init = sorted.deep_view();
    proof {
        assert(init =~= Seq::new(vs.len(), |i: int| Seq::<char>::empty()));
    }
    let mut k: usize = 0;
    while k < n
        invariant
            0 <= k <= n,
            n == vs.len(),
            n == ps.len(),
            ps == parameter_definitions.deep_view(),
            vs == parameters_c_code.deep_view(),
            parameters_c_code@.len() == n,
            parameter_definitions@.len() == n,
            params_perm_wf(ps),
            sorted@.len() == n,
            spec_c_sorted(ps, vs) == place_sorted(ps, vs, k as int, sorted.deep_view()),
        decreases n - k,
    {
        let ghost before = sorted.deep_view();
        let c_index = parameter_definitions[k].c_index;
        assert(ps[k as int].c_index == c_index as int);
        assert(0 <= c_index < n);
        let value = parameters_c_code[k].clone();
        assert(value@ == vs[k as int]);
        sorted.set(c_index, value);
        proof {
            assert(sorted.deep_view() =~= before.update(c_index as int, vs[k as int]));
        }
        k += 1;
    }
    proof {
        assert(place_sorted(ps, vs, n as int, sorted.deep_view()) == sorted.deep_view());
    }
    sorted
}

/// Render `head<v0, v1, ...>` with the values in native order.
pub fn render_angle(head: &str, params: &Vec<Parameter>, values: &Vec<String>) -> (r: String)
    requires
        params_perm_wf(params.deep_view()),
        values@.len() == params@.len(),
    ensures
        r@ == head@ + "<"@ + join_with(
            spec_c_sorted(params.deep_view(), values.deep_view()),
            ", "@,
        ) + ">"@,
{
    let sorted = c_sorted_parameters(values, params);
    let joined = join_strings(&sorted, ", ");
    let mut r = head.to_owned();
    r.append("<");
    r.append(joined.as_str());
    r.append(">");
    r
}

/// `stem`, `id` and `ext` assembled into a per-instantiation file name.
pub open spec fn make_target(stem: Seq<char>, id: Seq<char>, ext: Seq<char>) -> Seq<char> {
    stem + seq!['_'] + id + seq!['.'] + ext
}

/// Assemble `{stem}_{id}.{ext}`.
pub fn make_target_file_name(stem: &str, id: &str, ext: &str) -> (r: String)
    ensures
        r@ == make_target(stem@, id@, ext@),
{
    let mut r = stem.to_owned();
    proof {
        reveal_strlit("_");
        reveal_strlit(".");
        assert("_"@ =~= seq!['_']);
        assert("."@ =~= seq!['.']);
    }
    r.append("_");
    r.append(id);
    r.append(".");
    r.append(ext);
    proof {
        assert(r@ =~= make_target(stem@, id@, ext@));
    }
    r
}

/// The files each descriptor kind materializes for one instantiation, over
/// the resolved parameter values, the file specifications of nested
/// structure parameters, and the instantiation identifier. `None` when a
/// kind that splices nested file specifications received none.
#[verifier::opaque]
pub open spec fn spec_file_specs(
    m: MetaModel,
    values: Seq<Seq<char>>,
    nested: Seq<Seq<FileSpecModel>>,
    id: Seq<char>,
) -> Option<Seq<FileSpecModel>> {
    match m.kind {
        MetaKind::IntVector => Some(crate::meta::int_vector::spec_file_specs(values, id)),
        MetaKind::RankSupportV => Some(
            crate::meta::rank_support_v::spec_file_specs(values, id),
        ),
        MetaKind::SelectSupportMcl => Some(
            crate::meta::select_support_mcl::spec_file_specs(values, id),
        ),
        MetaKind::BitVector => Some(crate::meta::bit_vectors::bit_vector::spec_file_specs()),
        MetaKind::RrrVector => Some(
            crate::meta::bit_vectors::rrr_vector::spec_file_specs(values, nested, id),
        ),
        MetaKind::WtHuff => crate::meta::wavelet_trees::wt_huff::spec_file_specs(
            values,
            nested,
            id,
        ),
        MetaKind::WtInt => Some(crate::meta::wavelet_trees::wt_int::spec_file_specs(values, id)),
        MetaKind::ByteTree => Some(
            crate::meta::wavelet_trees::layouts::byte_tree::spec_file_specs(values),
        ),
        _ => Some(seq![]),
    }
}

impl Meta {
    /// The fully qualified path that anchors this descriptor's matches.
    pub fn path(&self) -> (r: String)
        ensures
            r@ == spec_path(self.model().kind),
    {
        match self {
            Meta::IntVector(_) => "sdsl::int_vector::IntVector".to_owned(),
            Meta::RankSupportV(_) => "sdsl::rank_supports::RankSupportV".to_owned(),
            Meta::SelectSupportMcl(_) => "sdsl::select_supports::SelectSupportMcl".to_owned(),
            Meta::BitVector(_) => "sdsl::bit_vectors::BitVector".to_owned(),
            Meta::RrrVector(_) => "sdsl::bit_vectors::RrrVector".to_owned(),
            Meta::WtHuff(_) => "sdsl::wavelet_trees::WtHuff".to_owned(),
            Meta::WtInt(_) => "sdsl::wavelet_trees::WtInt".to_owned(),
            Meta::ByteTree(_) => "sdsl::wavelet_trees::layouts::ByteTree".to_owned(),
            Meta::BreadthFirstSearch(_) => "sdsl::wavelet_trees::layouts::BreadthFirstSearch".to_owned(),
            Meta::P0(_) => "sdsl::bit_patterns::P0".to_owned(),
            Meta::P1(_) => "sdsl::bit_patterns::P1".to_owned(),
            Meta::P10(_) => "sdsl::bit_patterns::P10".to_owned(),
            Meta::P01(_) => "sdsl::bit_patterns::P01".to_owned(),
            Meta::Generic(_) => "".to_owned(),
        }
    }

    /// The parameter slots this descriptor declares, in declaration order.
    pub fn parameters(&self) -> (r: Vec<Parameter>)
        ensures
            r.deep_view() == params_of(self.model().kind),
    {
        match self {
            Meta::IntVector(_) => crate::meta::int_vector::parameters_exec(),
            Meta::RankSupportV(_) => crate::meta::rank_support_v::parameters_exec(),
            Meta::SelectSupportMcl(_) => crate::meta::select_support_mcl::parameters_exec(),
            Meta::RrrVector(_) => crate::meta::bit_vectors::rrr_vector::parameters_exec(),
            Meta::WtHuff(_) => crate::meta::wavelet_trees::wt_huff::parameters_exec(),
            Meta::WtInt(_) => crate::meta::wavelet_trees::wt_int::parameters_exec(),
            Meta::ByteTree(_) => crate::meta::wavelet_trees::layouts::byte_tree::parameters_exec(),
            _ => {
                let r: Vec<Parameter> = Vec::new();
                proof {
                    assert(r.deep_view() =~= params_of(self.model().kind));
                }
                r
            },
        }
    }

    /// Render the canonical native code expression for the resolved
    /// parameter values.
    pub fn c_code(&self, parameters_c_code: &Vec<String>) -> (r: String)
        requires
            parameters_c_code@.len() == params_of(self.model().kind).len(),
        ensures
            r@ == spec_c_code(self.model(), parameters_c_code.deep_view()),
    {
        match self {
            Meta::IntVector(_) => crate::meta::int_vector::c_code_exec(parameters_c_code),
            Meta::RankSupportV(_) => crate::meta::rank_support_v::c_code_exec(parameters_c_code),
            Meta::SelectSupportMcl(_) => crate::meta::select_support_mcl::c_code_exec(
                parameters_c_code,
            ),
            Meta::BitVector(_) => "sdsl::bit_vector".to_owned(),
            Meta::RrrVector(_) => crate::meta::bit_vectors::rrr_vector::c_code_exec(
                parameters_c_code,
            ),
            Meta::WtHuff(_) => crate::meta::wavelet_trees::wt_huff::c_code_exec(parameters_c_code),
            Meta::WtInt(_) => crate::meta::wavelet_trees::wt_int::c_code_exec(parameters_c_code),
            Meta::ByteTree(_) => {
                let params = crate::meta::wavelet_trees::layouts::byte_tree::parameters_exec();
                render_angle("sdsl::byte_tree", &params, parameters_c_code)
            },
            Meta::BreadthFirstSearch(_) => "false".to_owned(),
            Meta::P0(_) => "0, 1".to_owned(),
            Meta::P1(_) => "1, 1".to_owned(),
            Meta::P10(_) => "10, 2".to_owned(),
            Meta::P01(_) => "1, 2".to_owned(),
            Meta::Generic(g) => g.value.clone(),
        }
    }

    /// Build the file specifications of one instantiation of this
    /// descriptor.
    pub fn file_specifications(
        &self,
        parameters_c_code: &Vec<String>,
        parameters_file_specs: &Vec<Vec<FileSpecification>>,
        id: &str,
    ) -> (r: Result<Vec<FileSpecification>, BuildError>)
        requires
            parameters_c_code@.len() == params_of(self.model().kind).len(),
        ensures
            match r {
                Ok(v) => spec_file_specs(
                    self.model(),
                    parameters_c_code.deep_view(),
                    parameters_file_specs.deep_view(),
                    id@,
                ) == Some(v.deep_view()),
                Err(e) => spec_file_specs(
                    self.model(),
                    parameters_c_code.deep_view(),
                    parameters_file_specs.deep_view(),
                    id@,
                ) is None && e is MissingNestedFileSpecs,
            },
    {
        proof {
            reveal(spec_file_specs);
        }
        match self {
            Meta::IntVector(_) => Ok(
                crate::meta::int_vector::file_specifications(parameters_c_code, id),
            ),
            Meta::RankSupportV(_) => Ok(
                crate::meta::rank_support_v::file_specifications(parameters_c_code, id),
            ),
            Meta::SelectSupportMcl(_) => Ok(
                crate::meta::select_support_mcl::file_specifications(parameters_c_code, id),
            ),
            Meta::BitVector(_) => Ok(
                crate::meta::bit_vectors::bit_vector::file_specifications(),
            ),
            Meta::RrrVector(_) => Ok(
                crate::meta::bit_vectors::rrr_vector::file_specifications(
                    parameters_c_code,
                    parameters_file_specs,
                    id,
                ),
            ),
            Meta::WtHuff(_) => crate::meta::wavelet_trees::wt_huff::file_specifications(
                parameters_c_code,
                parameters_file_specs,
                id,
            ),
            Meta::WtInt(_) => Ok(
                crate::meta::wavelet_trees::wt_int::file_specifications(parameters_c_code, id),
            ),
            Meta::ByteTree(_) => Ok(
                crate::meta::wavelet_trees::layouts::byte_tree::file_specifications(
                    parameters_c_code,
                ),
            ),
            _ => {
                let r: Vec<FileSpecification> = Vec::new();
                proof {
                    assert(r.deep_view() =~= Seq::<FileSpecModel>::empty());
                }
                Ok(r)
            },
        }
    }
}

impl Meta {
    /// The default descriptors of this descriptor's parameters, where it
    /// has any.
    pub fn parameters_meta(&self) -> (r: Option<&Vec<Meta>>)
        ensures
            match r {
                Some(v) => models_of(v@) == self.model().defaults,
                None => self.model().defaults.len() == 0,
            },
    {
        match self {
            Meta::RankSupportV(m) => Some(&m.parameters_default_meta),
            Meta::SelectSupportMcl(m) => Some(&m.parameters_default_meta),
            Meta::WtHuff(m) => Some(&m.parameters_default_meta),
            Meta::WtInt(m) => Some(&m.parameters_default_meta),
            Meta::ByteTree(m) => Some(&m.parameters_default_meta),
            _ => None,
        }
    }
}

/// Copy one file specification, field by field.
pub fn duplicate_file(f: &FileSpecification) -> (r: FileSpecification)
    ensures
        r.deep_view() == f.deep_view(),
{
    let mut replacements: Vec<Replacement> = Vec::new();
    let mut j: usize = 0;
    while j < f.replacements.len()
        invariant
            0 <= j <= f.replacements@.len(),
            replacements.deep_view() == f.replacements.deep_view().take(j as int),
        decreases f.replacements@.len() - j,
    {
        let ghost rb = replacements.deep_view();
        replacements.push(
            Replacement::new(f.replacements[j].from.clone(), f.replacements[j].to.clone()),
        );
        proof {
            assert(replacements.deep_view() =~= rb.push(f.replacements@[j as int].deep_view()));
            assert(replacements.deep_view() =~= f.replacements.deep_view().take(j + 1));
        }
        j += 1;
    }
    proof {
        assert(replacements.deep_view() =~= f.replacements.deep_view());
    }
    FileSpecification {
        replacements,
        template_file_name: f.template_file_name.clone(),
        target_file_name: f.target_file_name.clone(),
        c_file_type: f.c_file_type,
    }
}

/// The token substitution that redirects an include of the template header
/// to the materialized header.
pub open spec fn include_repl(template: Seq<char>, target: Seq<char>) -> ReplacementModel {
    ReplacementModel {
        from: "#include \""@ + template + "\""@,
        to: "#include \""@ + target + "\""@,
    }
}

/// Build the include-redirecting substitution.
pub fn include_replacement(template: &str, target: &str) -> (r: Replacement)
    ensures
        r.deep_view() == include_repl(template@, target@),
{
    let from = crate::text::concat3("#include \"", template, "\"");
    let to = crate::text::concat3("#include \"", target, "\"");
    Replacement::new(from, to)
}

/// A substitution whose replacement is a fixed prefix followed by a
/// computed tail.
pub fn prefixed_replacement(from_key: &str, to_prefix: &str, tail: &str) -> (r: Replacement)
    ensures
        r.deep_view() == (ReplacementModel { from: from_key@, to: to_prefix@ + tail@ }),
{
    let to = crate::text::concat2(to_prefix, tail);
    Replacement::new(from_key.to_owned(), to)
}

/// The translation unit a descriptor materializes: the template source is
/// copied to `{stem}_{id}.cpp` and its include of the template header is
/// redirected to the materialized header.
pub open spec fn spec_source_spec(
    hpp_template: Seq<char>,
    cpp_template: Seq<char>,
    stem: Seq<char>,
    id: Seq<char>,
) -> FileSpecModel {
    FileSpecModel {
        replacements: seq![include_repl(hpp_template, make_target(stem, id, "hpp"@))],
        template_file_name: cpp_template,
        target_file_name: make_target(stem, id, "cpp"@),
        c_file_type: CFileType::Cpp,
    }
}

/// Build the source file specification of a descriptor.
pub fn source_specification_for(
    hpp_template: &str,
    cpp_template: &str,
    stem: &str,
    id: &str,
) -> (r: FileSpecification)
    ensures
        r.deep_view() == spec_source_spec(hpp_template@, cpp_template@, stem@, id@),
{
    let target = make_target_file_name(stem, id, "hpp");
    let mut replacements: Vec<Replacement> = Vec::new();
    replacements.push(include_replacement(hpp_template, target.as_str()));
    let r = FileSpecification {
        replacements,
        template_file_name: cpp_template.to_owned(),
        target_file_name: make_target_file_name(stem, id, "cpp"),
        c_file_type: CFileType::Cpp,
    };
    proof {
        assert(r.deep_view().replacements =~= spec_source_spec(
            hpp_template@,
            cpp_template@,
            stem@,
            id@,
        ).replacements);
    }
    r
}

/// The header a descriptor materializes, with its substitutions.
pub open spec fn spec_header_spec(
    hpp_template: Seq<char>,
    stem: Seq<char>,
    id: Seq<char>,
    replacements: Seq<ReplacementModel>,
) -> FileSpecModel {
    FileSpecModel {
        replacements,
        template_file_name: hpp_template,
        target_file_name: make_target(stem, id, "hpp"@),
        c_file_type: CFileType::Hpp,
    }
}

/// Build the header file specification of a descriptor.
pub fn header_specification_for(
    hpp_template: &str,
    stem: &str,
    id: &str,
    replacements: Vec<Replacement>,
) -> (r: FileSpecification)
    ensures
        r.deep_view() == spec_header_spec(hpp_template@, stem@, id@, replacements.deep_view()),
{
    FileSpecification {
        replacements,
        template_file_name: hpp_template.to_owned(),
        target_file_name: make_target_file_name(stem, id, "hpp"),
        c_file_type: CFileType::Hpp,
    }
}

/// Index of the last occurrence of `c` in `t`.
pub open spec fn rfind(t: Seq<char>, c: char) -> Option<int>
    decreases t.len(),
{
    if t.len() == 0 {
        None
    } else if t.last() == c {
        Some(t.len() - 1)
    } else {
        rfind(t.drop_last(), c)
    }
}

/// Find the last occurrence of `c` in `t`.
pub fn rfind_exec(t: &str, c: char) -> (r: Option<usize>)
    ensures
        match r {
            Some(i) => rfind(t@, c) == Some(i as int) && i < t@.len(),
            None => rfind(t@, c) is None,
        },
{
    let len = t.unicode_len();
    let mut i: usize = 0;
    let mut cur: Option<usize> = None;
    while i < len
        invariant
            0 <= i <= len,
            len == t@.len(),
            match cur {
                Some(k) => rfind(t@.take(i as int), c) == Some(k as int) && k < i,
                None => rfind(t@.take(i as int), c) is None,
            },
        decreases len - i,
    {
        let ch = t.get_char(i);
        proof {
            assert(t@.take(i + 1).drop_last() =~= t@.take(i as int));
            assert(t@.take(i + 1).last() == t@[i as int]);
        }
        if ch == c {
            cur = Some(i);
        }
        i += 1;
    }
    proof {
        assert(t@.take(len as int) =~= t@);
    }
    cur
}

/// The target file name a template name and an identifier produce:
/// `{stem}_{id}.{extension}`, where the stem is the part of the file name
/// after the last path separator and before the last dot. `None` when the
/// name has no usable stem or extension.
pub open spec fn target_name_spec(t: Seq<char>, id: Seq<char>) -> Option<Seq<char>> {
    let base = match rfind(t, '/') {
        Some(k) => k + 1,
        None => 0,
    };
    match rfind(t, '.') {
        Some(d) => if base < d && d + 1 < t.len() {
            Some(make_target(t.subrange(base, d), id, t.subrange(d + 1, t.len() as int)))
        } else {
            None
        },
        None => None,
    }
}

/// Derive the materialized file name for a template file name and an
/// instantiation identifier.
pub fn get_target_file_name(template_file_name: &str, id: &str) -> (r: Result<
    String,
    BuildError,
>)
    ensures
        match r {
            Ok(name) => target_name_spec(template_file_name@, id@) == Some(name@),
            Err(e) => target_name_spec(template_file_name@, id@) is None && e is TargetFileName,
        },
{
    let len = template_file_name.unicode_len();
    let base = match rfind_exec(template_file_name, '/') {
        Some(k) => k + 1,
        None => 0,
    };
    match rfind_exec(template_file_name, '.') {
        Some(d) => {
            if base < d && d + 1 < len {
                let stem = crate::text::substring(template_file_name, base, d);
                let ext = crate::text::substring(template_file_name, d + 1, len);
                Ok(make_target_file_name(stem.as_str(), id, ext.as_str()))
            } else {
                Err(BuildError::TargetFileName { path: template_file_name.to_owned() })
            }
        },
        None => Err(BuildError::TargetFileName { path: template_file_name.to_owned() }),
    }
}

} // verus!
