//! The descriptor registry: one descriptor per bindable structure kind.

use vstd::prelude::*;

pub mod bit_vectors;
pub mod common;
pub mod int_vector;
pub mod rank_support_v;
pub mod select_support_mcl;
pub mod wavelet_trees;

use crate::meta::common::{Meta, MetaKind, MetaModel, leaf_model, models_of};

verus! {

/// The registry contents, as the contracts see them.
pub open spec fn spec_metas() -> Seq<MetaModel> {
    seq![
        leaf_model(MetaKind::IntVector),
        leaf_model(MetaKind::RankSupportV),
        leaf_model(MetaKind::SelectSupportMcl),
        leaf_model(MetaKind::P0),
        leaf_model(MetaKind::P1),
        leaf_model(MetaKind::P10),
        leaf_model(MetaKind::P01),
        leaf_model(MetaKind::BitVector),
        leaf_model(MetaKind::RrrVector),
        wavelet_trees::wt_huff::spec_model(),
        wavelet_trees::wt_int::spec_model(),
        leaf_model(MetaKind::BreadthFirstSearch),
        wavelet_trees::layouts::byte_tree::spec_default_model(),
    ]
}

/// The fixed catalog of descriptors, in a stable order.
pub fn get_metas() -> (r: Vec<Meta>)
    ensures
        models_of(r@) == spec_metas(),
{
    let mut metas: Vec<Meta> = Vec::new();
    metas.push(Meta::IntVector(int_vector::IntVectorMeta::new()));
    metas.push(Meta::RankSupportV(rank_support_v::RankSupportVMeta::new()));
    metas.push(Meta::SelectSupportMcl(select_support_mcl::SelectSupportMclMeta::new()));
    metas.push(Meta::P0(common::bit_patterns::P0Meta::new()));
    metas.push(Meta::P1(common::bit_patterns::P1Meta::new()));
    metas.push(Meta::P10(common::bit_patterns::P10Meta::new()));
    metas.push(Meta::P01(common::bit_patterns::P01Meta::new()));
    let mut bv = bit_vectors::get_metas();
    let ghost bvs = bv@;
    metas.append(&mut bv);
    let mut wt = wavelet_trees::get_metas();
    let ghost wts = wt@;
    metas.append(&mut wt);
    proof {
        common::lemma_models_of(metas@);
        common::lemma_models_of(bvs);
        common::lemma_models_of(wts);
        assert forall|i: int| 0 <= i < 13 implies models_of(metas@)[i] == spec_metas()[i] by {
            if 7 <= i < 9 {
                assert(metas@[i] == bvs[i - 7]);
                assert(models_of(metas@)[i] == models_of(bvs)[i - 7]);
            } else if 9 <= i < 13 {
                assert(metas@[i] == wts[i - 9]);
                assert(models_of(metas@)[i] == models_of(wts)[i - 9]);
            }
        }
        assert(models_of(metas@) =~= spec_metas());
    }
    metas
}

/// Every registry descriptor model is well formed.
pub proof fn lemma_spec_metas_wf()
    ensures
        forall|i: int| 0 <= i < spec_metas().len() ==> (#[trigger] spec_metas()[i]).wf(),
{
    assert forall|i: int| 0 <= i < spec_metas().len() implies (#[trigger] spec_metas()[i]).wf() by {
        lemma_leaf_models_wf();
        lemma_wavelet_tree_models_wf();
    }
}

/// Leaf descriptor models are well formed.
pub proof fn lemma_leaf_models_wf()
    ensures
        leaf_model(MetaKind::IntVector).wf(),
        leaf_model(MetaKind::RankSupportV).wf(),
        leaf_model(MetaKind::SelectSupportMcl).wf(),
        leaf_model(MetaKind::BitVector).wf(),
        leaf_model(MetaKind::RrrVector).wf(),
        leaf_model(MetaKind::BreadthFirstSearch).wf(),
        leaf_model(MetaKind::P0).wf(),
        leaf_model(MetaKind::P1).wf(),
        leaf_model(MetaKind::P10).wf(),
        leaf_model(MetaKind::P01).wf(),
        leaf_model(MetaKind::Generic).wf(),
{
}

/// The wavelet tree and byte tree models, defaults included, are well
/// formed.
pub proof fn lemma_wavelet_tree_models_wf()
    ensures
        wavelet_trees::wt_huff::spec_model().wf(),
        wavelet_trees::wt_int::spec_model().wf(),
        wavelet_trees::layouts::byte_tree::spec_default_model().wf(),
        wavelet_trees::wt_huff::spec_model().defaults.len() == common::params_of(
            MetaKind::WtHuff,
        ).len(),
        wavelet_trees::wt_int::spec_model().defaults.len() == common::params_of(
            MetaKind::WtInt,
        ).len(),
        wavelet_trees::layouts::byte_tree::spec_default_model().defaults.len() == common::params_of(
            MetaKind::ByteTree,
        ).len(),
{
    lemma_leaf_models_wf();
    let rank = MetaModel {
        kind: MetaKind::RankSupportV,
        value: seq![],
        defaults: seq![leaf_model(MetaKind::P1)],
    };
    let sel1 = MetaModel {
        kind: MetaKind::SelectSupportMcl,
        value: seq![],
        defaults: seq![leaf_model(MetaKind::P1)],
    };
    let sel0 = MetaModel {
        kind: MetaKind::SelectSupportMcl,
        value: seq![],
        defaults: seq![leaf_model(MetaKind::P0)],
    };
    let byte_tree = wavelet_trees::layouts::byte_tree::spec_default_model();
    assert(rank.wf());
    assert(sel1.wf());
    assert(sel0.wf());
    assert(byte_tree.wf());
    assert(common::params_perm_wf(common::params_of(MetaKind::WtHuff)));
    assert(common::params_perm_wf(common::params_of(MetaKind::WtInt)));
    let huff = wavelet_trees::wt_huff::spec_model();
    assert forall|i: int| 0 <= i < huff.defaults.len() implies common::meta_model_wf(
        #[trigger] huff.defaults[i],
    ) by {
        assert(huff.defaults[0] == leaf_model(MetaKind::BitVector));
        assert(huff.defaults[1] == rank);
        assert(huff.defaults[2] == sel1);
        assert(huff.defaults[3] == sel0);
        assert(huff.defaults[4] == byte_tree);
    }
    let wint = wavelet_trees::wt_int::spec_model();
    assert forall|i: int| 0 <= i < wint.defaults.len() implies common::meta_model_wf(
        #[trigger] wint.defaults[i],
    ) by {
        assert(wint.defaults[0] == leaf_model(MetaKind::BitVector));
        assert(wint.defaults[1] == rank);
        assert(wint.defaults[2] == sel1);
        assert(wint.defaults[3] == sel0);
    }
}

} // verus!
