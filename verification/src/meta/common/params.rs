//! The parameter model: one generic slot of a descriptor.

use vstd::prelude::*;
use crate::text::decimal_digits;
use crate::text::format_usize;

verus! {

/// What a parameter slot is, as the contracts see it.
pub ghost struct ParameterModel {
    /// Whether the consuming code may elide the parameter.
    pub has_default: bool,
    /// Whether the slot holds a nested structure reference rather than an
    /// integer literal.
    pub is_sdsl_type: bool,
    /// Position of the captured value in the native template's parameter
    /// list; a permutation of the declaration order.
    pub c_index: int,
}

/// One generic slot of a descriptor.
#[derive(Clone, Debug, PartialEq, Eq)]
pub struct Parameter {
    pub capture_group_name: String,
    pub has_default: bool,
    pub is_sdsl_type: bool,
    pub c_index: usize,
}

impl DeepView for Parameter {
    type V = ParameterModel;

    open spec fn deep_view(&self) -> ParameterModel {
        ParameterModel {
            has_default: self.has_default,
            is_sdsl_type: self.is_sdsl_type,
            c_index: self.c_index as int,
        }
    }
}

/// The conventional name for a capture slot: `i` followed by the slot index.
pub fn get_capture_group_name(index: usize) -> (r: String)
    ensures
        r@ == seq!['i'] + decimal_digits(index as nat),
{
    let mut r = String::new();
    proof {
        reveal_strlit("i");
        assert("i"@ =~= seq!['i']);
    }
    r.append("i");
    let digits = format_usize(index);
    r.append(digits.as_str());
    r
}

/// An integer-literal parameter slot.
pub open spec fn integer_param(has_default: bool, c_index: int) -> ParameterModel {
    ParameterModel { has_default, is_sdsl_type: false, c_index }
}

/// A nested-structure parameter slot.
pub open spec fn sdsl_param(has_default: bool, c_index: int) -> ParameterModel {
    ParameterModel { has_default, is_sdsl_type: true, c_index }
}

impl Parameter {
    /// A parameter matched as an integer literal.
    pub fn integer(index: usize, has_default: bool, c_index: usize) -> (r: Self)
        ensures
            r.deep_view() == integer_param(has_default, c_index as int),
    {
        Parameter {
            capture_group_name: get_capture_group_name(index),
            has_default,
            is_sdsl_type: false,
            c_index,
        }
    }

    /// A parameter matched as a nested structure reference.
    pub fn sdsl(index: usize, has_default: bool, c_index: usize) -> (r: Self)
        ensures
            r.deep_view() == sdsl_param(has_default, c_index as int),
    {
        Parameter {
            capture_group_name: get_capture_group_name(index),
            has_default,
            is_sdsl_type: true,
            c_index,
        }
    }
}

/// The native declaration indexes form a permutation of the declaration
/// order: each lies in range and no two coincide.
pub open spec fn params_perm_wf(ps: Seq<ParameterModel>) -> bool {
    &&& forall|i: int| 0 <= i < ps.len() ==> 0 <= (#[trigger] ps[i]).c_index < ps.len()
    &&& forall|i: int, j: int|
        0 <= i < ps.len() && 0 <= j < ps.len() && i != j ==> (#[trigger] ps[i]).c_index != (
        #[trigger] ps[j]).c_index
}

} // verus!
