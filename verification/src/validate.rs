//! Deciding whether a document that was built by hand is well formed.

use vstd::prelude::*;
use crate::field::{fields_wf, Field, KType, Repeat};
use crate::schema::{KaiTai, TypeTable};
use crate::table::{distinct_keys, has_distinct_keys};

verus! {

impl Field {
    /// Whether a repeat mode has the parameter it needs, and no key of a
    /// switch occurs twice.
    pub fn is_well_formed(&self) -> (well_formed: bool)
        ensures
            well_formed == self@.wf(),
    {
        let parameter = match self.repeat {
            Some(Repeat::Expression) => self.repeat_expr.is_some(),
            Some(Repeat::Until) => self.repeat_until.is_some(),
            _ => true,
        };
        let cases = match &self.k_type {
            Some(KType::Switch(switch)) => has_distinct_keys(&switch.cases),
            _ => true,
        };
        parameter && cases
    }
}

/// Whether all the fields of a sequence are well formed.
pub fn fields_well_formed(fields: &Vec<Field>) -> (well_formed: bool)
    ensures
        well_formed == fields_wf(fields.deep_view()),
{
    let ghost model = fields.deep_view();
    let mut i: usize = 0;
    while i < fields.len()
        invariant
            i <= fields.len(),
            model == fields.deep_view(),
            forall|k: int| 0 <= k < i ==> (#[trigger] model[k]).wf(),
        decreases fields.len() - i,
    {
        if !fields[i].is_well_formed() {
            assert(!model[i as int].wf());
            return false;
        }
        i = i + 1;
    }
    true
}

fn types_well_formed(types: &TypeTable) -> (well_formed: bool)
    ensures
        well_formed == {
            &&& distinct_keys(types.deep_view())
            &&& forall|i: int|
                0 <= i < types.deep_view().len() ==> fields_wf(
                    (#[trigger] types.deep_view()[i]).1.seq,
                )
        },
{
    if !has_distinct_keys(types) {
        return false;
    }
    let ghost model = types.deep_view();
    let mut i: usize = 0;
    while i < types.len()
        invariant
            i <= types.len(),
            model == types.deep_view(),
            forall|k: int| 0 <= k < i ==> fields_wf((#[trigger] model[k]).1.seq),
        decreases types.len() - i,
    {
        if !fields_well_formed(&types[i].1.seq) {
            assert(!fields_wf(model[i as int].1.seq));
            return false;
        }
        i = i + 1;
    }
    true
}

impl KaiTai {
    /// Whether this document is well formed: what holds of every document
    /// that was read, and what a document must meet to be read back from
    /// the tree it is written as.
    pub fn is_well_formed(&self) -> (well_formed: bool)
        ensures
            well_formed == self@.wf(),
    {
        if self.meta.id.as_str().is_empty() {
            return false;
        }
        if !fields_well_formed(&self.seq) {
            return false;
        }
        let enums = match &self.enums {
            Some(enums) => has_distinct_keys(enums),
            None => true,
        };
        let types = match &self.types {
            Some(types) => types_well_formed(types),
            None => true,
        };
        enums && types
    }
}

} // verus!
