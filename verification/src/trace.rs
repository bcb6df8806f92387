//! Selecting the entry point a contract execution starts from.
//!
//! The execution engine is an external collaborator; before a run, the
//! builtins the chosen entry point declares must be picked out of the
//! contract class's entry-point list by the entry point's code offset.

use vstd::prelude::*;

use crate::grouping::{lemma_lookup_first, lemma_lookup_none, lookup};

verus! {

/// One externally callable entry point of a compiled contract: its code
/// offset and the names of the builtins it declares.
#[derive(Debug, Clone, PartialEq, Eq)]
pub struct EntryPointRecord {
    pub offset: u64,
    pub builtins: Vec<String>,
}

/// Mathematical value of an [`EntryPointRecord`].
#[verifier::ext_equal]
pub struct EntryPointRecordView {
    pub offset: u64,
    pub builtins: Seq<Seq<char>>,
}

impl View for EntryPointRecord {
    type V = EntryPointRecordView;

    open spec fn view(&self) -> EntryPointRecordView {
        EntryPointRecordView { offset: self.offset, builtins: self.builtins.deep_view() }
    }
}

impl DeepView for EntryPointRecord {
    type V = EntryPointRecordView;

    open spec fn deep_view(&self) -> EntryPointRecordView {
        self.view()
    }
}

/// The entry-point list as (offset, builtins) pairs, in its given order.
pub open spec fn entry_point_pairs(eps: Seq<EntryPointRecordView>) -> Seq<(u64, Seq<Seq<char>>)> {
    eps.map_values(|e: EntryPointRecordView| (e.offset, e.builtins))
}

/// Picks out the builtin names of the first entry point whose code offset is
/// `entrypoint_offset`; `None` when no entry point has that offset.
pub fn get_casm_contract_builtins<'a>(
    entry_points: &'a Vec<EntryPointRecord>,
    entrypoint_offset: u64,
) -> (r: Option<&'a Vec<String>>)
    ensures
        match r {
            Some(b) => lookup(entry_point_pairs(entry_points.deep_view()), entrypoint_offset)
                == Some(b.deep_view()),
            None => lookup(entry_point_pairs(entry_points.deep_view()), entrypoint_offset) is None,
        },
{
    let ghost eps = entry_points.deep_view();
    let ghost pairs = entry_point_pairs(eps);
    let mut j: usize = 0;
    let mut found: Option<usize> = None;
    while j < entry_points.len()
        invariant
            0 <= j <= entry_points@.len(),
            eps == entry_points.deep_view(),
            match found {
                Some(f) => f < j && entry_points@[f as int].offset == entrypoint_offset
                    && forall|l: int|
                    0 <= l < f ==> entry_points@[l].offset != entrypoint_offset,
                None => forall|l: int|
                    0 <= l < j ==> entry_points@[l].offset != entrypoint_offset,
            },
        decreases entry_points@.len() - j,
    {
        if found.is_none() && entry_points[j].offset == entrypoint_offset {
            found = Some(j);
        }
        j = j + 1;
    }
    proof {
        assert(eps.len() == entry_points@.len());
        assert(pairs.len() == eps.len());
        assert(forall|l: int|
            0 <= l < eps.len() ==> eps[l] == #[trigger] entry_points@[l].deep_view());
        assert(forall|l: int|
            0 <= l < pairs.len() ==> #[trigger] pairs[l] == (eps[l].offset, eps[l].builtins));
    }
    match found {
        Some(f) => {
            proof {
                lemma_lookup_first(pairs, entrypoint_offset, f as int);
                assert(pairs[f as int].1 == entry_points@[f as int].builtins.deep_view());
            }
            Some(&entry_points[f].builtins)
        },
        None => {
            proof {
                lemma_lookup_none(pairs, entrypoint_offset);
            }
            None
        },
    }
}

} // verus!
