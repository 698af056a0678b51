use vstd::prelude::*;
use crate::catalog::{find_entry, first_entry, lemma_first_entry_in, CatalogEntry};

verus! {

/// For each local file name in turn, the catalog entry it names, skipping
/// names that the catalog does not hold.
pub open spec fn sweep_spec(cat: Seq<CatalogEntry>, local: Seq<String>) -> Seq<int>
    decreases local.len(),
{
    if local.len() == 0 {
        Seq::empty()
    } else {
        let rest = sweep_spec(cat, local.drop_last());
        match first_entry(cat, local.last()@) {
            Some(i) => rest.push(i),
            None => rest,
        }
    }
}

/// The entries to re-install, given the file names found in the binary
/// directory: for each name in order, the position of the catalog entry of
/// that name; names the catalog lacks are left out.
pub fn update_targets(catalog: &Vec<CatalogEntry>, local: &Vec<String>) -> (r: Vec<usize>)
    ensures
        r@.map_values(|i: usize| i as int) == sweep_spec(catalog@, local@),
{
    let mut r: Vec<usize> = Vec::new();
    let mut k: usize = 0;
    while k < local.len()
        invariant
            k <= local@.len(),
            r@.map_values(|i: usize| i as int) == sweep_spec(catalog@, local@.subrange(0, k as int)),
        decreases local@.len() - k,
    {
        let ghost before = r@;
        assert(local@.subrange(0, k + 1).drop_last() =~= local@.subrange(0, k as int));
        assert(local@.subrange(0, k + 1).last() == local@[k as int]);
        match find_entry(catalog, local[k].as_str()) {
            Some(i) => {
                r.push(i);
                assert(r@.map_values(|i: usize| i as int) =~= before.map_values(|i: usize| i as int).push(i as int));
            },
            None => {},
        }
        k = k + 1;
    }
    assert(local@.subrange(0, k as int) =~= local@);
    r
}

/// The sweep never picks an entry whose name is absent from the local
/// file names: every chosen position is a catalog entry whose name equals one
/// of the names found in the binary directory.
pub proof fn lemma_sweep_only_catalog_names(cat: Seq<CatalogEntry>, local: Seq<String>)
    ensures
        forall|t: int|
            0 <= t < sweep_spec(cat, local).len() ==> {
                let i = #[trigger] sweep_spec(cat, local)[t];
                &&& 0 <= i < cat.len()
                &&& exists|j: int| 0 <= j < local.len() && (#[trigger] local[j])@ == cat[i].name@
            },
    decreases local.len(),
{
    if local.len() > 0 {
        let front = local.drop_last();
        lemma_sweep_only_catalog_names(cat, front);
        lemma_first_entry_in(cat, local.last()@, 0);
        let rest = sweep_spec(cat, front);
        assert forall|t: int| 0 <= t < sweep_spec(cat, local).len() implies {
            let i = #[trigger] sweep_spec(cat, local)[t];
            &&& 0 <= i < cat.len()
            &&& exists|j: int| 0 <= j < local.len() && (#[trigger] local[j])@ == cat[i].name@
        } by {
            if t < rest.len() {
                let i = rest[t];
                let j = choose|j: int| 0 <= j < front.len() && (#[trigger] front[j])@ == cat[i].name@;
                assert(local[j] == front[j]);
            } else {
                assert(local[local.len() - 1] == local.last());
            }
        }
    }
}

} // verus!
