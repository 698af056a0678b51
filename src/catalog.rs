use vstd::prelude::*;
use vstd::string::*;
use crate::resolve::{parse_repo_ref, repo_ref_of, RepoRef};
use crate::text::{contains_seq, str_contains};

verus! {

/// One installable program: its install name and the repository it comes from.
pub struct CatalogEntry {
    pub name: String,
    pub url: String,
}

/// Why an install could not be planned.
#[derive(PartialEq, Eq, Structural, Clone, Copy, Debug)]
pub enum InstallError {
    /// No catalog entry carries the requested name.
    NotFound,
    /// The entry's repository reference has fewer than two segments.
    InvalidReference,
}

/// The first entry at or after `i` named exactly `name`.
pub open spec fn first_entry_from(cat: Seq<CatalogEntry>, name: Seq<char>, i: int) -> Option<int>
    decreases cat.len() - i,
{
    if i < 0 || i >= cat.len() {
        None
    } else if cat[i].name@ == name {
        Some(i)
    } else {
        first_entry_from(cat, name, i + 1)
    }
}

/// The first entry of the catalog named exactly `name`.
pub open spec fn first_entry(cat: Seq<CatalogEntry>, name: Seq<char>) -> Option<int> {
    first_entry_from(cat, name, 0)
}

pub(crate) proof fn lemma_first_entry_in(cat: Seq<CatalogEntry>, name: Seq<char>, i: int)
    requires
        0 <= i,
    ensures
        match first_entry_from(cat, name, i) {
            Some(k) => i <= k < cat.len() && cat[k].name@ == name
                && forall|j: int| i <= j < k ==> (#[trigger] cat[j]).name@ != name,
            None => forall|j: int| i <= j < cat.len() ==> (#[trigger] cat[j]).name@ != name,
        },
    decreases cat.len() - i,
{
    if i < cat.len() && cat[i].name@ != name {
        lemma_first_entry_in(cat, name, i + 1);
    }
}

/// Position of the first entry whose name equals `name`.
pub fn find_entry(catalog: &Vec<CatalogEntry>, name: &str) -> (r: Option<usize>)
    ensures
        match r {
            Some(i) => first_entry(catalog@, name@) == Some(i as int),
            None => first_entry(catalog@, name@) is None,
        },
        match r {
            Some(i) => i < catalog@.len() && catalog@[i as int].name@ == name@,
            None => forall|j: int| 0 <= j < catalog@.len() ==> (#[trigger] catalog@[j]).name@ != name@,
        },
{
    proof {
        lemma_first_entry_in(catalog@, name@, 0);
    }
    let ghost first = first_entry(catalog@, name@);
    let wanted = String::from_str(name);
    let mut i: usize = 0;
    while i < catalog.len()
        invariant
            i <= catalog@.len(),
            wanted@ == name@,
            first == first_entry(catalog@, name@),
            first == first_entry_from(catalog@, name@, i as int),
            match first {
                Some(k) => k < catalog@.len() && catalog@[k].name@ == name@,
                None => forall|j: int| 0 <= j < catalog@.len() ==> (#[trigger] catalog@[j]).name@ != name@,
            },
        decreases catalog@.len() - i,
    {
        if catalog[i].name == wanted {
            return Some(i);
        }
        i = i + 1;
    }
    None
}

/// Names of the entries, in catalog order, that contain `term`.
pub open spec fn search_spec(cat: Seq<CatalogEntry>, term: Seq<char>) -> Seq<Seq<char>>
    decreases cat.len(),
{
    if cat.len() == 0 {
        Seq::empty()
    } else {
        let rest = search_spec(cat.drop_last(), term);
        if contains_seq(cat.last().name@, term) {
            rest.push(cat.last().name@)
        } else {
            rest
        }
    }
}

/// The views of a list of strings.
pub open spec fn views(v: Seq<String>) -> Seq<Seq<char>> {
    v.map_values(|s: String| s@)
}

/// Names of the entries whose name contains `term`, in catalog order.
pub fn search(catalog: &Vec<CatalogEntry>, term: &str) -> (r: Vec<String>)
    ensures
        views(r@) == search_spec(catalog@, term@),
{
    let mut r: Vec<String> = Vec::new();
    let mut i: usize = 0;
    while i < catalog.len()
        invariant
            i <= catalog@.len(),
            views(r@) == search_spec(catalog@.subrange(0, i as int), term@),
        decreases catalog@.len() - i,
    {
        let ghost before = r@;
        assert(catalog@.subrange(0, i + 1).drop_last() =~= catalog@.subrange(0, i as int));
        if str_contains(catalog[i].name.as_str(), term) {
            r.push(catalog[i].name.clone());
            assert(views(r@) =~= views(before).push(catalog@[i as int].name@));
        }
        i = i + 1;
    }
    assert(catalog@.subrange(0, i as int) =~= catalog@);
    r
}

/// Names of all entries, in catalog order.
pub fn list_names(catalog: &Vec<CatalogEntry>) -> (r: Vec<String>)
    ensures
        r@.len() == catalog@.len(),
        forall|i: int| 0 <= i < r@.len() ==> (#[trigger] r@[i])@ == catalog@[i].name@,
{
    let mut r: Vec<String> = Vec::new();
    let mut i: usize = 0;
    while i < catalog.len()
        invariant
            i <= catalog@.len(),
            r@.len() == i,
            forall|j: int| 0 <= j < i ==> (#[trigger] r@[j])@ == catalog@[j].name@,
        decreases catalog@.len() - i,
    {
        r.push(catalog[i].name.clone());
        i = i + 1;
    }
    r
}

/// Looks up `name` and splits its repository reference; nothing else is done,
/// so an unknown name ends here before any network or file access.
pub fn plan_install(catalog: &Vec<CatalogEntry>, name: &str) -> (r: Result<RepoRef, InstallError>)
    ensures
        first_entry(catalog@, name@) is None <==> r == Err::<RepoRef, InstallError>(InstallError::NotFound),
        match first_entry(catalog@, name@) {
            None => true,
            Some(i) => match (r, repo_ref_of(catalog@[i].url@)) {
                (Ok(rr), Some((o, p))) => rr.owner@ == o && rr.repo@ == p,
                (Err(e), None) => e == InstallError::InvalidReference,
                _ => false,
            },
        },
{
    match find_entry(catalog, name) {
        None => Err(InstallError::NotFound),
        Some(i) => match parse_repo_ref(catalog[i].url.as_str()) {
            Some(rr) => Ok(rr),
            None => Err(InstallError::InvalidReference),
        },
    }
}

} // verus!
