use vstd::prelude::*;
use vstd::string::*;
use crate::text::{chars_of, contains, contains_seq, lower_of, lowercase};

verus! {

/// A downloadable file attached to a release.
pub struct Asset {
    pub name: String,
    pub download_url: String,
}

/// One release as the hosting API reports it.
pub struct Release {
    pub tag: String,
    pub assets: Vec<Asset>,
}

/// Owner and repository name taken from a repository reference.
pub struct RepoRef {
    pub owner: String,
    pub repo: String,
}

/// The asset chosen for installation.
pub struct Resolution {
    pub download_url: String,
    pub asset_name: String,
}

/// Why no asset could be chosen.
#[derive(PartialEq, Eq, Structural, Clone, Copy, Debug)]
pub enum ResolveError {
    /// No release tag contains the platform keyword.
    NoCompatibleRelease,
    /// The chosen release has no asset of exactly the requested name.
    NoMatchingAsset,
}

pub open spec fn git_suffix() -> Seq<char> {
    seq!['.', 'g', 'i', 't']
}

/// `s` with every trailing `.git` removed, as many times as it repeats.
pub open spec fn trim_git(s: Seq<char>) -> Seq<char>
    decreases s.len(),
{
    if s.len() >= 4 && s.subrange(s.len() - 4, s.len() as int) == git_suffix() {
        trim_git(s.subrange(0, s.len() - 4))
    } else {
        s
    }
}

/// Position of the last `/` before `end`, or -1 when there is none.
pub open spec fn last_slash(t: Seq<char>, end: int) -> int
    decreases end,
{
    if end <= 0 {
        -1
    } else if t[end - 1] == '/' {
        end - 1
    } else {
        last_slash(t, end - 1)
    }
}

/// Owner and repository of a reference: the last two `/`-separated segments
/// once trailing `.git` is removed; none when fewer than two segments exist.
pub open spec fn repo_ref_of(url: Seq<char>) -> Option<(Seq<char>, Seq<char>)> {
    let t = trim_git(url);
    let k = last_slash(t, t.len() as int);
    if k < 0 {
        None
    } else {
        Some((t.subrange(last_slash(t, k) + 1, k), t.subrange(k + 1, t.len() as int)))
    }
}

proof fn lemma_last_slash_bounds(t: Seq<char>, end: int)
    requires
        0 <= end <= t.len(),
    ensures
        -1 <= last_slash(t, end) < end,
        last_slash(t, end) >= 0 ==> t[last_slash(t, end)] == '/',
    decreases end,
{
    if end > 0 && t[end - 1] != '/' {
        lemma_last_slash_bounds(t, end - 1);
    }
}

/// Length of the reference once trailing `.git` is removed.
fn trimmed_len(s: &Vec<char>) -> (n: usize)
    ensures
        n <= s@.len(),
        trim_git(s@) == s@.subrange(0, n as int),
{
    let mut n: usize = s.len();
    assert(s@.subrange(0, n as int) =~= s@);
    while n >= 4 && s[n - 4] == '.' && s[n - 3] == 'g' && s[n - 2] == 'i' && s[n - 1] == 't'
        invariant
            n <= s@.len(),
            trim_git(s@) == trim_git(s@.subrange(0, n as int)),
        decreases n,
    {
        let ghost p = s@.subrange(0, n as int);
        assert(p.subrange(p.len() - 4, p.len() as int) =~= git_suffix());
        assert(p.subrange(0, p.len() - 4) =~= s@.subrange(0, n - 4));
        n = n - 4;
    }
    let ghost p = s@.subrange(0, n as int);
    if n >= 4 {
        assert(p.subrange(p.len() - 4, p.len() as int) != git_suffix()) by {
            let q = p.subrange(p.len() - 4, p.len() as int);
            if q == git_suffix() {
                assert(q[0] == s@[n - 4] && q[1] == s@[n - 3] && q[2] == s@[n - 2] && q[3] == s@[n - 1]);
            }
        }
    }
    n
}

/// Position just past the last `/` before `end`; 0 when there is none.
fn after_last_slash(t: &Vec<char>, end: usize) -> (i: usize)
    requires
        end <= t@.len(),
    ensures
        i <= end,
        i == last_slash(t@, end as int) + 1,
{
    let mut i: usize = end;
    while i > 0 && t[i - 1] != '/'
        invariant
            i <= end <= t@.len(),
            last_slash(t@, i as int) == last_slash(t@, end as int),
        decreases i,
    {
        i = i - 1;
    }
    i
}

/// Splits a repository reference into owner and repository.
pub fn parse_repo_ref(url: &str) -> (r: Option<RepoRef>)
    ensures
        match (r, repo_ref_of(url@)) {
            (Some(rr), Some((o, p))) => rr.owner@ == o && rr.repo@ == p,
            (None, None) => true,
            _ => false,
        },
{
    let s = chars_of(url);
    let n = trimmed_len(&s);
    let ghost t = s@.subrange(0, n as int);
    let k1 = after_last_slash(&s, n);
    assert(forall|e: int| 0 <= e <= n ==> last_slash(t, e) == last_slash(s@, e)) by {
        assert forall|e: int| 0 <= e <= n implies last_slash(t, e) == last_slash(s@, e) by {
            lemma_last_slash_agree(s@, n as int, e);
        }
    }
    if k1 == 0 {
        return None;
    }
    proof {
        lemma_last_slash_bounds(s@, n as int);
    }
    let k0 = after_last_slash(&s, k1 - 1);
    proof {
        lemma_last_slash_bounds(s@, k1 - 1);
    }
    let owner = String::from_str(url.substring_char(k0, k1 - 1));
    let repo = String::from_str(url.substring_char(k1, n));
    assert(owner@ =~= t.subrange(k0 as int, k1 - 1));
    assert(repo@ =~= t.subrange(k1 as int, n as int));
    Some(RepoRef { owner, repo })
}

proof fn lemma_last_slash_agree(s: Seq<char>, n: int, e: int)
    requires
        0 <= e <= n <= s.len(),
    ensures
        last_slash(s.subrange(0, n), e) == last_slash(s, e),
    decreases e,
{
    if e > 0 {
        lemma_last_slash_agree(s, n, e - 1);
    }
}

/// The release-listing endpoint of a repository.
pub fn releases_url(rr: &RepoRef) -> (r: String)
    ensures
        r@ == "https://api.github.com/repos/"@ + rr.owner@ + "/"@ + rr.repo@ + "/releases"@,
{
    let mut u = String::from_str("https://api.github.com/repos/");
    u.append(rr.owner.as_str());
    u.append("/");
    u.append(rr.repo.as_str());
    u.append("/releases");
    u
}

/// A tag fits the platform when its lower-case form contains the keyword.
pub open spec fn tag_matches(tag: Seq<char>, platform: Seq<char>) -> bool {
    contains_seq(lower_of(tag), platform)
}

/// The first release at or after `i` whose tag fits the platform.
pub open spec fn first_release_from(rels: Seq<Release>, platform: Seq<char>, i: int) -> Option<int>
    decreases rels.len() - i,
{
    if i < 0 || i >= rels.len() {
        None
    } else if tag_matches(rels[i].tag@, platform) {
        Some(i)
    } else {
        first_release_from(rels, platform, i + 1)
    }
}

/// The first release, in the given order, whose tag fits the platform.
pub open spec fn first_release(rels: Seq<Release>, platform: Seq<char>) -> Option<int> {
    first_release_from(rels, platform, 0)
}

/// The first asset at or after `i` named exactly `name`.
pub open spec fn first_asset_from(assets: Seq<Asset>, name: Seq<char>, i: int) -> Option<int>
    decreases assets.len() - i,
{
    if i < 0 || i >= assets.len() {
        None
    } else if assets[i].name@ == name {
        Some(i)
    } else {
        first_asset_from(assets, name, i + 1)
    }
}

/// The first asset, in the given order, named exactly `name`.
pub open spec fn first_asset(assets: Seq<Asset>, name: Seq<char>) -> Option<int> {
    first_asset_from(assets, name, 0)
}

/// The decision of the resolver: download address and asset name, or why none.
pub open spec fn resolve_spec(rels: Seq<Release>, platform: Seq<char>, name: Seq<char>) -> Result<
    (Seq<char>, Seq<char>),
    ResolveError,
> {
    match first_release(rels, platform) {
        None => Err(ResolveError::NoCompatibleRelease),
        Some(i) => match first_asset(rels[i].assets@, name) {
            None => Err(ResolveError::NoMatchingAsset),
            Some(k) => Ok((rels[i].assets@[k].download_url@, rels[i].assets@[k].name@)),
        },
    }
}

proof fn lemma_first_release_in(rels: Seq<Release>, platform: Seq<char>, i: int)
    requires
        0 <= i,
    ensures
        match first_release_from(rels, platform, i) {
            Some(k) => i <= k < rels.len() && tag_matches(rels[k].tag@, platform)
                && forall|j: int| i <= j < k ==> !tag_matches(#[trigger] rels[j].tag@, platform),
            None => forall|j: int| i <= j < rels.len() ==> !tag_matches(#[trigger] rels[j].tag@, platform),
        },
    decreases rels.len() - i,
{
    if i < rels.len() && !tag_matches(rels[i].tag@, platform) {
        lemma_first_release_in(rels, platform, i + 1);
    }
}

proof fn lemma_first_asset_in(assets: Seq<Asset>, name: Seq<char>, i: int)
    requires
        0 <= i,
    ensures
        match first_asset_from(assets, name, i) {
            Some(k) => i <= k < assets.len() && assets[k].name@ == name
                && forall|j: int| i <= j < k ==> (#[trigger] assets[j]).name@ != name,
            None => forall|j: int| i <= j < assets.len() ==> (#[trigger] assets[j]).name@ != name,
        },
    decreases assets.len() - i,
{
    if i < assets.len() && assets[i].name@ != name {
        lemma_first_asset_in(assets, name, i + 1);
    }
}

/// Picks the first release, in the order given, whose lower-cased tag
/// contains `platform`.
pub fn select_release(releases: &Vec<Release>, platform: &str) -> (r: Option<usize>)
    ensures
        match r {
            Some(i) => first_release(releases@, platform@) == Some(i as int),
            None => first_release(releases@, platform@) is None,
        },
        match r {
            Some(i) => i < releases@.len() && tag_matches(releases@[i as int].tag@, platform@)
                && forall|j: int| 0 <= j < i ==> !tag_matches(#[trigger] releases@[j].tag@, platform@),
            None => forall|j: int| 0 <= j < releases@.len() ==> !tag_matches(#[trigger] releases@[j].tag@, platform@),
        },
{
    proof {
        lemma_first_release_in(releases@, platform@, 0);
    }
    let ghost first = first_release(releases@, platform@);
    let p = chars_of(platform);
    let mut i: usize = 0;
    while i < releases.len()
        invariant
            i <= releases@.len(),
            p@ == platform@,
            first_release(releases@, platform@) == first_release_from(releases@, platform@, i as int),
            match first {
                Some(k) => k < releases@.len() && tag_matches(releases@[k].tag@, platform@)
                    && forall|j: int| 0 <= j < k ==> !tag_matches(#[trigger] releases@[j].tag@, platform@),
                None => forall|j: int| 0 <= j < releases@.len() ==> !tag_matches(#[trigger] releases@[j].tag@, platform@),
            },
            first == first_release(releases@, platform@),
        decreases releases@.len() - i,
    {
        let lower = lowercase(releases[i].tag.as_str());
        let t = chars_of(lower.as_str());
        if contains(&t, &p) {
            return Some(i);
        }
        i = i + 1;
    }
    None
}

/// Picks the first asset whose name equals `name` exactly.
pub fn select_asset(assets: &Vec<Asset>, name: &str) -> (r: Option<usize>)
    ensures
        match r {
            Some(k) => first_asset(assets@, name@) == Some(k as int),
            None => first_asset(assets@, name@) is None,
        },
        match r {
            Some(k) => k < assets@.len() && assets@[k as int].name@ == name@
                && forall|j: int| 0 <= j < k ==> (#[trigger] assets@[j]).name@ != name@,
            None => forall|j: int| 0 <= j < assets@.len() ==> (#[trigger] assets@[j]).name@ != name@,
        },
{
    proof {
        lemma_first_asset_in(assets@, name@, 0);
    }
    let ghost first = first_asset(assets@, name@);
    let wanted = String::from_str(name);
    let mut k: usize = 0;
    while k < assets.len()
        invariant
            k <= assets@.len(),
            wanted@ == name@,
            first_asset(assets@, name@) == first_asset_from(assets@, name@, k as int),
            match first {
                Some(m) => m < assets@.len() && assets@[m].name@ == name@
                    && forall|j: int| 0 <= j < m ==> (#[trigger] assets@[j]).name@ != name@,
                None => forall|j: int| 0 <= j < assets@.len() ==> (#[trigger] assets@[j]).name@ != name@,
            },
            first == first_asset(assets@, name@),
        decreases assets@.len() - k,
    {
        if assets[k].name == wanted {
            return Some(k);
        }
        k = k + 1;
    }
    None
}

/// Chooses the asset to install from a snapshot of the release list: the
/// asset named exactly `asset_name` within the first release whose tag fits
/// `platform`.
pub fn resolve(releases: &Vec<Release>, platform: &str, asset_name: &str) -> (r: Result<Resolution, ResolveError>)
    ensures
        match (r, resolve_spec(releases@, platform@, asset_name@)) {
            (Ok(res), Ok((u, n))) => res.download_url@ == u && res.asset_name@ == n,
            (Err(e), Err(f)) => e == f,
            _ => false,
        },
        r is Ok ==> r->Ok_0.asset_name@ == asset_name@,
{
    match select_release(releases, platform) {
        None => Err(ResolveError::NoCompatibleRelease),
        Some(i) => {
            let assets = &releases[i].assets;
            match select_asset(assets, asset_name) {
                None => Err(ResolveError::NoMatchingAsset),
                Some(k) => Ok(
                    Resolution {
                        download_url: assets[k].download_url.clone(),
                        asset_name: assets[k].name.clone(),
                    },
                ),
            }
        },
    }
}

/// Two snapshots of a release list that report the same tags, asset names
/// and download addresses, in the same order.
pub open spec fn same_snapshot(a: Seq<Release>, b: Seq<Release>) -> bool {
    &&& a.len() == b.len()
    &&& forall|i: int| 0 <= i < a.len() ==> (#[trigger] a[i]).tag@ == b[i].tag@
    &&& forall|i: int| 0 <= i < a.len() ==> (#[trigger] a[i]).assets@.len() == b[i].assets@.len()
    &&& forall|i: int, k: int|
        0 <= i < a.len() && 0 <= k < a[i].assets@.len() ==> (#[trigger] a[i].assets@[k]).name@
            == b[i].assets@[k].name@ && a[i].assets@[k].download_url@ == b[i].assets@[k].download_url@
}

proof fn lemma_first_release_same(a: Seq<Release>, b: Seq<Release>, platform: Seq<char>, i: int)
    requires
        same_snapshot(a, b),
    ensures
        first_release_from(a, platform, i) == first_release_from(b, platform, i),
    decreases a.len() - i,
{
    if 0 <= i < a.len() {
        assert(a[i].tag@ == b[i].tag@);
        lemma_first_release_same(a, b, platform, i + 1);
    }
}

proof fn lemma_first_asset_same(x: Seq<Asset>, y: Seq<Asset>, name: Seq<char>, k: int)
    requires
        x.len() == y.len(),
        forall|j: int| 0 <= j < x.len() ==> (#[trigger] x[j]).name@ == y[j].name@,
    ensures
        first_asset_from(x, name, k) == first_asset_from(y, name, k),
    decreases x.len() - k,
{
    if 0 <= k < x.len() {
        assert(x[k].name@ == y[k].name@);
        lemma_first_asset_same(x, y, name, k + 1);
    }
}

/// The resolver's decision is a function of what the release list reports,
/// the platform keyword and the asset name: two snapshots that report the
/// same releases lead to the same decision.
pub proof fn lemma_resolve_is_pure(a: Seq<Release>, b: Seq<Release>, platform: Seq<char>, name: Seq<char>)
    requires
        same_snapshot(a, b),
    ensures
        resolve_spec(a, platform, name) == resolve_spec(b, platform, name),
{
    lemma_first_release_same(a, b, platform, 0);
    lemma_first_release_in(a, platform, 0);
    if let Some(i) = first_release(a, platform) {
        let x = a[i].assets@;
        let y = b[i].assets@;
        assert forall|j: int| 0 <= j < x.len() implies (#[trigger] x[j]).name@ == y[j].name@ by {
            assert(a[i].assets@[j].name@ == b[i].assets@[j].name@);
        }
        lemma_first_asset_same(x, y, name, 0);
        lemma_first_asset_in(x, name, 0);
        if let Some(k) = first_asset(x, name) {
            assert(a[i].assets@[k].name@ == b[i].assets@[k].name@);
        }
    }
}

} // verus!
