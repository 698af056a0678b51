use vstd::prelude::*;
use vstd::string::*;

verus! {

/// Permission bits given to every installed file: owner, group and others may
/// execute it.
pub const EXEC_MODE: u32 = 0o755;

/// One file-system or network step of an install, in the order they run.
#[derive(PartialEq, Eq, Structural, Clone, Copy, Debug)]
pub enum FsAction {
    /// Create the binary directory and its parents.
    CreateDirAll,
    /// Remove the file already at the destination.
    RemoveExisting,
    /// Fetch the whole asset body into memory.
    Download,
    /// Create the destination file and write the fetched body to it.
    WriteFile,
    /// Set the destination file's permission bits.
    SetMode(u32),
}

/// The path an asset is installed to.
pub fn dest_path(bin_dir: &str, asset_name: &str) -> (r: String)
    ensures
        r@ == bin_dir@ + "/"@ + asset_name@,
{
    let mut p = String::from_str(bin_dir);
    p.append("/");
    p.append(asset_name);
    p
}

/// The steps of an install, given whether the binary directory and the
/// destination file exist beforehand.
pub open spec fn install_plan(dir_exists: bool, dest_exists: bool) -> Seq<FsAction> {
    (if dir_exists { Seq::empty() } else { seq![FsAction::CreateDirAll] })
        + (if dest_exists { seq![FsAction::RemoveExisting] } else { Seq::empty() })
        + seq![FsAction::Download, FsAction::WriteFile, FsAction::SetMode(EXEC_MODE)]
}

/// Lists the steps of an install: create the directory if absent, remove an
/// existing destination file, download, write, then make it executable.
pub fn install_actions(dir_exists: bool, dest_exists: bool) -> (r: Vec<FsAction>)
    ensures
        r@ == install_plan(dir_exists, dest_exists),
        dest_exists ==> exists|k: int, w: int|
            0 <= k < w < r@.len() && r@[k] == FsAction::RemoveExisting && r@[w] == FsAction::WriteFile,
        r@.last() == FsAction::SetMode(EXEC_MODE),
{
    let mut r: Vec<FsAction> = Vec::new();
    if !dir_exists {
        r.push(FsAction::CreateDirAll);
    }
    if dest_exists {
        r.push(FsAction::RemoveExisting);
    }
    r.push(FsAction::Download);
    r.push(FsAction::WriteFile);
    r.push(FsAction::SetMode(EXEC_MODE));
    assert(r@ =~= install_plan(dir_exists, dest_exists));
    proof {
        if dest_exists {
            let k = r@.len() - 4;
            let w = r@.len() - 2;
            assert(r@[k] == FsAction::RemoveExisting && r@[w] == FsAction::WriteFile);
        }
    }
    r
}

/// What an install can change: whether the binary directory exists, and the
/// content and permission bits of the destination file, if there is one.
pub struct InstallState {
    pub dir_exists: bool,
    pub file: Option<(Seq<u8>, u32)>,
}

/// The effect of one step; `body` is what the download yields and
/// `fresh_mode` the bits a newly created file receives.
pub open spec fn step(st: InstallState, a: FsAction, body: Seq<u8>, fresh_mode: u32) -> InstallState {
    match a {
        FsAction::CreateDirAll => InstallState { dir_exists: true, ..st },
        FsAction::RemoveExisting => InstallState { file: None, ..st },
        FsAction::Download => st,
        FsAction::WriteFile => InstallState {
            file: Some(
                (
                    body,
                    match st.file {
                        Some((_, m)) => m,
                        None => fresh_mode,
                    },
                ),
            ),
            ..st
        },
        FsAction::SetMode(m) => InstallState {
            file: match st.file {
                Some((c, _)) => Some((c, m)),
                None => None,
            },
            ..st
        },
    }
}

/// The effect of running the steps in order.
pub open spec fn run(st: InstallState, actions: Seq<FsAction>, body: Seq<u8>, fresh_mode: u32) -> InstallState
    decreases actions.len(),
{
    if actions.len() == 0 {
        st
    } else {
        run(step(st, actions[0], body, fresh_mode), actions.skip(1), body, fresh_mode)
    }
}

/// The state after an install planned from `st` itself.
pub open spec fn install_from(st: InstallState, body: Seq<u8>, fresh_mode: u32) -> InstallState {
    run(st, install_plan(st.dir_exists, st.file is Some), body, fresh_mode)
}

/// Whatever stood there before, an install leaves the directory in place and
/// a file that holds exactly the downloaded body, with the executable bits.
pub proof fn lemma_install_result(st: InstallState, body: Seq<u8>, fresh_mode: u32)
    ensures
        install_from(st, body, fresh_mode) == (InstallState {
            dir_exists: true,
            file: Some((body, EXEC_MODE)),
        }),
{
    let plan = install_plan(st.dir_exists, st.file is Some);
    let tail = seq![FsAction::Download, FsAction::WriteFile, FsAction::SetMode(EXEC_MODE)];
    let s0 = if st.dir_exists { st } else { step(st, FsAction::CreateDirAll, body, fresh_mode) };
    let s1 = if st.file is Some { step(s0, FsAction::RemoveExisting, body, fresh_mode) } else { s0 };
    assert(run(s1, tail, body, fresh_mode) == (InstallState { dir_exists: true, file: Some((body, EXEC_MODE)) })) by {
        assert(tail.skip(1) =~= seq![FsAction::WriteFile, FsAction::SetMode(EXEC_MODE)]);
        assert(tail.skip(1).skip(1) =~= seq![FsAction::SetMode(EXEC_MODE)]);
        assert(tail.skip(1).skip(1).skip(1) =~= Seq::<FsAction>::empty());
        reveal_with_fuel(run, 4);
    }
    let mid = if st.file is Some { seq![FsAction::RemoveExisting] + tail } else { tail };
    assert(run(s0, mid, body, fresh_mode) == run(s1, tail, body, fresh_mode)) by {
        if st.file is Some {
            assert(mid.skip(1) =~= tail);
        }
    }
    if st.dir_exists {
        assert(plan =~= mid);
    } else {
        assert(plan =~= seq![FsAction::CreateDirAll] + mid);
        assert(plan.skip(1) =~= mid);
    }
}

/// Installing twice in a row, with nothing else changing in between, leaves
/// the same file content and permission bits as installing once.
pub proof fn lemma_install_idempotent(st: InstallState, body: Seq<u8>, fresh_mode: u32)
    ensures
        install_from(install_from(st, body, fresh_mode), body, fresh_mode) == install_from(st, body, fresh_mode),
{
    lemma_install_result(st, body, fresh_mode);
    lemma_install_result(install_from(st, body, fresh_mode), body, fresh_mode);
}

} // verus!
