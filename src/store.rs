use vstd::prelude::*;
use crate::error::CacheError;
use crate::key::{joined, key_of_url, get_image_cache_path};
use crate::staging::{staging_dir_spec, tempfile_spec, staging_name_spec, is_staging_name, lemma_staging_differs_from_final, staging_path, tempfile_path_at, now_micros};

verus! {

/// Relies on `std::path::Path::is_file`: whether a regular file is found
/// at the path now. The answer depends on the disk.
#[verifier::external_body]
fn path_is_file(p: &str) -> (r: bool) {
    std::path::Path::new(p).is_file()
}

/// Whether the image published at `p` is in the cache: a regular file
/// exists there. An empty path names no file and is never a hit.
pub fn is_image_cache_hit(p: &str) -> (r: bool)
    ensures
        r ==> p@.len() > 0,
{
    if p.unicode_len() == 0 {
        false
    } else {
        path_is_file(p)
    }
}

/// The index of the last `/` in `s`, or -1 where there is none.
pub open spec fn last_slash(s: Seq<char>) -> int
    decreases s.len(),
{
    if s.len() == 0 {
        -1
    } else if s.last() == '/' {
        s.len() - 1
    } else {
        last_slash(s.drop_last())
    }
}

/// The directory that holds the file at `s`: what comes before its last
/// `/`, the root where that is the first character, and nothing where
/// `s` has no `/`.
pub open spec fn dir_of(s: Seq<char>) -> Seq<char> {
    let i = last_slash(s);
    if i == 0 {
        seq!['/']
    } else if i > 0 {
        s.subrange(0, i)
    } else {
        Seq::empty()
    }
}

/// The directory that holds the file at `path`.
pub fn parent_dir(path: &str) -> (r: String)
    ensures
        r@ == dir_of(path@),
{
    let n = path.unicode_len();
    let mut i: usize = n;
    assert(path@.subrange(0, n as int) =~= path@);
    while i > 0 && path.get_char(i - 1) != '/'
        invariant
            i <= n == path@.len(),
            last_slash(path@) == last_slash(path@.subrange(0, i as int)),
        decreases i,
    {
        proof {
            assert(path@.subrange(0, i as int).drop_last() =~= path@.subrange(0, i - 1));
        }
        i = i - 1;
    }
    proof {
        if i > 0 {
            assert(path@.subrange(0, i as int).last() == '/');
        } else {
            assert(path@.subrange(0, 0) =~= Seq::<char>::empty());
        }
    }
    if i == 0 {
        String::new()
    } else if i == 1 {
        let root: &str = "/";
        proof {
            reveal_strlit("/");
            assert(root@ =~= seq!['/']);
        }
        String::from_str(root)
    } else {
        String::from_str(path.substring_char(0, i - 1))
    }
}

/// Where a fetched image is staged and where it is published.
#[derive(Debug)]
pub struct PublishPlan {
    pub staging_dir: String,
    pub staging_file: String,
    pub final_dir: String,
    pub final_file: String,
}

impl PublishPlan {
    /// A plan stages its image somewhere else than where it publishes it.
    pub open spec fn wf(&self) -> bool {
        self.staging_file@ != self.final_file@
    }
}

/// The plan to publish the image of `url` under `cache_root`, staged under
/// a name made from the timestamp `micros`.
pub fn publish_plan_at(cache_root: &str, url: &str, micros: i64) -> (r: Result<PublishPlan, CacheError>)
    ensures
        match key_of_url(url@) {
            Some(k) => r is Ok && r->Ok_0.staging_dir@ == staging_dir_spec(cache_root@)
                && r->Ok_0.staging_file@ == tempfile_spec(cache_root@, k, micros as int)
                && is_staging_name(staging_name_spec(k, micros as int))
                && r->Ok_0.wf()
                && r->Ok_0.final_file@ == joined(cache_root@, k)
                && r->Ok_0.final_dir@ == dir_of(joined(cache_root@, k)),
            None => r is Err && r->Err_0 == CacheError::InvalidUrl,
        },
{
    let staging_file = tempfile_path_at(cache_root, url, micros)?;
    let final_file = get_image_cache_path(cache_root, url)?;
    let empty: &str = "";
    let staging_root = staging_path(cache_root, empty);
    proof {
        reveal_strlit("");
        assert(empty@ =~= Seq::<char>::empty());
    }
    let staging_dir = parent_dir(staging_root.as_str());
    proof {
        let d = staging_dir_spec(cache_root@);
        let s = staging_root@;
        assert(s =~= d + seq!['/']) by {
            assert(d.len() > 0 && d.last() == 'p');
        }
        assert(s.drop_last() =~= d);
        assert(last_slash(s) == s.len() - 1);
        assert(s.len() - 1 > 0);
        assert(s.subrange(0, s.len() - 1) =~= d);
    }
    let final_dir = parent_dir(final_file.as_str());
    proof {
        let k = key_of_url(url@)->Some_0;
        lemma_staging_differs_from_final(cache_root@, k, micros as int, k);
    }
    Ok(PublishPlan { staging_dir, staging_file, final_dir, final_file })
}

/// The plan to publish the image of `url` under `cache_root`, staged under
/// a name made from the current time.
pub fn publish_plan(cache_root: &str, url: &str) -> (r: Result<PublishPlan, CacheError>)
    ensures
        match key_of_url(url@) {
            Some(k) => r is Ok && r->Ok_0.staging_dir@ == staging_dir_spec(cache_root@)
                && (exists|t: i64| #![trigger tempfile_spec(cache_root@, k, t as int)]
                    r->Ok_0.staging_file@ == tempfile_spec(cache_root@, k, t as int)
                    && is_staging_name(staging_name_spec(k, t as int)))
                && r->Ok_0.wf()
                && r->Ok_0.final_file@ == joined(cache_root@, k)
                && r->Ok_0.final_dir@ == dir_of(joined(cache_root@, k)),
            None => r is Err && r->Err_0 == CacheError::InvalidUrl,
        },
{
    let t = now_micros();
    publish_plan_at(cache_root, url, t)
}

/// The steps of publishing a fetched image: make the staging directory,
/// write the staging file, make the final directory, move the staging file
/// into place. A failure after the staging directory exists removes the
/// staging file before the publish reports failure.
#[derive(Debug, Clone, Copy, PartialEq, Eq, Structural)]
pub enum PublishStage {
    Start,
    StagingDirMade,
    Written,
    FinalDirMade,
    Cleanup,
    Published,
    Failed,
}

/// The stage that follows `s` once its action succeeded (`ok`) or failed.
pub open spec fn stage_after(s: PublishStage, ok: bool) -> PublishStage {
    match s {
        PublishStage::Start => if ok { PublishStage::StagingDirMade } else { PublishStage::Failed },
        PublishStage::StagingDirMade => if ok { PublishStage::Written } else { PublishStage::Cleanup },
        PublishStage::Written => if ok { PublishStage::FinalDirMade } else { PublishStage::Cleanup },
        PublishStage::FinalDirMade => if ok { PublishStage::Published } else { PublishStage::Cleanup },
        PublishStage::Cleanup => PublishStage::Failed,
        PublishStage::Published => PublishStage::Published,
        PublishStage::Failed => PublishStage::Failed,
    }
}

/// What the filesystem is asked to do at one stage of a publish.
#[derive(Debug)]
pub enum PublishAction {
    /// Create a directory and its missing ancestors.
    CreateDir(String),
    /// Write the fetched bytes in full to this file.
    WriteFile(String),
    /// Move the first file onto the second in one step.
    Rename(String, String),
    /// Remove this file, ignoring failure.
    RemoveFile(String),
    /// The publish is over, with this outcome.
    Finish(Result<(), CacheError>),
}

/// A publish action, with paths as character sequences.
pub enum ActionView {
    CreateDir(Seq<char>),
    WriteFile(Seq<char>),
    Rename(Seq<char>, Seq<char>),
    RemoveFile(Seq<char>),
    Finish(Result<(), CacheError>),
}

impl PublishAction {
    pub open spec fn view(&self) -> ActionView {
        match self {
            PublishAction::CreateDir(d) => ActionView::CreateDir(d@),
            PublishAction::WriteFile(f) => ActionView::WriteFile(f@),
            PublishAction::Rename(a, b) => ActionView::Rename(a@, b@),
            PublishAction::RemoveFile(f) => ActionView::RemoveFile(f@),
            PublishAction::Finish(r) => ActionView::Finish(*r),
        }
    }
}

/// The action of stage `s` of the publish planned by `p`.
pub open spec fn action_spec(p: &PublishPlan, s: PublishStage) -> ActionView {
    match s {
        PublishStage::Start => ActionView::CreateDir(p.staging_dir@),
        PublishStage::StagingDirMade => ActionView::WriteFile(p.staging_file@),
        PublishStage::Written => ActionView::CreateDir(p.final_dir@),
        PublishStage::FinalDirMade => ActionView::Rename(p.staging_file@, p.final_file@),
        PublishStage::Cleanup => ActionView::RemoveFile(p.staging_file@),
        PublishStage::Published => ActionView::Finish(Ok(())),
        PublishStage::Failed => ActionView::Finish(Err(CacheError::Io)),
    }
}

/// Whether action `a` writes, moves or removes the file at `f`.
pub open spec fn changes_file(a: ActionView, f: Seq<char>) -> bool {
    match a {
        ActionView::WriteFile(x) => x == f,
        ActionView::Rename(x, y) => x == f || y == f,
        ActionView::RemoveFile(x) => x == f,
        _ => false,
    }
}

/// The stage that follows `s` once its action succeeded (`ok`) or failed.
pub fn next_stage(s: PublishStage, ok: bool) -> (r: PublishStage)
    ensures
        r == stage_after(s, ok),
{
    match s {
        PublishStage::Start => if ok { PublishStage::StagingDirMade } else { PublishStage::Failed },
        PublishStage::StagingDirMade => if ok { PublishStage::Written } else { PublishStage::Cleanup },
        PublishStage::Written => if ok { PublishStage::FinalDirMade } else { PublishStage::Cleanup },
        PublishStage::FinalDirMade => if ok { PublishStage::Published } else { PublishStage::Cleanup },
        PublishStage::Cleanup => PublishStage::Failed,
        PublishStage::Published => PublishStage::Published,
        PublishStage::Failed => PublishStage::Failed,
    }
}

/// What the filesystem is asked to do at stage `s` of the publish `p`.
pub fn publish_action(p: &PublishPlan, s: PublishStage) -> (r: PublishAction)
    ensures
        r.view() == action_spec(p, s),
{
    match s {
        PublishStage::Start => PublishAction::CreateDir(p.staging_dir.clone()),
        PublishStage::StagingDirMade => PublishAction::WriteFile(p.staging_file.clone()),
        PublishStage::Written => PublishAction::CreateDir(p.final_dir.clone()),
        PublishStage::FinalDirMade => PublishAction::Rename(p.staging_file.clone(), p.final_file.clone()),
        PublishStage::Cleanup => PublishAction::RemoveFile(p.staging_file.clone()),
        PublishStage::Published => PublishAction::Finish(Ok(())),
        PublishStage::Failed => PublishAction::Finish(Err(CacheError::Io)),
    }
}

/// A publish never leaves a partial file at the final path: the only
/// action that changes the final file is the move of the staging file onto
/// it, that move comes only after the staging file was written in full, and
/// a publish succeeds only through that move.
pub proof fn lemma_final_file_changes_only_by_move(p: &PublishPlan, s: PublishStage, ok: bool)
    requires
        p.wf(),
    ensures
        changes_file(action_spec(p, s), p.final_file@) ==> s == PublishStage::FinalDirMade
            && action_spec(p, s) == ActionView::Rename(p.staging_file@, p.final_file@),
        stage_after(s, ok) == PublishStage::FinalDirMade ==> s == PublishStage::Written && ok,
        stage_after(s, ok) == PublishStage::Written ==> s == PublishStage::StagingDirMade && ok,
        stage_after(s, ok) == PublishStage::Published ==> (s == PublishStage::FinalDirMade && ok)
            || s == PublishStage::Published,
{
}

/// A failure once the staging directory exists leads to the removal of the
/// staging file, and then to a failed publish.
pub proof fn lemma_failure_removes_staging(p: &PublishPlan, s: PublishStage)
    requires
        s == PublishStage::StagingDirMade || s == PublishStage::Written || s == PublishStage::FinalDirMade,
    ensures
        stage_after(s, false) == PublishStage::Cleanup,
        action_spec(p, PublishStage::Cleanup) == ActionView::RemoveFile(p.staging_file@),
        stage_after(PublishStage::Cleanup, true) == PublishStage::Failed,
        stage_after(PublishStage::Cleanup, false) == PublishStage::Failed,
{
}

} // verus!
