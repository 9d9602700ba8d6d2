//! The data shapes of the version-control collaborator, and the pure
//! classification and reporting rules around them.
//!
//! Repository access itself happens in the host; what stands here is
//! what can be computed from plain values: turning status flags into the
//! words the front-end shows, sorting changed files into staged and
//! unstaged lists, and building the result records of pull and push.

use vstd::prelude::*;
use vstd::string::StringExecFns;

use crate::text::{dec_rep, dec_string_u64, subvec_chars, chars_of, string_from_chars};

verus! {

/// One branch of a repository.
#[derive(Debug, Clone)]
pub struct GitBranch {
    /// The branch name.
    pub name: String,
    /// Whether it is checked out.
    pub is_current: bool,
    /// Whether it lives on a remote.
    pub is_remote: bool,
    /// The id of the commit it points at.
    pub commit_id: String,
}

/// One commit of a repository.
#[derive(Debug, Clone)]
pub struct GitCommit {
    /// The full commit id.
    pub id: String,
    /// The abbreviated commit id.
    pub short_id: String,
    /// The commit message.
    pub message: String,
    /// The author's name.
    pub author_name: String,
    /// The author's email address.
    pub author_email: String,
    /// The author time, as a Unix timestamp.
    pub timestamp: i64,
    /// The author time, rendered for display.
    pub date: String,
}

/// The overall state of a repository.
#[derive(Debug, Clone)]
pub struct GitStatus {
    /// The checked-out branch, when HEAD is on one.
    pub current_branch: Option<String>,
    /// Whether the path is a repository at all.
    pub is_repo: bool,
    /// Whether any file differs from HEAD.
    pub has_changes: bool,
    /// Commits ahead of the upstream branch.
    pub ahead: usize,
    /// Commits behind the upstream branch.
    pub behind: usize,
}

/// The state of one changed file.
#[derive(Debug, Clone)]
pub struct GitFileStatus {
    /// The path within the repository.
    pub path: String,
    /// The kind of change, as a display word.
    pub status: String,
    /// Whether the change is staged.
    pub staged: bool,
    /// Whether an unstaged change exists too.
    pub unstaged: bool,
}

/// The changed files of a repository, sorted into lists.
#[derive(Debug, Clone)]
pub struct GitChanges {
    /// Files with staged changes.
    pub staged: Vec<GitFileStatus>,
    /// Files with unstaged changes.
    pub unstaged: Vec<GitFileStatus>,
}

/// The relation of a repository to its remote.
#[derive(Debug, Clone)]
pub struct GitRemoteStatus {
    /// The remote's name.
    pub remote_name: String,
    /// The remote's URL, if it is configured.
    pub remote_url: Option<String>,
    /// Commits ahead of the remote branch.
    pub ahead: usize,
    /// Commits behind the remote branch.
    pub behind: usize,
    /// Whether the remote is configured at all.
    pub has_remote: bool,
}

/// The outcome of a push.
#[derive(Debug, Clone)]
pub struct GitPushResult {
    /// Whether the push went through.
    pub success: bool,
    /// The message for the front-end.
    pub message: String,
    /// How many commits were pushed.
    pub pushed_commits: usize,
}

/// The outcome of a pull.
#[derive(Debug, Clone)]
pub struct GitPullResult {
    /// Whether the pull went through without conflicts.
    pub success: bool,
    /// The message for the front-end.
    pub message: String,
    /// How many commits were brought in.
    pub new_commits: usize,
    /// The paths with merge conflicts, when there are any.
    pub conflicts: Vec<String>,
}

/// The change flags of one file, as the repository reports them.
#[derive(Debug, Clone, Copy, PartialEq, Eq, Structural)]
pub struct GitStatusFlags {
    /// A new file in the working tree.
    pub wt_new: bool,
    /// A modified file in the working tree.
    pub wt_modified: bool,
    /// A deleted file in the working tree.
    pub wt_deleted: bool,
    /// A renamed file in the working tree.
    pub wt_renamed: bool,
    /// A type change in the working tree.
    pub wt_typechange: bool,
    /// A new file in the index.
    pub index_new: bool,
    /// A modified file in the index.
    pub index_modified: bool,
    /// A deleted file in the index.
    pub index_deleted: bool,
    /// A renamed file in the index.
    pub index_renamed: bool,
    /// A type change in the index.
    pub index_typechange: bool,
}

/// The display word for a file's change flags.
pub open spec fn status_word(f: GitStatusFlags) -> Seq<char> {
    if f.wt_new || f.index_new {
        "added"@
    } else if f.wt_modified || f.index_modified {
        "modified"@
    } else if f.wt_deleted || f.index_deleted {
        "deleted"@
    } else if f.wt_renamed || f.index_renamed {
        "renamed"@
    } else {
        "untracked"@
    }
}

/// Whether the flags say the file has staged changes.
pub open spec fn staged_spec(f: GitStatusFlags) -> bool {
    f.index_new || f.index_modified || f.index_deleted || f.index_renamed || f.index_typechange
}

/// Whether the flags say the file has unstaged changes.
pub open spec fn unstaged_spec(f: GitStatusFlags) -> bool {
    f.wt_new || f.wt_modified || f.wt_deleted || f.wt_renamed || f.wt_typechange
}

/// Turns a file's change flags into its display word.
pub fn status_to_string(f: &GitStatusFlags) -> (r: String)
    ensures
        r@ == status_word(*f),
{
    if f.wt_new || f.index_new {
        String::from_str("added")
    } else if f.wt_modified || f.index_modified {
        String::from_str("modified")
    } else if f.wt_deleted || f.index_deleted {
        String::from_str("deleted")
    } else if f.wt_renamed || f.index_renamed {
        String::from_str("renamed")
    } else {
        String::from_str("untracked")
    }
}

/// Tests whether the flags say the file has staged changes.
pub fn is_staged(f: &GitStatusFlags) -> (r: bool)
    ensures
        r == staged_spec(*f),
{
    f.index_new || f.index_modified || f.index_deleted || f.index_renamed || f.index_typechange
}

/// Tests whether the flags say the file has unstaged changes.
pub fn is_unstaged(f: &GitStatusFlags) -> (r: bool)
    ensures
        r == unstaged_spec(*f),
{
    f.wt_new || f.wt_modified || f.wt_deleted || f.wt_renamed || f.wt_typechange
}

/// The paths among the entries from `i` on whose flags are staged.
pub open spec fn staged_paths(entries: Seq<(Seq<char>, GitStatusFlags)>, i: int) -> Seq<Seq<char>>
    decreases entries.len() - i,
{
    if i < 0 || i >= entries.len() {
        Seq::<Seq<char>>::empty()
    } else {
        (if staged_spec(entries[i].1) {
            seq![entries[i].0]
        } else {
            Seq::<Seq<char>>::empty()
        }) + staged_paths(entries, i + 1)
    }
}

/// The paths among the entries from `i` on whose flags are unstaged.
pub open spec fn unstaged_paths(entries: Seq<(Seq<char>, GitStatusFlags)>, i: int) -> Seq<
    Seq<char>,
>
    decreases entries.len() - i,
{
    if i < 0 || i >= entries.len() {
        Seq::<Seq<char>>::empty()
    } else {
        (if unstaged_spec(entries[i].1) {
            seq![entries[i].0]
        } else {
            Seq::<Seq<char>>::empty()
        }) + unstaged_paths(entries, i + 1)
    }
}

/// Sorts changed files into the staged and unstaged lists, with each
/// entry carrying its display word and both flags.
pub fn collect_changes(entries: &Vec<(String, GitStatusFlags)>) -> (r: GitChanges)
    ensures
        ({
            let ev = entries@.map_values(|e: (String, GitStatusFlags)| (e.0@, e.1));
            &&& r.staged@.map_values(|f: GitFileStatus| f.path@) == staged_paths(ev, 0)
            &&& r.unstaged@.map_values(|f: GitFileStatus| f.path@) == unstaged_paths(ev, 0)
            &&& forall|k: int|
                0 <= k < r.staged@.len() ==> (#[trigger] r.staged@[k]).staged
            &&& forall|k: int|
                0 <= k < r.unstaged@.len() ==> (#[trigger] r.unstaged@[k]).unstaged
        }),
{
    let ghost ev = entries@.map_values(|e: (String, GitStatusFlags)| (e.0@, e.1));
    let mut staged: Vec<GitFileStatus> = Vec::new();
    let mut unstaged: Vec<GitFileStatus> = Vec::new();
    let mut i: usize = 0;
    proof {
        assert(staged@.map_values(|f: GitFileStatus| f.path@) + staged_paths(ev, 0) =~= staged_paths(
            ev,
            0,
        ));
        assert(unstaged@.map_values(|f: GitFileStatus| f.path@) + unstaged_paths(ev, 0)
            =~= unstaged_paths(ev, 0));
    }
    while i < entries.len()
        invariant
            i <= entries@.len(),
            ev == entries@.map_values(|e: (String, GitStatusFlags)| (e.0@, e.1)),
            ev.len() == entries@.len(),
            staged_paths(ev, 0) == staged@.map_values(|f: GitFileStatus| f.path@) + staged_paths(
                ev,
                i as int,
            ),
            unstaged_paths(ev, 0) == unstaged@.map_values(|f: GitFileStatus| f.path@)
                + unstaged_paths(ev, i as int),
            forall|k: int| 0 <= k < staged@.len() ==> (#[trigger] staged@[k]).staged,
            forall|k: int| 0 <= k < unstaged@.len() ==> (#[trigger] unstaged@[k]).unstaged,
        decreases entries@.len() - i,
    {
        let entry = &entries[i];
        let flags = entry.1;
        let word = status_to_string(&flags);
        let file_is_staged = is_staged(&flags);
        let file_is_unstaged = is_unstaged(&flags);
        proof {
            assert(ev[i as int] == (entries@[i as int].0@, entries@[i as int].1));
        }
        let ghost sdv = staged@.map_values(|f: GitFileStatus| f.path@);
        let ghost udv = unstaged@.map_values(|f: GitFileStatus| f.path@);
        if file_is_staged {
            staged.push(
                GitFileStatus {
                    path: entry.0.clone(),
                    status: word.clone(),
                    staged: true,
                    unstaged: file_is_unstaged,
                },
            );
            proof {
                assert(staged@.map_values(|f: GitFileStatus| f.path@) =~= sdv.push(ev[i as int].0));
                assert(sdv + (seq![ev[i as int].0] + staged_paths(ev, i + 1)) =~= sdv.push(
                    ev[i as int].0,
                ) + staged_paths(ev, i + 1));
            }
        } else {
            proof {
                assert(sdv + (Seq::<Seq<char>>::empty() + staged_paths(ev, i + 1)) =~= sdv
                    + staged_paths(ev, i + 1));
            }
        }
        if file_is_unstaged {
            unstaged.push(
                GitFileStatus {
                    path: entry.0.clone(),
                    status: word,
                    staged: file_is_staged,
                    unstaged: true,
                },
            );
            proof {
                assert(unstaged@.map_values(|f: GitFileStatus| f.path@) =~= udv.push(
                    ev[i as int].0,
                ));
                assert(udv + (seq![ev[i as int].0] + unstaged_paths(ev, i + 1)) =~= udv.push(
                    ev[i as int].0,
                ) + unstaged_paths(ev, i + 1));
            }
        } else {
            proof {
                assert(udv + (Seq::<Seq<char>>::empty() + unstaged_paths(ev, i + 1)) =~= udv
                    + unstaged_paths(ev, i + 1));
            }
        }
        i = i + 1;
    }
    proof {
        assert(staged@.map_values(|f: GitFileStatus| f.path@) + staged_paths(ev, ev.len() as int)
            =~= staged@.map_values(|f: GitFileStatus| f.path@));
        assert(unstaged@.map_values(|f: GitFileStatus| f.path@) + unstaged_paths(
            ev,
            ev.len() as int,
        ) =~= unstaged@.map_values(|f: GitFileStatus| f.path@));
    }
    GitChanges { staged, unstaged }
}

/// Abbreviates a commit id to its first seven characters.
pub fn short_commit_id(id: &str) -> (r: String)
    requires
        id@.len() >= 7,
    ensures
        r@ == id@.subrange(0, 7),
{
    let chars = chars_of(id);
    let cut = subvec_chars(&chars, 0, 7);
    string_from_chars(&cut)
}

/// Builds the outcome record of a pull, from what the merge found.
///
/// An up-to-date repository reports success with no new commits;
/// conflicts report failure and list the paths; otherwise the merge
/// fast-forwards when nothing local is ahead, and merges else, reporting
/// how many commits came in.
pub fn pull_outcome(
    up_to_date: bool,
    ahead: usize,
    behind: usize,
    conflicts: Vec<String>,
) -> (r: GitPullResult)
    ensures
        up_to_date ==> r.success && r.new_commits == 0 && r.conflicts@.len() == 0 && r.message@
            == "Already up to date"@,
        !up_to_date && conflicts@.len() > 0 ==> !r.success && r.new_commits == 0 && r.conflicts
            == conflicts && r.message@ == "Merge conflicts in "@ + dec_rep(conflicts@.len())
            + " files"@,
        !up_to_date && conflicts@.len() == 0 && ahead == 0 ==> r.success && r.new_commits == behind
            && r.conflicts@.len() == 0 && r.message@ == "Fast-forward: "@ + dec_rep(behind as nat)
            + " new commits"@,
        !up_to_date && conflicts@.len() == 0 && ahead > 0 ==> r.success && r.new_commits == behind
            && r.conflicts@.len() == 0 && r.message@ == "Merge completed: "@ + dec_rep(
            behind as nat,
        ) + " new commits"@,
{
    if up_to_date {
        GitPullResult {
            success: true,
            message: String::from_str("Already up to date"),
            new_commits: 0,
            conflicts: Vec::new(),
        }
    } else if conflicts.len() > 0 {
        let mut msg = String::from_str("Merge conflicts in ");
        let num = dec_string_u64(conflicts.len() as u64);
        msg.append(num.as_str());
        msg.append(" files");
        GitPullResult { success: false, message: msg, new_commits: 0, conflicts }
    } else if ahead == 0 {
        let mut msg = String::from_str("Fast-forward: ");
        let num = dec_string_u64(behind as u64);
        msg.append(num.as_str());
        msg.append(" new commits");
        GitPullResult { success: true, message: msg, new_commits: behind, conflicts: Vec::new() }
    } else {
        let mut msg = String::from_str("Merge completed: ");
        let num = dec_string_u64(behind as u64);
        msg.append(num.as_str());
        msg.append(" new commits");
        GitPullResult { success: true, message: msg, new_commits: behind, conflicts: Vec::new() }
    }
}

/// Builds the outcome record of a push.
pub fn push_outcome(pushed: bool, error: &str, remote: &str, branch: &str, ahead: usize) -> (r:
    GitPushResult)
    ensures
        pushed ==> r.success && r.pushed_commits == ahead && r.message@
            == "Successfully pushed to "@ + remote@ + "/"@ + branch@,
        !pushed ==> !r.success && r.pushed_commits == 0 && r.message@ == error@,
{
    if pushed {
        let mut msg = String::from_str("Successfully pushed to ");
        msg.append(remote);
        msg.append("/");
        msg.append(branch);
        GitPushResult { success: true, message: msg, pushed_commits: ahead }
    } else {
        GitPushResult { success: false, message: error.to_owned(), pushed_commits: 0 }
    }
}

} // verus!
