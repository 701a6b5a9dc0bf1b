//! Exporting the commits of a fork, and importing them into another.
use vstd::prelude::*;

use crate::archive::{self, HeadView};
use crate::git::RepoView;
use crate::metadata::MetadataView;
use crate::paths;
use crate::sharing::{self, ImportStepView, MembersView, PartView, ShareView, Slot, TaskView};
use crate::text::Text;

verus! {

// ---- A repository

/// A Git repository: what its refs name, which commits are in the history of which, the
/// ranges of commits that were picked and how often the patches were applied.
pub struct Repository {
    pub refs: Map<Text, Text>,
    pub in_history: spec_fn(Text, Text) -> bool,
    pub picked: Seq<(Text, Text)>,
    pub patched: nat,
}

impl Repository {
    /// The commit that a ref names; any other name is a commit's own.
    pub open spec fn commit_at(self, name: Text) -> Text {
        if self.refs.contains_key(name) {
            self.refs[name]
        } else {
            name
        }
    }

    pub open spec fn head(self) -> Text {
        self.commit_at("HEAD"@)
    }

    /// Whether one commit is in the history of another.
    pub open spec fn has(self, commit: Text, of: Text) -> bool {
        (self.in_history)(commit, of)
    }
}

/// What Git does for a task and whether it says yes; nothing where it fails. `bundled` is
/// the commit that the bundle brings.
pub open spec fn performed(w: Repository, bundled: Text, task: TaskView) -> Option<
    (Repository, bool),
> {
    match task {
        TaskView::VerifyBundle => Some((w, true)),
        TaskView::FetchBundle { target_ref } => Some(
            (Repository { refs: w.refs.insert(target_ref, bundled), ..w }, true),
        ),
        TaskView::IsAncestor { ancestor, descendant } => Some(
            (w, w.has(w.commit_at(ancestor), w.commit_at(descendant))),
        ),
        TaskView::FastForward { target_ref } => if w.has(w.head(), w.commit_at(target_ref)) {
            Some((Repository { refs: w.refs.insert("HEAD"@, w.commit_at(target_ref)), ..w }, true))
        } else {
            None
        },
        TaskView::CherryPick { base, target_ref } => Some(
            (Repository { picked: w.picked.push((base, w.commit_at(target_ref))), ..w }, true),
        ),
        TaskView::ApplyMailbox => Some((Repository { patched: w.patched + 1, ..w }, true)),
    }
}

/// What becomes of a repository when an import goes on after some answers, and by which
/// method the import ends; nothing where it does not end well within `tasks` tasks.
pub open spec fn gone_on(
    share: ShareView,
    m: MetadataView,
    repo: RepoView,
    base_tree: Text,
    bundled: Text,
    w: Repository,
    answers: Seq<bool>,
    tasks: nat,
) -> Option<(Repository, Text)>
    decreases tasks,
{
    match sharing::import_next(share, m, repo, base_tree, answers) {
        Err(_) => None,
        Ok(ImportStepView::Imported { method }) => Some((w, method)),
        Ok(ImportStepView::Perform { task }) => if tasks == 0 {
            None
        } else {
            match performed(w, bundled, task) {
                None => None,
                Some((next, answer)) => gone_on(
                    share,
                    m,
                    repo,
                    base_tree,
                    bundled,
                    next,
                    answers.push(answer),
                    (tasks - 1) as nat,
                ),
            }
        },
    }
}

/// What becomes of a repository in an import.
pub open spec fn imported(
    share: ShareView,
    m: MetadataView,
    repo: RepoView,
    base_tree: Text,
    bundled: Text,
    w: Repository,
) -> Option<(Repository, Text)> {
    gone_on(share, m, repo, base_tree, bundled, w, Seq::empty(), 5)
}

/// Whether an artifact may be imported into a fork: the two were made from the same, the
/// fork is clean and has its base commit, whose tree is the one that the commits go on.
pub open spec fn importable(
    share: ShareView,
    m: MetadataView,
    repo: RepoView,
    base_tree: Text,
) -> bool {
    &&& sharing::share_refusal(share, m) is None
    &&& repo.base_commit_present
    &&& !repo.dirty
    &&& share.changes.base_tree == base_tree
}

/// Whether two repositories differ at most in their heads and in what imports have fetched.
pub open spec fn branches_kept(a: Repository, b: Repository) -> bool {
    forall|name: Text|
        name != "HEAD"@ && !crate::text::is_prefix("refs/forkpkg/imports/"@, name)
            ==> a.refs.contains_key(name) == b.refs.contains_key(name) && #[trigger] b.refs[name]
            == a.refs[name]
}

// ---- Importing

/// An import begins exactly where the artifact may be imported, and says why not otherwise.
pub proof fn imports_begin_where_they_may(
    share: ShareView,
    m: MetadataView,
    repo: RepoView,
    base_tree: Text,
    answers: Seq<bool>,
)
    ensures
        (sharing::import_next(share, m, repo, base_tree, answers) is Ok) == importable(
            share,
            m,
            repo,
            base_tree,
        ),
{
}

proof fn lemma_import_refs_are_no_head(share: ShareView)
    ensures
        sharing::import_ref_of(share) != "HEAD"@,
        crate::text::is_prefix("refs/forkpkg/imports/"@, sharing::import_ref_of(share)),
{
    reveal_strlit("HEAD");
    reveal_strlit("refs/forkpkg/imports/");
    let target_ref = sharing::import_ref_of(share);
    assert(target_ref[0] == 'r');
    assert(target_ref.take("refs/forkpkg/imports/"@.len() as int) =~= "refs/forkpkg/imports/"@);
}

/// A fork with the artifact's base commit takes the commits from the bundle. Where they are
/// in the history of its head already, nothing is done; else the head goes forward to them
/// where it is in their history, and else those after the base commit are picked. Whatever
/// the history, they are in the head's history or picked afterwards, no patch is applied,
/// and no branch is touched.
pub proof fn imported_commits_arrive(
    share: ShareView,
    m: MetadataView,
    repo: RepoView,
    base_tree: Text,
    bundled: Text,
    w: Repository,
)
    requires
        importable(share, m, repo, base_tree),
        m.base.git_commit == share.changes.base_commit,
        w.refs.contains_key("HEAD"@),
        forall|commit: Text| #[trigger] w.has(commit, commit),
    ensures
        imported(share, m, repo, base_tree, bundled, w) matches Some((end, method)) && {
            &&& w.has(bundled, w.head()) ==> {
                &&& method == "already-present"@
                &&& end.head() == w.head()
                &&& end.picked == w.picked
            }
            &&& !w.has(bundled, w.head()) && w.has(w.head(), bundled) ==> {
                &&& method == "fast-forward"@
                &&& end.head() == bundled
                &&& end.picked == w.picked
            }
            &&& !w.has(bundled, w.head()) && !w.has(w.head(), bundled) ==> {
                &&& method == "cherry-pick"@
                &&& end.head() == w.head()
                &&& end.picked == w.picked.push((m.base.git_commit, bundled))
            }
            &&& end.has(bundled, end.head()) || end.picked.contains((m.base.git_commit, bundled))
            &&& end.patched == w.patched
            &&& end.in_history == w.in_history
            &&& end.refs.contains_key("HEAD"@)
            &&& branches_kept(w, end)
        },
{
    lemma_import_refs_are_no_head(share);
    let target_ref = sharing::import_ref_of(share);
    let fetched = Repository { refs: w.refs.insert(target_ref, bundled), ..w };
    let a0 = Seq::<bool>::empty();
    let a1 = a0.push(true);
    let a2 = a1.push(true);
    assert(fetched.commit_at(target_ref) == bundled);
    assert(fetched.head() == w.head());
    let present = w.has(bundled, w.head());
    let a3 = a2.push(present);
    assert(gone_on(share, m, repo, base_tree, bundled, w, a0, 5) == gone_on(
        share,
        m,
        repo,
        base_tree,
        bundled,
        w,
        a1,
        4,
    ));
    assert(gone_on(share, m, repo, base_tree, bundled, w, a1, 4) == gone_on(
        share,
        m,
        repo,
        base_tree,
        bundled,
        fetched,
        a2,
        3,
    ));
    assert(gone_on(share, m, repo, base_tree, bundled, fetched, a2, 3) == gone_on(
        share,
        m,
        repo,
        base_tree,
        bundled,
        fetched,
        a3,
        2,
    ));
    if !present {
        let ahead = w.has(w.head(), bundled);
        let a4 = a3.push(ahead);
        assert(gone_on(share, m, repo, base_tree, bundled, fetched, a3, 2) == gone_on(
            share,
            m,
            repo,
            base_tree,
            bundled,
            fetched,
            a4,
            1,
        ));
        let a5 = a4.push(true);
        if ahead {
            let forward = Repository { refs: fetched.refs.insert("HEAD"@, bundled), ..fetched };
            assert(gone_on(share, m, repo, base_tree, bundled, fetched, a4, 1) == gone_on(
                share,
                m,
                repo,
                base_tree,
                bundled,
                forward,
                a5,
                0,
            ));
            assert(forward.head() == bundled);
            assert(w.has(bundled, bundled));
        } else {
            let picked = Repository {
                picked: w.picked.push((m.base.git_commit, bundled)),
                ..fetched
            };
            assert(gone_on(share, m, repo, base_tree, bundled, fetched, a4, 1) == gone_on(
                share,
                m,
                repo,
                base_tree,
                bundled,
                picked,
                a5,
                0,
            ));
            assert(picked.picked.last() == (m.base.git_commit, bundled));
        }
    }
}

/// A fork with another base commit gets the patches, once, and its refs are left to Git.
pub proof fn other_forks_get_the_patches(
    share: ShareView,
    m: MetadataView,
    repo: RepoView,
    base_tree: Text,
    bundled: Text,
    w: Repository,
)
    requires
        importable(share, m, repo, base_tree),
        m.base.git_commit != share.changes.base_commit,
    ensures
        imported(share, m, repo, base_tree, bundled, w) == Some(
            (Repository { patched: w.patched + 1, ..w }, "git-am"@),
        ),
{
    let a0 = Seq::<bool>::empty();
    let patched = Repository { patched: w.patched + 1, ..w };
    assert(gone_on(share, m, repo, base_tree, bundled, w, a0, 5) == gone_on(
        share,
        m,
        repo,
        base_tree,
        bundled,
        patched,
        a0.push(true),
        4,
    ));
}

/// A bundle is verified before anything is done with it, and fetched before its commits are
/// looked for.
pub proof fn bundles_are_verified_first(
    share: ShareView,
    m: MetadataView,
    repo: RepoView,
    base_tree: Text,
)
    requires
        importable(share, m, repo, base_tree),
        m.base.git_commit == share.changes.base_commit,
    ensures
        sharing::import_next(share, m, repo, base_tree, Seq::empty()) == Ok::<
            ImportStepView,
            Text,
        >(ImportStepView::Perform { task: TaskView::VerifyBundle }),
        sharing::import_next(share, m, repo, base_tree, seq![true]) matches Ok(
            ImportStepView::Perform { task: TaskView::FetchBundle { .. } },
        ),
{
}

/// Importing what was imported already changes no branch and not the head.
pub proof fn importing_twice_is_once(
    share: ShareView,
    m: MetadataView,
    repo: RepoView,
    base_tree: Text,
    bundled: Text,
    w: Repository,
)
    requires
        importable(share, m, repo, base_tree),
        m.base.git_commit == share.changes.base_commit,
        w.refs.contains_key("HEAD"@),
        forall|commit: Text| #[trigger] w.has(commit, commit),
        w.has(bundled, w.head()) || w.has(w.head(), bundled),
    ensures
        imported(share, m, repo, base_tree, bundled, w) matches Some((once, _)) && imported(
            share,
            m,
            repo,
            base_tree,
            bundled,
            once,
        ) matches Some((twice, method)) && {
            &&& method == "already-present"@
            &&& twice.head() == once.head()
            &&& twice.picked == once.picked
        },
{
    imported_commits_arrive(share, m, repo, base_tree, bundled, w);
    let once = imported(share, m, repo, base_tree, bundled, w)->Some_0.0;
    assert forall|commit: Text| #[trigger] once.has(commit, commit) by {
        assert(w.has(commit, commit));
    }
    imported_commits_arrive(share, m, repo, base_tree, bundled, once);
}

// ---- Exporting

/// What an export says of the commits: they go from the fork's base commit, with its tree,
/// to the head of its repository, and are as many as Git counted. The summary says the same.
pub proof fn exports_tell_of_the_commits(
    output: Text,
    taken: bool,
    m: MetadataView,
    repo: RepoView,
    base_tree: Text,
)
    ensures
        sharing::export_of(output, taken, m, repo, base_tree) matches Ok(export) ==> {
            &&& export.share.changes.base_commit == m.base.git_commit
            &&& export.share.base.git_commit == m.base.git_commit
            &&& export.share.changes.base_tree == base_tree
            &&& export.share.base.git_tree == base_tree
            &&& export.share.changes.head_commit == repo.head_commit
            &&& repo.commits_on_top == Some(export.share.changes.commit_count)
            &&& export.share.changes.bundle_path == "commits.bundle"@
            &&& export.share.changes.patch_path == "commits.patch"@
            &&& export.summary.artifact == output
            &&& export.summary.base_commit == export.share.changes.base_commit
            &&& export.summary.head_commit == export.share.changes.head_commit
            &&& export.summary.commit_count == export.share.changes.commit_count
        },
{
}

/// What an export says of the package and its base is what the fork's metadata says.
pub proof fn exports_tell_of_the_package(
    output: Text,
    taken: bool,
    m: MetadataView,
    repo: RepoView,
    base_tree: Text,
)
    ensures
        sharing::export_of(output, taken, m, repo, base_tree) matches Ok(export) ==> {
            &&& export.share.package.installable == m.package.installable
            &&& export.share.package.flake_ref == m.package.flake_ref
            &&& export.share.package.attribute == m.package.attribute
            &&& export.share.package.system == m.package.system
            &&& export.share.package.name == m.package.name
            &&& export.share.package.pname == m.package.pname
            &&& export.share.package.version == m.package.version
            &&& export.share.base.nixpkgs_revision == m.base.nixpkgs_revision
            &&& export.share.base.nixpkgs_last_modified == m.base.nixpkgs_last_modified
            &&& export.share.base.nixpkgs_locked_nar_hash == m.base.nixpkgs_locked_nar_hash
            &&& export.share.base.nixpkgs_resolved_url == m.base.nixpkgs_resolved_url
            &&& export.share.base.derivation == m.base.derivation
            &&& export.share.base.output == m.base.output
            &&& export.share.base.source == m.base.source
            &&& export.share.base.source_revision == m.base.source_revision
            &&& export.share.base.source_hash == m.base.source_hash
            &&& export.share.base.source_ca == m.base.source_ca
            &&& export.share.base.post_patch_source_hash == m.base.post_patch_source_hash
        },
{
}

/// A fork can be exported exactly where nothing stands in the way of the artifact, the base
/// commit is there, everything is committed, and at least one commit was counted on top.
pub proof fn exports_need_commits(
    output: Text,
    taken: bool,
    m: MetadataView,
    repo: RepoView,
    base_tree: Text,
)
    ensures
        (sharing::export_of(output, taken, m, repo, base_tree) is Ok) == ({
            &&& !taken
            &&& repo.base_commit_present
            &&& !repo.dirty
            &&& repo.commits_on_top matches Some(count) && count > 0
        }),
{
}

/// What a fork exports can be imported into every clean fork that was made from the same:
/// from the bundle where it has the same base commit, and so into the fork itself.
pub proof fn exports_can_be_imported(
    output: Text,
    taken: bool,
    m: MetadataView,
    repo: RepoView,
    base_tree: Text,
    other: MetadataView,
    there: RepoView,
    bundled: Text,
    w: Repository,
)
    requires
        other.package == m.package,
        other.base == m.base,
        there.base_commit_present,
        !there.dirty,
        w.refs.contains_key("HEAD"@),
        forall|commit: Text| #[trigger] w.has(commit, commit),
    ensures
        sharing::export_of(output, taken, m, repo, base_tree) matches Ok(export) ==> {
            &&& importable(export.share, other, there, base_tree)
            &&& sharing::import_next(export.share, other, there, base_tree, Seq::empty()) == Ok::<
                ImportStepView,
                Text,
            >(ImportStepView::Perform { task: TaskView::VerifyBundle })
            &&& imported(export.share, other, there, base_tree, bundled, w) matches Some((end, _))
                && (end.has(bundled, end.head()) || end.picked.contains(
                (m.base.git_commit, bundled),
            ))
        },
{
    if let Ok(export) = sharing::export_of(output, taken, m, repo, base_tree) {
        sharing::fitting_artifacts_agree(export.share, other);
        imported_commits_arrive(export.share, other, there, base_tree, bundled, w);
    }
}

/// An artifact that differs from a fork in what they were made from is not imported.
pub proof fn strangers_are_refused(
    share: ShareView,
    m: MetadataView,
    repo: RepoView,
    base_tree: Text,
    answers: Seq<bool>,
)
    requires
        share.package.flake_ref != m.package.flake_ref || share.package.attribute
            != m.package.attribute || share.package.system != m.package.system
            || share.base.derivation != m.base.derivation || share.base.output != m.base.output
            || share.base.nixpkgs_revision != m.base.nixpkgs_revision
            || share.base.nixpkgs_locked_nar_hash != m.base.nixpkgs_locked_nar_hash
            || share.base.nixpkgs_resolved_url != m.base.nixpkgs_resolved_url || share.base.source
            != m.base.source || share.base.source_revision != m.base.source_revision
            || share.base.source_hash != m.base.source_hash || share.base.post_patch_source_hash
            != m.base.post_patch_source_hash || share.changes.base_tree != base_tree
            || repo.dirty || !repo.base_commit_present,
    ensures
        sharing::import_next(share, m, repo, base_tree, answers) is Err,
{
    sharing::fitting_artifacts_agree(share, m);
}

// ---- Short hashes

proof fn lemma_ascii_within(s: Text, bytes: int)
    requires
        0 <= bytes,
        forall|i: int| 0 <= i < s.len() ==> (#[trigger] s[i] as u32) < 0x80,
    ensures
        bytes <= s.len() ==> sharing::chars_within(s, bytes) == Some(bytes as nat),
        bytes > s.len() ==> sharing::chars_within(s, bytes) is None,
    decreases s.len(),
{
    if bytes > 0 && s.len() > 0 {
        assert forall|i: int| 0 <= i < s.drop_first().len() implies (#[trigger] s.drop_first()[i]
            as u32) < 0x80 by {
            assert(s.drop_first()[i] == s[i + 1]);
        }
        lemma_ascii_within(s.drop_first(), bytes - 1);
    }
}

/// A hash in ASCII is shortened to its first twelve characters, and is whole where it has
/// no more.
pub proof fn short_hashes_have_twelve_characters(hash: Text)
    requires
        forall|i: int| 0 <= i < hash.len() ==> (#[trigger] hash[i] as u32) < 0x80,
    ensures
        hash.len() >= 12 ==> sharing::short(hash) == hash.take(12),
        hash.len() < 12 ==> sharing::short(hash) == hash,
{
    lemma_ascii_within(hash, 12);
}

// ---- Artifacts

/// Whether a header is that of a regular file of a name.
pub open spec fn is_file_named(head: HeadView, name: Text) -> bool {
    head matches HeadView::Head { is_file, path, .. } && is_file && (path matches Ok(path)
        && paths::components(path) == paths::components(name))
}

/// Whether contents are those of the last file of a name.
pub open spec fn is_last_named(
    contents: Seq<u8>,
    name: Text,
    heads: Seq<HeadView>,
    members: MembersView,
    count: int,
) -> bool {
    exists|i: int|
        0 <= i < count && is_file_named(#[trigger] heads[i], name) && (members.contents)(i) == Ok::<
            Seq<u8>,
            Text,
        >(contents) && forall|j: int| i < j < count ==> !is_file_named(#[trigger] heads[j], name)
}

proof fn lemma_slots_named(head: HeadView)
    ensures
        (sharing::slot_of(head) == Ok::<Slot, Text>(Slot::Metadata)) == is_file_named(
            head,
            "forkpkg-share.toml"@,
        ),
        (sharing::slot_of(head) == Ok::<Slot, Text>(Slot::Bundle)) == is_file_named(
            head,
            "commits.bundle"@,
        ),
        (sharing::slot_of(head) == Ok::<Slot, Text>(Slot::Patch)) == is_file_named(
            head,
            "commits.patch"@,
        ),
        sharing::slot_of(head) is Ok ==> is_file_named(head, "forkpkg-share.toml"@)
            || is_file_named(head, "commits.bundle"@) || is_file_named(head, "commits.patch"@),
{
    sharing::lemma_entry_names();
}

proof fn lemma_parts_named(heads: Seq<HeadView>, members: MembersView, count: nat)
    ensures
        sharing::parts_in(heads, members, count) matches Ok(parts) ==> {
            &&& parts.metadata matches PartView::File { contents, .. } ==> is_last_named(
                contents,
                "forkpkg-share.toml"@,
                heads,
                members,
                count as int,
            )
            &&& parts.bundle matches PartView::File { contents, .. } ==> is_last_named(
                contents,
                "commits.bundle"@,
                heads,
                members,
                count as int,
            )
            &&& parts.patch matches PartView::File { contents, .. } ==> is_last_named(
                contents,
                "commits.patch"@,
                heads,
                members,
                count as int,
            )
            &&& forall|i: int|
                0 <= i < count ==> is_file_named(#[trigger] heads[i], "forkpkg-share.toml"@)
                    || is_file_named(heads[i], "commits.bundle"@) || is_file_named(
                    heads[i],
                    "commits.patch"@,
                )
        },
    decreases count,
{
    if count > 0 {
        let i = count - 1;
        lemma_parts_named(heads, members, i as nat);
        if let Ok(parts) = sharing::parts_in(heads, members, count) {
            lemma_slots_named(heads[i]);
            let before = sharing::parts_in(heads, members, i as nat)->Ok_0;
            lemma_part_kept(
                before.metadata,
                parts.metadata,
                "forkpkg-share.toml"@,
                heads,
                members,
                i,
            );
            lemma_part_kept(before.bundle, parts.bundle, "commits.bundle"@, heads, members, i);
            lemma_part_kept(before.patch, parts.patch, "commits.patch"@, heads, members, i);
        }
    }
}

proof fn lemma_part_kept(
    before: PartView,
    after: PartView,
    name: Text,
    heads: Seq<HeadView>,
    members: MembersView,
    i: int,
)
    requires
        i >= 0,
        before matches PartView::File { contents, .. } ==> is_last_named(
            contents,
            name,
            heads,
            members,
            i,
        ),
        !is_file_named(heads[i], name) ==> after == before,
        is_file_named(heads[i], name) ==> (after matches PartView::File { contents, .. }
            ==> (members.contents)(i) == Ok::<Seq<u8>, Text>(contents)),
    ensures
        after matches PartView::File { contents, .. } ==> is_last_named(
            contents,
            name,
            heads,
            members,
            i + 1,
        ),
{
    if let PartView::File { contents, .. } = after {
        if is_file_named(heads[i], name) {
            assert(is_last_named(contents, name, heads, members, i + 1));
        } else {
            let k = choose|k: int|
                0 <= k < i && is_file_named(#[trigger] heads[k], name) && (members.contents)(k)
                    == Ok::<Seq<u8>, Text>(contents) && forall|j: int|
                    k < j < i ==> !is_file_named(#[trigger] heads[j], name);
            assert(is_file_named(heads[k], name));
            assert forall|j: int| k < j < i + 1 implies !is_file_named(
                #[trigger] heads[j],
                name,
            ) by {
                if j == i {
                }
            }
        }
    }
}

/// What an artifact holds are the contents of its files of the three names, of each the last;
/// an artifact with any other member is refused.
pub proof fn artifacts_hold_the_three_files(bytes: Seq<u8>)
    ensures
        sharing::artifact_in(bytes) matches Ok(parts) ==> {
            let heads = archive::archive_heads(bytes)->Ok_0;
            let members = sharing::members_of(bytes);
            let count = heads.len() as int;
            &&& archive::archive_heads(bytes) is Ok
            &&& is_last_named(parts.metadata, "forkpkg-share.toml"@, heads, members, count)
            &&& is_last_named(parts.bundle, "commits.bundle"@, heads, members, count)
            &&& is_last_named(parts.patch, "commits.patch"@, heads, members, count)
            &&& forall|i: int|
                0 <= i < count ==> is_file_named(#[trigger] heads[i], "forkpkg-share.toml"@)
                    || is_file_named(heads[i], "commits.bundle"@) || is_file_named(
                    heads[i],
                    "commits.patch"@,
                )
        },
{
    if let Ok(parts) = sharing::artifact_in(bytes) {
        let heads = archive::archive_heads(bytes)->Ok_0;
        lemma_parts_named(heads, sharing::members_of(bytes), heads.len());
    }
}

} // verus!
