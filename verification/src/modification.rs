//! Applying code modifications to a file store.
//!
//! The applier follows an optimistic-concurrency protocol: a modification
//! records the content its author saw, and is applied only when the store
//! still holds exactly that content. When a backup is requested it is
//! written before the target is mutated, never after. Every operation is
//! specified against a spec-level fold over the store's map view.

use vstd::prelude::*;
use crate::ErrorModel;
use crate::text::chars_vec;
use crate::text::dec_str;
use crate::text::find_char;
use crate::text::find_first;
use crate::text::find_char_from;
use crate::text::lemma_find_char_from;
use crate::text::slice_to_string;
use crate::text::usize_to_string;
use crate::Result;
use crate::RustAiToolError;
use crate::store::FileStore;
use crate::validation::ValidationResult;
use crate::validation::VerdictModel;

verus! {

/// The index of the last occurrence of `c` in `t`, or `-1` when there is
/// none.
pub open spec fn rfind_char(t: Seq<char>, c: char) -> int
    decreases t.len(),
{
    if t.len() == 0 {
        -1
    } else if t.last() == c {
        t.len() - 1
    } else {
        rfind_char(t.drop_last(), c)
    }
}

/// Characterisation of [`rfind_char`].
pub proof fn lemma_rfind_char(t: Seq<char>, c: char)
    ensures
        -1 <= rfind_char(t, c) < t.len(),
        rfind_char(t, c) >= 0 ==> t[rfind_char(t, c)] == c,
        forall|j: int| rfind_char(t, c) < j < t.len() ==> t[j] != c,
    decreases t.len(),
{
    if t.len() > 0 && t.last() != c {
        lemma_rfind_char(t.drop_last(), c);
        assert(forall|j: int| 0 <= j < t.len() - 1 ==> t.drop_last()[j] == #[trigger] t[j]);
    }
}

/// The backup path of `p`: the path with its extension replaced by `bak`,
/// or with `.bak` appended when the final component has no extension. A
/// leading dot of the final component does not count as an extension
/// separator. Components are separated by `/`.
pub open spec fn backup_path_of(p: Seq<char>) -> Seq<char> {
    let slash = rfind_char(p, '/');
    let dot = rfind_char(p, '.');
    if dot > slash + 1 {
        p.take(dot) + ".bak"@
    } else {
        p + ".bak"@
    }
}

/// Compute the backup path of `path` (executable form of
/// [`backup_path_of`]).
pub fn backup_path(path: &str) -> (r: String)
    ensures
        r@ == backup_path_of(path@),
{
    let t = crate::text::chars_vec(path);
    proof {
        lemma_rfind_char(t@, '/');
        lemma_rfind_char(t@, '.');
        reveal_strlit(".bak");
    }
    let mut slash: Option<usize> = None;
    let mut dot: Option<usize> = None;
    let mut i: usize = 0;
    while i < t.len()
        invariant
            i <= t@.len(),
            match slash {
                Some(k) => k < i && t@[k as int] == '/' && forall|j: int|
                    k < j < i ==> t@[j] != '/',
                None => forall|j: int| 0 <= j < i ==> t@[j] != '/',
            },
            match dot {
                Some(k) => k < i && t@[k as int] == '.' && forall|j: int| k < j < i ==> t@[j] != '.',
                None => forall|j: int| 0 <= j < i ==> t@[j] != '.',
            },
        decreases t@.len() - i,
    {
        if t[i] == '/' {
            slash = Some(i);
        }
        if t[i] == '.' {
            dot = Some(i);
        }
        i = i + 1;
    }
    let ghost sl = rfind_char(t@, '/');
    let ghost dt = rfind_char(t@, '.');
    proof {
        match slash {
            Some(k) => {
                assert(sl == k);
            },
            None => {
                assert(sl == -1);
            },
        }
        match dot {
            Some(k) => {
                assert(dt == k);
            },
            None => {
                assert(dt == -1);
            },
        }
    }
    let cut_at_dot = match (dot, slash) {
        (Some(d), Some(s)) => d > s + 1,
        (Some(d), None) => d > 0,
        _ => false,
    };
    if cut_at_dot {
        let d = match dot {
            Some(d) => d,
            None => vstd::pervasive::unreached(),
        };
        let mut r = crate::text::slice_to_string(&t, 0, d);
        r.append(".bak");
        proof {
            assert(r@ =~= backup_path_of(path@));
        }
        r
    } else {
        let mut r = crate::text::slice_to_string(&t, 0, t.len());
        r.append(".bak");
        proof {
            assert(t@.subrange(0, t@.len() as int) =~= t@);
            assert(r@ =~= backup_path_of(path@));
        }
        r
    }
}

/// A code modification: the content the author saw and the content that
/// should replace it.
#[derive(Debug)]
pub struct CodeModification {
    /// Path of the file to modify.
    pub file_path: String,
    /// Original content, as last read by the author of the modification.
    pub original_content: String,
    /// Modified content.
    pub modified_content: String,
    /// Description of the modification.
    pub description: String,
    /// Confidence level (0-100); advisory only, not used in the safety
    /// decision.
    pub confidence: u8,
}

/// Mathematical model of [`CodeModification`].
pub ghost struct CodeModificationModel {
    pub file_path: Seq<char>,
    pub original_content: Seq<char>,
    pub modified_content: Seq<char>,
    pub description: Seq<char>,
    pub confidence: u8,
}

impl View for CodeModification {
    type V = CodeModificationModel;

    open spec fn view(&self) -> CodeModificationModel {
        CodeModificationModel {
            file_path: self.file_path@,
            original_content: self.original_content@,
            modified_content: self.modified_content@,
            description: self.description@,
            confidence: self.confidence,
        }
    }
}

impl DeepView for CodeModification {
    type V = CodeModificationModel;

    open spec fn deep_view(&self) -> CodeModificationModel {
        self.view()
    }
}

impl Clone for CodeModification {
    fn clone(&self) -> (r: Self)
        ensures
            r@ == self@,
    {
        CodeModification {
            file_path: self.file_path.clone(),
            original_content: self.original_content.clone(),
            modified_content: self.modified_content.clone(),
            description: self.description.clone(),
            confidence: self.confidence,
        }
    }
}

/// A change applied to a file of the store.
#[derive(Debug)]
pub struct FileChange {
    /// Path of the file.
    pub file_path: String,
    /// Original content, as read at the moment of the write.
    pub original_content: Option<String>,
    /// New content.
    pub new_content: String,
    /// Description of the change.
    pub description: String,
    /// Whether a backup was created.
    pub backup_created: bool,
    /// Path of the backup file, when one was created.
    pub backup_path: Option<String>,
}

/// Mathematical model of [`FileChange`].
pub ghost struct FileChangeModel {
    pub file_path: Seq<char>,
    pub original_content: Option<Seq<char>>,
    pub new_content: Seq<char>,
    pub description: Seq<char>,
    pub backup_created: bool,
    pub backup_path: Option<Seq<char>>,
}

impl View for FileChange {
    type V = FileChangeModel;

    open spec fn view(&self) -> FileChangeModel {
        FileChangeModel {
            file_path: self.file_path@,
            original_content: match self.original_content {
                Some(ref c) => Some(c@),
                None => None,
            },
            new_content: self.new_content@,
            description: self.description@,
            backup_created: self.backup_created,
            backup_path: match self.backup_path {
                Some(ref p) => Some(p@),
                None => None,
            },
        }
    }
}

impl DeepView for FileChange {
    type V = FileChangeModel;

    open spec fn deep_view(&self) -> FileChangeModel {
        self.view()
    }
}

/// What applying one modification does to the store map `m`: an error
/// (`InputNotFound` when the target is missing, `ConcurrentModification`
/// when the store content is not the recorded original), or the new map
/// together with the record of the change. With `backup` set, the old
/// content is written to the backup path before the target is replaced.
pub open spec fn spec_apply_one(
    m: Map<Seq<char>, Seq<char>>,
    c: CodeModificationModel,
    backup: bool,
) -> core::result::Result<(Map<Seq<char>, Seq<char>>, FileChangeModel), ErrorModel> {
    if !m.dom().contains(c.file_path) {
        Err(ErrorModel::InputNotFound(c.file_path))
    } else if m[c.file_path] != c.original_content {
        Err(ErrorModel::ConcurrentModification(c.file_path))
    } else {
        let bak = backup_path_of(c.file_path);
        let m1 = if backup {
            m.insert(bak, c.original_content)
        } else {
            m
        };
        let m2 = m1.insert(c.file_path, c.modified_content);
        Ok(
            (
                m2,
                FileChangeModel {
                    file_path: c.file_path,
                    original_content: Some(c.original_content),
                    new_content: c.modified_content,
                    description: c.description,
                    backup_created: backup,
                    backup_path: if backup {
                        Some(bak)
                    } else {
                        None
                    },
                },
            ),
        )
    }
}

/// What applying a list of modifications does to the store map: the
/// modifications are applied in order and the first failure stops the
/// batch, keeping the changes already applied.
pub open spec fn spec_apply_all(
    m: Map<Seq<char>, Seq<char>>,
    cs: Seq<CodeModificationModel>,
    backup: bool,
) -> (Map<Seq<char>, Seq<char>>, core::result::Result<Seq<FileChangeModel>, ErrorModel>)
    decreases cs.len(),
{
    if cs.len() == 0 {
        (m, Ok(Seq::empty()))
    } else {
        match spec_apply_one(m, cs[0], backup) {
            Err(e) => (m, Err(e)),
            Ok(p) => {
                let rest = spec_apply_all(p.0, cs.skip(1), backup);
                match rest.1 {
                    Err(e) => (rest.0, Err(e)),
                    Ok(fcs) => (rest.0, Ok(seq![p.1] + fcs)),
                }
            },
        }
    }
}

/// Apply a single code modification to the store.
///
/// The target must exist and still hold the modification's recorded
/// original content; otherwise the store is left unchanged and the
/// matching error is returned.
pub fn apply_modification(
    store: &mut FileStore,
    modification: &CodeModification,
    create_backup: bool,
) -> (r: Result<FileChange>)
    requires
        old(store).wf(),
    ensures
        final(store).wf(),
        match r {
            Ok(change) => {
                &&& spec_apply_one(old(store)@, modification@, create_backup) matches Ok(p)
                    && final(store)@ == p.0 && change@ == p.1
            },
            Err(e) => {
                &&& spec_apply_one(old(store)@, modification@, create_backup) matches Err(se)
                    && e@ == se
                &&& final(store)@ == old(store)@
            },
        },
{
    if !store.contains_path(path_of(modification)) {
        return Err(RustAiToolError::InputNotFound(modification.file_path.clone()));
    }
    let current = match store.read_file(path_of(modification)) {
        Some(c) => c,
        None => vstd::pervasive::unreached(),
    };
    if !current.as_str().eq(modification.original_content.as_str()) {
        return Err(RustAiToolError::ConcurrentModification(modification.file_path.clone()));
    }
    let backup_file = if create_backup {
        let bak = backup_path(path_of(modification));
        store.write_file(bak.as_str(), current.clone());
        Some(bak)
    } else {
        None
    };
    store.write_file(path_of(modification), modification.modified_content.clone());
    Ok(
        FileChange {
            file_path: modification.file_path.clone(),
            original_content: Some(current),
            new_content: modification.modified_content.clone(),
            description: modification.description.clone(),
            backup_created: match backup_file {
                Some(_) => true,
                None => false,
            },
            backup_path: backup_file,
        },
    )
}

/// The target path of a modification, as a string slice.
fn path_of(modification: &CodeModification) -> (r: &str)
    ensures
        r@ == modification@.file_path,
{
    modification.file_path.as_str()
}

/// Apply a list of code modifications in order, stopping at the first
/// failure; modifications already applied stay applied.
///
/// Candidate paths within one batch are expected to be unique. Two
/// modifications naming the same path are processed sequentially, so the
/// second sees the first's write and is refused as a concurrent
/// modification.
pub fn apply_modifications(
    store: &mut FileStore,
    modifications: &Vec<CodeModification>,
    create_backup: bool,
) -> (r: Result<Vec<FileChange>>)
    requires
        old(store).wf(),
    ensures
        final(store).wf(),
        final(store)@ == spec_apply_all(old(store)@, modifications.deep_view(), create_backup).0,
        match r {
            Ok(changes) => spec_apply_all(old(store)@, modifications.deep_view(), create_backup).1
                matches Ok(ms) && changes.deep_view() == ms,
            Err(e) => spec_apply_all(old(store)@, modifications.deep_view(), create_backup).1
                matches Err(me) && e@ == me,
        },
{
    let ghost all = modifications.deep_view();
    let ghost m0 = store@;
    let mut changes: Vec<FileChange> = Vec::new();
    let mut i: usize = 0;
    proof {
        assert(all.skip(0) =~= all);
        assert(changes.deep_view() =~= Seq::<FileChangeModel>::empty());
    }
    while i < modifications.len()
        invariant
            store.wf(),
            i <= all.len(),
            all.len() == modifications@.len(),
            spec_apply_all(m0, all, create_backup) == {
                let rest = spec_apply_all(store@, all.skip(i as int), create_backup);
                (
                    rest.0,
                    match rest.1 {
                        Err(e) => Err::<Seq<FileChangeModel>, ErrorModel>(e),
                        Ok(fcs) => Ok(changes.deep_view() + fcs),
                    },
                )
            },
        decreases all.len() - i,
    {
        let ghost pre = store@;
        let ghost pre_changes = changes.deep_view();
        match apply_modification(store, &modifications[i], create_backup) {
            Ok(change) => {
                changes.push(change);
                proof {
                    assert(all.skip(i as int)[0] == all[i as int]);
                    assert(all.skip(i as int).skip(1) =~= all.skip(i + 1));
                    assert(changes.deep_view() =~= pre_changes.push(changes@.last().deep_view()));
                    let rest = spec_apply_all(store@, all.skip(i + 1), create_backup);
                    match rest.1 {
                        Ok(fcs) => {
                            assert(pre_changes + (seq![changes@.last().deep_view()] + fcs)
                                =~= changes.deep_view() + fcs);
                        },
                        Err(_) => {},
                    }
                }
                i = i + 1;
            },
            Err(e) => {
                proof {
                    assert(all.skip(i as int)[0] == all[i as int]);
                }
                return Err(e);
            },
        }
    }
    proof {
        assert(all.skip(all.len() as int) =~= Seq::<CodeModificationModel>::empty());
        assert(changes.deep_view() + Seq::<FileChangeModel>::empty() =~= changes.deep_view());
    }
    Ok(changes)
}

/// The modifications whose paired verdict accepts them, in order. Pairs
/// beyond the shorter of the two lists are dropped.
pub open spec fn accepted_mods(
    cs: Seq<CodeModificationModel>,
    vs: Seq<VerdictModel>,
) -> Seq<CodeModificationModel>
    decreases cs.len(),
{
    if cs.len() == 0 || vs.len() == 0 {
        Seq::empty()
    } else {
        let rest = accepted_mods(cs.skip(1), vs.skip(1));
        if vs[0].is_valid {
            seq![cs[0]] + rest
        } else {
            rest
        }
    }
}

/// Apply only the modifications whose paired validation verdict accepted
/// them, in order, with the same fail-fast rule as
/// [`apply_modifications`].
pub fn apply_validated_fixes(
    store: &mut FileStore,
    modifications: &Vec<CodeModification>,
    validation_results: &Vec<ValidationResult>,
    create_backup: bool,
) -> (r: Result<Vec<FileChange>>)
    requires
        old(store).wf(),
    ensures
        final(store).wf(),
        final(store)@ == spec_apply_all(
            old(store)@,
            accepted_mods(modifications.deep_view(), validation_results.deep_view()),
            create_backup,
        ).0,
        match r {
            Ok(changes) => spec_apply_all(
                old(store)@,
                accepted_mods(modifications.deep_view(), validation_results.deep_view()),
                create_backup,
            ).1 matches Ok(ms) && changes.deep_view() == ms,
            Err(e) => spec_apply_all(
                old(store)@,
                accepted_mods(modifications.deep_view(), validation_results.deep_view()),
                create_backup,
            ).1 matches Err(me) && e@ == me,
        },
{
    let mut valid_modifications: Vec<CodeModification> = Vec::new();
    let ghost cs = modifications.deep_view();
    let ghost vs = validation_results.deep_view();
    let mut i: usize = 0;
    let n = if modifications.len() < validation_results.len() {
        modifications.len()
    } else {
        validation_results.len()
    };
    proof {
        assert(valid_modifications.deep_view() =~= Seq::<CodeModificationModel>::empty());
        assert(cs.skip(0) =~= cs);
        assert(vs.skip(0) =~= vs);
    }
    while i < n
        invariant
            i <= n,
            n == if cs.len() < vs.len() {
                cs.len()
            } else {
                vs.len()
            },
            cs.len() == modifications@.len(),
            vs.len() == validation_results@.len(),
            accepted_mods(cs, vs) == valid_modifications.deep_view() + accepted_mods(
                cs.skip(i as int),
                vs.skip(i as int),
            ),
        decreases n - i,
    {
        let ghost pre = valid_modifications.deep_view();
        proof {
            assert(cs.skip(i as int)[0] == cs[i as int]);
            assert(vs.skip(i as int)[0] == vs[i as int]);
            assert(cs.skip(i as int).skip(1) =~= cs.skip(i + 1));
            assert(vs.skip(i as int).skip(1) =~= vs.skip(i + 1));
        }
        if validation_results[i].is_valid {
            valid_modifications.push(modifications[i].clone());
            proof {
                assert(valid_modifications.deep_view() =~= pre.push(
                    valid_modifications@.last().deep_view(),
                ));
                assert(pre + (seq![cs[i as int]] + accepted_mods(cs.skip(i + 1), vs.skip(i + 1)))
                    =~= valid_modifications.deep_view() + accepted_mods(
                    cs.skip(i + 1),
                    vs.skip(i + 1),
                ));
            }
        }
        i = i + 1;
    }
    proof {
        if cs.len() < vs.len() {
            assert(accepted_mods(cs.skip(n as int), vs.skip(n as int)) =~= Seq::<
                CodeModificationModel,
            >::empty());
        } else {
            assert(accepted_mods(cs.skip(n as int), vs.skip(n as int)) =~= Seq::<
                CodeModificationModel,
            >::empty());
        }
        assert(valid_modifications.deep_view() + Seq::<CodeModificationModel>::empty()
            =~= valid_modifications.deep_view());
        assert(accepted_mods(cs, vs) == valid_modifications.deep_view());
    }
    apply_modifications(store, &valid_modifications, create_backup)
}

/// Create a code modification from its parts.
pub fn create_modification(
    file_path: String,
    original_content: String,
    modified_content: String,
    description: String,
    confidence: u8,
) -> (r: CodeModification)
    ensures
        r@.file_path == file_path@,
        r@.original_content == original_content@,
        r@.modified_content == modified_content@,
        r@.description == description@,
        r@.confidence == confidence,
{
    CodeModification { file_path, original_content, modified_content, description, confidence }
}

/// What restoring a list of changes does to the store map: for each
/// change with a backup that the store still holds, the backup content is
/// written back to the target and the backup is removed; a missing backup
/// is a non-fatal skip. Returns the new map and the number of restored
/// files.
pub open spec fn spec_restore_all(
    m: Map<Seq<char>, Seq<char>>,
    cs: Seq<FileChangeModel>,
) -> (Map<Seq<char>, Seq<char>>, nat)
    decreases cs.len(),
{
    if cs.len() == 0 {
        (m, 0)
    } else {
        let step = match cs[0].backup_path {
            Some(bp) => if m.dom().contains(bp) {
                (m.insert(cs[0].file_path, m[bp]).remove(bp), 1nat)
            } else {
                (m, 0nat)
            },
            None => (m, 0nat),
        };
        let rest = spec_restore_all(step.0, cs.skip(1));
        (rest.0, step.1 + rest.1)
    }
}

/// Restore files from their backups, counting the restored files; a
/// change without a backup, or whose backup is gone, is skipped.
pub fn restore_backups(store: &mut FileStore, changes: &Vec<FileChange>) -> (r: Result<usize>)
    requires
        old(store).wf(),
    ensures
        final(store).wf(),
        final(store)@ == spec_restore_all(old(store)@, changes.deep_view()).0,
        match r {
            Ok(n) => n == spec_restore_all(old(store)@, changes.deep_view()).1,
            Err(_) => false,
        },
{
    let ghost all = changes.deep_view();
    let ghost m0 = store@;
    let mut restored: usize = 0;
    let mut i: usize = 0;
    proof {
        assert(all.skip(0) =~= all);
    }
    while i < changes.len()
        invariant
            store.wf(),
            i <= all.len(),
            all.len() == changes@.len(),
            restored <= i,
            spec_restore_all(m0, all) == {
                let rest = spec_restore_all(store@, all.skip(i as int));
                (rest.0, (restored + rest.1) as nat)
            },
        decreases all.len() - i,
    {
        proof {
            assert(all.skip(i as int)[0] == all[i as int]);
            assert(all.skip(i as int).skip(1) =~= all.skip(i + 1));
        }
        match &changes[i].backup_path {
            Some(bp) => {
                match store.read_file(bp.as_str()) {
                    Some(content) => {
                        let target = changes[i].file_path.clone();
                        store.write_file(target.as_str(), content);
                        store.remove_file(bp.as_str());
                        restored = restored + 1;
                    },
                    None => {},
                }
            },
            None => {},
        }
        i = i + 1;
    }
    proof {
        assert(all.skip(all.len() as int) =~= Seq::<FileChangeModel>::empty());
    }
    Ok(restored)
}



// ---------------------------------------------------------------------
// Raw content changes.
// ---------------------------------------------------------------------

/// A raw content change: a path and the content that should stand there.
#[derive(Debug, Clone)]
pub struct FileUpdate {
    /// Path of the file.
    pub path: String,
    /// The content the file should hold afterwards.
    pub content: String,
}

/// Mathematical model of [`FileUpdate`].
pub ghost struct FileUpdateModel {
    pub path: Seq<char>,
    pub content: Seq<char>,
}

impl View for FileUpdate {
    type V = FileUpdateModel;

    open spec fn view(&self) -> FileUpdateModel {
        FileUpdateModel { path: self.path@, content: self.content@ }
    }
}

impl DeepView for FileUpdate {
    type V = FileUpdateModel;

    open spec fn deep_view(&self) -> FileUpdateModel {
        self.view()
    }
}

/// What one raw content change does to the store map `m`: an error when
/// the target is missing, a silent skip when it already holds the
/// content, and otherwise a backup-protected overwrite recorded as a
/// change.
pub open spec fn spec_update_one(
    m: Map<Seq<char>, Seq<char>>,
    u: FileUpdateModel,
    backup: bool,
) -> core::result::Result<(Map<Seq<char>, Seq<char>>, Option<FileChangeModel>), ErrorModel> {
    if !m.dom().contains(u.path) {
        Err(ErrorModel::InputNotFound(u.path))
    } else if m[u.path] == u.content {
        Ok((m, None))
    } else {
        let bak = backup_path_of(u.path);
        let m1 = if backup {
            m.insert(bak, m[u.path])
        } else {
            m
        };
        let m2 = m1.insert(u.path, u.content);
        Ok(
            (
                m2,
                Some(
                    FileChangeModel {
                        file_path: u.path,
                        original_content: Some(m[u.path]),
                        new_content: u.content,
                        description: "Modified file content"@,
                        backup_created: backup,
                        backup_path: if backup {
                            Some(bak)
                        } else {
                            None
                        },
                    },
                ),
            ),
        )
    }
}

/// What a list of raw content changes does to the store map: applied in
/// order, the first failure stops the batch, and unchanged files are
/// skipped without a record.
pub open spec fn spec_update_all(
    m: Map<Seq<char>, Seq<char>>,
    us: Seq<FileUpdateModel>,
    backup: bool,
) -> (Map<Seq<char>, Seq<char>>, core::result::Result<Seq<FileChangeModel>, ErrorModel>)
    decreases us.len(),
{
    if us.len() == 0 {
        (m, Ok(Seq::empty()))
    } else {
        match spec_update_one(m, us[0], backup) {
            Err(e) => (m, Err(e)),
            Ok(p) => {
                let rest = spec_update_all(p.0, us.skip(1), backup);
                match rest.1 {
                    Err(e) => (rest.0, Err(e)),
                    Ok(fcs) => (
                        rest.0,
                        Ok(
                            (match p.1 {
                                Some(fc) => seq![fc],
                                None => Seq::empty(),
                            }) + fcs,
                        ),
                    ),
                }
            },
        }
    }
}

/// Apply one raw content change to the store.
fn apply_file_update(store: &mut FileStore, update: &FileUpdate, create_backup: bool) -> (r:
    Result<Option<FileChange>>)
    requires
        old(store).wf(),
    ensures
        final(store).wf(),
        match r {
            Ok(change) => {
                &&& spec_update_one(old(store)@, update@, create_backup) matches Ok(p)
                    && final(store)@ == p.0 && (match (change, p.1) {
                    (Some(c), Some(fc)) => c@ == fc,
                    (None, None) => true,
                    _ => false,
                })
            },
            Err(e) => {
                &&& spec_update_one(old(store)@, update@, create_backup) matches Err(se) && e@
                    == se
                &&& final(store)@ == old(store)@
            },
        },
{
    if !store.contains_path(update.path.as_str()) {
        return Err(RustAiToolError::InputNotFound(update.path.clone()));
    }
    let current = match store.read_file(update.path.as_str()) {
        Some(c) => c,
        None => vstd::pervasive::unreached(),
    };
    if current.as_str().eq(update.content.as_str()) {
        return Ok(None);
    }
    let backup_file = if create_backup {
        let bak = backup_path(update.path.as_str());
        store.write_file(bak.as_str(), current.clone());
        Some(bak)
    } else {
        None
    };
    store.write_file(update.path.as_str(), update.content.clone());
    Ok(
        Some(
            FileChange {
                file_path: update.path.clone(),
                original_content: Some(current),
                new_content: update.content.clone(),
                description: "Modified file content".to_owned(),
                backup_created: match backup_file {
                    Some(_) => true,
                    None => false,
                },
                backup_path: backup_file,
            },
        ),
    )
}

/// Apply a list of raw content changes in order, stopping at the first
/// failure; a file that already holds its new content is skipped.
pub fn apply_file_changes(
    store: &mut FileStore,
    changes: &Vec<FileUpdate>,
    create_backup: bool,
) -> (r: Result<Vec<FileChange>>)
    requires
        old(store).wf(),
    ensures
        final(store).wf(),
        final(store)@ == spec_update_all(old(store)@, changes.deep_view(), create_backup).0,
        match r {
            Ok(applied) => spec_update_all(old(store)@, changes.deep_view(), create_backup).1
                matches Ok(ms) && applied.deep_view() == ms,
            Err(e) => spec_update_all(old(store)@, changes.deep_view(), create_backup).1
                matches Err(me) && e@ == me,
        },
{
    let ghost all = changes.deep_view();
    let ghost m0 = store@;
    let mut applied: Vec<FileChange> = Vec::new();
    let mut i: usize = 0;
    proof {
        assert(all.skip(0) =~= all);
        assert(applied.deep_view() =~= Seq::<FileChangeModel>::empty());
    }
    while i < changes.len()
        invariant
            store.wf(),
            i <= all.len(),
            all.len() == changes@.len(),
            spec_update_all(m0, all, create_backup) == {
                let rest = spec_update_all(store@, all.skip(i as int), create_backup);
                (
                    rest.0,
                    match rest.1 {
                        Err(e) => Err::<Seq<FileChangeModel>, ErrorModel>(e),
                        Ok(fcs) => Ok(applied.deep_view() + fcs),
                    },
                )
            },
        decreases all.len() - i,
    {
        let ghost pre_applied = applied.deep_view();
        proof {
            assert(all.skip(i as int)[0] == all[i as int]);
            assert(all.skip(i as int).skip(1) =~= all.skip(i + 1));
        }
        match apply_file_update(store, &changes[i], create_backup) {
            Ok(Some(change)) => {
                applied.push(change);
                proof {
                    assert(applied.deep_view() =~= pre_applied.push(
                        applied@.last().deep_view(),
                    ));
                    let rest = spec_update_all(store@, all.skip(i + 1), create_backup);
                    match rest.1 {
                        Ok(fcs) => {
                            assert(pre_applied + (seq![applied@.last().deep_view()] + fcs)
                                =~= applied.deep_view() + fcs);
                        },
                        Err(_) => {},
                    }
                }
                i = i + 1;
            },
            Ok(None) => {
                proof {
                    let rest = spec_update_all(store@, all.skip(i + 1), create_backup);
                    match rest.1 {
                        Ok(fcs) => {
                            assert(pre_applied + (Seq::<FileChangeModel>::empty() + fcs)
                                =~= applied.deep_view() + fcs);
                        },
                        Err(_) => {},
                    }
                }
                i = i + 1;
            },
            Err(e) => {
                return Err(e);
            },
        }
    }
    proof {
        assert(all.skip(all.len() as int) =~= Seq::<FileUpdateModel>::empty());
        assert(applied.deep_view() + Seq::<FileChangeModel>::empty() =~= applied.deep_view());
    }
    Ok(applied)
}


/// What updating one section does to the store map `m`: an error when
/// the target is missing or holds no occurrence of the search text, and
/// otherwise a backup-protected overwrite with every occurrence of the
/// search text replaced, recorded as a change.
pub open spec fn spec_update_section(
    m: Map<Seq<char>, Seq<char>>,
    path: Seq<char>,
    search: Seq<char>,
    replacement: Seq<char>,
    backup: bool,
) -> core::result::Result<(Map<Seq<char>, Seq<char>>, FileChangeModel), ErrorModel> {
    if !m.dom().contains(path) {
        Err(ErrorModel::InputNotFound(path))
    } else if !crate::text::contains_seq(m[path], search) {
        Err(ErrorModel::InputNotFound(search))
    } else {
        let new_content = crate::text::replace_seq(m[path], search, replacement);
        let bak = backup_path_of(path);
        let m1 = if backup {
            m.insert(bak, m[path])
        } else {
            m
        };
        let m2 = m1.insert(path, new_content);
        Ok(
            (
                m2,
                FileChangeModel {
                    file_path: path,
                    original_content: Some(m[path]),
                    new_content,
                    description: "Updated code section in "@ + path,
                    backup_created: backup,
                    backup_path: if backup {
                        Some(bak)
                    } else {
                        None
                    },
                },
            ),
        )
    }
}

/// Replace every occurrence of `search_text` in the file at `file_path`
/// by `replacement`, under the same backup protocol as the applier. The
/// search text must not be empty. A missing file, or one that holds no
/// occurrence, is an error and leaves the store unchanged.
pub fn update_code_section(
    store: &mut FileStore,
    file_path: &str,
    search_text: &str,
    replacement: &str,
    create_backup: bool,
) -> (r: Result<FileChange>)
    requires
        old(store).wf(),
        search_text@.len() > 0,
    ensures
        final(store).wf(),
        match r {
            Ok(change) => {
                &&& spec_update_section(
                    old(store)@,
                    file_path@,
                    search_text@,
                    replacement@,
                    create_backup,
                ) matches Ok(p) && final(store)@ == p.0 && change@ == p.1
            },
            Err(e) => {
                &&& spec_update_section(
                    old(store)@,
                    file_path@,
                    search_text@,
                    replacement@,
                    create_backup,
                ) matches Err(se) && e@ == se
                &&& final(store)@ == old(store)@
            },
        },
{
    if !store.contains_path(file_path) {
        return Err(RustAiToolError::InputNotFound(file_path.to_owned()));
    }
    let current = match store.read_file(file_path) {
        Some(c) => c,
        None => vstd::pervasive::unreached(),
    };
    let current_chars = chars_vec(current.as_str());
    let search_chars = chars_vec(search_text);
    if find_first(&current_chars, &search_chars, 0).is_none() {
        proof {
            assert(!crate::text::contains_seq(current@, search_text@));
        }
        return Err(RustAiToolError::InputNotFound(search_text.to_owned()));
    }
    let new_content = crate::text::replace_all(&current_chars, &search_chars, replacement);
    let backup_file = if create_backup {
        let bak = backup_path(file_path);
        store.write_file(bak.as_str(), current.clone());
        Some(bak)
    } else {
        None
    };
    store.write_file(file_path, new_content.clone());
    let mut description = String::new();
    description.append("Updated code section in ");
    description.append(file_path);
    proof {
        assert(description@ =~= "Updated code section in "@ + file_path@);
    }
    Ok(
        FileChange {
            file_path: file_path.to_owned(),
            original_content: Some(current),
            new_content,
            description,
            backup_created: match backup_file {
                Some(_) => true,
                None => false,
            },
            backup_path: backup_file,
        },
    )
}

// ---------------------------------------------------------------------
// Line-oriented diff and the change report.
// ---------------------------------------------------------------------

/// A line with one trailing carriage return removed.
pub open spec fn strip_cr(l: Seq<char>) -> Seq<char> {
    if l.len() > 0 && l.last() == '\r' {
        l.drop_last()
    } else {
        l
    }
}

/// The lines of `t`: split at newline characters, with a carriage
/// return before a newline stripped; a final line without a line ending
/// is kept as it stands.
pub open spec fn split_lines(t: Seq<char>) -> Seq<Seq<char>>
    decreases t.len(),
    via split_lines_decreases
{
    if t.len() == 0 {
        Seq::empty()
    } else {
        let p = find_char_from(t, '\n', 0);
        if p >= t.len() {
            seq![t]
        } else {
            seq![strip_cr(t.take(p))] + split_lines(t.skip(p + 1))
        }
    }
}

#[via_fn]
proof fn split_lines_decreases(t: Seq<char>) {
    if t.len() > 0 {
        lemma_find_char_from(t, '\n', 0);
    }
}

/// Finding a character in a suffix finds it at the shifted position.
proof fn lemma_find_char_skip(t: Seq<char>, c: char, i: int)
    requires
        0 <= i <= t.len(),
    ensures
        find_char_from(t.skip(i), c, 0) + i == find_char_from(t, c, i),
{
    lemma_find_char_from(t, c, i);
    lemma_find_char_from(t.skip(i), c, 0);
    let a = find_char_from(t, c, i);
    let b = find_char_from(t.skip(i), c, 0);
    assert(forall|j: int| 0 <= j < t.len() - i ==> t.skip(i)[j] == t[i + j]);
    if a < t.len() {
        assert(t.skip(i)[a - i] == c);
    }
    if b < t.len() - i {
        assert(t[i + b] == c);
    }
}

/// Split `t` into its lines (executable form of [`split_lines`]).
pub fn split_lines_exec(t: &Vec<char>) -> (r: Vec<String>)
    ensures
        r.deep_view() == split_lines(t@),
{
    let mut r: Vec<String> = Vec::new();
    let mut i: usize = 0;
    proof {
        assert(t@.skip(0) =~= t@);
        assert(r.deep_view() =~= Seq::<Seq<char>>::empty());
    }
    while i < t.len()
        invariant
            i <= t@.len(),
            split_lines(t@) == r.deep_view() + split_lines(t@.skip(i as int)),
        decreases t@.len() - i,
    {
        let ghost pre = r.deep_view();
        let ghost suffix = t@.skip(i as int);
        proof {
            lemma_find_char_skip(t@, '\n', i as int);
            lemma_find_char_from(t@, '\n', i as int);
        }
        let p = find_char(t, '\n', i);
        if p >= t.len() {
            // Final line without a line ending.
            r.push(slice_to_string(t, i, t.len()));
            proof {
                assert(suffix =~= t@.subrange(i as int, t@.len() as int));
                assert(r.deep_view() =~= pre.push(r@.last().deep_view()));
                assert(pre + seq![suffix] =~= r.deep_view());
                assert(split_lines(t@.skip(t@.len() as int)) =~= Seq::<Seq<char>>::empty());
                assert(r.deep_view() + Seq::<Seq<char>>::empty() =~= r.deep_view());
            }
            i = t.len();
        } else {
            let line = if p > i && t[p - 1] == '\r' {
                slice_to_string(t, i, p - 1)
            } else {
                slice_to_string(t, i, p)
            };
            proof {
                assert(suffix.take(p - i) =~= t@.subrange(i as int, p as int));
                assert(strip_cr(suffix.take(p - i)) =~= line@);
                assert(suffix.skip(p - i + 1) =~= t@.skip(p + 1));
            }
            r.push(line);
            proof {
                assert(r.deep_view() =~= pre.push(r@.last().deep_view()));
                assert(pre + (seq![strip_cr(suffix.take(p - i))] + split_lines(t@.skip(p + 1)))
                    =~= r.deep_view() + split_lines(t@.skip(p + 1)));
            }
            i = p + 1;
        }
    }
    proof {
        assert(split_lines(t@.skip(t@.len() as int)) =~= Seq::<Seq<char>>::empty());
        assert(r.deep_view() + Seq::<Seq<char>>::empty() =~= r.deep_view());
    }
    r
}

/// The diff piece for line index `i`: removed and added lines where the
/// sides differ, a context line where they agree.
pub open spec fn diff_piece(o: Seq<Seq<char>>, m: Seq<Seq<char>>, i: int) -> Seq<char> {
    if i < o.len() && i < m.len() {
        if o[i] != m[i] {
            "- "@ + o[i] + "\n"@ + "+ "@ + m[i] + "\n"@
        } else {
            "  "@ + o[i] + "\n"@
        }
    } else if i < o.len() {
        "- "@ + o[i] + "\n"@
    } else {
        "+ "@ + m[i] + "\n"@
    }
}

/// The diff of the lines of the two sides from index `i` on.
pub open spec fn diff_lines_from(o: Seq<Seq<char>>, m: Seq<Seq<char>>, i: int) -> Seq<char>
    decreases (if o.len() > m.len() { o.len() } else { m.len() }) - i,
{
    if i < 0 || (i >= o.len() && i >= m.len()) {
        Seq::empty()
    } else {
        diff_piece(o, m, i) + diff_lines_from(o, m, i + 1)
    }
}

/// The line-oriented diff of two texts: for each line index up to the
/// longer side, a removed and an added line where the sides differ, or a
/// context line where they agree.
pub open spec fn spec_diff(orig: Seq<char>, modi: Seq<char>) -> Seq<char> {
    diff_lines_from(split_lines(orig), split_lines(modi), 0)
}

/// Generate the line-oriented diff of two texts.
pub fn generate_diff(original: &str, modified: &str) -> (d: String)
    ensures
        d@ == spec_diff(original@, modified@),
{
    let ov = chars_vec(original);
    let mv = chars_vec(modified);
    let original_lines = split_lines_exec(&ov);
    let modified_lines = split_lines_exec(&mv);
    let ghost o = original_lines.deep_view();
    let ghost m = modified_lines.deep_view();
    let n = if original_lines.len() > modified_lines.len() {
        original_lines.len()
    } else {
        modified_lines.len()
    };
    let mut d = String::new();
    let mut i: usize = 0;
    proof {
        assert(d@ =~= Seq::<char>::empty());
        assert(d@ + diff_lines_from(o, m, 0) =~= diff_lines_from(o, m, 0));
    }
    while i < n
        invariant
            i <= n,
            n == if o.len() > m.len() {
                o.len()
            } else {
                m.len()
            },
            o == original_lines.deep_view(),
            m == modified_lines.deep_view(),
            o.len() == original_lines@.len(),
            m.len() == modified_lines@.len(),
            spec_diff(original@, modified@) == d@ + diff_lines_from(o, m, i as int),
        decreases n - i,
    {
        let ghost pre = d@;
        if i < original_lines.len() && i < modified_lines.len() {
            if !original_lines[i].as_str().eq(modified_lines[i].as_str()) {
                d.append("- ");
                d.append(original_lines[i].as_str());
                d.append("\n");
                d.append("+ ");
                d.append(modified_lines[i].as_str());
                d.append("\n");
                proof {
                    assert(o[i as int] == original_lines@[i as int]@);
                    assert(m[i as int] == modified_lines@[i as int]@);
                    assert(d@ =~= pre + diff_piece(o, m, i as int));
                }
            } else {
                d.append("  ");
                d.append(original_lines[i].as_str());
                d.append("\n");
                proof {
                    assert(o[i as int] == original_lines@[i as int]@);
                    assert(d@ =~= pre + diff_piece(o, m, i as int));
                }
            }
        } else if i < original_lines.len() {
            d.append("- ");
            d.append(original_lines[i].as_str());
            d.append("\n");
            proof {
                assert(o[i as int] == original_lines@[i as int]@);
                assert(d@ =~= pre + diff_piece(o, m, i as int));
            }
        } else {
            d.append("+ ");
            d.append(modified_lines[i].as_str());
            d.append("\n");
            proof {
                assert(m[i as int] == modified_lines@[i as int]@);
                assert(d@ =~= pre + diff_piece(o, m, i as int));
            }
        }
        proof {
            assert(pre + (diff_piece(o, m, i as int) + diff_lines_from(o, m, i + 1)) =~= d@
                + diff_lines_from(o, m, i + 1));
        }
        i = i + 1;
    }
    proof {
        assert(diff_lines_from(o, m, n as int) =~= Seq::<char>::empty());
        assert(d@ + Seq::<char>::empty() =~= d@);
    }
    d
}

/// The report section of the change numbered `num`.
pub open spec fn report_entry(num: int, c: FileChangeModel) -> Seq<char> {
    "## "@ + dec_str(num as nat) + ". "@ + c.file_path + "\n\n"@ + "Description: "@
        + c.description + "\n\n"@ + (match c.original_content {
        Some(orig) => "### Changes\n\n```diff\n"@ + spec_diff(orig, c.new_content)
            + "```\n\n"@,
        None => Seq::empty(),
    }) + (if c.backup_created {
        match c.backup_path {
            Some(bp) => "Backup created: "@ + bp + "\n\n"@,
            None => Seq::empty(),
        }
    } else {
        Seq::empty()
    }) + "---\n\n"@
}

/// The report sections of the changes from index `i` on, numbered from
/// `i + 1`.
pub open spec fn report_entries(cs: Seq<FileChangeModel>, i: int) -> Seq<char>
    decreases cs.len() - i,
{
    if i < 0 || i >= cs.len() {
        Seq::empty()
    } else {
        report_entry(i + 1, cs[i]) + report_entries(cs, i + 1)
    }
}

/// The change report: a header, the number of changed files, and one
/// numbered section per change with its description, its diff and its
/// backup location.
pub open spec fn spec_report(cs: Seq<FileChangeModel>) -> Seq<char> {
    "# Code Modification Report\n\n"@ + "Total files modified: "@ + dec_str(cs.len()) + "\n\n"@
        + report_entries(cs, 0)
}

/// Build the report section of one change, numbered `num`.
fn build_report_entry(num: usize, change: &FileChange) -> (e: String)
    requires
        num < usize::MAX,
    ensures
        e@ == report_entry(num + 1, change@),
{
    let mut entry = String::new();
    entry.append("## ");
    let num_entry = usize_to_string(num + 1);
    entry.append(num_entry.as_str());
    entry.append(". ");
    entry.append(change.file_path.as_str());
    entry.append("\n\n");
    entry.append("Description: ");
    entry.append(change.description.as_str());
    entry.append("\n\n");
    proof {
        assert(entry@ =~= "## "@ + dec_str((num + 1) as nat) + ". "@ + change@.file_path
            + "\n\n"@ + "Description: "@ + change@.description + "\n\n"@);
    }
    let ghost head = entry@;
    match &change.original_content {
        Some(orig) => {
            entry.append("### Changes\n\n```diff\n");
            let diff = generate_diff(orig.as_str(), change.new_content.as_str());
            entry.append(diff.as_str());
            entry.append("```\n\n");
            proof {
                assert(entry@ =~= head + ("### Changes\n\n```diff\n"@ + spec_diff(
                    change@.original_content->0,
                    change@.new_content,
                ) + "```\n\n"@));
            }
        },
        None => {},
    }
    let ghost mid = entry@;
    if change.backup_created {
        match &change.backup_path {
            Some(bp) => {
                entry.append("Backup created: ");
                entry.append(bp.as_str());
                entry.append("\n\n");
                proof {
                    assert(entry@ =~= mid + ("Backup created: "@ + change@.backup_path->0
                        + "\n\n"@));
                }
            },
            None => {},
        }
    }
    entry.append("---\n\n");
    proof {
        assert(entry@ =~= report_entry(num + 1, change@));
    }
    entry
}

/// Create the textual report of a list of applied changes.
pub fn create_change_report(changes: &Vec<FileChange>) -> (r: String)
    ensures
        r@ == spec_report(changes.deep_view()),
{
    let ghost cs = changes.deep_view();
    let mut report = String::new();
    report.append("# Code Modification Report\n\n");
    report.append("Total files modified: ");
    let num = usize_to_string(changes.len());
    report.append(num.as_str());
    report.append("\n\n");
    proof {
        assert(report@ =~= "# Code Modification Report\n\n"@ + "Total files modified: "@
            + dec_str(cs.len()) + "\n\n"@);
    }
    let mut i: usize = 0;
    proof {
        assert(report@ + report_entries(cs, 0) =~= spec_report(cs));
    }
    while i < changes.len()
        invariant
            i <= cs.len(),
            cs.len() == changes@.len(),
            cs == changes.deep_view(),
            spec_report(cs) == report@ + report_entries(cs, i as int),
        decreases cs.len() - i,
    {
        let ghost pre = report@;
        let entry = build_report_entry(i, &changes[i]);
        report.append(entry.as_str());
        proof {
            assert(cs[i as int] == changes@[i as int]@);
            assert(pre + (report_entry(i + 1, cs[i as int]) + report_entries(cs, i + 1)) =~= report@
                + report_entries(cs, i + 1));
        }
        i = i + 1;
    }
    proof {
        assert(report_entries(cs, cs.len() as int) =~= Seq::<char>::empty());
        assert(report@ + Seq::<char>::empty() =~= report@);
    }
    report
}

/// The on-disk file differing from the recorded original is refused: the
/// application yields `ConcurrentModification` and, by the contract of
/// [`apply_modification`], leaves the store unchanged.
pub proof fn lemma_concurrent_modification_refused(
    m: Map<Seq<char>, Seq<char>>,
    c: CodeModificationModel,
    backup: bool,
)
    requires
        m.dom().contains(c.file_path),
        m[c.file_path] != c.original_content,
    ensures
        spec_apply_one(m, c, backup) == Err::<
            (Map<Seq<char>, Seq<char>>, FileChangeModel),
            ErrorModel,
        >(ErrorModel::ConcurrentModification(c.file_path)),
{
}

/// When a backup is requested and the application succeeds, the backup
/// file exists afterwards and holds the pre-write content of the target.
/// This needs the backup path to differ from the target itself (it equals
/// the target exactly when the target already carries the backup
/// extension).
pub proof fn lemma_backup_before_write(m: Map<Seq<char>, Seq<char>>, c: CodeModificationModel)
    requires
        spec_apply_one(m, c, true) is Ok,
        backup_path_of(c.file_path) != c.file_path,
    ensures
        ({
            let p = spec_apply_one(m, c, true)->Ok_0;
            &&& p.1.backup_path == Some(backup_path_of(c.file_path))
            &&& p.0.dom().contains(backup_path_of(c.file_path))
            &&& p.0[backup_path_of(c.file_path)] == m[c.file_path]
        }),
{
}

/// Round trip: after a successful application with a backup, restoring
/// the resulting change writes the original content back to the target
/// and removes the backup file.
pub proof fn lemma_restore_round_trip(m: Map<Seq<char>, Seq<char>>, c: CodeModificationModel)
    requires
        spec_apply_one(m, c, true) is Ok,
        backup_path_of(c.file_path) != c.file_path,
    ensures
        ({
            let p = spec_apply_one(m, c, true)->Ok_0;
            let restored = spec_restore_all(p.0, seq![p.1]);
            &&& restored.1 == 1
            &&& restored.0.dom().contains(c.file_path)
            &&& restored.0[c.file_path] == c.original_content
            &&& !restored.0.dom().contains(backup_path_of(c.file_path))
        }),
{
    reveal_with_fuel(spec_restore_all, 3);
    let p = spec_apply_one(m, c, true)->Ok_0;
    let bak = backup_path_of(c.file_path);
    assert(seq![p.1].skip(1) =~= Seq::<FileChangeModel>::empty());
    assert(p.0 == m.insert(bak, c.original_content).insert(c.file_path, c.modified_content));
    assert(p.1.backup_path == Some(bak));
    assert(p.0.dom().contains(bak));
    assert(p.0[bak] == c.original_content);
    let stepped = p.0.insert(c.file_path, c.original_content).remove(bak);
    assert(spec_restore_all(p.0, seq![p.1]).0 == stepped);
    assert(stepped.dom().contains(c.file_path));
    assert(stepped[c.file_path] == c.original_content);
    assert(!stepped.dom().contains(bak));
}

} // verus!
