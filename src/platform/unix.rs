//! The byte-native platform family: a path is a sequence of bytes, directories
//! are separated by `/`, and the cache lives under the toolchain's home.
use vstd::prelude::*;
use crate::error::{FsOp, MainError};
use crate::platform::MigrationKind;

verus! {

/// The separator between the components of a path.
pub const SEP: u8 = 0x2f;

/// `name` appended to `base` as one more component: a separator goes between
/// them unless `base` is empty or already ends in one.
pub open spec fn join(base: Seq<u8>, name: Seq<u8>) -> Seq<u8> {
    if base.len() == 0 || base.last() == SEP {
        base + name
    } else {
        base.push(SEP) + name
    }
}

/// Appends the relative component `name` to `base`.
pub fn join_path(base: &[u8], name: &[u8]) -> (r: Vec<u8>)
    ensures
        r@ == join(base@, name@),
{
    let mut r: Vec<u8> = Vec::new();
    let mut i: usize = 0;
    while i < base.len()
        invariant
            i <= base@.len(),
            r@ == base@.subrange(0, i as int),
        decreases base@.len() - i,
    {
        r.push(base[i]);
        i = i + 1;
    }
    if base.len() > 0 && base[base.len() - 1] != SEP {
        r.push(SEP);
    }
    let ghost mid = r@;
    let mut j: usize = 0;
    while j < name.len()
        invariant
            j <= name@.len(),
            r@ == mid + name@.subrange(0, j as int),
        decreases name@.len() - j,
    {
        r.push(name[j]);
        j = j + 1;
    }
    proof {
        assert(base@.subrange(0, base@.len() as int) =~= base@);
        assert(name@.subrange(0, name@.len() as int) =~= name@);
    }
    r
}

/// `.cargo`: the directory under the home that held the cache before.
pub open spec fn legacy_name() -> Seq<u8> {
    seq![0x2eu8, 0x63, 0x61, 0x72, 0x67, 0x6f]
}

/// `script-cache`: the cache of compiled scripts.
pub open spec fn script_cache_name() -> Seq<u8> {
    seq![0x73u8, 0x63, 0x72, 0x69, 0x70, 0x74, 0x2d, 0x63, 0x61, 0x63, 0x68, 0x65]
}

/// `binary-cache`: the cache of built binaries.
pub open spec fn binary_cache_name() -> Seq<u8> {
    seq![0x62u8, 0x69, 0x6e, 0x61, 0x72, 0x79, 0x2d, 0x63, 0x61, 0x63, 0x68, 0x65]
}

fn legacy_name_bytes() -> (r: Vec<u8>)
    ensures
        r@ == legacy_name(),
{
    let r: Vec<u8> = vec![0x2eu8, 0x63, 0x61, 0x72, 0x67, 0x6f];
    assert(r@ =~= legacy_name());
    r
}

fn script_cache_bytes() -> (r: Vec<u8>)
    ensures
        r@ == script_cache_name(),
{
    let r: Vec<u8> = vec![0x73u8, 0x63, 0x72, 0x69, 0x70, 0x74, 0x2d, 0x63, 0x61, 0x63, 0x68, 0x65];
    assert(r@ =~= script_cache_name());
    r
}

fn binary_cache_bytes() -> (r: Vec<u8>)
    ensures
        r@ == binary_cache_name(),
{
    let r: Vec<u8> = vec![0x62u8, 0x69, 0x6e, 0x61, 0x72, 0x79, 0x2d, 0x63, 0x61, 0x63, 0x68, 0x65];
    assert(r@ =~= binary_cache_name());
    r
}

/// The environment variables that directory resolution reads: the
/// toolchain-home override and the user's home, each as raw bytes if defined.
#[derive(Clone, Debug, PartialEq, Eq)]
pub struct Environment {
    pub cargo_home: Option<Vec<u8>>,
    pub home: Option<Vec<u8>>,
}

/// The paths that the legacy layout under a toolchain home involves.
#[derive(Clone, Debug, PartialEq, Eq)]
pub struct LegacyLayout {
    /// `<home>/.cargo`
    pub root: Vec<u8>,
    /// `<home>/.cargo/script-cache`
    pub old_script_cache: Vec<u8>,
    /// `<home>/script-cache`
    pub new_script_cache: Vec<u8>,
    /// `<home>/.cargo/binary-cache`
    pub old_binary_cache: Vec<u8>,
    /// `<home>/binary-cache`
    pub new_binary_cache: Vec<u8>,
}

pub open spec fn legacy_root(home: Seq<u8>) -> Seq<u8> {
    join(home, legacy_name())
}

impl LegacyLayout {
    /// This layout is the one under `home`.
    pub open spec fn is_layout_of(&self, home: Seq<u8>) -> bool {
        &&& self.root@ == legacy_root(home)
        &&& self.old_script_cache@ == join(legacy_root(home), script_cache_name())
        &&& self.new_script_cache@ == join(home, script_cache_name())
        &&& self.old_binary_cache@ == join(legacy_root(home), binary_cache_name())
        &&& self.new_binary_cache@ == join(home, binary_cache_name())
    }
}

/// The paths of the legacy layout under the toolchain home `home`.
pub fn legacy_layout(home: &[u8]) -> (r: LegacyLayout)
    ensures
        r.is_layout_of(home@),
{
    let root = join_path(home, legacy_name_bytes().as_slice());
    let script = script_cache_bytes();
    let binary = binary_cache_bytes();
    LegacyLayout {
        old_script_cache: join_path(root.as_slice(), script.as_slice()),
        new_script_cache: join_path(home, script.as_slice()),
        old_binary_cache: join_path(root.as_slice(), binary.as_slice()),
        new_binary_cache: join_path(home, binary.as_slice()),
        root,
    }
}

/// What is on disk at the paths of a `LegacyLayout`, read before a migration.
#[derive(Clone, Debug, PartialEq, Eq)]
pub struct LegacyState {
    pub root_exists: bool,
    pub old_script_exists: bool,
    pub new_script_exists: bool,
    pub old_binary_exists: bool,
    pub new_binary_exists: bool,
    /// The names of the entries directly inside the legacy root.
    pub root_entries: Vec<Vec<u8>>,
}

impl LegacyState {
    /// The names of the entries of the legacy root.
    pub open spec fn entries(&self) -> Seq<Seq<u8>> {
        self.root_entries@.map_values(|e: Vec<u8>| e@)
    }

    /// A reading that a filesystem can give: the legacy subdirectories exist
    /// only inside an existing root, and each one that exists is an entry of it.
    pub open spec fn wf(&self) -> bool {
        &&& !self.root_exists ==> !self.old_script_exists && !self.old_binary_exists
            && self.root_entries@.len() == 0
        &&& self.old_script_exists ==> self.entries().contains(script_cache_name())
        &&& self.old_binary_exists ==> self.entries().contains(binary_cache_name())
    }

    /// The legacy root holds one of the two caches, so it is still in use.
    pub open spec fn legacy_in_use(&self) -> bool {
        self.root_exists && (self.old_script_exists || self.old_binary_exists)
    }
}

/// The cache directory for these variables: the legacy root while it still
/// holds a cache, else the override itself; else `.cargo` under the home;
/// `None` where neither variable is defined.
pub open spec fn cache_dir_of(
    cargo_home: Option<Seq<u8>>,
    home: Option<Seq<u8>>,
    legacy_in_use: bool,
) -> Option<Seq<u8>> {
    match cargo_home {
        Some(ch) => if legacy_in_use {
            Some(legacy_root(ch))
        } else {
            Some(ch)
        },
        None => match home {
            Some(h) => Some(join(h, legacy_name())),
            None => None,
        },
    }
}

/// The configuration directory; for now the same place as the cache.
pub open spec fn config_dir_of(
    cargo_home: Option<Seq<u8>>,
    home: Option<Seq<u8>>,
    legacy_in_use: bool,
) -> Option<Seq<u8>> {
    cache_dir_of(cargo_home, home, legacy_in_use)
}

pub open spec fn opt_view(o: Option<Vec<u8>>) -> Option<Seq<u8>> {
    match o {
        Some(v) => Some(v@),
        None => None,
    }
}

/// A directory for data specific to this user and machine, which may or may not
/// persist between sessions. `legacy` is what is on disk at the legacy layout
/// under `env.cargo_home`; it is read only where that variable is defined.
pub fn get_cache_dir(env: &Environment, legacy: &LegacyState) -> (r: Result<Vec<u8>, MainError>)
    ensures
        match cache_dir_of(opt_view(env.cargo_home), opt_view(env.home), legacy.legacy_in_use()) {
            Some(d) => r is Ok && r->Ok_0@ == d,
            None => r == Err::<Vec<u8>, MainError>(MainError::NoHomeDir),
        },
        env.cargo_home is Some && !legacy.root_exists ==> r is Ok && r->Ok_0@ == env.cargo_home->Some_0@,
        env.cargo_home is None && env.home is Some ==> r is Ok && r->Ok_0@ == join(env.home->Some_0@, legacy_name()),
        env.cargo_home is None && env.home is None ==> r == Err::<Vec<u8>, MainError>(MainError::NoHomeDir),
{
    match &env.cargo_home {
        Some(ch) => {
            if legacy.root_exists && (legacy.old_script_exists || legacy.old_binary_exists) {
                Ok(join_path(ch.as_slice(), legacy_name_bytes().as_slice()))
            } else {
                Ok(ch.clone())
            }
        },
        None => match &env.home {
            Some(h) => Ok(join_path(h.as_slice(), legacy_name_bytes().as_slice())),
            None => Err(MainError::NoHomeDir),
        },
    }
}

/// A directory for configuration data specific to this user.
pub fn get_config_dir(env: &Environment, legacy: &LegacyState) -> (r: Result<Vec<u8>, MainError>)
    ensures
        match config_dir_of(opt_view(env.cargo_home), opt_view(env.home), legacy.legacy_in_use()) {
            Some(d) => r is Ok && r->Ok_0@ == d,
            None => r == Err::<Vec<u8>, MainError>(MainError::NoHomeDir),
        },
{
    get_cache_dir(env, legacy)
}

/// One decision of a migration, as reported to the user.
#[derive(Clone, Debug, PartialEq, Eq)]
pub enum MigrationNote {
    /// A legacy cache was moved to its new location.
    Moved { from: Vec<u8>, to: Vec<u8> },
    /// A legacy cache was left in place because its new location exists.
    NotMoved { from: Vec<u8>, to: Vec<u8> },
    /// The legacy root was empty and was removed.
    RemovedEmpty { dir: Vec<u8> },
    /// The legacy root still holds other entries and was kept.
    NotRemoved { dir: Vec<u8> },
}

/// A step of a migration: the filesystem operation it performs, if any, and
/// what it reports once done.
#[derive(Clone, Debug, PartialEq, Eq)]
pub struct MigrationStep {
    pub op: Option<FsOp>,
    pub note: MigrationNote,
}

/// The mathematical form of a `MigrationNote`.
pub enum NoteView {
    Moved { from: Seq<u8>, to: Seq<u8> },
    NotMoved { from: Seq<u8>, to: Seq<u8> },
    RemovedEmpty { dir: Seq<u8> },
    NotRemoved { dir: Seq<u8> },
}

/// The mathematical form of an `FsOp`.
pub enum OpView {
    Rename { from: Seq<u8>, to: Seq<u8> },
    RemoveDir { path: Seq<u8> },
}

/// The mathematical form of a `MigrationStep`.
pub struct StepView {
    pub op: Option<OpView>,
    pub note: NoteView,
}

impl View for MigrationNote {
    type V = NoteView;

    open spec fn view(&self) -> NoteView {
        match self {
            MigrationNote::Moved { from, to } => NoteView::Moved { from: from@, to: to@ },
            MigrationNote::NotMoved { from, to } => NoteView::NotMoved { from: from@, to: to@ },
            MigrationNote::RemovedEmpty { dir } => NoteView::RemovedEmpty { dir: dir@ },
            MigrationNote::NotRemoved { dir } => NoteView::NotRemoved { dir: dir@ },
        }
    }
}

pub open spec fn op_view(op: FsOp) -> OpView {
    match op {
        FsOp::Rename { from, to } => OpView::Rename { from: from@, to: to@ },
        FsOp::RemoveDir { path } => OpView::RemoveDir { path: path@ },
    }
}

impl View for MigrationStep {
    type V = StepView;

    open spec fn view(&self) -> StepView {
        StepView {
            op: match self.op {
                Some(op) => Some(op_view(op)),
                None => None,
            },
            note: self.note@,
        }
    }
}

/// The step for one legacy cache at `old`, whose new location is `new`:
/// nothing where it does not exist, a move where the new location is free,
/// else a refusal to overwrite.
pub open spec fn cache_steps(old: Seq<u8>, new: Seq<u8>, old_exists: bool, new_exists: bool) -> Seq<StepView> {
    if !old_exists {
        seq![]
    } else if new_exists {
        seq![StepView { op: None, note: NoteView::NotMoved { from: old, to: new } }]
    } else {
        seq![StepView {
            op: Some(OpView::Rename { from: old, to: new }),
            note: NoteView::Moved { from: old, to: new },
        }]
    }
}

/// The migration moves the legacy cache: it exists and its new location does not.
pub open spec fn moves(old_exists: bool, new_exists: bool) -> bool {
    old_exists && !new_exists
}

/// The migration moves the entry named `e` out of the legacy root.
pub open spec fn moves_out(s: LegacyState, e: Seq<u8>) -> bool {
    ||| (e == script_cache_name() && moves(s.old_script_exists, s.new_script_exists))
    ||| (e == binary_cache_name() && moves(s.old_binary_exists, s.new_binary_exists))
}

/// Every entry of the legacy root is a cache that the migration moves out.
pub open spec fn empty_after_moves(s: LegacyState) -> bool {
    forall|i: int| 0 <= i < s.entries().len() ==> moves_out(s, #[trigger] s.entries()[i])
}

/// The last step: remove the legacy root if the moves leave it empty.
pub open spec fn cleanup_step(root: Seq<u8>, s: LegacyState) -> StepView {
    if empty_after_moves(s) {
        StepView { op: Some(OpView::RemoveDir { path: root }), note: NoteView::RemovedEmpty { dir: root } }
    } else {
        StepView { op: None, note: NoteView::NotRemoved { dir: root } }
    }
}

/// Every step of migrating the legacy layout under `cargo_home`, in order. No
/// step depends on whether the migration is a dry run.
pub open spec fn plan_of(cargo_home: Option<Seq<u8>>, s: LegacyState) -> Seq<StepView> {
    match cargo_home {
        None => seq![],
        Some(h) => if !s.root_exists {
            seq![]
        } else {
            cache_steps(
                join(legacy_root(h), script_cache_name()),
                join(h, script_cache_name()),
                s.old_script_exists,
                s.new_script_exists,
            ) + cache_steps(
                join(legacy_root(h), binary_cache_name()),
                join(h, binary_cache_name()),
                s.old_binary_exists,
                s.new_binary_exists,
            ) + seq![cleanup_step(legacy_root(h), s)]
        },
    }
}

fn bytes_eq(a: &[u8], b: &[u8]) -> (r: bool)
    ensures
        r == (a@ == b@),
{
    if a.len() != b.len() {
        return false;
    }
    let mut i: usize = 0;
    while i < a.len()
        invariant
            a@.len() == b@.len(),
            i <= a@.len(),
            forall|k: int| 0 <= k < i ==> a@[k] == b@[k],
        decreases a@.len() - i,
    {
        if a[i] != b[i] {
            return false;
        }
        i = i + 1;
    }
    assert(a@ =~= b@);
    true
}

fn push_cache_step(
    steps: &mut Vec<MigrationStep>,
    from: Vec<u8>,
    to: Vec<u8>,
    from_exists: bool,
    to_exists: bool,
)
    ensures
        final(steps)@.map_values(|st: MigrationStep| st@) == old(steps)@.map_values(|st: MigrationStep| st@)
            + cache_steps(from@, to@, from_exists, to_exists),
{
    let ghost before = steps@;
    if !from_exists {
    } else if to_exists {
        steps.push(MigrationStep { op: None, note: MigrationNote::NotMoved { from, to } });
    } else {
        steps.push(MigrationStep {
            op: Some(FsOp::Rename { from: from.clone(), to: to.clone() }),
            note: MigrationNote::Moved { from, to },
        });
    }
    assert(steps@.map_values(|st: MigrationStep| st@) =~= before.map_values(|st: MigrationStep| st@)
        + cache_steps(from@, to@, from_exists, to_exists));
}

/// Decides whether the moves empty the legacy root.
fn check_empty_after_moves(s: &LegacyState) -> (r: bool)
    ensures
        r == empty_after_moves(*s),
{
    let script = script_cache_bytes();
    let binary = binary_cache_bytes();
    let moves_script = s.old_script_exists && !s.new_script_exists;
    let moves_binary = s.old_binary_exists && !s.new_binary_exists;
    let mut i: usize = 0;
    while i < s.root_entries.len()
        invariant
            i <= s.root_entries@.len(),
            script@ == script_cache_name(),
            binary@ == binary_cache_name(),
            moves_script == moves(s.old_script_exists, s.new_script_exists),
            moves_binary == moves(s.old_binary_exists, s.new_binary_exists),
            forall|k: int| 0 <= k < i ==> moves_out(*s, #[trigger] s.entries()[k]),
        decreases s.root_entries@.len() - i,
    {
        let e = s.root_entries[i].as_slice();
        assert(s.entries()[i as int] == e@);
        let goes = (moves_script && bytes_eq(e, script.as_slice()))
            || (moves_binary && bytes_eq(e, binary.as_slice()));
        if !goes {
            assert(!empty_after_moves(*s)) by {
                assert(0 <= i < s.entries().len());
            }
            return false;
        }
        i = i + 1;
    }
    assert(s.entries().len() == s.root_entries@.len());
    true
}

/// Plans the migration of the legacy layout under the toolchain home
/// `cargo_home` (none where that variable is undefined), given what is on disk
/// there.
pub fn plan_migration(cargo_home: &Option<Vec<u8>>, state: &LegacyState) -> (r: Vec<MigrationStep>)
    ensures
        r@.map_values(|st: MigrationStep| st@) == plan_of(opt_view(*cargo_home), *state),
{
    let mut steps: Vec<MigrationStep> = Vec::new();
    match cargo_home {
        None => {
            assert(steps@.map_values(|st: MigrationStep| st@) =~= seq![]);
        },
        Some(home) => {
            if !state.root_exists {
                assert(steps@.map_values(|st: MigrationStep| st@) =~= seq![]);
                return steps;
            }
            let layout = legacy_layout(home.as_slice());
            assert(steps@.map_values(|st: MigrationStep| st@) =~= seq![]);
            push_cache_step(
                &mut steps,
                layout.old_script_cache,
                layout.new_script_cache,
                state.old_script_exists,
                state.new_script_exists,
            );
            push_cache_step(
                &mut steps,
                layout.old_binary_cache,
                layout.new_binary_cache,
                state.old_binary_exists,
                state.new_binary_exists,
            );
            let ghost before = steps@;
            let root = layout.root;
            if check_empty_after_moves(state) {
                steps.push(MigrationStep {
                    op: Some(FsOp::RemoveDir { path: root.clone() }),
                    note: MigrationNote::RemovedEmpty { dir: root },
                });
            } else {
                steps.push(MigrationStep { op: None, note: MigrationNote::NotRemoved { dir: root } });
            }
            assert(steps@.map_values(|st: MigrationStep| st@) =~= before.map_values(|st: MigrationStep| st@)
                + seq![cleanup_step(legacy_root(home@), *state)]);
        },
    }
    steps
}

fn copy_op(op: &FsOp) -> (r: FsOp)
    ensures
        op_view(r) == op_view(*op),
{
    match op {
        FsOp::Rename { from, to } => FsOp::Rename { from: from.clone(), to: to.clone() },
        FsOp::RemoveDir { path } => FsOp::RemoveDir { path: path.clone() },
    }
}

fn copy_note(note: &MigrationNote) -> (r: MigrationNote)
    ensures
        r@ == note@,
{
    match note {
        MigrationNote::Moved { from, to } => MigrationNote::Moved { from: from.clone(), to: to.clone() },
        MigrationNote::NotMoved { from, to } => MigrationNote::NotMoved { from: from.clone(), to: to.clone() },
        MigrationNote::RemovedEmpty { dir } => MigrationNote::RemovedEmpty { dir: dir.clone() },
        MigrationNote::NotRemoved { dir } => MigrationNote::NotRemoved { dir: dir.clone() },
    }
}

/// The steps of a plan, in mathematical form.
pub open spec fn plan_view(plan: Seq<MigrationStep>) -> Seq<StepView> {
    plan.map_values(|st: MigrationStep| st@)
}

/// The step whose operation failed: `failure` names a step by its index, and
/// counts only where the migration is for real and that step has an operation.
pub open spec fn failed_step(kind: MigrationKind, plan: Seq<StepView>, failure: Option<(usize, String)>) -> Option<int> {
    match failure {
        Some((i, _)) => if kind == MigrationKind::ForReal && i < plan.len() && plan[i as int].op is Some {
            Some(i as int)
        } else {
            None
        },
        None => None,
    }
}

/// What the first `done` steps of a plan report.
pub open spec fn report_of(plan: Seq<StepView>, done: int) -> Seq<NoteView> {
    plan.subrange(0, done).map_values(|st: StepView| st.note)
}

/// The number of steps that complete: all of them, or those before the failed one.
pub open spec fn completed(kind: MigrationKind, plan: Seq<StepView>, failure: Option<(usize, String)>) -> int {
    match failed_step(kind, plan, failure) {
        Some(i) => i,
        None => plan.len() as int,
    }
}

/// The report of a migration that ran `plan` as `kind` says: where it is for
/// real, the caller has performed the operations of the steps in order and
/// hands in the index of the first one that failed with what the system said.
/// The report holds the notes of the steps before the failed one, or of all of
/// them, and the result names the failed operation.
pub fn migrate_old_data(
    kind: MigrationKind,
    plan: &Vec<MigrationStep>,
    failure: Option<(usize, String)>,
) -> (r: (Vec<MigrationNote>, Result<(), MainError>))
    ensures
        r.0@.map_values(|n: MigrationNote| n@) == report_of(plan_view(plan@), completed(kind, plan_view(plan@), failure)),
        match failed_step(kind, plan_view(plan@), failure) {
            Some(i) => r.1 matches Err(MainError::Io { op, message })
                && Some(op_view(op)) == plan_view(plan@)[i].op
                && message@ == failure->Some_0.1@,
            None => r.1 is Ok,
        },
{
    let ghost pv = plan_view(plan@);
    let mut notes: Vec<MigrationNote> = Vec::new();
    let mut i: usize = 0;
    while i < plan.len()
        invariant
            i <= plan@.len(),
            pv == plan_view(plan@),
            notes@.map_values(|n: MigrationNote| n@) == report_of(pv, i as int),
            forall|k: int| 0 <= k < i ==> failed_step(kind, pv, failure) != Some(k),
        decreases plan@.len() - i,
    {
        let step = &plan[i];
        assert(pv[i as int] == step@);
        if kind.for_real() {
            if let Some(op) = &step.op {
                if let Some((at, message)) = &failure {
                    if *at == i {
                        let err = MainError::Io { op: copy_op(op), message: message.clone() };
                        return (notes, Err(err));
                    }
                }
            }
        }
        let ghost before = notes@;
        let note = copy_note(&step.note);
        notes.push(note);
        assert(report_of(pv, i + 1) =~= report_of(pv, i as int).push(step.note@));
        assert(notes@.map_values(|n: MigrationNote| n@) =~= before.map_values(|n: MigrationNote| n@).push(note@));
        i = i + 1;
    }
    (notes, Ok(()))
}

/// A path encoded for storage: the bytes of a path are stored as they are.
pub open spec fn encode(path: Seq<u8>) -> Seq<u8> {
    path
}

/// The path that stored bytes stand for: any bytes are a path.
pub open spec fn decode(bytes: Seq<u8>) -> Seq<u8> {
    bytes
}

/// The bytes under which `path` is stored.
pub fn write_path(path: &[u8]) -> (r: Vec<u8>)
    ensures
        r@ == encode(path@),
{
    let mut r: Vec<u8> = Vec::new();
    let mut i: usize = 0;
    while i < path.len()
        invariant
            i <= path@.len(),
            r@ == path@.subrange(0, i as int),
        decreases path@.len() - i,
    {
        r.push(path[i]);
        i = i + 1;
    }
    assert(path@.subrange(0, path@.len() as int) =~= path@);
    r
}

/// The path stored as `bytes`.
pub fn read_path(bytes: &[u8]) -> (r: Vec<u8>)
    ensures
        r@ == decode(bytes@),
{
    let mut r: Vec<u8> = Vec::new();
    let mut i: usize = 0;
    while i < bytes.len()
        invariant
            i <= bytes@.len(),
            r@ == bytes@.subrange(0, i as int),
        decreases bytes@.len() - i,
    {
        r.push(bytes[i]);
        i = i + 1;
    }
    assert(bytes@.subrange(0, bytes@.len() as int) =~= bytes@);
    r
}

/// Decoding what `write_path` wrote gives back the path, byte for byte,
/// whether or not the bytes are valid text.
pub proof fn lemma_round_trip(path: Seq<u8>)
    ensures
        decode(encode(path)) == path,
{
}

/// Milliseconds since the epoch of a modification time of `mtime` seconds;
/// none (the metadata could not be read) and times before the epoch give `0`.
pub open spec fn mtime_millis(mtime: Option<i64>) -> nat {
    match mtime {
        Some(s) => if s <= 0 {
            0
        } else if s * 1000 > u64::MAX {
            u64::MAX as nat
        } else {
            (s * 1000) as nat
        },
        None => 0,
    }
}

/// The last-modified time of a file in milliseconds since the epoch, from the
/// seconds that its metadata gave (none where it could not be read).
pub fn file_last_modified(mtime: Option<i64>) -> (r: u64)
    ensures
        r == mtime_millis(mtime),
        mtime is None ==> r == 0,
        mtime is Some && mtime->Some_0 < 0 ==> r == 0,
{
    match mtime {
        Some(s) => {
            if s <= 0 {
                0
            } else {
                match (s as u64).checked_mul(crate::platform::MS_PER_SEC) {
                    Some(ms) => ms,
                    None => u64::MAX,
                }
            }
        },
        None => 0,
    }
}

/// Relies on atty::is: whether the standard error stream is a terminal.
#[verifier::external_body]
fn stderr_is_tty() -> (r: bool) {
    atty::is(atty::Stream::Stderr)
}

/// Whether the build tool should be told to colour its output: where the
/// standard error stream is a terminal.
pub fn force_cargo_color() -> (r: bool) {
    stderr_is_tty()
}

/// `t` is what the disk shows after the plan for `s` ran for real and every
/// operation succeeded: the moved caches are at their new locations and the
/// legacy root is gone where it was left empty.
pub open spec fn state_after(s: LegacyState, t: LegacyState) -> bool {
    &&& t.root_exists == (s.root_exists && !empty_after_moves(s))
    &&& t.old_script_exists == (s.old_script_exists && !moves(s.old_script_exists, s.new_script_exists))
    &&& t.new_script_exists == (s.new_script_exists || s.old_script_exists)
    &&& t.old_binary_exists == (s.old_binary_exists && !moves(s.old_binary_exists, s.new_binary_exists))
    &&& t.new_binary_exists == (s.new_binary_exists || s.old_binary_exists)
    &&& t.root_exists ==> t.entries() == s.entries().filter(|e: Seq<u8>| !moves_out(s, e))
}

/// A dry run reports exactly what a run for real that meets no failure
/// reports, for every filesystem reading; a dry run never fails.
pub proof fn lemma_dry_run_matches_real(
    cargo_home: Option<Seq<u8>>,
    s: LegacyState,
    failure: Option<(usize, String)>,
)
    ensures
        failed_step(MigrationKind::DryRun, plan_of(cargo_home, s), failure) is None,
        report_of(plan_of(cargo_home, s), completed(MigrationKind::DryRun, plan_of(cargo_home, s), failure))
            == report_of(plan_of(cargo_home, s), completed(MigrationKind::ForReal, plan_of(cargo_home, s), None)),
{
}

/// Migrating a second time after a run for real that succeeded and removed
/// the legacy root does nothing: its report is empty and it cannot fail.
pub proof fn lemma_migration_idempotent(
    cargo_home: Option<Seq<u8>>,
    s: LegacyState,
    t: LegacyState,
    failure: Option<(usize, String)>,
)
    requires
        s.wf(),
        state_after(s, t),
        !s.root_exists || empty_after_moves(s),
    ensures
        plan_of(cargo_home, t) == Seq::<StepView>::empty(),
        report_of(plan_of(cargo_home, t), completed(MigrationKind::ForReal, plan_of(cargo_home, t), failure))
            == Seq::<NoteView>::empty(),
        failed_step(MigrationKind::ForReal, plan_of(cargo_home, t), failure) is None,
{
    assert(report_of(plan_of(cargo_home, t), 0) =~= Seq::<NoteView>::empty());
}

/// Two components joined to one base give one path only if they are equal.
pub proof fn lemma_join_injective(base: Seq<u8>, a: Seq<u8>, b: Seq<u8>)
    requires
        join(base, a) == join(base, b),
    ensures
        a == b,
{
    let pre = if base.len() == 0 || base.last() == SEP { base } else { base.push(SEP) };
    assert(join(base, a) == pre + a);
    assert(join(base, b) == pre + b);
    assert((pre + a).subrange(pre.len() as int, (pre + a).len() as int) =~= a);
    assert((pre + b).subrange(pre.len() as int, (pre + b).len() as int) =~= b);
}

proof fn lemma_cache_names_differ()
    ensures
        script_cache_name() != binary_cache_name(),
{
    assert(script_cache_name()[0] != binary_cache_name()[0]);
}

/// A legacy cache whose new location already exists is never moved, nor is
/// anything moved onto that location or the legacy root removed around it:
/// the migration reports the refusal and leaves both copies as they are.
pub proof fn lemma_conflict_left_alone(home: Seq<u8>, s: LegacyState)
    requires
        s.wf(),
        s.root_exists,
        s.old_script_exists,
        s.new_script_exists,
    ensures
        plan_of(Some(home), s)[0] == (StepView {
            op: None,
            note: NoteView::NotMoved {
                from: join(legacy_root(home), script_cache_name()),
                to: join(home, script_cache_name()),
            },
        }),
        forall|k: int| #![trigger plan_of(Some(home), s)[k]]
            0 <= k < plan_of(Some(home), s).len() ==> match plan_of(Some(home), s)[k].op {
                Some(OpView::Rename { from, to }) => from != join(legacy_root(home), script_cache_name())
                    && to != join(home, script_cache_name()),
                Some(OpView::RemoveDir { path }) => false,
                None => true,
            },
{
    let plan = plan_of(Some(home), s);
    let e = choose|i: int| 0 <= i < s.entries().len() && s.entries()[i] == script_cache_name();
    lemma_cache_names_differ();
    assert(!moves_out(s, s.entries()[e]));
    assert(!empty_after_moves(s));
    assert forall|k: int| #![trigger plan[k]] 0 <= k < plan.len() implies match plan[k].op {
        Some(OpView::Rename { from, to }) => from != join(legacy_root(home), script_cache_name())
            && to != join(home, script_cache_name()),
        Some(OpView::RemoveDir { path }) => false,
        None => true,
    } by {
        if let Some(OpView::Rename { from, to }) = plan[k].op {
            assert(from == join(legacy_root(home), binary_cache_name()));
            assert(to == join(home, binary_cache_name()));
            if from == join(legacy_root(home), script_cache_name()) {
                lemma_join_injective(legacy_root(home), binary_cache_name(), script_cache_name());
            }
            if to == join(home, script_cache_name()) {
                lemma_join_injective(home, binary_cache_name(), script_cache_name());
            }
        }
    }
}

/// The migration never moves anything onto a location that exists: each move
/// goes to the new location of a cache, which the reading found absent.
pub proof fn lemma_never_overwrites(home: Seq<u8>, s: LegacyState)
    ensures
        forall|k: int| #![trigger plan_of(Some(home), s)[k]]
            0 <= k < plan_of(Some(home), s).len() ==> match plan_of(Some(home), s)[k].op {
                Some(OpView::Rename { from, to }) => (to == join(home, script_cache_name()) && !s.new_script_exists)
                    || (to == join(home, binary_cache_name()) && !s.new_binary_exists),
                _ => true,
            },
{
}

} // verus!
