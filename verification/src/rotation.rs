//! File rotation logic for size-based log file rotation.
//!
//! When a log file reaches the configured size limit, it is rotated: the
//! oldest backup is deleted, every backup `path.i` is renamed to
//! `path.(i+1)`, and the file itself becomes `path.1`. This module decides
//! when to rotate and which file operations a rotation consists of; the
//! caller performs them on the file system.

use vstd::prelude::*;

use crate::text::{decimal, lemma_decimal_injective, push_char, push_decimal};

verus! {

/// Configuration for log file rotation.
#[derive(Debug, Clone, Copy)]
pub struct RotationConfig {
    /// Maximum file size in bytes before rotation.
    pub max_size: u64,
    /// Maximum number of rotated files to keep.
    pub max_files: usize,
}

impl RotationConfig {
    /// Creates a new rotation config with the given size limit and file count.
    ///
    /// * `max_size` - Maximum file size in bytes before triggering rotation.
    /// * `max_files` - Maximum number of backup files to retain.
    pub fn new(max_size: u64, max_files: usize) -> (c: Self)
        ensures
            c.max_size == max_size,
            c.max_files == max_files,
    {
        Self { max_size, max_files }
    }

    /// Creates a config that rotates at the given megabyte threshold
    /// (1 MB = 1,000,000 bytes).
    pub fn megabytes(mb: u64, max_files: usize) -> (c: Self)
        requires
            mb * 1_000_000 <= u64::MAX,
        ensures
            c.max_size == mb * 1_000_000,
            c.max_files == max_files,
    {
        Self::new(mb * 1_000_000, max_files)
    }
}

impl Default for RotationConfig {
    /// 10 MB, keep 5 files.
    fn default() -> (c: Self)
        ensures
            c.max_size == 10_000_000,
            c.max_files == 5,
    {
        Self::new(10_000_000, 5)
    }
}

// ─── Model ────────────────────────────────────────────────────────────────

/// A file operation of a rotation, on paths as character sequences.
pub enum PathOp {
    /// Delete the file, if it exists.
    Remove(Seq<char>),
    /// Rename the first file to the second, replacing it, if the first exists.
    Rename(Seq<char>, Seq<char>),
}

/// A file operation of a rotation.
#[derive(Debug, Clone)]
pub enum FileOp {
    /// Delete the file, if it exists.
    RemoveIfExists(String),
    /// Rename the first file to the second (replacing it), if the first exists.
    RenameIfExists(String, String),
}

impl View for FileOp {
    type V = PathOp;

    open spec fn view(&self) -> PathOp {
        match self {
            FileOp::RemoveIfExists(p) => PathOp::Remove(p@),
            FileOp::RenameIfExists(a, b) => PathOp::Rename(a@, b@),
        }
    }
}

/// The path of backup number `i` of `base`: `base.i`.
pub open spec fn rotated(base: Seq<char>, i: nat) -> Seq<char> {
    base + seq!['.'] + decimal(i)
}

/// Renames of backups `k`, `k-1`, …, `1` to the next number, in that order.
pub open spec fn shifts(base: Seq<char>, k: nat) -> Seq<PathOp>
    decreases k,
{
    if k == 0 {
        Seq::empty()
    } else {
        seq![PathOp::Rename(rotated(base, k), rotated(base, k + 1))] + shifts(base, (k - 1) as nat)
    }
}

/// The operations of one rotation that keeps `max_files` backups: delete
/// the oldest backup, shift the others up by one, and make the file the
/// first backup. When no backup is to be kept, the file is deleted.
pub open spec fn rotation_ops(base: Seq<char>, max_files: nat) -> Seq<PathOp> {
    if max_files == 0 {
        seq![PathOp::Remove(base)]
    } else {
        seq![PathOp::Remove(rotated(base, max_files))] + shifts(base, (max_files - 1) as nat) + seq![
            PathOp::Rename(base, rotated(base, 1)),
        ]
    }
}

/// A directory as a map from paths to contents.
pub type Files = Map<Seq<char>, Seq<u8>>;

/// The effect of one operation.
pub open spec fn apply_op(fs: Files, op: PathOp) -> Files {
    match op {
        PathOp::Remove(p) => fs.remove(p),
        PathOp::Rename(a, b) => if fs.contains_key(a) {
            fs.remove(a).insert(b, fs[a])
        } else {
            fs
        },
    }
}

/// The effect of a sequence of operations, performed in order.
pub open spec fn apply_ops(fs: Files, ops: Seq<PathOp>) -> Files
    decreases ops.len(),
{
    if ops.len() == 0 {
        fs
    } else {
        apply_ops(apply_op(fs, ops[0]), ops.drop_first())
    }
}

/// `after` has at `p` what `before` had at `q` (nothing, or the same contents).
pub open spec fn moved(before: Files, q: Seq<char>, after: Files, p: Seq<char>) -> bool {
    &&& after.contains_key(p) == before.contains_key(q)
    &&& before.contains_key(q) ==> after[p] == before[q]
}

// ─── Lemmas ───────────────────────────────────────────────────────────────

/// Backup paths differ from the file's path and from each other.
pub proof fn lemma_rotated_distinct(base: Seq<char>, i: nat, j: nat)
    ensures
        rotated(base, i) != base,
        i != j ==> rotated(base, i) != rotated(base, j),
{
    assert(rotated(base, i).len() > base.len());
    if i != j && rotated(base, i) == rotated(base, j) {
        assert(rotated(base, i).skip(base.len() + 1int) =~= decimal(i));
        assert(rotated(base, j).skip(base.len() + 1int) =~= decimal(j));
        lemma_decimal_injective(i, j);
    }
}

/// Performing `a` then `b` is performing `a + b`.
proof fn lemma_apply_ops_append(fs: Files, a: Seq<PathOp>, b: Seq<PathOp>)
    ensures
        apply_ops(fs, a + b) == apply_ops(apply_ops(fs, a), b),
    decreases a.len(),
{
    if a.len() > 0 {
        assert((a + b).drop_first() =~= a.drop_first() + b);
        assert((a + b)[0] == a[0]);
        lemma_apply_ops_append(apply_op(fs, a[0]), a.drop_first(), b);
    } else {
        assert(a + b =~= b);
    }
}

/// Shifting backups `k … 1` up by one, when backup `k + 1` is absent,
/// moves each backup `j` to `j + 1`, leaves no backup 1 behind, and keeps
/// every other path.
proof fn lemma_shifts(fs: Files, base: Seq<char>, k: nat)
    requires
        !fs.contains_key(rotated(base, k + 1)),
    ensures
        ({
            let t = apply_ops(fs, shifts(base, k));
            &&& forall|j: nat|
                1 <= j <= k ==> #[trigger] moved(fs, rotated(base, j), t, rotated(base, j + 1))
            &&& k >= 1 ==> !t.contains_key(rotated(base, 1))
            &&& forall|p: Seq<char>|
                (forall|j: nat| 1 <= j <= k + 1 ==> p != #[trigger] rotated(base, j)) ==> #[trigger] moved(
                    fs,
                    p,
                    t,
                    p,
                )
        }),
    decreases k,
{
    let t = apply_ops(fs, shifts(base, k));
    if k == 0 {
        assert(shifts(base, 0) =~= Seq::<PathOp>::empty());
    } else {
        let rk = rotated(base, k);
        let rk1 = rotated(base, k + 1);
        let op = PathOp::Rename(rk, rk1);
        let fs1 = apply_op(fs, op);
        assert(shifts(base, k)[0] == op);
        assert(shifts(base, k).drop_first() =~= shifts(base, (k - 1) as nat));
        assert(t == apply_ops(fs1, shifts(base, (k - 1) as nat)));
        lemma_rotated_distinct(base, k, k + 1);
        assert(!fs1.contains_key(rk));
        lemma_shifts(fs1, base, (k - 1) as nat);
        assert forall|j: nat| 1 <= j <= k implies #[trigger] moved(
            fs,
            rotated(base, j),
            t,
            rotated(base, j + 1),
        ) by {
            if j < k {
                lemma_rotated_distinct(base, j, k);
                lemma_rotated_distinct(base, j, k + 1);
                assert(moved(fs1, rotated(base, j), t, rotated(base, j + 1)));
            } else {
                assert forall|i: nat| 1 <= i <= k implies rk1 != #[trigger] rotated(base, i) by {
                    lemma_rotated_distinct(base, k + 1, i);
                }
                assert(moved(fs1, rk1, t, rk1));
            }
        }
        if k >= 2 {
            assert(!t.contains_key(rotated(base, 1)));
        } else {
            assert(moved(fs1, rotated(base, 1), t, rotated(base, 1)));
        }
        assert forall|p: Seq<char>|
            (forall|j: nat| 1 <= j <= k + 1 ==> p != #[trigger] rotated(base, j)) implies #[trigger] moved(
            fs,
            p,
            t,
            p,
        ) by {
            assert(p != rk && p != rk1);
            assert(moved(fs, p, fs1, p));
            assert(moved(fs1, p, t, p));
        }
    }
}

// ─── Laws ─────────────────────────────────────────────────────────────────

/// A rotation that keeps `n >= 1` backups, performed on any directory,
/// makes the file backup 1, moves each backup `i` below `n` to `i + 1`,
/// drops the old backup `n`, leaves no file at the log file's own path, and
/// keeps every other path as it was.
pub proof fn law_rotation(fs: Files, base: Seq<char>, n: nat)
    requires
        n >= 1,
    ensures
        ({
            let t = apply_ops(fs, rotation_ops(base, n));
            &&& moved(fs, base, t, rotated(base, 1))
            &&& forall|i: nat| 1 <= i < n ==> #[trigger] moved(fs, rotated(base, i), t, rotated(base, i + 1))
            &&& !t.contains_key(base)
            &&& forall|p: Seq<char>|
                p != base && (forall|i: nat| 1 <= i <= n ==> p != #[trigger] rotated(base, i))
                    ==> #[trigger] moved(fs, p, t, p)
        }),
{
    let ops = rotation_ops(base, n);
    let rn = rotated(base, n);
    let r1 = rotated(base, 1);
    let first = seq![PathOp::Remove(rn)];
    let mid = shifts(base, (n - 1) as nat);
    let last = seq![PathOp::Rename(base, r1)];
    assert(ops == first + mid + last);
    lemma_apply_ops_append(fs, first + mid, last);
    lemma_apply_ops_append(fs, first, mid);
    let fs1 = apply_ops(fs, first);
    assert(first.drop_first() =~= Seq::<PathOp>::empty());
    assert(first[0] == PathOp::Remove(rn));
    assert(apply_ops(fs.remove(rn), Seq::<PathOp>::empty()) == fs.remove(rn));
    assert(fs1 == fs.remove(rn));
    let fs2 = apply_ops(fs1, mid);
    assert(last.drop_first() =~= Seq::<PathOp>::empty());
    assert(last[0] == PathOp::Rename(base, r1));
    let t = apply_ops(fs2, last);
    assert(apply_ops(apply_op(fs2, last[0]), Seq::<PathOp>::empty()) == apply_op(fs2, last[0]));
    assert(t == apply_op(fs2, PathOp::Rename(base, r1)));
    assert(t == apply_ops(fs, ops));
    lemma_shifts(fs1, base, (n - 1) as nat);
    lemma_rotated_distinct(base, 1, 1);
    // The log file's own path is untouched by the removal and the shifts.
    assert forall|j: nat| 1 <= j <= n implies base != #[trigger] rotated(base, j) by {
        lemma_rotated_distinct(base, j, j);
    }
    assert(moved(fs1, base, fs2, base));
    if n >= 2 {
        assert(!fs2.contains_key(r1));
    } else {
        assert(fs1 == fs2) by {
            assert(mid =~= Seq::<PathOp>::empty());
        }
    }
    assert(moved(fs, base, t, r1));
    assert forall|i: nat| 1 <= i < n implies #[trigger] moved(fs, rotated(base, i), t, rotated(base, i + 1)) by {
        lemma_rotated_distinct(base, i, n);
        assert(moved(fs1, rotated(base, i), fs2, rotated(base, i + 1)));
        lemma_rotated_distinct(base, i + 1, 1);
    }
    assert forall|p: Seq<char>|
        p != base && (forall|i: nat| 1 <= i <= n ==> p != #[trigger] rotated(base, i)) implies #[trigger] moved(
        fs,
        p,
        t,
        p,
    ) by {
        assert(p != rn);
        assert(moved(fs1, p, fs2, p));
    }
}

/// A rotation that keeps no backup deletes the file and keeps every other
/// path, backups included, as it was: no backup of the file is made.
pub proof fn law_rotation_without_backups(fs: Files, base: Seq<char>)
    ensures
        ({
            let t = apply_ops(fs, rotation_ops(base, 0));
            &&& !t.contains_key(base)
            &&& forall|p: Seq<char>| p != base ==> #[trigger] moved(fs, p, t, p)
        }),
{
    let ops = rotation_ops(base, 0);
    assert(ops.drop_first() =~= Seq::<PathOp>::empty());
    assert(apply_ops(fs, ops) == apply_ops(fs.remove(base), Seq::<PathOp>::empty()));
}

// ─── Rotator ──────────────────────────────────────────────────────────────

/// Manages log file rotation.
pub struct Rotator {
    base_path: String,
    config: RotationConfig,
}

impl Rotator {
    /// The path of the log file.
    pub closed spec fn base(&self) -> Seq<char> {
        self.base_path@
    }

    /// The rotation settings.
    pub closed spec fn settings(&self) -> RotationConfig {
        self.config
    }

    /// Creates a new rotator for the given file path and configuration.
    pub fn new(path: &str, config: RotationConfig) -> (r: Self)
        ensures
            r.base() == path@,
            r.settings() == config,
    {
        Self { base_path: String::from_str(path), config }
    }

    /// The path of the log file.
    pub fn base_path(&self) -> (p: &str)
        ensures
            p@ == self.base(),
    {
        self.base_path.as_str()
    }

    /// The rotation settings.
    pub fn config(&self) -> (c: RotationConfig)
        ensures
            c == self.settings(),
    {
        self.config
    }

    /// Whether a log file of `current_size` bytes must be rotated.
    pub fn needs_rotation(&self, current_size: u64) -> (b: bool)
        ensures
            b == (current_size >= self.settings().max_size),
    {
        current_size >= self.config.max_size
    }

    /// Returns the path for a rotated file with the given index.
    ///
    /// e.g., `app.log` -> `app.log.1`, `app.log.2`, etc.
    pub fn rotated_path(&self, index: usize) -> (p: String)
        ensures
            p@ == rotated(self.base(), index as nat),
    {
        let mut p = String::new();
        p.append(self.base_path.as_str());
        push_char(&mut p, '.');
        push_decimal(&mut p, index as u64);
        assert(p@ =~= rotated(self.base(), index as nat));
        p
    }

    /// The file operations of one rotation, in the order they are to be
    /// performed: delete the oldest backup, shift the remaining backups up
    /// by one (from the highest number down), and rename the file itself
    /// to backup number 1. With no backups to keep, the file is deleted.
    pub fn rotation_plan(&self) -> (ops: Vec<FileOp>)
        requires
            self.settings().max_files < usize::MAX,
        ensures
            ops@.map_values(|op: FileOp| op@) == rotation_ops(
                self.base(),
                self.settings().max_files as nat,
            ),
    {
        let n = self.config.max_files;
        let mut ops: Vec<FileOp> = Vec::new();
        if n == 0 {
            ops.push(FileOp::RemoveIfExists(self.base_path.clone()));
            assert(ops@.map_values(|op: FileOp| op@) =~= seq![PathOp::Remove(self.base())]);
            return ops;
        }
        ops.push(FileOp::RemoveIfExists(self.rotated_path(n)));
        let ghost middle: nat = (n - 1) as nat;
        let mut i: usize = n - 1;
        while i >= 1
            invariant
                i <= middle,
                n == self.settings().max_files,
                n < usize::MAX,
                n >= 1,
                middle == (n - 1) as nat,
                ops@.map_values(|op: FileOp| op@) + shifts(self.base(), i as nat) == seq![
                    PathOp::Remove(rotated(self.base(), n as nat)),
                ] + shifts(self.base(), middle),
            decreases i,
        {
            let from = self.rotated_path(i);
            let to = self.rotated_path(i + 1);
            let ghost before = ops@.map_values(|op: FileOp| op@);
            ops.push(FileOp::RenameIfExists(from, to));
            assert(ops@.map_values(|op: FileOp| op@) =~= before.push(
                PathOp::Rename(rotated(self.base(), i as nat), rotated(self.base(), (i + 1) as nat)),
            ));
            assert(before + shifts(self.base(), i as nat) =~= before.push(
                PathOp::Rename(rotated(self.base(), i as nat), rotated(self.base(), (i + 1) as nat)),
            ) + shifts(self.base(), (i - 1) as nat));
            i = i - 1;
        }
        assert(shifts(self.base(), 0) =~= Seq::<PathOp>::empty());
        let ghost before = ops@.map_values(|op: FileOp| op@);
        ops.push(FileOp::RenameIfExists(self.base_path.clone(), self.rotated_path(1)));
        assert(ops@.map_values(|op: FileOp| op@) =~= before.push(
            PathOp::Rename(self.base(), rotated(self.base(), 1)),
        ));
        assert(before =~= seq![PathOp::Remove(rotated(self.base(), n as nat))] + shifts(
            self.base(),
            middle,
        ));
        ops
    }
}

} // verus!
