use vstd::prelude::*;

use std::path::Path;

verus! {

/// The last component of a path, as `Path::file_name` gives it (then read
/// as UTF-8); `None` for a path that has no such component.
pub uninterp spec fn file_name_of(path: Seq<char>) -> Option<Seq<char>>;

/// `path` pushed onto `base`, as on Unix: an absolute `path` replaces
/// `base`; otherwise `path` follows `base`, with a `/` between them unless
/// `base` is empty or already ends in `/`.
pub open spec fn pushed_path(base: Seq<char>, path: Seq<char>) -> Seq<char> {
    if is_absolute(path) {
        path
    } else if base.len() == 0 || base.last() == '/' {
        base + path
    } else {
        base + seq!['/'] + path
    }
}

/// What `Path::strip_prefix` leaves of `path` once `base` is taken off its
/// front; `None` where `base` is not a prefix of `path`.
pub uninterp spec fn stripped_path(path: Seq<char>, base: Seq<char>) -> Option<Seq<char>>;

/// Pushing a relative path keeps the base in front and puts the path at
/// the end, with at most one `/` added between them, and a `/` there
/// exactly when the base is neither empty nor ends in one. Pushing an
/// absolute path gives that path.
pub proof fn law_push_joins(base: Seq<char>, path: Seq<char>)
    ensures
        is_absolute(path) ==> pushed_path(base, path) == path,
        !is_absolute(path) ==> {
            let r = pushed_path(base, path);
            &&& r.take(base.len() as int) == base
            &&& r.skip(r.len() - path.len()) == path
            &&& (base.len() > 0 && base.last() != '/') ==> r.len() == base.len() + 1 + path.len()
                && r[base.len() as int] == '/'
            &&& !(base.len() > 0 && base.last() != '/') ==> r.len() == base.len() + path.len()
        },
{
    if !is_absolute(path) {
        let r = pushed_path(base, path);
        assert(r.take(base.len() as int) =~= base);
        assert(r.skip(r.len() - path.len()) =~= path);
    }
}

/// A path whose last component is `..`.
pub open spec fn ends_in_parent(path: Seq<char>) -> bool {
    path == ".."@ || (path.len() >= 3 && path.subrange(path.len() - 3, path.len() as int)
        == "/.."@)
}

/// A path that starts at the root.
pub open spec fn is_absolute(path: Seq<char>) -> bool {
    path.len() > 0 && path[0] == '/'
}

/// Calls `Path::file_name` on `path` and reads the component as UTF-8.
/// Trusted: the result is `file_name_of(path)`, and, as the documentation of
/// `Path::file_name` says, there is none for a path that ends in `..`.
#[verifier::external_body]
pub(crate) fn file_name(path: &str) -> (name: Option<String>)
    ensures
        name matches Some(n) ==> file_name_of(path@) == Some(n@),
        name is None ==> file_name_of(path@) is None,
        ends_in_parent(path@) ==> name is None,
{
    Path::new(path).file_name().and_then(|n| n.to_str()).map(|n| n.to_string())
}

/// Pushes `path` onto `base` (see `pushed_path`).
pub fn push_path(base: &str, path: &str) -> (joined: String)
    ensures
        joined@ == pushed_path(base@, path@),
{
    let n = path.unicode_len();
    if n > 0 && path.get_char(0) == '/' {
        return String::from_str(path);
    }
    let mut joined = String::from_str(base);
    let m = base.unicode_len();
    if m > 0 && base.get_char(m - 1) != '/' {
        proof {
            reveal_strlit("/");
        }
        joined.append("/");
    }
    joined.append(path);
    joined
}

/// Calls `Path::strip_prefix` to take `base` off the front of `path`.
/// Trusted: the result is `stripped_path(path, base)`; nothing more is stated
/// of it.
#[verifier::external_body]
pub(crate) fn strip_prefix(path: &str, base: &str) -> (rest: Option<String>)
    ensures
        rest matches Some(r) ==> stripped_path(path@, base@) == Some(r@),
        rest is None ==> stripped_path(path@, base@) is None,
{
    Path::new(path).strip_prefix(base).ok().map(|r| r.to_string_lossy().into_owned())
}

/// One file-system operation of a recursive copy.
#[derive(Debug, PartialEq, Eq)]
pub enum TreeOp {
    /// Make the directory.
    CreateDir(String),
    /// Copy what the path holds below the destination (see `cp_rec`).
    CopyTree(String),
    /// Copy what the directory holds into the destination (see `cp_rec_rename`).
    CopyTreeRenamed(String),
    /// Create the file, emptying it where it exists.
    CreateFile(String),
    /// From, to.
    CopyFile(String, String),
    /// Stop: the entry could not be read.
    EntryFailed,
}

/// A `TreeOp` with its paths as text.
pub enum TreeOpView {
    CreateDir(Seq<char>),
    CopyTree(Seq<char>),
    CopyTreeRenamed(Seq<char>),
    CreateFile(Seq<char>),
    CopyFile(Seq<char>, Seq<char>),
    EntryFailed,
}

impl View for TreeOp {
    type V = TreeOpView;

    open spec fn view(&self) -> TreeOpView {
        match self {
            TreeOp::CreateDir(p) => TreeOpView::CreateDir(p@),
            TreeOp::CopyTree(p) => TreeOpView::CopyTree(p@),
            TreeOp::CopyTreeRenamed(p) => TreeOpView::CopyTreeRenamed(p@),
            TreeOp::CreateFile(p) => TreeOpView::CreateFile(p@),
            TreeOp::CopyFile(a, b) => TreeOpView::CopyFile(a@, b@),
            TreeOp::EntryFailed => TreeOpView::EntryFailed,
        }
    }
}

/// The operations as text.
pub open spec fn ops_view(ops: Seq<TreeOp>) -> Seq<TreeOpView> {
    ops.map_values(|op: TreeOp| op@)
}

/// What happens to one entry of a directory after the target directory has
/// been made: it is copied the same way, or, where it could not be read,
/// the copy stops.
pub open spec fn entry_op(entry: Option<String>) -> TreeOpView {
    match entry {
        Some(e) => TreeOpView::CopyTree(e@),
        None => TreeOpView::EntryFailed,
    }
}

/// Recursive copy of `source` below `destination`; the target is `source`
/// pushed onto `destination`. A file is created at the target and copied
/// there. For a directory, each of its entries in turn makes the target
/// directory, again for every entry (so an empty directory makes nothing,
/// and from the second entry on the making fails because the directory
/// exists), then is copied the same way.
pub open spec fn cp_rec_plan(
    source: Seq<char>,
    destination: Seq<char>,
    source_is_dir: bool,
    entries: Seq<Option<String>>,
) -> Seq<TreeOpView> {
    let target = pushed_path(destination, source);
    if source_is_dir {
        Seq::new(
            2 * entries.len(),
            |k: int|
                if k % 2 == 0 {
                    TreeOpView::CreateDir(target)
                } else {
                    entry_op(entries[k / 2])
                },
        )
    } else {
        seq![TreeOpView::CreateFile(target), TreeOpView::CopyFile(source, target)]
    }
}

/// A directory with no entries is copied with no operation; one more entry
/// adds, at the end, the making of the same target and the copy of that
/// entry. A file is created at its target and copied there from itself.
pub proof fn law_cp_rec_per_entry(source: Seq<char>, destination: Seq<char>, entries: Seq<Option<String>>, entry: Option<String>)
    ensures
        cp_rec_plan(source, destination, true, Seq::empty()).len() == 0,
        cp_rec_plan(source, destination, true, entries.push(entry)) == cp_rec_plan(
            source,
            destination,
            true,
            entries,
        ) + seq![TreeOpView::CreateDir(pushed_path(destination, source)), entry_op(entry)],
        cp_rec_plan(source, destination, false, entries) == seq![
            TreeOpView::CreateFile(pushed_path(destination, source)),
            TreeOpView::CopyFile(source, pushed_path(destination, source)),
        ],
{
    let a = cp_rec_plan(source, destination, true, entries.push(entry));
    let b = cp_rec_plan(source, destination, true, entries) + seq![
        TreeOpView::CreateDir(pushed_path(destination, source)),
        entry_op(entry),
    ];
    assert(a.len() == b.len());
    assert forall|k: int| 0 <= k < a.len() implies a[k] == b[k] by {
        if k < 2 * entries.len() {
            assert(k / 2 < entries.len());
            assert(entries.push(entry)[k / 2] == entries[k / 2]);
        } else if k == 2 * entries.len() {
            assert(k % 2 == 0);
        } else {
            assert(k % 2 == 1);
            assert(k / 2 == entries.len());
        }
    }
    assert(a =~= b);
}

/// Recursive copy: the operations, in order, for `source` (see
/// `cp_rec_plan`). `entries` are the entries of `source` where it is a
/// directory, `None` standing for one that could not be read.
pub fn cp_rec(source: &str, destination: &str, source_is_dir: bool, entries: &Vec<Option<String>>) -> (ops:
    Vec<TreeOp>)
    ensures
        ops_view(ops@) == cp_rec_plan(source@, destination@, source_is_dir, entries@),
{
    let target = push_path(destination, source);
    let mut ops: Vec<TreeOp> = Vec::new();
    if !source_is_dir {
        ops.push(TreeOp::CreateFile(target.clone()));
        ops.push(TreeOp::CopyFile(String::from_str(source), target));
        assert(ops_view(ops@) =~= cp_rec_plan(source@, destination@, source_is_dir, entries@));
        return ops;
    }
    let ghost plan = cp_rec_plan(source@, destination@, source_is_dir, entries@);
    let mut i: usize = 0;
    while i < entries.len()
        invariant
            i <= entries.len(),
            target@ == pushed_path(destination@, source@),
            source_is_dir,
            plan == cp_rec_plan(source@, destination@, source_is_dir, entries@),
            ops_view(ops@) =~= plan.take(2 * i),
        decreases entries.len() - i,
    {
        let ghost before = ops@;
        ops.push(TreeOp::CreateDir(target.clone()));
        match &entries[i] {
            Some(e) => ops.push(TreeOp::CopyTree(e.clone())),
            None => ops.push(TreeOp::EntryFailed),
        }
        proof {
            let k = 2 * i as int;
            assert(plan.len() == 2 * entries@.len());
            assert(ops_view(before).len() == before.len());
            assert(before.len() == k);
            assert(k % 2 == 0);
            assert((k + 1) % 2 == 1);
            assert((k + 1) / 2 == i);
            assert(ops@.len() == before.len() + 2);
            assert(ops_view(ops@)[k] == plan[k]);
            assert(ops_view(ops@)[k + 1] == plan[k + 1]);
            assert forall|j: int| 0 <= j < k implies ops_view(ops@)[j] == plan[j] by {
                assert(ops@[j] == before[j]);
                assert(ops_view(before)[j] == plan.take(k)[j]);
            }
            assert(ops_view(ops@) =~= plan.take(k + 2));
        }
        i += 1;
    }
    assert(plan.take(2 * entries.len()) =~= plan);
    ops
}

/// Recursive copy into a directory of another name, for one entry found
/// under `initial_source`: a directory makes `destination` pushed with the
/// entry's last component, then has what it holds copied the same way; a
/// file is created at `destination` pushed with the entry's path below
/// `initial_source`, and copied there. `None` where that component or that
/// path does not exist.
pub open spec fn cp_rec_rename_plan(
    initial_source: Seq<char>,
    destination: Seq<char>,
    entry: Seq<char>,
    entry_is_dir: bool,
) -> Option<Seq<TreeOpView>> {
    if entry_is_dir {
        match file_name_of(entry) {
            Some(name) => Some(
                seq![
                    TreeOpView::CreateDir(pushed_path(destination, name)),
                    TreeOpView::CopyTreeRenamed(entry),
                ],
            ),
            None => None,
        }
    } else {
        match stripped_path(entry, initial_source) {
            Some(rest) => Some(
                seq![
                    TreeOpView::CreateFile(pushed_path(destination, rest)),
                    TreeOpView::CopyFile(entry, pushed_path(destination, rest)),
                ],
            ),
            None => None,
        }
    }
}

/// For each entry of a renamed copy the target lies under the destination
/// (`pushed_path` onto it), a directory entry is then copied from the entry
/// itself, and a file entry is created and copied from the entry itself to
/// the very place it was created.
pub proof fn law_cp_rec_rename_targets(initial_source: Seq<char>, destination: Seq<char>, entry: Seq<char>, entry_is_dir: bool)
    ensures
        cp_rec_rename_plan(initial_source, destination, entry, entry_is_dir) matches Some(ops) ==> {
            &&& ops.len() == 2
            &&& entry_is_dir ==> ops[0] == TreeOpView::CreateDir(
                pushed_path(destination, file_name_of(entry)->0),
            ) && ops[1] == TreeOpView::CopyTreeRenamed(entry)
            &&& !entry_is_dir ==> ops[0] == TreeOpView::CreateFile(
                pushed_path(destination, stripped_path(entry, initial_source)->0),
            ) && ops[1] == TreeOpView::CopyFile(
                entry,
                pushed_path(destination, stripped_path(entry, initial_source)->0),
            )
        },
        cp_rec_rename_plan(initial_source, destination, entry, entry_is_dir) is None <==> if entry_is_dir {
            file_name_of(entry) is None
        } else {
            stripped_path(entry, initial_source) is None
        },
{
}

/// Recursive copy into a directory of another name: the operations for one
/// entry (see `cp_rec_rename_plan`).
pub fn cp_rec_rename(initial_source: &str, destination: &str, entry: &str, entry_is_dir: bool) -> (ops:
    Option<Vec<TreeOp>>)
    ensures
        match ops {
            Some(v) => cp_rec_rename_plan(initial_source@, destination@, entry@, entry_is_dir)
                == Some(ops_view(v@)),
            None => cp_rec_rename_plan(initial_source@, destination@, entry@, entry_is_dir) is None,
        },
{
    let mut v: Vec<TreeOp> = Vec::new();
    if entry_is_dir {
        match file_name(entry) {
            Some(name) => {
                v.push(TreeOp::CreateDir(push_path(destination, name.as_str())));
                v.push(TreeOp::CopyTreeRenamed(String::from_str(entry)));
            },
            None => {
                return None;
            },
        }
    } else {
        match strip_prefix(entry, initial_source) {
            Some(rest) => {
                let target = push_path(destination, rest.as_str());
                v.push(TreeOp::CreateFile(target.clone()));
                v.push(TreeOp::CopyFile(String::from_str(entry), target));
            },
            None => {
                return None;
            },
        }
    }
    assert(Some(ops_view(v@)) =~= cp_rec_rename_plan(
        initial_source@,
        destination@,
        entry@,
        entry_is_dir,
    ));
    Some(v)
}

} // verus!
