//! Rules of the library scan: which files are videos, which folders are
//! skipped, how a file on disk is compared with its stored record, and how
//! the outcomes of one scan are tallied.
//!
//! Walking the directory tree, reading file metadata and writing to the
//! database are done by the caller, which hands the results to these
//! functions one file at a time.
use vstd::prelude::*;
use crate::models::ScanResult;
use crate::text::{
    all_ascii, ascii_lower, chars_of, eq_ascii_ci, eq_ignore_ascii_case, lowercase_of, replace_char,
    replace_char_str, split_on, split_str, str_eq, string_from_chars, to_lowercase, trim, trim_str,
    views,
};

verus! {

// ---------------------------------------------------------------------------
// Video files
// ---------------------------------------------------------------------------

/// The lower-case extensions of the files that count as videos.
pub open spec fn video_exts() -> Seq<Seq<char>> {
    seq!["mp4"@, "mkv"@, "avi"@, "mov"@, "webm"@, "flv"@, "wmv"@, "m4v"@, "3gp"@]
}

/// The position of the last `.` in `s`, if any.
pub open spec fn last_dot(s: Seq<char>) -> Option<int>
    decreases s.len(),
{
    if s.len() == 0 {
        None
    } else if s.last() == '.' {
        Some(s.len() - 1)
    } else {
        last_dot(s.drop_last())
    }
}

/// The extension of a file name, as `Path::extension` reads it: the part
/// after the last dot, unless there is no dot, the only dot starts the
/// name, or the name is `..`.
pub open spec fn extension_of(name: Seq<char>) -> Option<Seq<char>> {
    if name == ".."@ {
        None
    } else {
        match last_dot(name) {
            None => None,
            Some(i) => if i == 0 {
                None
            } else {
                Some(name.subrange(i + 1, name.len() as int))
            },
        }
    }
}

/// A file name names a video when its lower-cased extension is one of
/// `video_exts`.
pub open spec fn is_video_name(name: Seq<char>) -> bool {
    match extension_of(name) {
        Some(ext) => video_exts().contains(lowercase_of(ext)),
        None => false,
    }
}

/// Whether a lower-case extension is a video extension.
pub fn is_video_ext(ext: &str) -> (res: bool)
    ensures
        res == video_exts().contains(ext@),
{
    let exts: [&str; 9] = ["mp4", "mkv", "avi", "mov", "webm", "flv", "wmv", "m4v", "3gp"];
    let mut i: usize = 0;
    proof {
        assert(exts@.len() == 9);
    }
    while i < 9
        invariant
            i <= 9,
            exts@.len() == 9,
            forall|k: int| 0 <= k < 9 ==> (#[trigger] exts@[k])@ == video_exts()[k],
            forall|k: int| 0 <= k < i ==> video_exts()[k] != ext@,
        decreases 9 - i,
    {
        if str_eq(exts[i], ext) {
            assert(video_exts()[i as int] == ext@);
            return true;
        }
        i = i + 1;
    }
    assert forall|k: int| 0 <= k < video_exts().len() implies video_exts()[k] != ext@ by {}
    false
}

/// Where `last_dot` points: a dot, with no dot after it.
proof fn lemma_last_dot(s: Seq<char>)
    ensures
        match last_dot(s) {
            Some(i) => 0 <= i < s.len() && s[i] == '.' && forall|k: int|
                i < k < s.len() ==> s[k] != '.',
            None => forall|k: int| 0 <= k < s.len() ==> s[k] != '.',
        },
    decreases s.len(),
{
    if s.len() > 0 && s.last() != '.' {
        let t = s.drop_last();
        lemma_last_dot(t);
        assert forall|k: int| 0 <= k < t.len() implies t[k] == s[k] by {}
    }
}

/// Index of the last `.` in the characters.
fn find_last_dot(cs: &Vec<char>) -> (res: Option<usize>)
    ensures
        match res {
            Some(i) => last_dot(cs@) == Some(i as int) && i < cs@.len(),
            None => last_dot(cs@) is None,
        },
{
    let mut i: usize = cs.len();
    assert(cs@.take(i as int) =~= cs@);
    while i > 0
        invariant
            i <= cs@.len(),
            last_dot(cs@) == last_dot(cs@.take(i as int)),
        decreases i,
    {
        let ghost t = cs@.take(i as int);
        assert(t.drop_last() =~= cs@.take(i - 1));
        if cs[i - 1] == '.' {
            return Some(i - 1);
        }
        i = i - 1;
    }
    assert(cs@.take(0) =~= Seq::<char>::empty());
    None
}

/// Whether a file, given by its file name, is a video file: its extension,
/// lower-cased, is one of `video_exts`.
pub fn is_video_file(file_name: &str) -> (res: bool)
    ensures
        res == is_video_name(file_name@),
{
    proof {
        reveal_strlit("..");
    }
    let cs = chars_of(file_name);
    if cs.len() == 2 && cs[0] == '.' && cs[1] == '.' {
        assert(file_name@ =~= ".."@);
        return false;
    }
    assert(file_name@ != ".."@) by {
        if file_name@ == ".."@ {
            assert(cs@.len() == 2 && cs@[0] == '.' && cs@[1] == '.');
        }
    }
    match find_last_dot(&cs) {
        None => false,
        Some(i) => {
            if i == 0 {
                false
            } else {
                let mut ext: Vec<char> = Vec::new();
                let mut j: usize = i + 1;
                while j < cs.len()
                    invariant
                        i < j <= cs@.len(),
                        ext@ == cs@.subrange(i + 1, j as int),
                    decreases cs@.len() - j,
                {
                    ext.push(cs[j]);
                    assert(ext@ =~= cs@.subrange(i + 1, j + 1));
                    j = j + 1;
                }
                let ext_s = string_from_chars(&ext);
                let lower = to_lowercase(ext_s.as_str());
                is_video_ext(lower.as_str())
            }
        },
    }
}

// ---------------------------------------------------------------------------
// Ignored folders
// ---------------------------------------------------------------------------

/// The folder names that are always skipped.
pub open spec fn default_ignored() -> Seq<Seq<char>> {
    seq![".git"@, "node_modules"@, "$RECYCLE.BIN"@, "System Volume Information"@, ".Trash"@]
}

/// `name` matches one of `list` when ASCII case is ignored.
pub open spec fn matches_any(list: Seq<Seq<char>>, name: Seq<char>) -> bool {
    exists|i: int| 0 <= i < list.len() && eq_ascii_ci(#[trigger] list[i], name)
}

/// Adds the trimmed, non-empty `parts` to `acc`, skipping those that match an
/// entry already present.
pub open spec fn merge_ignored(acc: Seq<Seq<char>>, parts: Seq<Seq<char>>) -> Seq<Seq<char>>
    decreases parts.len(),
{
    if parts.len() == 0 {
        acc
    } else {
        let m = merge_ignored(acc, parts.drop_last());
        let p = trim(parts.last());
        if p.len() > 0 && !matches_any(m, p) {
            m.push(p)
        } else {
            m
        }
    }
}

/// The ignored folder names: the defaults, followed by the entries of the
/// comma-separated `ignore_folders` setting.
pub open spec fn ignored_list(setting: Option<Seq<char>>) -> Seq<Seq<char>> {
    match setting {
        None => default_ignored(),
        Some(v) => merge_ignored(default_ignored(), split_on(v, ',')),
    }
}

/// Whether a folder name is ignored: it equals one of `ignored` when ASCII
/// case is ignored.
pub fn is_ignored(name: &str, ignored: &Vec<String>) -> (res: bool)
    ensures
        res == matches_any(views(ignored@), name@),
{
    let mut i: usize = 0;
    while i < ignored.len()
        invariant
            i <= ignored@.len(),
            forall|k: int| 0 <= k < i ==> !eq_ascii_ci(#[trigger] views(ignored@)[k], name@),
        decreases ignored@.len() - i,
    {
        if eq_ignore_ascii_case(ignored[i].as_str(), name) {
            assert(eq_ascii_ci(views(ignored@)[i as int], name@));
            return true;
        }
        i = i + 1;
    }
    false
}

/// The default ignored names as strings.
fn default_ignored_strings() -> (res: Vec<String>)
    ensures
        views(res@) == default_ignored(),
{
    let mut v: Vec<String> = Vec::new();
    v.push(String::from_str(".git"));
    v.push(String::from_str("node_modules"));
    v.push(String::from_str("$RECYCLE.BIN"));
    v.push(String::from_str("System Volume Information"));
    v.push(String::from_str(".Trash"));
    assert(views(v@) =~= default_ignored());
    v
}

/// The list of ignored folder names: the defaults, then each trimmed,
/// non-empty entry of the comma-separated setting value that does not match
/// an entry already in the list (ASCII case ignored).
pub fn ignored_dirs(setting: Option<&str>) -> (res: Vec<String>)
    ensures
        views(res@) == ignored_list(
            match setting {
                Some(s) => Some(s@),
                None => None,
            },
        ),
{
    let mut out = default_ignored_strings();
    match setting {
        None => out,
        Some(v) => {
            let parts = split_str(v, ',');
            let ghost ps = views(parts@);
            let mut i: usize = 0;
            assert(ps.take(0) =~= Seq::<Seq<char>>::empty());
            while i < parts.len()
                invariant
                    ps == views(parts@),
                    ps == split_on(v@, ','),
                    i <= parts@.len(),
                    views(out@) == merge_ignored(default_ignored(), ps.take(i as int)),
                decreases parts@.len() - i,
            {
                assert(ps.take(i + 1).drop_last() =~= ps.take(i as int));
                assert(ps.take(i + 1).last() == parts@[i as int]@);
                let p = trim_str(parts[i].as_str());
                if !p.as_str().is_empty() && !is_ignored(p.as_str(), &out) {
                    let ghost before = views(out@);
                    out.push(p);
                    assert(views(out@) =~= before.push(p@));
                }
                i = i + 1;
            }
            assert(ps.take(parts@.len() as int) =~= ps);
            out
        },
    }
}

/// A path in the form in which folder and workspace paths are stored and
/// compared: every `/` becomes `\\` and the result is lower-cased, so that
/// paths compare without regard to case.
pub open spec fn normalized(path: Seq<char>) -> Seq<char> {
    lowercase_of(replace_char(path, '/', '\\'))
}

/// The normal form of a path of ASCII characters: `/` becomes `\\` and
/// letters are lower-cased.
pub open spec fn ascii_normalized(path: Seq<char>) -> Seq<char> {
    Seq::new(path.len(), |i: int| ascii_lower(if path[i] == '/' { '\\' } else { path[i] }))
}

/// Lower-cases the path and turns every `/` into `\\`: the lower-case
/// backslash form used to compare paths without regard to case.
pub fn normalize_path(path: &str) -> (res: String)
    ensures
        res@ == normalized(path@),
        all_ascii(path@) ==> res@ == ascii_normalized(path@),
{
    let slashed = replace_char_str(path, '/', '\\');
    let res = to_lowercase(slashed.as_str());
    proof {
        if all_ascii(path@) {
            assert(all_ascii(slashed@));
            assert(res@ =~= ascii_normalized(path@));
        }
    }
    res
}

// ---------------------------------------------------------------------------
// Recording a folder
// ---------------------------------------------------------------------------

/// How a folder is recorded: the normalized path it is looked up and stored
/// under, its display name, and the parent folder to record first, if any.
#[derive(Debug, Clone, PartialEq, Eq)]
pub struct FolderStep {
    pub norm: String,
    pub name: String,
    pub parent: Option<String>,
}

/// The parent a folder is recorded under: the parent path of the folder,
/// unless there is none, it is empty, or it is the folder itself.
pub open spec fn parent_to_record(parent: Option<&str>, parent_is_path: bool) -> Option<Seq<char>> {
    match parent {
        Some(p) => if p@.len() > 0 && !parent_is_path {
            Some(p@)
        } else {
            None
        },
        None => None,
    }
}

/// Plans the recording of the folder at `path`, given the last component
/// of the path (if any), its parent path (if any) and whether that parent
/// is the path itself: the folder is stored under the normalized path and
/// named by its last component, or by the whole path when it has none.
pub fn plan_folder(path: &str, file_name: Option<&str>, parent: Option<&str>, parent_is_path: bool) -> (res:
    FolderStep)
    ensures
        res.norm@ == normalized(path@),
        all_ascii(path@) ==> res.norm@ == ascii_normalized(path@),
        res.name@ == match file_name {
            Some(f) => f@,
            None => path@,
        },
        (match res.parent {
            Some(p) => Some(p@),
            None => None,
        }) == parent_to_record(parent, parent_is_path),
{
    let norm = normalize_path(path);
    let name = match file_name {
        Some(f) => f.to_owned(),
        None => path.to_owned(),
    };
    let parent = match parent {
        Some(p) => {
            if !p.is_empty() && !parent_is_path {
                Some(p.to_owned())
            } else {
                None
            }
        },
        None => None,
    };
    FolderStep { norm, name, parent }
}

// ---------------------------------------------------------------------------
// Comparing a file with its stored record
// ---------------------------------------------------------------------------

/// What the library holds of a video that is already recorded.
#[derive(Debug, Clone, PartialEq, Eq)]
pub struct StoredVideo {
    pub id: i64,
    pub modified_at: String,
    pub file_size: i64,
}

/// What a scan does with one video file.
#[derive(Debug, PartialEq, Eq, Structural)]
pub enum FileAction {
    /// The stored record matches the file: nothing to do.
    Unchanged,
    /// The file changed since it was recorded: refresh the record `video_id`.
    Update { video_id: i64 },
    /// The file is new: record it.
    Insert,
}

/// The stored record as plain values: id, modification time, size.
pub open spec fn stored_view(existing: Option<&StoredVideo>) -> Option<(i64, Seq<char>, i64)> {
    match existing {
        Some(rec) => Some((rec.id, rec.modified_at@, rec.file_size)),
        None => None,
    }
}

/// What a scan does with a file whose modification time is `mtime` and
/// whose size is `size`, given its stored record.
pub open spec fn file_action_of(
    existing: Option<(i64, Seq<char>, i64)>,
    mtime: Seq<char>,
    size: i64,
) -> FileAction {
    match existing {
        None => FileAction::Insert,
        Some((id, stored_mtime, stored_size)) => if stored_mtime == mtime && stored_size == size {
            FileAction::Unchanged
        } else {
            FileAction::Update { video_id: id }
        },
    }
}

/// Compares a video file with its stored record: a file with no record is
/// inserted; a record whose modification time and size both match is left
/// alone; any other record is updated.
pub fn classify_file(existing: Option<&StoredVideo>, mtime: &str, file_size: i64) -> (res:
    FileAction)
    ensures
        res == file_action_of(stored_view(existing), mtime@, file_size),
{
    match existing {
        None => FileAction::Insert,
        Some(rec) => {
            if str_eq(rec.modified_at.as_str(), mtime) && rec.file_size == file_size {
                FileAction::Unchanged
            } else {
                FileAction::Update { video_id: rec.id }
            }
        },
    }
}

/// A scan is incremental: a file recorded with its modification time and
/// size is left alone by the next scan while neither changes.
pub proof fn law_rescan_leaves_recorded_file(id: i64, mtime: Seq<char>, size: i64)
    ensures
        file_action_of(Some((id, mtime, size)), mtime, size) == FileAction::Unchanged,
{
}

/// A recorded file whose modification time or size changed is refreshed in
/// place, under its own id.
pub proof fn law_changed_file_is_refreshed(
    id: i64,
    mtime: Seq<char>,
    size: i64,
    new_mtime: Seq<char>,
    new_size: i64,
)
    requires
        mtime != new_mtime || size != new_size,
    ensures
        file_action_of(Some((id, mtime, size)), new_mtime, new_size) == (FileAction::Update {
            video_id: id,
        }),
{
}

/// Normalizing an ASCII path twice changes nothing more.
pub proof fn law_normalize_idempotent(path: Seq<char>)
    requires
        all_ascii(path),
    ensures
        all_ascii(ascii_normalized(path)),
        ascii_normalized(ascii_normalized(path)) == ascii_normalized(path),
{
    let n = ascii_normalized(path);
    assert forall|i: int| 0 <= i < n.len() implies (#[trigger] n[i] as u32) < 128 by {
        assert((path[i] as u32) < 128);
    }
    assert(ascii_normalized(n) =~= n);
}

/// A normalized ASCII path holds no `/` and no upper-case letter.
pub proof fn law_normalized_path_has_no_slash(path: Seq<char>, i: int)
    requires
        0 <= i < path.len(),
    ensures
        ascii_normalized(path)[i] != '/',
        !('A' <= ascii_normalized(path)[i] && ascii_normalized(path)[i] <= 'Z'),
{
}

/// Two ASCII paths that differ only in letter case and in `/` against `\\`
/// have the same normal form.
pub proof fn law_normalize_ignores_case_and_slashes(a: Seq<char>, b: Seq<char>)
    requires
        a.len() == b.len(),
        forall|i: int|
            0 <= i < a.len() ==> ascii_lower(if #[trigger] a[i] == '/' { '\\' } else { a[i] })
                == ascii_lower(if b[i] == '/' { '\\' } else { b[i] }),
    ensures
        ascii_normalized(a) == ascii_normalized(b),
{
    assert(ascii_normalized(a) =~= ascii_normalized(b));
}

// ---------------------------------------------------------------------------
// Laws of the ignored list
// ---------------------------------------------------------------------------

/// `a` is a prefix of `b`.
pub open spec fn is_prefix<T>(a: Seq<T>, b: Seq<T>) -> bool {
    a.len() <= b.len() && forall|i: int| 0 <= i < a.len() ==> #[trigger] b[i] == a[i]
}

proof fn lemma_merge_extends(acc: Seq<Seq<char>>, parts: Seq<Seq<char>>, n: int)
    requires
        0 <= n <= parts.len(),
    ensures
        is_prefix(merge_ignored(acc, parts.take(n)), merge_ignored(acc, parts)),
        is_prefix(acc, merge_ignored(acc, parts)),
    decreases parts.len(),
{
    if parts.len() > 0 {
        let init = parts.drop_last();
        if n < parts.len() {
            assert(parts.take(n) =~= init.take(n));
            lemma_merge_extends(acc, init, n);
        } else {
            assert(parts.take(n) =~= parts);
            lemma_merge_extends(acc, init, 0);
        }
        lemma_merge_extends(acc, init, init.len() as int);
        assert(init.take(init.len() as int) =~= init);
    } else {
        assert(parts.take(n) =~= parts);
    }
}

proof fn lemma_matches_any_prefix(a: Seq<Seq<char>>, b: Seq<Seq<char>>, name: Seq<char>)
    requires
        is_prefix(a, b),
        matches_any(a, name),
    ensures
        matches_any(b, name),
{
    let i = choose|i: int| 0 <= i < a.len() && eq_ascii_ci(#[trigger] a[i], name);
    assert(b[i] == a[i]);
}

/// Every non-blank entry of the setting is ignored: the list holds a name
/// equal to the trimmed entry when ASCII case is ignored.
pub proof fn law_ignored_covers_setting(v: Seq<char>, k: int)
    requires
        0 <= k < split_on(v, ',').len(),
        trim(split_on(v, ',')[k]).len() > 0,
    ensures
        matches_any(ignored_list(Some(v)), trim(split_on(v, ',')[k])),
{
    let parts = split_on(v, ',');
    let acc = default_ignored();
    let p = trim(parts[k]);
    let m = merge_ignored(acc, parts.take(k));
    let m1 = merge_ignored(acc, parts.take(k + 1));
    assert(parts.take(k + 1).drop_last() =~= parts.take(k));
    assert(parts.take(k + 1).last() == parts[k]);
    if !matches_any(m, p) {
        assert(m1 == m.push(p));
        assert(eq_ascii_ci(m1[m.len() as int], p));
    } else {
        lemma_matches_any_prefix(m, m1, p);
    }
    lemma_merge_extends(acc, parts, k + 1);
    lemma_matches_any_prefix(m1, merge_ignored(acc, parts), p);
}

/// The list always starts with the default names.
pub proof fn law_ignored_starts_with_defaults(setting: Option<Seq<char>>)
    ensures
        is_prefix(default_ignored(), ignored_list(setting)),
{
    match setting {
        Some(v) => {
            lemma_merge_extends(default_ignored(), split_on(v, ','), 0);
        },
        None => {},
    }
}

/// No two names of a list match each other when ASCII case is ignored.
pub open spec fn no_ci_duplicates(list: Seq<Seq<char>>) -> bool {
    forall|i: int, j: int|
        0 <= i < j < list.len() ==> !eq_ascii_ci(#[trigger] list[i], #[trigger] list[j])
}

proof fn lemma_defaults_distinct()
    ensures
        no_ci_duplicates(default_ignored()),
{
    reveal_strlit(".git");
    reveal_strlit("node_modules");
    reveal_strlit("$RECYCLE.BIN");
    reveal_strlit("System Volume Information");
    reveal_strlit(".Trash");
    let d = default_ignored();
    assert forall|i: int, j: int| 0 <= i < j < d.len() implies !eq_ascii_ci(
        #[trigger] d[i],
        #[trigger] d[j],
    ) by {
        if i == 1 && j == 2 {
            assert(ascii_lower(d[1][0]) != ascii_lower(d[2][0]));
        }
    }
}

proof fn lemma_merge_distinct(acc: Seq<Seq<char>>, parts: Seq<Seq<char>>)
    requires
        no_ci_duplicates(acc),
    ensures
        no_ci_duplicates(merge_ignored(acc, parts)),
    decreases parts.len(),
{
    if parts.len() > 0 {
        let m = merge_ignored(acc, parts.drop_last());
        lemma_merge_distinct(acc, parts.drop_last());
        let p = trim(parts.last());
        if p.len() > 0 && !matches_any(m, p) {
            let r = m.push(p);
            assert forall|i: int, j: int| 0 <= i < j < r.len() implies !eq_ascii_ci(
                #[trigger] r[i],
                #[trigger] r[j],
            ) by {
                if j == m.len() {
                    assert(r[i] == m[i]);
                    assert(!eq_ascii_ci(m[i], p));
                }
            }
        }
    }
}

/// The ignored list never holds two names that match each other when ASCII
/// case is ignored.
pub proof fn law_ignored_has_no_duplicates(setting: Option<Seq<char>>)
    ensures
        no_ci_duplicates(ignored_list(setting)),
{
    lemma_defaults_distinct();
    match setting {
        Some(v) => {
            lemma_merge_distinct(default_ignored(), split_on(v, ','));
        },
        None => {},
    }
}

/// The `LIKE` pattern of the records under a root folder. Video paths are
/// stored as the walk of the root yields them, each starting with the root
/// as it was given, so the pattern is the root followed by `%`.
pub fn under_root_pattern(root: &str) -> (res: String)
    ensures
        res@ == root@ + "%"@,
{
    let mut s = root.to_owned();
    s.append("%");
    s
}

// ---------------------------------------------------------------------------
// Starting a scan
// ---------------------------------------------------------------------------

/// Text of the error line recorded for a file that could not be processed.
pub open spec fn error_line(path: Seq<char>, message: Seq<char>) -> Seq<char> {
    path + ": "@ + message
}

/// `path: message`, the form of every scan error.
pub fn format_error_line(path: &str, message: &str) -> (res: String)
    ensures
        res@ == error_line(path@, message@),
{
    let mut s = path.to_owned();
    s.append(": ");
    s.append(message);
    s
}

/// The checks made before a scan starts: another scan must not be running
/// and the root must be a directory.
pub fn scan_precheck(already_scanning: bool, root: &str, root_is_dir: bool) -> (res: Result<
    (),
    String,
>)
    ensures
        already_scanning ==> (res matches Err(m) && m@ == "扫描正在进行中"@),
        !already_scanning && !root_is_dir ==> (res matches Err(m) && m@
            == "路径不存在或不是文件夹: "@ + root@),
        !already_scanning && root_is_dir ==> res is Ok,
{
    if already_scanning {
        return Err(String::from_str("扫描正在进行中"));
    }
    if !root_is_dir {
        let mut m = String::from_str("路径不存在或不是文件夹: ");
        m.append(root);
        return Err(m);
    }
    Ok(())
}

/// The checks made on the path of a new workspace: it must not be blank and
/// must be a directory.
pub fn check_workspace_path(path: &str, is_dir: bool) -> (res: Result<(), String>)
    ensures
        trim(path@).len() == 0 ==> (res matches Err(m) && m@ == "扫描路径不能为空"@),
        trim(path@).len() > 0 && !is_dir ==> (res matches Err(m) && m@
            == "路径不存在或不是文件夹: "@ + path@),
        trim(path@).len() > 0 && is_dir ==> res is Ok,
{
    if trim_str(path).as_str().is_empty() {
        return Err(String::from_str("扫描路径不能为空"));
    }
    if !is_dir {
        let mut m = String::from_str("路径不存在或不是文件夹: ");
        m.append(path);
        return Err(m);
    }
    Ok(())
}

/// The name of a new workspace: the given name, trimmed, unless it is blank;
/// then the last component of its path, or the whole path when it has none.
pub fn workspace_name(name: &str, path: &str, path_file_name: Option<&str>) -> (res: String)
    ensures
        trim(name@).len() > 0 ==> res@ == trim(name@),
        trim(name@).len() == 0 ==> res@ == match path_file_name {
            Some(f) => f@,
            None => path@,
        },
{
    let t = trim_str(name);
    if t.as_str().is_empty() {
        match path_file_name {
            Some(f) => f.to_owned(),
            None => path.to_owned(),
        }
    } else {
        t
    }
}

/// Whether file hashes are computed: the `compute_hash` setting is `1`.
pub fn hash_enabled(setting: Option<&str>) -> (res: bool)
    ensures
        res == (setting matches Some(v) && v@ == "1"@),
{
    match setting {
        Some(v) => str_eq(v, "1"),
        None => false,
    }
}

// ---------------------------------------------------------------------------
// Tallying a scan
// ---------------------------------------------------------------------------

/// How many scan errors the live progress keeps.
pub open spec fn progress_error_cap() -> nat {
    200
}

/// Adds `file: msg` to the errors shown while a scan runs, unless the list
/// already holds 200 entries.
pub fn log_scan_error(errors: &mut Vec<String>, file: &str, msg: &str)
    ensures
        old(errors)@.len() < progress_error_cap() ==> views(final(errors)@) == views(old(errors)@).push(
            error_line(file@, msg@),
        ),
        old(errors)@.len() >= progress_error_cap() ==> final(errors)@ == old(errors)@,
{
    if errors.len() < 200 {
        let line = format_error_line(file, msg);
        let ghost before = views(errors@);
        errors.push(line);
        assert(views(errors@) =~= before.push(error_line(file@, msg@)));
    }
}

/// The outcome of processing one video file.
#[derive(Debug, Clone, PartialEq, Eq)]
pub enum FileOutcome {
    Added,
    Updated,
    Unchanged,
    Failed { message: String },
}

/// Counts of one scan so far.
#[derive(Debug, Clone, PartialEq, Eq)]
pub struct ScanTally {
    pub scanned: u64,
    pub added: u64,
    pub updated: u64,
    pub unchanged: u64,
    pub errors: Vec<String>,
}

impl ScanTally {
    /// Every processed file is counted exactly once: as added, updated,
    /// unchanged, or with an error.
    pub open spec fn wf(&self) -> bool {
        self.added + self.updated + self.unchanged + self.errors@.len() == self.scanned
    }

    /// The tally before the first file.
    pub fn new() -> (res: ScanTally)
        ensures
            res.wf(),
            res.scanned == 0 && res.added == 0 && res.updated == 0 && res.unchanged == 0,
            res.errors@.len() == 0,
    {
        ScanTally { scanned: 0, added: 0, updated: 0, unchanged: 0, errors: Vec::new() }
    }

    /// Counts the outcome for the file at `path`. Returns whether the live
    /// progress is due for an update, which happens every 50 files.
    pub fn record(&mut self, path: &str, outcome: FileOutcome) -> (publish: bool)
        requires
            old(self).wf(),
            old(self).scanned < u64::MAX,
        ensures
            final(self).wf(),
            final(self).scanned == old(self).scanned + 1,
            publish == (final(self).scanned % 50 == 0),
            match outcome {
                FileOutcome::Added => final(self).added == old(self).added + 1
                    && final(self).updated == old(self).updated
                    && final(self).unchanged == old(self).unchanged
                    && final(self).errors@ == old(self).errors@,
                FileOutcome::Updated => final(self).added == old(self).added
                    && final(self).updated == old(self).updated + 1
                    && final(self).unchanged == old(self).unchanged
                    && final(self).errors@ == old(self).errors@,
                FileOutcome::Unchanged => final(self).added == old(self).added
                    && final(self).updated == old(self).updated
                    && final(self).unchanged == old(self).unchanged + 1
                    && final(self).errors@ == old(self).errors@,
                FileOutcome::Failed { message } => final(self).added == old(self).added
                    && final(self).updated == old(self).updated
                    && final(self).unchanged == old(self).unchanged
                    && views(final(self).errors@) == views(old(self).errors@).push(
                    error_line(path@, message@),
                ),
            },
    {
        self.scanned = self.scanned + 1;
        match outcome {
            FileOutcome::Added => {
                self.added = self.added + 1;
            },
            FileOutcome::Updated => {
                self.updated = self.updated + 1;
            },
            FileOutcome::Unchanged => {
                self.unchanged = self.unchanged + 1;
            },
            FileOutcome::Failed { message } => {
                let line = format_error_line(path, message.as_str());
                let ghost before = views(self.errors@);
                self.errors.push(line);
                assert(views(self.errors@) =~= before.push(error_line(path@, message@)));
            },
        }
        self.scanned % 50 == 0
    }

    /// The result reported when the scan of `workspace_id` ends.
    pub fn into_result(self, workspace_id: i64) -> (res: ScanResult)
        ensures
            res.workspace_id == workspace_id,
            res.added == self.added,
            res.updated == self.updated,
            res.unchanged == self.unchanged,
            res.errors@ == self.errors@,
    {
        ScanResult {
            workspace_id,
            added: self.added,
            updated: self.updated,
            unchanged: self.unchanged,
            errors: self.errors,
        }
    }
}

} // verus!
