//! Verified decision logic of the surrounding file utilities: image-type
//! selection for the picture compressor, output-path construction, file
//! lookup, lock-file cleanup planning and small packing helpers.
//!
//! File-system paths are modelled as plain strings with `/` separators, and
//! a directory tree as the [`DirTree`] value the caller builds from what it
//! finds on disk; all reading and deleting stays with the caller.

use vstd::prelude::*;
use vstd::string::StrSliceExecFns;
use vstd::string::StringExecFns;

use crate::ast::view_strings;
use crate::text::contains_str;
use crate::text::contains_sub;
use crate::text::lower;
use crate::text::push_lower;
use crate::text::starts_with;
use crate::text::starts_with_str;
use crate::text::str_eq;

verus! {

// ---------------------------------------------------------------------------
// Image types
// ---------------------------------------------------------------------------
/// The image kinds the picture compressor accepts.
#[derive(Debug, PartialEq, Eq, Structural)]
pub enum ImageType {
    Png,
    Jpg,
    Jpeg,
    All,
}

/// The error for an image-type argument that names no supported kind.
#[derive(Debug)]
pub struct UnsupportedImageType {
    pub input: String,
}

/// The extension (already lower-cased) belongs to the image kind.
pub open spec fn spec_supported_ext(t: ImageType, ext_lower: Seq<char>) -> bool {
    match t {
        ImageType::Png => ext_lower == "png"@,
        ImageType::Jpg => ext_lower == "jpg"@,
        ImageType::Jpeg => ext_lower == "jpeg"@,
        ImageType::All => ext_lower == "png"@ || ext_lower == "jpg"@ || ext_lower == "jpeg"@,
    }
}

impl ImageType {
    /// Reads an image-type argument, case insensitively; any other text is
    /// rejected with the offending input.
    pub fn from_str(s: &str) -> (r: Result<ImageType, UnsupportedImageType>)
        ensures
            (r is Ok) == (lower(s@) == "png"@ || lower(s@) == "jpg"@ || lower(s@) == "jpeg"@
                || lower(s@) == "all"@),
            lower(s@) == "png"@ ==> r == Ok::<ImageType, UnsupportedImageType>(ImageType::Png),
            lower(s@) == "jpg"@ ==> r == Ok::<ImageType, UnsupportedImageType>(ImageType::Jpg),
            lower(s@) == "jpeg"@ ==> r == Ok::<ImageType, UnsupportedImageType>(ImageType::Jpeg),
            lower(s@) == "all"@ ==> r == Ok::<ImageType, UnsupportedImageType>(ImageType::All),
            r is Err ==> (r->Err_0).input@ == s@,
    {
        let mut low = String::new();
        push_lower(&mut low, s);
        proof {
            reveal_strlit("png");
            reveal_strlit("jpg");
            reveal_strlit("jpeg");
            reveal_strlit("all");
            assert("png"@[0] == 'p' && "jpg"@[0] == 'j' && "jpeg"@[0] == 'j' && "all"@[0] == 'a');
            assert("png"@.len() == 3 && "jpg"@.len() == 3 && "jpeg"@.len() == 4 && "all"@.len()
                == 3);
            assert("png"@ != "jpg"@ && "png"@ != "jpeg"@ && "png"@ != "all"@);
            assert("jpg"@ != "jpeg"@ && "jpg"@ != "all"@ && "jpeg"@ != "all"@);
            assert(low@ =~= lower(s@));
        }
        if str_eq(low.as_str(), "png") {
            Ok(ImageType::Png)
        } else if str_eq(low.as_str(), "jpg") {
            Ok(ImageType::Jpg)
        } else if str_eq(low.as_str(), "jpeg") {
            Ok(ImageType::Jpeg)
        } else if str_eq(low.as_str(), "all") {
            Ok(ImageType::All)
        } else {
            Err(UnsupportedImageType { input: String::from_str(s) })
        }
    }

    /// The file extension, compared case insensitively, belongs to this
    /// kind.
    pub fn is_supported_extension(&self, ext: &str) -> (r: bool)
        ensures
            r == spec_supported_ext(*self, lower(ext@)),
    {
        let mut low = String::new();
        push_lower(&mut low, ext);
        proof {
            assert(low@ =~= lower(ext@));
        }
        match self {
            ImageType::Png => str_eq(low.as_str(), "png"),
            ImageType::Jpg => str_eq(low.as_str(), "jpg"),
            ImageType::Jpeg => str_eq(low.as_str(), "jpeg"),
            ImageType::All => str_eq(low.as_str(), "png") || str_eq(low.as_str(), "jpg")
                || str_eq(low.as_str(), "jpeg"),
        }
    }
}

/// The picture-compressor arguments: `n` anywhere asks for a new file
/// beside the original; the first other word names the image kind, with
/// `all` as the default.
pub open spec fn spec_first_type_arg(types: Seq<Seq<char>>) -> Seq<char>
    decreases types.len(),
{
    if types.len() == 0 {
        "all"@
    } else if types[0] != "n"@ {
        types[0]
    } else {
        spec_first_type_arg(types.drop_first())
    }
}

/// Reads the picture-compressor arguments: whether a new file was asked
/// for, and the image-kind word to parse.
#[verifier::loop_isolation(false)]
pub fn select_optimize_args(types: &Vec<String>) -> (r: (bool, String))
    ensures
        r.0 == view_strings(types@).contains("n"@),
        r.1@ == spec_first_type_arg(view_strings(types@)),
{
    let mut create_new = false;
    let mut i: usize = 0;
    while i < types.len()
        invariant
            i <= types.len(),
            create_new == exists|j: int| 0 <= j < i && view_strings(types@)[j] == "n"@,
        decreases types@.len() - i,
    {
        if str_eq(types[i].as_str(), "n") {
            proof {
                assert(view_strings(types@)[i as int] == "n"@);
            }
            create_new = true;
        }
        i = i + 1;
    }
    let mut k: usize = 0;
    proof {
        assert(view_strings(types@).skip(0) =~= view_strings(types@));
    }
    while k < types.len()
        invariant
            k <= types.len(),
            spec_first_type_arg(view_strings(types@)) == spec_first_type_arg(
                view_strings(types@).skip(k as int),
            ),
        decreases types@.len() - k,
    {
        proof {
            assert(view_strings(types@).skip(k as int)[0] == types@[k as int]@);
            assert(view_strings(types@).skip(k as int).drop_first() =~= view_strings(
                types@,
            ).skip(k + 1 as int));
        }
        if !str_eq(types[k].as_str(), "n") {
            return (create_new, types[k].clone());
        }
        k = k + 1;
    }
    proof {
        assert(view_strings(types@).skip(types@.len() as int) =~= Seq::<Seq<char>>::empty());
    }
    (create_new, String::from_str("all"))
}

// ---------------------------------------------------------------------------
// Path construction
// ---------------------------------------------------------------------------
/// The position of the last occurrence of `c` in `s`.
pub open spec fn spec_rfind(s: Seq<char>, c: char) -> Option<int>
    decreases s.len(),
{
    if s.len() == 0 {
        None
    } else if s.last() == c {
        Some(s.len() - 1)
    } else {
        spec_rfind(s.drop_last(), c)
    }
}

/// Finds the last occurrence of `c`, executable form.
#[verifier::loop_isolation(false)]
pub fn rfind_char(s: &str, c: char) -> (r: Option<usize>)
    ensures
        (match r {
            Some(p) => p < s@.len() && spec_rfind(s@, c) == Some(p as int),
            None => spec_rfind(s@, c) is None,
        }),
{
    let n: usize = s.unicode_len();
    let mut i: usize = n;
    proof {
        assert(s@.subrange(0, n as int) =~= s@);
    }
    while i > 0
        invariant
            i <= n,
            n == s@.len(),
            spec_rfind(s@, c) == spec_rfind(s@.subrange(0, i as int), c),
        decreases i,
    {
        proof {
            assert(s@.subrange(0, i as int).last() == s@[i - 1]);
            assert(s@.subrange(0, i as int).drop_last() =~= s@.subrange(0, i - 1));
        }
        if s.get_char(i - 1) == c {
            return Some(i - 1);
        }
        i = i - 1;
    }
    proof {
        assert(s@.subrange(0, 0) =~= Seq::<char>::empty());
    }
    None
}

/// Where the output path's pieces come from: the directory part runs up to
/// and including the last separator; the file name splits at its last dot
/// when that dot stands after the name's first character; the suffix goes
/// between stem and dot. A name without an extension still gains the
/// trailing dot: the format is fixed, not conditional.
pub open spec fn spec_create_output_path(path: Seq<char>, suffix: Seq<char>) -> Seq<char> {
    let name_start: int = match spec_rfind(path, '/') {
        Some(p) => p + 1,
        None => 0,
    };
    let dir = path.subrange(0, name_start);
    let name = path.subrange(name_start, path.len() as int);
    let split: int = match spec_rfind(name, '.') {
        Some(p) => if p > 0 {
            p
        } else {
            name.len() as int
        },
        None => name.len() as int,
    };
    let stem = name.subrange(0, split);
    let ext = if split < name.len() {
        name.subrange(split + 1, name.len() as int)
    } else {
        Seq::empty()
    };
    dir + stem + suffix + "."@ + ext
}

/// Builds the output path for a converted file: the suffix is inserted
/// between the file name's stem and its extension.
pub fn create_output_path(input_path: &str, suffix: &str) -> (r: String)
    ensures
        r@ == spec_create_output_path(input_path@, suffix@),
{
    let n: usize = input_path.unicode_len();
    let name_start: usize = match rfind_char(input_path, '/') {
        Some(p) => p + 1,
        None => 0,
    };
    let name: &str = input_path.substring_char(name_start, n);
    let name_len: usize = n - name_start;
    proof {
        assert(name@.len() == name_len);
    }
    let split: usize = match rfind_char(name, '.') {
        Some(p) => if p > 0 {
            p
        } else {
            name_len
        },
        None => name_len,
    };
    let mut out = String::new();
    out.append(input_path.substring_char(0, name_start));
    out.append(name.substring_char(0, split));
    out.append(suffix);
    out.append(".");
    if split < name_len {
        out.append(name.substring_char(split + 1, name_len));
    }
    proof {
        assert(out@ =~= spec_create_output_path(input_path@, suffix@));
    }
    out
}

/// Where the playlist conversion puts its output: a directory named after
/// the input file's stem, beside the input, with the playlist inside it.
pub open spec fn spec_playlist_dir(path: Seq<char>) -> Seq<char> {
    let name_start: int = match spec_rfind(path, '/') {
        Some(p) => p + 1,
        None => 0,
    };
    let name = path.subrange(name_start, path.len() as int);
    let split: int = match spec_rfind(name, '.') {
        Some(p) => if p > 0 {
            p
        } else {
            name.len() as int
        },
        None => name.len() as int,
    };
    path.subrange(0, name_start) + name.subrange(0, split)
}

/// Builds the output directory and playlist path for one video file.
pub fn playlist_output_paths(input_path: &str) -> (r: (String, String))
    ensures
        r.0@ == spec_playlist_dir(input_path@),
        r.1@ == spec_playlist_dir(input_path@) + "/index.m3u8"@,
{
    let n: usize = input_path.unicode_len();
    let name_start: usize = match rfind_char(input_path, '/') {
        Some(p) => p + 1,
        None => 0,
    };
    let name: &str = input_path.substring_char(name_start, n);
    let name_len: usize = n - name_start;
    proof {
        assert(name@.len() == name_len);
    }
    let split: usize = match rfind_char(name, '.') {
        Some(p) => if p > 0 {
            p
        } else {
            name_len
        },
        None => name_len,
    };
    let mut dir = String::new();
    dir.append(input_path.substring_char(0, name_start));
    dir.append(name.substring_char(0, split));
    let mut playlist = dir.clone();
    playlist.append("/index.m3u8");
    proof {
        assert(dir@ =~= spec_playlist_dir(input_path@));
    }
    (dir, playlist)
}

// ---------------------------------------------------------------------------
// File lookup
// ---------------------------------------------------------------------------
/// Looks a file name up among a directory's entries; when it is there, the
/// joined path is handed back. The caller supplies the entries it read
/// from disk.
pub fn find_file(entries: &Vec<String>, dir: &str, filename: &str) -> (r: Option<String>)
    ensures
        (r is Some) == view_strings(entries@).contains(filename@),
        r is Some ==> (r->0)@ == dir@ + "/"@ + filename@,
{
    if crate::recognize::contains_name(entries, filename) {
        let mut p = String::from_str(dir);
        p.append("/");
        p.append(filename);
        Some(p)
    } else {
        None
    }
}

// ---------------------------------------------------------------------------
// Lock-file cleanup planning
// ---------------------------------------------------------------------------
/// A directory as the caller found it on disk: its name, the plain file
/// names in it, and its subdirectories.
pub struct DirTree {
    pub name: String,
    pub files: Vec<String>,
    pub subdirs: Vec<DirTree>,
}

/// Mathematical view of [`DirTree`].
pub struct DirTreeView {
    pub name: Seq<char>,
    pub files: Seq<Seq<char>>,
    pub subdirs: Seq<DirTreeView>,
}

/// View of a directory tree.
pub open spec fn view_dir_tree(t: DirTree) -> DirTreeView
    decreases t, 1int,
{
    DirTreeView {
        name: t.name@,
        files: view_strings(t.files@),
        subdirs: view_dir_trees(t.subdirs@),
    }
}

/// View of a list of directory trees.
pub open spec fn view_dir_trees(ts: Seq<DirTree>) -> Seq<DirTreeView>
    decreases ts, 0int,
{
    if ts.len() == 0 {
        Seq::empty()
    } else {
        seq![view_dir_tree(ts[0])] + view_dir_trees(ts.drop_first())
    }
}

/// The view of a tree list is the list of tree views.
pub proof fn lemma_view_dir_trees(ts: Seq<DirTree>)
    ensures
        view_dir_trees(ts).len() == ts.len(),
        forall|i: int|
            0 <= i < ts.len() ==> #[trigger] view_dir_trees(ts)[i] == view_dir_tree(ts[i]),
    decreases ts,
{
    if ts.len() > 0 {
        lemma_view_dir_trees(ts.drop_first());
        assert forall|i: int|
            0 <= i < ts.len() implies #[trigger] view_dir_trees(ts)[i] == view_dir_tree(
            ts[i],
        ) by {
            if i > 0 {
                assert(ts.drop_first()[i - 1] == ts[i]);
            }
        }
    }
}

/// The lock files of one directory, under the given path prefix, in the
/// fixed order the cleaner checks them.
pub open spec fn spec_locks_here(files: Seq<Seq<char>>, prefix: Seq<char>) -> Seq<Seq<char>> {
    (if files.contains("package-lock.json"@) {
        seq![prefix + "package-lock.json"@]
    } else {
        Seq::<Seq<char>>::empty()
    }) + (if files.contains("yarn.lock"@) {
        seq![prefix + "yarn.lock"@]
    } else {
        Seq::<Seq<char>>::empty()
    }) + (if files.contains("pnpm-lock.yaml"@) {
        seq![prefix + "pnpm-lock.yaml"@]
    } else {
        Seq::<Seq<char>>::empty()
    })
}

/// All lock-file paths under a directory, depth first, skipping every
/// `node_modules` subtree.
pub open spec fn spec_lock_paths(t: DirTreeView, prefix: Seq<char>) -> Seq<Seq<char>>
    decreases t, 1int,
{
    spec_locks_here(t.files, prefix) + spec_lock_paths_list(t.subdirs, prefix)
}

/// The lock-file paths contributed by a list of subdirectories, in order.
pub open spec fn spec_lock_paths_list(ts: Seq<DirTreeView>, prefix: Seq<char>) -> Seq<Seq<char>>
    decreases ts, 0int,
{
    if ts.len() == 0 {
        Seq::empty()
    } else {
        (if ts[0].name == "node_modules"@ {
            Seq::<Seq<char>>::empty()
        } else {
            spec_lock_paths(ts[0], prefix + ts[0].name + "/"@)
        }) + spec_lock_paths_list(ts.drop_first(), prefix)
    }
}

/// Appends the prefixed file name when it is among the entries.
fn push_lock_if_present(
    files: &Vec<String>,
    name: &str,
    prefix: &String,
    out: &mut Vec<String>,
)
    ensures
        view_strings(final(out)@) == view_strings(old(out)@) + (if view_strings(
            files@,
        ).contains(name@) {
            seq![prefix@ + name@]
        } else {
            Seq::<Seq<char>>::empty()
        }),
{
    let ghost o0 = out@;
    if crate::recognize::contains_name(files, name) {
        let mut p = prefix.clone();
        p.append(name);
        out.push(p);
        proof {
            assert(view_strings(out@) =~= view_strings(o0).push(prefix@ + name@));
            assert(view_strings(o0).push(prefix@ + name@) =~= view_strings(o0) + seq![
                prefix@ + name@,
            ]);
        }
    } else {
        proof {
            assert(view_strings(out@) =~= view_strings(o0) + Seq::<Seq<char>>::empty());
        }
    }
}

/// Collects the lock-file paths under one directory.
#[verifier::loop_isolation(false)]
fn collect_lock_paths(t: &DirTree, prefix: &String, out: &mut Vec<String>)
    ensures
        view_strings(final(out)@) == view_strings(old(out)@) + spec_lock_paths(
            view_dir_tree(*t),
            prefix@,
        ),
    decreases *t, 1int,
{
    let ghost o0 = out@;
    push_lock_if_present(&t.files, "package-lock.json", prefix, out);
    push_lock_if_present(&t.files, "yarn.lock", prefix, out);
    push_lock_if_present(&t.files, "pnpm-lock.yaml", prefix, out);
    proof {
        assert(view_strings(out@) =~= view_strings(o0) + spec_locks_here(
            view_strings(t.files@),
            prefix@,
        ));
    }
    let ghost mid = out@;
    let ghost subs = view_dir_trees(t.subdirs@);
    let mut i: usize = 0;
    proof {
        lemma_view_dir_trees(t.subdirs@);
        assert(subs.skip(0) =~= subs);
    }
    while i < t.subdirs.len()
        invariant
            i <= t.subdirs.len(),
            view_strings(out@) + spec_lock_paths_list(subs.skip(i as int), prefix@)
                == view_strings(mid) + spec_lock_paths_list(subs, prefix@),
        decreases t.subdirs@.len() - i,
    {
        let ghost o1 = out@;
        proof {
            assert(subs.skip(i as int)[0] == subs[i as int]);
            assert(subs[i as int] == view_dir_tree(t.subdirs@[i as int]));
            assert(subs.skip(i as int).drop_first() =~= subs.skip(i + 1 as int));
        }
        let sub = &t.subdirs[i];
        if !str_eq(sub.name.as_str(), "node_modules") {
            let mut cp = prefix.clone();
            cp.append(sub.name.as_str());
            cp.append("/");
            collect_lock_paths(sub, &cp, out);
        }
        proof {
            assert(view_strings(out@) + spec_lock_paths_list(subs.skip(i + 1 as int), prefix@)
                =~= view_strings(mid) + spec_lock_paths_list(subs, prefix@));
        }
        i = i + 1;
    }
    proof {
        assert(subs.skip(t.subdirs@.len() as int) =~= Seq::<DirTreeView>::empty());
        assert(view_strings(out@) =~= view_strings(o0) + spec_lock_paths(
            view_dir_tree(*t),
            prefix@,
        ));
    }
}

/// Plans the lock-file cleanup for a directory tree: the paths of every
/// `package-lock.json`, `yarn.lock` and `pnpm-lock.yaml` under it, in
/// traversal order, skipping `node_modules` subtrees. The number of files
/// to delete is the length of the plan; the deleting itself stays with
/// the caller.
pub fn clear_lock_files(dir: &DirTree) -> (r: Vec<String>)
    ensures
        view_strings(r@) == spec_lock_paths(view_dir_tree(*dir), dir.name@ + "/"@),
{
    let mut prefix = dir.name.clone();
    prefix.append("/");
    let mut out: Vec<String> = Vec::new();
    collect_lock_paths(dir, &prefix, &mut out);
    out
}

// ---------------------------------------------------------------------------
// Packing helpers
// ---------------------------------------------------------------------------
/// The path lies in a git bookkeeping directory, which the packer skips.
pub fn is_git_path(path: &str) -> (r: bool)
    ensures
        r == (contains_sub(path@, "/.git/"@) || starts_with(path@, ".git/"@)),
{
    contains_str(path, "/.git/") || starts_with_str(path, ".git/")
}

/// The name of the archive a folder is packed into.
pub fn zip_file_name(folder: &str) -> (r: String)
    ensures
        r@ == folder@ + ".zip"@,
{
    let mut out = String::from_str(folder);
    out.append(".zip");
    out
}

// ---------------------------------------------------------------------------
// Git sequence policy
// ---------------------------------------------------------------------------
/// One step of the staged git sequence.
#[derive(Debug, PartialEq, Eq, Structural, Clone, Copy)]
pub enum GitStep {
    Add,
    Commit,
    Push,
}

/// What to do after a step has run.
#[derive(Debug, PartialEq, Eq, Structural, Clone, Copy)]
pub enum GitAction {
    /// run the named step next
    Run(GitStep),
    /// report that the step had nothing to do, then run the named step
    WarnThenRun(GitStep),
    /// the sequence is complete
    Finished,
    /// stop, naming the step that failed
    Abort(GitStep),
}

/// The sequence policy: staging runs first and a failure there stops
/// everything; a failed commit is tolerated (there may be nothing to
/// commit) and the push still runs; a failed push stops the sequence.
pub open spec fn spec_git_flow(step: GitStep, success: bool) -> GitAction {
    match step {
        GitStep::Add => if success {
            GitAction::Run(GitStep::Commit)
        } else {
            GitAction::Abort(GitStep::Add)
        },
        GitStep::Commit => if success {
            GitAction::Run(GitStep::Push)
        } else {
            GitAction::WarnThenRun(GitStep::Push)
        },
        GitStep::Push => if success {
            GitAction::Finished
        } else {
            GitAction::Abort(GitStep::Push)
        },
    }
}

/// Decides what follows one git step, executable form.
pub fn git_next_action(step: GitStep, success: bool) -> (r: GitAction)
    ensures
        r == spec_git_flow(step, success),
{
    match step {
        GitStep::Add => if success {
            GitAction::Run(GitStep::Commit)
        } else {
            GitAction::Abort(GitStep::Add)
        },
        GitStep::Commit => if success {
            GitAction::Run(GitStep::Push)
        } else {
            GitAction::WarnThenRun(GitStep::Push)
        },
        GitStep::Push => if success {
            GitAction::Finished
        } else {
            GitAction::Abort(GitStep::Push)
        },
    }
}

// ---------------------------------------------------------------------------
// Build-configuration scanning
// ---------------------------------------------------------------------------
/// A white-space character, as the configuration scanner skips it.
pub open spec fn is_space(c: char) -> bool {
    c == ' ' || c == '\t' || c == '\n' || c == '\r' || c as u32 == 11 || c as u32 == 12
}

/// A single or double quote.
pub open spec fn is_quote(c: char) -> bool {
    c == '\'' || c == '"'
}

/// A character that ends the scanned value: a delimiter, a quote or white
/// space.
pub open spec fn is_value_delim(c: char) -> bool {
    c == ',' || c == '}' || is_quote(c) || is_space(c)
}

/// The first position at or after `i` holding something other than white
/// space (or the end).
pub open spec fn spec_skip_ws(s: Seq<char>, i: int) -> int
    decreases s.len() - i,
{
    if i < 0 || i >= s.len() {
        i
    } else if is_space(s[i]) {
        spec_skip_ws(s, i + 1)
    } else {
        i
    }
}

/// The first position at or after `i` holding a value delimiter (or the
/// end).
pub open spec fn spec_value_end(s: Seq<char>, i: int) -> int
    decreases s.len() - i,
{
    if i < 0 || i >= s.len() {
        i
    } else if is_value_delim(s[i]) {
        i
    } else {
        spec_value_end(s, i + 1)
    }
}

/// What the output-directory key yields when read at position `i`: the
/// literal key, optional white space, `:` or `=`, optional white space,
/// an optional opening quote, then a non-empty run of value characters.
pub open spec fn spec_out_dir_at(s: Seq<char>, i: int) -> Option<Seq<char>> {
    if i < 0 || i + 6 > s.len() || s.subrange(i, i + 6) != "outDir"@ {
        None
    } else {
        let j = spec_skip_ws(s, i + 6);
        if j >= s.len() || (s[j] != ':' && s[j] != '=') {
            None
        } else {
            let k0 = spec_skip_ws(s, j + 1);
            let k = if k0 < s.len() && is_quote(s[k0]) {
                k0 + 1
            } else {
                k0
            };
            let e = spec_value_end(s, k);
            if e == k {
                None
            } else {
                Some(s.subrange(k, e))
            }
        }
    }
}

/// The value of the first readable occurrence of the output-directory key
/// at or after position `i`.
pub open spec fn spec_get_out_dir_from(s: Seq<char>, i: int) -> Option<Seq<char>>
    decreases s.len() - i,
{
    if i < 0 || i + 6 > s.len() {
        None
    } else {
        match spec_out_dir_at(s, i) {
            Some(v) => Some(v),
            None => spec_get_out_dir_from(s, i + 1),
        }
    }
}

/// Skips white space, executable form.
#[verifier::loop_isolation(false)]
fn skip_ws(s: &str, n: usize, i: usize) -> (r: usize)
    requires
        n == s@.len(),
        i <= n,
    ensures
        i <= r <= n,
        r == spec_skip_ws(s@, i as int),
{
    let mut j: usize = i;
    while j < n
        invariant
            i <= j <= n,
            spec_skip_ws(s@, i as int) == spec_skip_ws(s@, j as int),
        decreases n - j,
    {
        let c = s.get_char(j);
        let space = c == ' ' || c == '\t' || c == '\n' || c == '\r' || (c as u32) == 11 || (c
            as u32) == 12;
        if !space {
            return j;
        }
        j = j + 1;
    }
    j
}

/// Finds the end of a value run, executable form.
#[verifier::loop_isolation(false)]
fn value_end(s: &str, n: usize, i: usize) -> (r: usize)
    requires
        n == s@.len(),
        i <= n,
    ensures
        i <= r <= n,
        r == spec_value_end(s@, i as int),
{
    let mut j: usize = i;
    while j < n
        invariant
            i <= j <= n,
            spec_value_end(s@, i as int) == spec_value_end(s@, j as int),
        decreases n - j,
    {
        let c = s.get_char(j);
        let space = c == ' ' || c == '\t' || c == '\n' || c == '\r' || (c as u32) == 11 || (c
            as u32) == 12;
        let delim = c == ',' || c == '}' || c == '\'' || c == '"' || space;
        if delim {
            return j;
        }
        j = j + 1;
    }
    j
}

/// Reads the output-directory value at one key occurrence, executable
/// form.
#[verifier::loop_isolation(false)]
fn out_dir_at(s: &str, n: usize, i: usize) -> (r: Option<String>)
    requires
        n == s@.len(),
        i + 6 <= n,
        s@.subrange(i as int, i + 6 as int) == "outDir"@,
    ensures
        (match r {
            Some(v) => spec_out_dir_at(s@, i as int) == Some(v@),
            None => spec_out_dir_at(s@, i as int) is None,
        }),
{
    let j = skip_ws(s, n, i + 6);
    if j >= n {
        return None;
    }
    let cj = s.get_char(j);
    if cj != ':' && cj != '=' {
        return None;
    }
    let k0 = skip_ws(s, n, j + 1);
    let k: usize = if k0 < n {
        let ck = s.get_char(k0);
        if ck == '\'' || ck == '"' {
            k0 + 1
        } else {
            k0
        }
    } else {
        k0
    };
    let e = value_end(s, n, k);
    if e == k {
        return None;
    }
    Some(String::from_str(s.substring_char(k, e)))
}

/// Reads the configured output directory from build-configuration text:
/// the first occurrence of the `outDir` key followed by `:` or `=` and a
/// non-empty, optionally quoted value yields that value; text without a
/// readable key yields nothing.
#[verifier::loop_isolation(false)]
pub fn get_out_dir(content: &str) -> (r: Option<String>)
    ensures
        (match r {
            Some(v) => spec_get_out_dir_from(content@, 0) == Some(v@),
            None => spec_get_out_dir_from(content@, 0) is None,
        }),
{
    proof {
        reveal_strlit("outDir");
    }
    let n: usize = content.unicode_len();
    if n < 6 {
        return None;
    }
    let mut i: usize = 0;
    while i <= n - 6
        invariant
            6 <= n,
            i <= n - 6 + 1,
            n == content@.len(),
            spec_get_out_dir_from(content@, 0) == spec_get_out_dir_from(content@, i as int),
        decreases n - i,
    {
        let hit = content.get_char(i) == 'o' && content.get_char(i + 1) == 'u'
            && content.get_char(i + 2) == 't' && content.get_char(i + 3) == 'D'
            && content.get_char(i + 4) == 'i' && content.get_char(i + 5) == 'r';
        proof {
            reveal_strlit("outDir");
            if hit {
                assert(content@.subrange(i as int, i + 6 as int) =~= "outDir"@);
            } else {
                if content@.subrange(i as int, i + 6 as int) == "outDir"@ {
                    let sub = content@.subrange(i as int, i + 6 as int);
                    assert(sub[0] == content@[i as int]);
                    assert(sub[1] == content@[i + 1]);
                    assert(sub[2] == content@[i + 2]);
                    assert(sub[3] == content@[i + 3]);
                    assert(sub[4] == content@[i + 4]);
                    assert(sub[5] == content@[i + 5]);
                }
            }
        }
        if hit {
            match out_dir_at(content, n, i) {
                Some(v) => {
                    return Some(v);
                },
                None => {},
            }
        }
        i = i + 1;
    }
    None
}

} // verus!
