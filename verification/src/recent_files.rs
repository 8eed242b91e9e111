//! The list of recently used files: most recent last, each file once, at
//! most `MAX_RECENT_FILES` of them.
use vstd::prelude::*;
use vstd::string::*;
use crate::config::{joined, path_in_config_dir};
use crate::error::IcyDrawError;

verus! {

/// How many files the list keeps.
pub const MAX_RECENT_FILES: usize = 10;

/// The pieces of `p` between its `/`s (empty pieces included).
pub open spec fn split_slash(p: Seq<char>) -> Seq<Seq<char>>
    decreases p.len(),
{
    if p.len() == 0 {
        seq![seq![]]
    } else {
        let rest = split_slash(p.drop_last());
        if p.last() == '/' {
            rest.push(seq![])
        } else {
            rest.update(rest.len() - 1, rest.last().push(p.last()))
        }
    }
}

/// The components of a path written with `/`, as `Path::components` gives
/// them: whether it has a root, whether it starts with a `.` component, and
/// its other components. Repeated separators and a trailing one are ignored,
/// and `.` components are dropped but a leading one.
pub open spec fn path_key(p: Seq<char>) -> (bool, bool, Seq<Seq<char>>) {
    let segs = split_slash(p);
    let rooted = p.len() > 0 && p[0] == '/';
    (rooted, !rooted && segs[0] == seq!['.'], segs.filter(|s: Seq<char>| s.len() > 0 && s != seq!['.']))
}

/// Whether `a` and `b` have the same components.
pub open spec fn same_path(a: Seq<char>, b: Seq<char>) -> bool {
    path_key(a) == path_key(b)
}

/// A path that every platform splits at `/` alone and reads without a
/// prefix: no `\\`, no `:`, and no `//` in front (which Windows reads as a
/// network share).
pub open spec fn slash_path(p: Seq<char>) -> bool {
    &&& forall|i: int| 0 <= i < p.len() ==> #[trigger] p[i] != '\\' && p[i] != ':'
    &&& !(p.len() >= 2 && p[0] == '/' && p[1] == '/')
}

/// `c`, with an ASCII lower-case letter in upper case.
pub open spec fn upper_ascii(c: char) -> char {
    if 97 <= (c as u32) && (c as u32) <= 122 {
        ((c as u32) - 32) as char
    } else {
        c
    }
}

/// The characters of a path that its components keep on every platform: all
/// but the separators `/` and `\` and the dots (of `.` and `..` components),
/// with ASCII letters in upper case (a Windows drive letter compares without
/// case). Two paths whose letters differ name different paths.
pub open spec fn path_letters(p: Seq<char>) -> Seq<char> {
    p.filter(|c: char| c != '/' && c != '\\' && c != '.').map_values(|c: char| upper_ascii(c))
}

/// Whether the paths `a` and `b` are equal as `std::path::Path`s, through
/// `Path::eq`, which compares them component by component. A path equals
/// itself; two paths written with `/` alone (see `slash_path`) are equal
/// exactly when they have the same components (see `path_key`); and paths
/// whose letters differ (see `path_letters`) are different on every
/// platform. Which other texts name the same path depends on the platform
/// (its separators and prefixes) and is not stated.
#[verifier::external_body]
fn paths_equal(a: &str, b: &str) -> (r: bool)
    ensures
        a@ == b@ ==> r,
        slash_path(a@) && slash_path(b@) ==> r == same_path(a@, b@),
        path_letters(a@) != path_letters(b@) ==> !r,
{
    std::path::Path::new(a) == std::path::Path::new(b)
}

/// `same` marks, for each of the files, whether it names the same path as
/// `f`; at least the files equal to `f` are marked.
pub open spec fn marks_same_path(files: Seq<Seq<char>>, f: Seq<char>, same: Seq<bool>) -> bool {
    &&& same.len() == files.len()
    &&& forall|i: int| 0 <= i < files.len() && #[trigger] files[i] == f ==> same[i]
}

/// No file whose letters differ from those of `f` is marked: such a file
/// names another path.
pub open spec fn differing_unmarked(files: Seq<Seq<char>>, f: Seq<char>, same: Seq<bool>) -> bool {
    forall|i: int| 0 <= i < files.len() && path_letters(#[trigger] files[i]) != path_letters(f) ==> !same[i]
}

/// For paths written with `/` alone, the marks are those of having the
/// same components as `f`.
pub open spec fn exact_on_slash(files: Seq<Seq<char>>, f: Seq<char>, same: Seq<bool>) -> bool {
    forall|i: int|
        0 <= i < files.len() && slash_path(f) && slash_path(#[trigger] files[i]) ==> same[i] == same_path(files[i], f)
}

/// Every file is written with `/` alone.
pub open spec fn all_slash(files: Seq<Seq<char>>) -> bool {
    forall|i: int| 0 <= i < files.len() ==> slash_path(#[trigger] files[i])
}

/// The marks of exactly the files with the same components as `f`.
pub open spec fn key_marks(files: Seq<Seq<char>>, f: Seq<char>) -> Seq<bool> {
    Seq::new(files.len(), |i: int| same_path(files[i], f))
}

/// The files without the first one that is marked.
pub open spec fn without_first_marked(files: Seq<Seq<char>>, same: Seq<bool>) -> Seq<Seq<char>>
    decreases files.len(),
{
    if files.len() == 0 || same.len() == 0 {
        files
    } else if same[0] {
        files.drop_first()
    } else {
        seq![files[0]] + without_first_marked(files.drop_first(), same.drop_first())
    }
}

/// The oldest files dropped where more than `MAX_RECENT_FILES` remain.
pub open spec fn keep_newest(files: Seq<Seq<char>>) -> Seq<Seq<char>> {
    if files.len() > MAX_RECENT_FILES {
        files.subrange(files.len() - MAX_RECENT_FILES, files.len() as int)
    } else {
        files
    }
}

/// The list after `f` is used, where `same` marks the files that name the
/// same path as `f`: the first of them goes, `f` is added at the end, and the
/// oldest files go where more than `MAX_RECENT_FILES` remain.
pub open spec fn add_recent(files: Seq<Seq<char>>, f: Seq<char>, same: Seq<bool>) -> Seq<Seq<char>> {
    keep_newest(without_first_marked(files, same).push(f))
}

/// The files whose flag is set, in their order.
pub open spec fn kept(files: Seq<Seq<char>>, keep: Seq<bool>) -> Seq<Seq<char>>
    decreases files.len(),
{
    if files.len() == 0 || keep.len() == 0 {
        seq![]
    } else if keep.last() {
        kept(files.drop_last(), keep.drop_last()).push(files.last())
    } else {
        kept(files.drop_last(), keep.drop_last())
    }
}

/// `r` is made of the files whose flag is set, in their order: `idx` gives,
/// in increasing order, the position in `files` of each file of `r`, every
/// such position has its flag set, and every position whose flag is set is
/// one of them.
pub open spec fn selects(files: Seq<Seq<char>>, keep: Seq<bool>, r: Seq<Seq<char>>, idx: Seq<int>) -> bool {
    &&& idx.len() == r.len()
    &&& forall|k: int| 0 <= k < idx.len() ==> 0 <= #[trigger] idx[k] < files.len() && r[k] == files[idx[k]] && keep[idx[k]]
    &&& forall|k: int, l: int| 0 <= k < l < idx.len() ==> #[trigger] idx[k] < #[trigger] idx[l]
    &&& forall|i: int| 0 <= i < files.len() && #[trigger] keep[i] ==> exists|k: int| 0 <= k < idx.len() && #[trigger] idx[k] == i
}

/// The files kept by `kept` are exactly those whose own flag is set, in their
/// order.
pub proof fn lemma_kept_selects(files: Seq<Seq<char>>, keep: Seq<bool>)
    requires
        files.len() == keep.len(),
    ensures
        exists|idx: Seq<int>| selects(files, keep, kept(files, keep), idx),
    decreases files.len(),
{
    if files.len() == 0 {
        assert(selects(files, keep, kept(files, keep), Seq::<int>::empty()));
    } else {
        let n = files.len() as int;
        let fi = files.drop_last();
        let ki = keep.drop_last();
        lemma_kept_selects(fi, ki);
        let idx0 = choose|idx: Seq<int>| selects(fi, ki, kept(fi, ki), idx);
        let r0 = kept(fi, ki);
        if keep.last() {
            let idx = idx0.push(n - 1);
            let r = r0.push(files.last());
            assert(kept(files, keep) == r);
            assert forall|k: int| 0 <= k < idx.len() implies 0 <= #[trigger] idx[k] < files.len() && r[k] == files[idx[k]] && keep[idx[k]] by {
                if k < idx0.len() {
                    assert(idx[k] == idx0[k]);
                    assert(fi[idx0[k]] == files[idx0[k]]);
                    assert(ki[idx0[k]] == keep[idx0[k]]);
                }
            }
            assert forall|k: int, l: int| 0 <= k < l < idx.len() implies #[trigger] idx[k] < #[trigger] idx[l] by {
                if l == idx0.len() {
                    assert(idx0[k] < fi.len());
                } else {
                    assert(idx[k] == idx0[k] && idx[l] == idx0[l]);
                }
            }
            assert forall|i: int| 0 <= i < files.len() && #[trigger] keep[i] implies exists|k: int| 0 <= k < idx.len() && #[trigger] idx[k] == i by {
                if i == n - 1 {
                    assert(idx[idx0.len() as int] == i);
                } else {
                    assert(ki[i] == keep[i]);
                    let k = choose|k: int| 0 <= k < idx0.len() && #[trigger] idx0[k] == i;
                    assert(idx[k] == i);
                }
            }
            assert(selects(files, keep, r, idx));
        } else {
            assert(kept(files, keep) == r0);
            assert forall|k: int| 0 <= k < idx0.len() implies 0 <= #[trigger] idx0[k] < files.len() && r0[k] == files[idx0[k]] && keep[idx0[k]] by {
                assert(fi[idx0[k]] == files[idx0[k]]);
                assert(ki[idx0[k]] == keep[idx0[k]]);
            }
            assert forall|i: int| 0 <= i < files.len() && #[trigger] keep[i] implies exists|k: int| 0 <= k < idx0.len() && #[trigger] idx0[k] == i by {
                assert(i != n - 1);
                assert(ki[i] == keep[i]);
            }
            assert(selects(files, keep, r0, idx0));
        }
    }
}

/// No two files of the list name the same path.
pub open spec fn distinct_paths(files: Seq<Seq<char>>) -> bool {
    forall|i: int, j: int| 0 <= i < j < files.len() ==> !same_path(#[trigger] files[i], #[trigger] files[j])
}

/// The recently used files.
#[derive(Debug)]
pub struct MostRecentlyUsedFiles {
    files: Vec<String>,
}

impl View for MostRecentlyUsedFiles {
    type V = Seq<Seq<char>>;

    closed spec fn view(&self) -> Seq<Seq<char>> {
        self.files@.map_values(|s: String| s@)
    }
}

proof fn lemma_without_first_marked_at(files: Seq<Seq<char>>, same: Seq<bool>, i: int)
    requires
        same.len() == files.len(),
        0 <= i < files.len(),
        same[i],
        forall|j: int| 0 <= j < i ==> !#[trigger] same[j],
    ensures
        without_first_marked(files, same) == files.remove(i),
    decreases i,
{
    if i > 0 {
        let rest = same.drop_first();
        assert forall|j: int| 0 <= j < i - 1 implies !#[trigger] rest[j] by {
            assert(rest[j] == same[j + 1]);
        }
        assert(!same[0]);
        lemma_without_first_marked_at(files.drop_first(), rest, i - 1);
        assert(seq![files[0]] + files.drop_first().remove(i - 1) =~= files.remove(i));
    } else {
        assert(files.drop_first() =~= files.remove(0));
    }
}

proof fn lemma_without_first_marked_none(files: Seq<Seq<char>>, same: Seq<bool>)
    requires
        same.len() == files.len(),
        forall|j: int| 0 <= j < files.len() ==> !#[trigger] same[j],
    ensures
        without_first_marked(files, same) == files,
    decreases files.len(),
{
    if files.len() > 0 {
        let rest = same.drop_first();
        assert forall|j: int| 0 <= j < rest.len() implies !#[trigger] rest[j] by {
            assert(rest[j] == same[j + 1]);
        }
        assert(!same[0]);
        lemma_without_first_marked_none(files.drop_first(), rest);
        assert(seq![files[0]] + files.drop_first() =~= files);
    }
}

impl MostRecentlyUsedFiles {
    /// An empty list.
    pub fn new() -> (r: MostRecentlyUsedFiles)
        ensures
            r@ == Seq::<Seq<char>>::empty(),
    {
        let r = MostRecentlyUsedFiles { files: Vec::new() };
        proof {
            assert(r@ =~= Seq::<Seq<char>>::empty());
        }
        r
    }

    /// The list of the files `files`, most recent last.
    pub fn from_files(files: Vec<String>) -> (r: MostRecentlyUsedFiles)
        ensures
            r@ == files@.map_values(|s: String| s@),
    {
        MostRecentlyUsedFiles { files }
    }

    /// The files of the list, most recent last.
    pub fn files(&self) -> (r: &Vec<String>)
        ensures
            r@.map_values(|s: String| s@) == self@,
    {
        &self.files
    }

    /// The file that holds the list, in the configuration directory `dir`.
    pub fn get_mru_file(dir: Option<String>) -> (r: Result<String, IcyDrawError>)
        ensures
            dir is None <==> r is Err,
            r matches Err(e) ==> (e matches IcyDrawError::ErrorCreatingDirectory(m) && m@ == "mru file"@),
            r matches Ok(p) ==> joined(dir->Some_0@, "recent_files.json"@, p@),
    {
        proof {
            reveal_strlit("recent_files.json");
        }
        path_in_config_dir(dir, "recent_files.json", "mru file")
    }

    /// Drops the files whose flag in `exists` is not set (the files that no
    /// longer exist) and gives the files that remain.
    pub fn get_recent_files(&mut self, exists: &Vec<bool>) -> (r: &Vec<String>)
        requires
            exists@.len() == old(self)@.len(),
        ensures
            final(self)@ == kept(old(self)@, exists@),
            exists|idx: Seq<int>| selects(old(self)@, exists@, final(self)@, idx),
            r@.map_values(|s: String| s@) == final(self)@,
    {
        let ghost old_files = self@;
        let n = self.files.len();
        let mut out: Vec<String> = Vec::new();
        let mut i: usize = 0;
        proof {
            assert(out@.map_values(|s: String| s@) =~= kept(old_files.subrange(0, 0), exists@.subrange(0, 0)));
        }
        while i < n
            invariant
                n == self.files@.len(),
                n == exists@.len(),
                old_files == self@,
                i <= n,
                out@.map_values(|s: String| s@) == kept(old_files.subrange(0, i as int), exists@.subrange(0, i as int)),
            decreases n - i,
        {
            let ghost before = out@.map_values(|s: String| s@);
            proof {
                assert(old_files.subrange(0, i + 1).drop_last() =~= old_files.subrange(0, i as int));
                assert(exists@.subrange(0, i + 1).drop_last() =~= exists@.subrange(0, i as int));
                assert(old_files[i as int] == self.files@[i as int]@);
            }
            if exists[i] {
                out.push(self.files[i].clone());
                proof {
                    assert(out@.map_values(|s: String| s@) =~= before.push(old_files[i as int]));
                }
            }
            i = i + 1;
        }
        proof {
            assert(old_files.subrange(0, n as int) =~= old_files);
            assert(exists@.subrange(0, n as int) =~= exists@);
            lemma_kept_selects(old_files, exists@);
        }
        self.files = out;
        &self.files
    }

    /// Records that `file` was used: the first file of the list that names
    /// the same path goes, `file` is added at the end, and the oldest files
    /// go where more than `MAX_RECENT_FILES` remain.
    pub fn add_recent_file(&mut self, file: &str)
        ensures
            exists|same: Seq<bool>| #![trigger add_recent(old(self)@, file@, same)]
                marks_same_path(old(self)@, file@, same) && exact_on_slash(old(self)@, file@, same)
                    && differing_unmarked(old(self)@, file@, same) && final(self)@ == add_recent(old(self)@, file@, same),
    {
        let ghost old_files = self@;
        let n = self.files.len();
        let mut same: Vec<bool> = Vec::new();
        let mut i: usize = 0;
        while i < n
            invariant
                n == self.files@.len(),
                old_files == self@,
                i <= n,
                same@.len() == i,
                forall|j: int| 0 <= j < i && #[trigger] old_files[j] == file@ ==> same@[j],
                forall|j: int| 0 <= j < i && slash_path(file@) && slash_path(#[trigger] old_files[j])
                    ==> same@[j] == same_path(old_files[j], file@),
                forall|j: int| 0 <= j < i && path_letters(#[trigger] old_files[j]) != path_letters(file@) ==> !same@[j],
            decreases n - i,
        {
            let eq = paths_equal(self.files[i].as_str(), file);
            proof {
                assert(old_files[i as int] == self.files@[i as int]@);
            }
            same.push(eq);
            i = i + 1;
        }
        proof {
            assert(exact_on_slash(old_files, file@, same@));
            assert(differing_unmarked(old_files, file@, same@));
        }
        self.add_recent_file_marked(file, &same);
    }

    /// Records that `file` was used, where `same` marks the files of the
    /// list that name the same path as `file`: the first of them goes,
    /// `file` is added at the end, and the oldest files go where more than
    /// `MAX_RECENT_FILES` remain.
    pub fn add_recent_file_marked(&mut self, file: &str, same: &Vec<bool>)
        requires
            same@.len() == old(self)@.len(),
        ensures
            final(self)@ == add_recent(old(self)@, file@, same@),
    {
        let ghost old_files = self@;
        let n = self.files.len();
        let mut i: usize = 0;
        while i < n && !same[i]
            invariant
                n == self.files@.len(),
                n == same@.len(),
                old_files == self@,
                i <= n,
                forall|j: int| 0 <= j < i ==> !#[trigger] same@[j],
            decreases n - i,
        {
            i = i + 1;
        }
        if i < n {
            proof {
                lemma_without_first_marked_at(old_files, same@, i as int);
            }
            self.files.remove(i);
            proof {
                assert(self@ =~= old_files.remove(i as int));
            }
        } else {
            proof {
                lemma_without_first_marked_none(old_files, same@);
            }
        }
        let ghost removed = self@;
        self.files.push(String::from_str(file));
        let ghost pushed = removed.push(file@);
        proof {
            assert(self@ =~= pushed);
        }
        let ghost mut dropped: int = 0;
        while self.files.len() > MAX_RECENT_FILES
            invariant
                0 <= dropped <= pushed.len(),
                self@ == pushed.subrange(dropped, pushed.len() as int),
                dropped > 0 ==> pushed.len() - dropped >= MAX_RECENT_FILES,
            decreases self.files@.len(),
        {
            let ghost before = self.files@;
            let ghost before_view = self@;
            proof {
                assert(before_view.len() == before.len());
                assert(dropped < pushed.len());
            }
            self.files.remove(0);
            proof {
                let target = pushed.subrange(dropped + 1, pushed.len() as int);
                assert(self.files@ == before.remove(0));
                assert forall|j: int| 0 <= j < self@.len() implies self@[j] == target[j] by {
                    assert(self.files@[j] == before[j + 1]);
                    assert(before_view[j + 1] == before[j + 1]@);
                    assert(before_view[j + 1] == pushed[dropped + j + 1]);
                }
                assert(self@ =~= target);
                dropped = dropped + 1;
            }
        }
        proof {
            if pushed.len() > MAX_RECENT_FILES {
                assert(dropped == pushed.len() - MAX_RECENT_FILES);
            } else {
                assert(dropped == 0);
                assert(pushed.subrange(0, pushed.len() as int) =~= pushed);
            }
        }
    }

    /// Empties the list.
    pub fn clear_recent_files(&mut self)
        ensures
            final(self)@ == Seq::<Seq<char>>::empty(),
    {
        self.files.clear();
        proof {
            assert(self@ =~= Seq::<Seq<char>>::empty());
        }
    }
}

impl Default for MostRecentlyUsedFiles {
    /// An empty list.
    fn default() -> (r: MostRecentlyUsedFiles)
        ensures
            r@ == Seq::<Seq<char>>::empty(),
    {
        MostRecentlyUsedFiles::new()
    }
}


// ---------------------------------------------------------------------------
// Laws of the list.
/// After a file is used, it is the last of the list, and the list holds at
/// least one and at most `MAX_RECENT_FILES` files.
pub proof fn lemma_add_recent_last(files: Seq<Seq<char>>, f: Seq<char>, same: Seq<bool>)
    ensures
        add_recent(files, f, same).len() >= 1,
        add_recent(files, f, same).len() <= MAX_RECENT_FILES,
        add_recent(files, f, same).last() == f,
{
}

/// Using a file that names the same path as a file of the list moves it to
/// the end: the first such file goes, the others keep their order.
pub proof fn lemma_add_recent_moves(files: Seq<Seq<char>>, f: Seq<char>, same: Seq<bool>, i: int)
    requires
        same.len() == files.len(),
        0 <= i < files.len(),
        same[i],
        forall|j: int| 0 <= j < i ==> !#[trigger] same[j],
    ensures
        add_recent(files, f, same) == keep_newest(files.remove(i).push(f)),
{
    lemma_without_first_marked_at(files, same, i);
}

/// Using a file that names no path of the list adds it at the end.
pub proof fn lemma_add_recent_new(files: Seq<Seq<char>>, f: Seq<char>, same: Seq<bool>)
    requires
        same.len() == files.len(),
        forall|j: int| 0 <= j < files.len() ==> !#[trigger] same[j],
    ensures
        add_recent(files, f, same) == keep_newest(files.push(f)),
{
    lemma_without_first_marked_none(files, same);
}

proof fn lemma_without_key_props(files: Seq<Seq<char>>, f: Seq<char>)
    requires
        distinct_paths(files),
    ensures
        ({
            let w = without_first_marked(files, key_marks(files, f));
            &&& distinct_paths(w)
            &&& forall|k: int| 0 <= k < w.len() ==> !same_path(#[trigger] w[k], f)
            &&& forall|k: int| #![trigger w[k]] 0 <= k < w.len() ==> exists|j: int| 0 <= j < files.len() && w[k] == #[trigger] files[j]
        }),
    decreases files.len(),
{
    if files.len() > 0 {
        let rest = files.drop_first();
        let marks = key_marks(files, f);
        assert(marks.drop_first() =~= key_marks(rest, f));
        assert(distinct_paths(rest)) by {
            assert forall|i: int, j: int| 0 <= i < j < rest.len() implies !same_path(#[trigger] rest[i], #[trigger] rest[j]) by {
                assert(rest[i] == files[i + 1] && rest[j] == files[j + 1]);
            }
        }
        let w = without_first_marked(files, marks);
        if same_path(files[0], f) {
            assert(w == rest);
            assert forall|k: int| 0 <= k < w.len() implies !same_path(#[trigger] w[k], f) by {
                assert(w[k] == files[k + 1]);
                assert(!same_path(files[0], files[k + 1]));
            }
            assert forall|k: int| #![trigger w[k]] 0 <= k < w.len() implies exists|j: int| 0 <= j < files.len() && w[k] == #[trigger] files[j] by {
                assert(w[k] == files[k + 1]);
            }
        } else {
            lemma_without_key_props(rest, f);
            let w1 = without_first_marked(rest, key_marks(rest, f));
            assert(w == seq![files[0]] + w1);
            assert forall|k: int| 0 <= k < w.len() implies !same_path(#[trigger] w[k], f) by {
                if k > 0 {
                    assert(w[k] == w1[k - 1]);
                }
            }
            assert forall|k: int| #![trigger w[k]] 0 <= k < w.len() implies exists|j: int| 0 <= j < files.len() && w[k] == #[trigger] files[j] by {
                if k > 0 {
                    assert(w[k] == w1[k - 1]);
                    let j = choose|j: int| 0 <= j < rest.len() && w1[k - 1] == #[trigger] rest[j];
                    assert(w[k] == files[j + 1]);
                } else {
                    assert(w[k] == files[0]);
                }
            }
            assert forall|a: int, b: int| 0 <= a < b < w.len() implies !same_path(#[trigger] w[a], #[trigger] w[b]) by {
                if a == 0 {
                    let j = choose|j: int| 0 <= j < rest.len() && w1[b - 1] == #[trigger] rest[j];
                    assert(w[b] == files[j + 1]);
                    assert(!same_path(files[0], files[j + 1]));
                } else {
                    assert(w[a] == w1[a - 1] && w[b] == w1[b - 1]);
                }
            }
        }
    }
}

/// Where the files and `f` are written with `/` alone, the marks that
/// `add_recent_file` uses are those of having the same components as `f`.
pub proof fn lemma_slash_marks(files: Seq<Seq<char>>, f: Seq<char>, same: Seq<bool>)
    requires
        marks_same_path(files, f, same),
        exact_on_slash(files, f, same),
        all_slash(files),
        slash_path(f),
    ensures
        same == key_marks(files, f),
{
    assert forall|i: int| 0 <= i < files.len() implies same[i] == key_marks(files, f)[i] by {
        assert(slash_path(files[i]));
    }
    assert(same =~= key_marks(files, f));
}

/// Where no two files of the list name the same path and all, like the used
/// file `f`, are written with `/` alone: after `add_recent_file` still no two
/// files name the same path, all are written with `/` alone, and `f` is the
/// only file that names its path, at the end.
pub proof fn lemma_add_recent_file_no_duplicates(files: Seq<Seq<char>>, f: Seq<char>, same: Seq<bool>)
    requires
        distinct_paths(files),
        all_slash(files),
        slash_path(f),
        marks_same_path(files, f, same),
        exact_on_slash(files, f, same),
    ensures
        distinct_paths(add_recent(files, f, same)),
        all_slash(add_recent(files, f, same)),
        forall|k: int| 0 <= k < add_recent(files, f, same).len() - 1 ==> !same_path(#[trigger] add_recent(files, f, same)[k], f),
{
    lemma_slash_marks(files, f, same);
    lemma_without_key_props(files, f);
    let w = without_first_marked(files, same);
    let pushed = w.push(f);
    assert(distinct_paths(pushed)) by {
        assert forall|a: int, b: int| 0 <= a < b < pushed.len() implies !same_path(#[trigger] pushed[a], #[trigger] pushed[b]) by {
            if b == w.len() {
                assert(pushed[a] == w[a]);
                assert(!same_path(w[a], f));
            } else {
                assert(pushed[a] == w[a] && pushed[b] == w[b]);
            }
        }
    }
    let r = add_recent(files, f, same);
    let off = if pushed.len() > MAX_RECENT_FILES { pushed.len() - MAX_RECENT_FILES } else { 0 };
    assert(r == pushed.subrange(off, pushed.len() as int)) by {
        if off == 0 {
            assert(pushed.subrange(0, pushed.len() as int) =~= pushed);
        }
    }
    assert forall|a: int, b: int| 0 <= a < b < r.len() implies !same_path(#[trigger] r[a], #[trigger] r[b]) by {
        assert(r[a] == pushed[a + off] && r[b] == pushed[b + off]);
    }
    assert forall|k: int| 0 <= k < r.len() - 1 implies !same_path(#[trigger] r[k], f) by {
        assert(r[k] == pushed[k + off]);
        assert(pushed[k + off] == w[k + off]);
    }
    assert forall|k: int| 0 <= k < r.len() implies slash_path(#[trigger] r[k]) by {
        assert(r[k] == pushed[k + off]);
        if k + off < w.len() {
            assert(pushed[k + off] == w[k + off]);
            let j = choose|j: int| 0 <= j < files.len() && w[k + off] == #[trigger] files[j];
            assert(slash_path(files[j]));
        }
    }
}

/// Where no two files of the list name the same path and all, like `f`, are
/// written with `/` alone: using `f` twice in a row leaves the list as using
/// it once does.
pub proof fn lemma_add_recent_file_twice(
    files: Seq<Seq<char>>,
    f: Seq<char>,
    same1: Seq<bool>,
    same2: Seq<bool>,
)
    requires
        distinct_paths(files),
        all_slash(files),
        slash_path(f),
        marks_same_path(files, f, same1),
        exact_on_slash(files, f, same1),
        marks_same_path(add_recent(files, f, same1), f, same2),
        exact_on_slash(add_recent(files, f, same1), f, same2),
    ensures
        add_recent(add_recent(files, f, same1), f, same2) == add_recent(files, f, same1),
{
    lemma_add_recent_file_no_duplicates(files, f, same1);
    let l = add_recent(files, f, same1);
    lemma_add_recent_last(files, f, same1);
    lemma_slash_marks(l, f, same2);
    assert forall|j: int| 0 <= j < l.len() - 1 implies !#[trigger] same2[j] by {
        assert(!same_path(l[j], f));
    }
    assert(same_path(l[l.len() - 1], f));
    lemma_without_first_marked_at(l, same2, l.len() - 1);
    assert(l.remove(l.len() - 1).push(f) =~= l);
}


proof fn lemma_unmarked_stays(files: Seq<Seq<char>>, same: Seq<bool>, i: int)
    requires
        same.len() == files.len(),
        0 <= i < files.len(),
        !same[i],
    ensures
        exists|k: int| 0 <= k < without_first_marked(files, same).len() && without_first_marked(files, same)[k] == files[i],
        without_first_marked(files, same).len() <= files.len(),
    decreases files.len(),
{
    let w = without_first_marked(files, same);
    if same[0] {
        assert(w[i - 1] == files[i]);
    } else if i == 0 {
        assert(w[0] == files[0]);
        lemma_marked_len(files.drop_first(), same.drop_first());
    } else {
        lemma_unmarked_stays(files.drop_first(), same.drop_first(), i - 1);
        let w1 = without_first_marked(files.drop_first(), same.drop_first());
        let k = choose|k: int| 0 <= k < w1.len() && w1[k] == files.drop_first()[i - 1];
        assert(w[k + 1] == w1[k]);
    }
}

proof fn lemma_marked_len(files: Seq<Seq<char>>, same: Seq<bool>)
    ensures
        without_first_marked(files, same).len() <= files.len(),
    decreases files.len(),
{
    if files.len() > 0 && same.len() > 0 && !same[0] {
        lemma_marked_len(files.drop_first(), same.drop_first());
    }
}

/// Using a file whose letters differ from those of every file of the list
/// (a path that names no file of the list, on every platform) removes
/// nothing: the file is added at the end.
pub proof fn lemma_add_recent_file_new_path(files: Seq<Seq<char>>, f: Seq<char>, same: Seq<bool>)
    requires
        marks_same_path(files, f, same),
        differing_unmarked(files, f, same),
        forall|i: int| 0 <= i < files.len() ==> path_letters(#[trigger] files[i]) != path_letters(f),
    ensures
        add_recent(files, f, same) == keep_newest(files.push(f)),
{
    assert forall|j: int| 0 <= j < files.len() implies !#[trigger] same[j] by {
        assert(path_letters(files[j]) != path_letters(f));
    }
    lemma_add_recent_new(files, f, same);
}

/// Where the list holds fewer than `MAX_RECENT_FILES` files, using a file
/// keeps every file of the list whose letters differ from the used file's
/// (one that names another path, on every platform).
pub proof fn lemma_add_recent_file_keeps_other_paths(files: Seq<Seq<char>>, f: Seq<char>, same: Seq<bool>, i: int)
    requires
        marks_same_path(files, f, same),
        differing_unmarked(files, f, same),
        files.len() < MAX_RECENT_FILES,
        0 <= i < files.len(),
        path_letters(files[i]) != path_letters(f),
    ensures
        exists|k: int| 0 <= k < add_recent(files, f, same).len() && add_recent(files, f, same)[k] == files[i],
{
    assert(!same[i]);
    lemma_unmarked_stays(files, same, i);
    let w = without_first_marked(files, same);
    let k = choose|k: int| 0 <= k < w.len() && w[k] == files[i];
    assert(add_recent(files, f, same) == w.push(f));
    assert(add_recent(files, f, same)[k] == files[i]);
}
} // verus!
