//! The list of recently used documents: most recent first, each path once,
//! at most ten entries; and the names shown for paths.
use vstd::prelude::*;
use crate::text::{
    views, trim, trim_chars, chars_of, string_of_chars, is_white_space,
    lemma_trim_keeps_inner_stretch,
};

verus! {

/// How many documents the recent list remembers.
pub const MAX_RECENT_FILES: usize = 10;

/// Whether two paths name the same file path, as `Path`'s `==` decides:
/// component by component.
pub uninterp spec fn paths_equal(a: Seq<char>, b: Seq<char>) -> bool;

/// The final component of a path, as `Path::file_name` gives it; `None`
/// for a path that ends in `..` or is a root or empty.
pub uninterp spec fn file_name(path: Seq<char>) -> Option<Seq<char>>;

/// The stretches of `p` between slashes, in order; there is always at
/// least one, and it may be empty.
pub open spec fn slash_pieces(p: Seq<char>) -> Seq<Seq<char>>
    decreases p.len(),
{
    if p.len() == 0 {
        seq![Seq::<char>::empty()]
    } else {
        let ps = slash_pieces(p.drop_last());
        if p.last() == '/' {
            ps.push(Seq::<char>::empty())
        } else {
            ps.update(ps.len() - 1, ps.last().push(p.last()))
        }
    }
}

/// The pieces that name a directory or file: neither empty nor `.`.
pub open spec fn named_pieces(ps: Seq<Seq<char>>) -> Seq<Seq<char>>
    decreases ps.len(),
{
    if ps.len() == 0 {
        ps
    } else if ps.last().len() == 0 || ps.last() == seq!['.'] {
        named_pieces(ps.drop_last())
    } else {
        named_pieces(ps.drop_last()).push(ps.last())
    }
}

/// The components of a Unix path, as `Path::components` documents them:
/// the root (written `/`) when the path starts with a slash, else a
/// leading `.` when the path starts with that component; then the named
/// pieces. Repeated and trailing slashes and inner `.` components drop
/// out; `..` stays.
pub open spec fn path_components(p: Seq<char>) -> Seq<Seq<char>> {
    let ps = slash_pieces(p);
    if p.len() > 0 && p[0] == '/' {
        seq![seq!['/']] + named_pieces(ps)
    } else if ps[0] == seq!['.'] {
        seq![seq!['.']] + named_pieces(ps)
    } else {
        named_pieces(ps)
    }
}

/// Compares `Path::new(a) == Path::new(b)`. Trusted: the answer is taken
/// to be `paths_equal(a, b)`, a function of the two strings alone, which
/// is whether the two paths have the same components (`Path`'s `==`
/// compares components); so two equal strings are equal paths.
#[verifier::external_body]
fn same_path(a: &str, b: &str) -> (r: bool)
    ensures
        r == paths_equal(a@, b@),
        r == (path_components(a@) == path_components(b@)),
        a@ == b@ ==> r,
{
    std::path::Path::new(a) == std::path::Path::new(b)
}

/// Calls `Path::file_name` and copies the name into a `String`. Trusted:
/// the result is taken to be `file_name` of the path, a function of the
/// path alone; since the path is a `str`, the name converts without loss.
#[verifier::external_body]
pub(crate) fn path_file_name(path: &str) -> (r: Option<String>)
    ensures
        match r {
            Some(n) => file_name(path@) == Some(n@),
            None => file_name(path@) is None,
        },
{
    match std::path::Path::new(path).file_name() {
        Some(n) => Some(n.to_string_lossy().into_owned()),
        None => None,
    }
}

/// The path a file picker reports: when it succeeded, its output without
/// surrounding white space, unless that is empty.
pub open spec fn picked_path_of(success: bool, output: Seq<char>) -> Option<Seq<char>> {
    if success && trim(output).len() > 0 {
        Some(trim(output))
    } else {
        None
    }
}

/// The path chosen in the file picker, from whether it succeeded and what
/// it printed.
pub fn picked_path(success: bool, output: &str) -> (p: Option<String>)
    ensures
        match p {
            Some(s) => picked_path_of(success, output@) == Some(s@),
            None => picked_path_of(success, output@) is None,
        },
{
    if !success {
        return None;
    }
    let chars = chars_of(output);
    let trimmed = trim_chars(&chars);
    if trimmed.len() == 0 {
        None
    } else {
        Some(string_of_chars(&trimmed))
    }
}

/// The path a picker reports is its output with white space taken off
/// both ends and nothing else: there is none exactly when the picker
/// failed or printed only white space, and otherwise it is one unbroken
/// stretch of the output, with only white space before and after it and
/// none at its own ends.
pub proof fn lemma_picked_path_is_output_stretch(success: bool, output: Seq<char>)
    ensures
        picked_path_of(success, output) is None <==> (!success || forall|k: int|
            0 <= k < output.len() ==> is_white_space(#[trigger] output[k])),
        picked_path_of(success, output) matches Some(p) ==> exists|i: int, j: int|
            0 <= i < j <= output.len() && #[trigger] output.subrange(i, j) == p && (forall|k: int|
                0 <= k < i ==> is_white_space(#[trigger] output[k])) && (forall|k: int|
                j <= k < output.len() ==> is_white_space(#[trigger] output[k]))
                && !is_white_space(output[i]) && !is_white_space(output[j - 1]),
{
    lemma_trim_keeps_inner_stretch(output);
    let (i, j) = choose|i: int, j: int|
        0 <= i <= j <= output.len() && #[trigger] output.subrange(i, j) == trim(output) && (
        forall|k: int| 0 <= k < i ==> is_white_space(#[trigger] output[k])) && (forall|k: int|
            j <= k < output.len() ==> is_white_space(#[trigger] output[k])) && (i < j
            ==> !is_white_space(output[i]) && !is_white_space(output[j - 1]));
    if success {
        if trim(output).len() == 0 {
            assert forall|k: int| 0 <= k < output.len() implies is_white_space(
                #[trigger] output[k],
            ) by {
                if k >= i {
                    assert(k >= j);
                }
            }
        } else {
            assert(output.subrange(i, j).len() == j - i);
            assert(!is_white_space(output[i]));
        }
    }
}

/// The entries of `list` that do not name `path`, in order.
pub open spec fn without_path(list: Seq<Seq<char>>, path: Seq<char>) -> Seq<Seq<char>>
    decreases list.len(),
{
    if list.len() == 0 {
        list
    } else {
        let rest = without_path(list.drop_last(), path);
        if paths_equal(list.last(), path) {
            rest
        } else {
            rest.push(list.last())
        }
    }
}

/// The recent list after `path` was opened or saved: `path` first, then
/// the older entries that name another path, cut to `MAX_RECENT_FILES`.
pub open spec fn with_recent(list: Seq<Seq<char>>, path: Seq<char>) -> Seq<Seq<char>> {
    let l = seq![path] + without_path(list, path);
    if l.len() <= MAX_RECENT_FILES {
        l
    } else {
        l.take(MAX_RECENT_FILES as int)
    }
}

/// The entries of `list` whose components differ from those of `path`,
/// in order: the documents at other places, whatever their file names.
pub open spec fn other_documents(list: Seq<Seq<char>>, path: Seq<char>) -> Seq<Seq<char>>
    decreases list.len(),
{
    if list.len() == 0 {
        list
    } else if path_components(list.last()) == path_components(path) {
        other_documents(list.drop_last(), path)
    } else {
        other_documents(list.drop_last(), path).push(list.last())
    }
}

/// The recent list after recording `path`, by components: `path` first,
/// then every older entry at another place, in order, cut to
/// `MAX_RECENT_FILES`.
pub open spec fn recent_by_components(list: Seq<Seq<char>>, path: Seq<char>) -> Seq<Seq<char>> {
    let l = seq![path] + other_documents(list, path);
    if l.len() <= MAX_RECENT_FILES {
        l
    } else {
        l.take(MAX_RECENT_FILES as int)
    }
}

/// Where two paths are equal exactly when their components are (as
/// `Path`'s `==` decides), recording `path` keeps every older entry whose
/// components differ from its own, in order, behind it, up to
/// `MAX_RECENT_FILES` entries: a document of the same file name in another
/// folder stays.
pub proof fn lemma_recent_keeps_other_documents(list: Seq<Seq<char>>, path: Seq<char>)
    requires
        forall|k: int|
            0 <= k < list.len() ==> paths_equal(#[trigger] list[k], path) == (path_components(
                list[k],
            ) == path_components(path)),
    ensures
        without_path(list, path) == other_documents(list, path),
        with_recent(list, path) == recent_by_components(list, path),
    decreases list.len(),
{
    if list.len() > 0 {
        let dl = list.drop_last();
        assert forall|k: int| 0 <= k < dl.len() implies paths_equal(#[trigger] dl[k], path) == (
        path_components(dl[k]) == path_components(path)) by {
            assert(dl[k] == list[k]);
        }
        lemma_recent_keeps_other_documents(dl, path);
        assert(list[list.len() - 1] == list.last());
    }
}

/// Records `path` as the most recently used document: it comes first, no
/// other entry names it, at most `MAX_RECENT_FILES` entries stay, and
/// recording it once more would change nothing.
pub fn add_recent_file(recent: &mut Vec<String>, path: String)
    ensures
        views(final(recent)@) == with_recent(views(old(recent)@), path@),
        1 <= final(recent)@.len() <= MAX_RECENT_FILES,
        final(recent)@[0]@ == path@,
        forall|k: int|
            1 <= k < final(recent)@.len() ==> {
                &&& !paths_equal(#[trigger] final(recent)@[k]@, path@)
                &&& final(recent)@[k]@ != path@
            },
        with_recent(views(final(recent)@), path@) == views(final(recent)@),
        forall|k: int|
            0 <= k < old(recent)@.len() ==> paths_equal(#[trigger] old(recent)@[k]@, path@)
                == (path_components(old(recent)@[k]@) == path_components(path@)),
        views(final(recent)@) == recent_by_components(views(old(recent)@), path@),
{
    // `Path` finds every path equal to itself; the comparison tells the
    // proof so for this path.
    let _itself = same_path(path.as_str(), path.as_str());
    proof {
        lemma_recent_path_first(views(recent@), path@);
        lemma_recent_idempotent(views(recent@), path@);
    }
    let ghost old_list = views(recent@);
    let mut kept: Vec<String> = Vec::new();
    kept.push(path.clone());
    let n = recent.len();
    assert(old_list.take(0) =~= Seq::<Seq<char>>::empty());
    assert(views(kept@) =~= seq![path@] + without_path(old_list.take(0), path@));
    for i in 0..n
        invariant
            n == recent@.len(),
            old_list == views(recent@),
            views(kept@) == seq![path@] + without_path(old_list.take(i as int), path@),
            forall|k: int|
                0 <= k < i ==> paths_equal(#[trigger] old_list[k], path@) == (path_components(
                    old_list[k],
                ) == path_components(path@)),
    {
        assert(old_list.take(i + 1).drop_last() =~= old_list.take(i as int));
        assert(old_list.take(i + 1).last() == recent@[i as int]@);
        let same = same_path(recent[i].as_str(), path.as_str());
        assert(old_list[i as int] == recent@[i as int]@);
        if !same {
            let ghost before = views(kept@);
            kept.push(recent[i].clone());
            assert(views(kept@) =~= before.push(recent@[i as int]@));
            assert(views(kept@) =~= seq![path@] + without_path(old_list.take(i as int), path@).push(
                recent@[i as int]@,
            ));
        }
    }
    assert(old_list.take(n as int) =~= old_list);
    if kept.len() > MAX_RECENT_FILES {
        kept.truncate(MAX_RECENT_FILES);
        assert(views(kept@) =~= (seq![path@] + without_path(old_list, path@)).take(
            MAX_RECENT_FILES as int,
        ));
    }
    *recent = kept;
    proof {
        let r = with_recent(old_list, path@);
        assert forall|k: int| 1 <= k < recent@.len() implies !paths_equal(
            #[trigger] recent@[k]@,
            path@,
        ) by {
            assert(views(recent@)[k] == recent@[k]@);
            assert(!paths_equal(r[k], path@));
        }
        assert(views(recent@)[0] == recent@[0]@);
        assert forall|k: int| 0 <= k < old_list.len() implies paths_equal(
            #[trigger] old_list[k],
            path@,
        ) == (path_components(old_list[k]) == path_components(path@)) by {}
        lemma_recent_keeps_other_documents(old_list, path@);
        assert forall|k: int| 0 <= k < old(recent)@.len() implies paths_equal(
            #[trigger] old(recent)@[k]@,
            path@,
        ) == (path_components(old(recent)@[k]@) == path_components(path@)) by {
            assert(old_list[k] == old(recent)@[k]@);
        }
    }
}

/// The name shown for a recent document: its file name, or the whole path
/// when it has none.
pub fn recent_file_label(path: &str) -> (label: String)
    ensures
        label@ == match file_name(path@) {
            Some(n) => n,
            None => path@,
        },
{
    match path_file_name(path) {
        Some(n) => n,
        None => String::from_str(path),
    }
}

/// No entry names the same path as an earlier one.
pub open spec fn names_distinct_paths(list: Seq<Seq<char>>) -> bool {
    forall|i: int, j: int| 0 <= i < j < list.len() ==> !paths_equal(#[trigger] list[j], #[trigger] list[i])
}

proof fn lemma_without_path_from(list: Seq<Seq<char>>, path: Seq<char>, e: Seq<char>)
    requires
        without_path(list, path).contains(e),
    ensures
        list.contains(e),
        !paths_equal(e, path),
    decreases list.len(),
{
    let rest = without_path(list.drop_last(), path);
    if rest.contains(e) {
        lemma_without_path_from(list.drop_last(), path, e);
        let k = choose|k: int| 0 <= k < list.drop_last().len() && list.drop_last()[k] == e;
        assert(list[k] == e);
    } else {
        let k = choose|k: int| 0 <= k < without_path(list, path).len() && without_path(list, path)[k] == e;
        assert(k == rest.len());
        assert(list[list.len() - 1] == e);
    }
}

proof fn lemma_without_path_distinct(list: Seq<Seq<char>>, path: Seq<char>)
    requires
        names_distinct_paths(list),
    ensures
        names_distinct_paths(without_path(list, path)),
    decreases list.len(),
{
    if list.len() > 0 {
        let dl = list.drop_last();
        assert(names_distinct_paths(dl)) by {
            assert forall|i: int, j: int| 0 <= i < j < dl.len() implies !paths_equal(
                #[trigger] dl[j],
                #[trigger] dl[i],
            ) by {
                assert(dl[i] == list[i] && dl[j] == list[j]);
            }
        }
        lemma_without_path_distinct(dl, path);
        let rest = without_path(dl, path);
        if !paths_equal(list.last(), path) {
            let t = rest.push(list.last());
            assert forall|i: int, j: int| 0 <= i < j < t.len() implies !paths_equal(
                #[trigger] t[j],
                #[trigger] t[i],
            ) by {
                if j == t.len() - 1 {
                    assert(t[i] == rest[i]);
                    assert(rest.contains(rest[i]));
                    lemma_without_path_from(dl, path, rest[i]);
                    let k = choose|k: int| 0 <= k < dl.len() && dl[k] == rest[i];
                    assert(list[k] == rest[i]);
                    assert(list[list.len() - 1] == t[j]);
                } else {
                    assert(t[i] == rest[i] && t[j] == rest[j]);
                }
            }
        }
    }
}

proof fn lemma_without_path_concat(a: Seq<Seq<char>>, b: Seq<Seq<char>>, path: Seq<char>)
    ensures
        without_path(a + b, path) == without_path(a, path) + without_path(b, path),
    decreases b.len(),
{
    if b.len() == 0 {
        assert(a + b =~= a);
        assert(without_path(a, path) + without_path(b, path) =~= without_path(a, path));
    } else {
        lemma_without_path_concat(a, b.drop_last(), path);
        assert((a + b).drop_last() =~= a + b.drop_last());
        assert((a + b).last() == b.last());
        if !paths_equal(b.last(), path) {
            assert(without_path(a, path) + without_path(b.drop_last(), path).push(b.last())
                =~= (without_path(a, path) + without_path(b.drop_last(), path)).push(b.last()));
        }
    }
}

proof fn lemma_without_path_keeps_all(list: Seq<Seq<char>>, path: Seq<char>)
    requires
        forall|k: int| 0 <= k < list.len() ==> !paths_equal(#[trigger] list[k], path),
    ensures
        without_path(list, path) == list,
    decreases list.len(),
{
    if list.len() > 0 {
        let dl = list.drop_last();
        assert forall|k: int| 0 <= k < dl.len() implies !paths_equal(#[trigger] dl[k], path) by {
            assert(dl[k] == list[k]);
        }
        lemma_without_path_keeps_all(dl, path);
        assert(dl.push(list.last()) =~= list);
    }
}

/// After a path is recorded it heads the list, no other entry names it, and
/// the list holds at most `MAX_RECENT_FILES` entries.
pub proof fn lemma_recent_path_first(list: Seq<Seq<char>>, path: Seq<char>)
    ensures
        with_recent(list, path).len() >= 1,
        with_recent(list, path).len() <= MAX_RECENT_FILES,
        with_recent(list, path)[0] == path,
        forall|k: int|
            1 <= k < with_recent(list, path).len() ==> !paths_equal(
                #[trigger] with_recent(list, path)[k],
                path,
            ),
{
    let w = without_path(list, path);
    let l = seq![path] + w;
    assert forall|k: int| 1 <= k < with_recent(list, path).len() implies !paths_equal(
        #[trigger] with_recent(list, path)[k],
        path,
    ) by {
        assert(with_recent(list, path)[k] == w[k - 1]);
        assert(w.contains(w[k - 1]));
        lemma_without_path_from(list, path, w[k - 1]);
    }
}

/// A recent list that never names a path twice keeps that property when a
/// path is recorded.
pub proof fn lemma_recent_distinct(list: Seq<Seq<char>>, path: Seq<char>)
    requires
        names_distinct_paths(list),
    ensures
        names_distinct_paths(with_recent(list, path)),
{
    let w = without_path(list, path);
    lemma_without_path_distinct(list, path);
    lemma_recent_path_first(list, path);
    let r = with_recent(list, path);
    assert forall|i: int, j: int| 0 <= i < j < r.len() implies !paths_equal(
        #[trigger] r[j],
        #[trigger] r[i],
    ) by {
        if i > 0 {
            assert(r[i] == w[i - 1] && r[j] == w[j - 1]);
        }
    }
}

/// Recording the same path twice in a row leaves the list as recording it
/// once (for a path that `Path`'s `==` finds equal to itself, as it finds
/// every path).
pub proof fn lemma_recent_idempotent(list: Seq<Seq<char>>, path: Seq<char>)
    requires
        paths_equal(path, path),
    ensures
        with_recent(with_recent(list, path), path) == with_recent(list, path),
{
    let r = with_recent(list, path);
    lemma_recent_path_first(list, path);
    let tail = r.drop_first();
    assert(seq![path] + tail =~= r);
    assert forall|k: int| 0 <= k < tail.len() implies !paths_equal(#[trigger] tail[k], path) by {
        assert(tail[k] == r[k + 1]);
    }
    lemma_without_path_keeps_all(tail, path);
    lemma_without_path_concat(seq![path], tail, path);
    assert(seq![path].drop_last() =~= Seq::<Seq<char>>::empty());
    assert(seq![path].last() == path);
    assert(without_path(Seq::<Seq<char>>::empty(), path) =~= Seq::<Seq<char>>::empty());
    assert(without_path(seq![path], path) =~= Seq::<Seq<char>>::empty());
    assert(without_path(r, path) =~= tail);
}

} // verus!
