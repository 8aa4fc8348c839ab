use crate::text::{
    after_last, chars_of, contains, contains_text, find_last, has_at, last_index_of,
    lemma_last_index_of, split, split_on, starts_with_at, string_of_range, texts,
};
use vstd::prelude::*;

verus! {

/// The name of the file that `path` leads to: what stands behind its last `/`.
pub open spec fn file_name(path: Seq<char>) -> Seq<char> {
    after_last(path, '/')
}

/// The file name of `path` without its extension: what stands before the last `.` of
/// the name, or the whole name where it holds none or only begins with it.
pub open spec fn file_stem(path: Seq<char>) -> Seq<char> {
    let name = file_name(path);
    let dot = last_index_of(name, '.');
    if dot > 0 {
        name.take(dot)
    } else {
        name
    }
}

/// The directory that holds `path`: what stands before its last `/`; `/` itself
/// directly under the root, and the empty path where `path` holds no `/`.
pub open spec fn parent_dir(path: Seq<char>) -> Seq<char> {
    let slash = last_index_of(path, '/');
    if slash > 0 {
        path.take(slash)
    } else if slash == 0 {
        path.take(1)
    } else {
        Seq::empty()
    }
}

/// `path` as seen from the directory `root`: the empty path for `root` itself, what
/// stands behind `root` and a `/` for a path below it, and nothing for any other.
pub open spec fn relative_to(root: Seq<char>, path: Seq<char>) -> Option<Seq<char>> {
    if path == root {
        Some(Seq::empty())
    } else if !has_at(path, 0, root) {
        None
    } else if root.len() > 0 && root.last() == '/' {
        Some(path.skip(root.len() as int))
    } else if path[root.len() as int] == '/' {
        Some(path.skip(root.len() as int + 1))
    } else {
        None
    }
}

/// Whether a segment of a path is hidden: it begins with `.` and is neither `.` nor
/// `..`.
pub open spec fn is_hidden_segment(segment: Seq<char>) -> bool {
    segment.len() > 0 && segment[0] == '.' && !(segment.len() == 1) && !(segment.len() == 2
        && segment[1] == '.')
}

/// Whether one of the segments of `path` is hidden.
pub open spec fn is_hidden(path: Seq<char>) -> bool {
    exists|i: int| 0 <= i < split(path, '/').len() && is_hidden_segment(#[trigger] split(path, '/')[i])
}

/// The texts of `parts` from position `k` on that are not empty.
pub open spec fn without_empty(parts: Seq<Seq<char>>, k: int) -> Seq<Seq<char>>
    decreases parts.len() - k,
{
    if !(0 <= k < parts.len()) {
        Seq::empty()
    } else if parts[k].len() == 0 {
        without_empty(parts, k + 1)
    } else {
        seq![parts[k]] + without_empty(parts, k + 1)
    }
}

/// The categories that the place of a page gives it: the segments of the directory that
/// holds `relative`, a path as seen from the root of the catalog.
pub open spec fn categories_of(relative: Seq<char>) -> Seq<Seq<char>> {
    without_empty(split(parent_dir(relative), '/'), 0)
}

/// The file name of `path` without its extension.
pub fn get_file_stem(path: &str) -> (stem: String)
    ensures
        stem@ == file_stem(path@),
{
    let chars = chars_of(path);
    let n = chars.len();
    assert(chars@.take(n as int) == chars@);
    let from = match find_last(&chars, n, '/') {
        Some(i) => i + 1,
        None => 0,
    };
    proof {
        lemma_last_index_of(chars@, '/');
    }
    let ghost name = file_name(path@);
    assert(name == chars@.skip(from as int));
    // the last `.` of the file name is the last `.` of the path where it lies in the name
    let to = match find_last(&chars, n, '.') {
        Some(dot) if dot > from => dot,
        _ => n,
    };
    proof {
        lemma_last_index_of(chars@, '.');
        lemma_last_index_of(name, '.');
        let in_path = last_index_of(chars@, '.');
        let in_name = last_index_of(name, '.');
        if in_name >= 0 {
            assert(chars@[from + in_name] == '.');
            if in_path < from + in_name {
            }
            if in_path > from + in_name {
                assert(name[in_path - from] == '.');
            }
            assert(in_path == from + in_name);
        } else {
            if in_path >= from as int {
                assert(name[in_path - from] == '.');
            }
        }
        if in_name > 0 {
            assert(name.take(in_name) =~= chars@.subrange(from as int, to as int));
        } else {
            assert(name =~= chars@.subrange(from as int, to as int));
        }
    }
    string_of_range(&chars, from, to)
}

/// The directory that holds `path`.
pub fn get_parent_dir(path: &str) -> (dir: String)
    ensures
        dir@ == parent_dir(path@),
{
    let chars = chars_of(path);
    assert(chars@.take(chars@.len() as int) == chars@);
    let to = match find_last(&chars, chars.len(), '/') {
        Some(i) => if i > 0 {
            i
        } else {
            1
        },
        None => 0,
    };
    proof {
        lemma_last_index_of(chars@, '/');
        assert(chars@.subrange(0, to as int) =~= chars@.take(to as int));
    }
    string_of_range(&chars, 0, to)
}

/// `path` as seen from the directory `root`.
pub fn get_relative(root: &str, path: &str) -> (r: Option<String>)
    ensures
        match r {
            Some(relative) => relative_to(root@, path@) == Some(relative@),
            None => relative_to(root@, path@) is None,
        },
{
    let base = chars_of(root);
    let full = chars_of(path);
    if !starts_with_at(&full, 0, &base) {
        proof {
            if path@ == root@ {
                assert(path@.subrange(0, root@.len() as int) =~= root@);
            }
        }
        return None;
    }
    let n = base.len();
    if full.len() == n {
        assert(path@.subrange(0, root@.len() as int) =~= path@);
        return Some(String::new());
    }
    let from = if n > 0 && base[n - 1] == '/' {
        n
    } else if full[n] == '/' {
        n + 1
    } else {
        return None;
    };
    assert(full@.subrange(from as int, full@.len() as int) =~= full@.skip(from as int));
    Some(string_of_range(&full, from, full.len()))
}

/// Whether one of the segments of `path` is hidden.
pub fn is_hidden_path(path: &str) -> (r: bool)
    ensures
        r == is_hidden(path@),
{
    let segments = split_on(path, '/');
    let mut i: usize = 0;
    while i < segments.len()
        invariant
            i <= segments.len(),
            texts(segments@) == split(path@, '/'),
            forall|k: int| 0 <= k < i ==> !is_hidden_segment(#[trigger] split(path@, '/')[k]),
        decreases segments.len() - i,
    {
        let segment = chars_of(segments[i].as_str());
        assert(segment@ == texts(segments@)[i as int]);
        let n = segment.len();
        if n > 0 && segment[0] == '.' && n != 1 && !(n == 2 && segment[1] == '.') {
            return true;
        }
        i += 1;
    }
    false
}

/// The categories that the place of a page gives it.
pub fn get_categories(relative: &str) -> (categories: Vec<String>)
    ensures
        texts(categories@) == categories_of(relative@),
{
    let dir = get_parent_dir(relative);
    let segments = split_on(dir.as_str(), '/');
    let ghost parts = texts(segments@);
    let mut categories: Vec<String> = Vec::new();
    let mut k: usize = 0;
    while k < segments.len()
        invariant
            k <= segments.len(),
            parts == texts(segments@),
            without_empty(parts, 0) == texts(categories@) + without_empty(parts, k as int),
        decreases segments.len() - k,
    {
        assert(parts[k as int] == segments@[k as int]@);
        if !segments[k].as_str().is_empty() {
            let segment = segments[k].clone();
            proof {
                let rest = without_empty(parts, k + 1);
                assert(texts(categories@.push(segment)) + rest =~= texts(categories@) + (
                seq![segment@] + rest));
            }
            categories.push(segment);
        }
        k += 1;
    }
    assert(texts(categories@) + Seq::<Seq<char>>::empty() =~= texts(categories@));
    categories
}

/// Whether the file at `path` is taken for a page of the catalog at `root`: none of its
/// segments below `root` is hidden, and `filter`, where there is one, stands somewhere
/// in `path`.
pub open spec fn is_candidate(root: Seq<char>, path: Seq<char>, filter: Option<Seq<char>>) -> bool {
    &&& relative_to(root, path) matches Some(relative) ==> !is_hidden(relative)
    &&& filter matches Some(wanted) ==> contains_text(path, wanted)
}

/// Whether the file at `path` is taken for a page of the catalog at `root`.
pub fn accepts(root: &str, path: &str, filter: Option<&str>) -> (r: bool)
    ensures
        r == is_candidate(
            root@,
            path@,
            match filter {
                Some(wanted) => Some(wanted@),
                None => None,
            },
        ),
{
    match get_relative(root, path) {
        Some(relative) => {
            if is_hidden_path(relative.as_str()) {
                return false;
            }
        },
        None => {},
    }
    match filter {
        Some(wanted) => contains(path, wanted),
        None => true,
    }
}

/// None of the texts that `without_empty` keeps is empty.
pub proof fn lemma_without_empty(parts: Seq<Seq<char>>, k: int)
    ensures
        forall|j: int|
            0 <= j < without_empty(parts, k).len() ==> (#[trigger] without_empty(parts, k)[j]).len()
                > 0,
    decreases parts.len() - k,
{
    if 0 <= k < parts.len() {
        lemma_without_empty(parts, k + 1);
        let rest = without_empty(parts, k + 1);
        if parts[k].len() > 0 {
            let all = without_empty(parts, k);
            assert forall|j: int| 0 <= j < all.len() implies (#[trigger] all[j]).len() > 0 by {
                if j > 0 {
                    assert(all[j] == rest[j - 1]);
                }
            }
        }
    }
}

/// A path of which no segment begins with `.`, but for segments that are `.` or `..`,
/// is not hidden; a path with a segment that begins with `.` and is neither is hidden.
pub proof fn law_hidden_segments(path: Seq<char>)
    ensures
        is_hidden(path) <==> exists|i: int|
            0 <= i < split(path, '/').len() && {
                let segment = #[trigger] split(path, '/')[i];
                segment.len() > 0 && segment[0] == '.' && segment != seq!['.'] && segment != seq![
                    '.',
                    '.',
                ]
            },
{
    let segments = split(path, '/');
    assert forall|i: int| 0 <= i < segments.len() implies (is_hidden_segment(
        #[trigger] segments[i],
    ) <==> {
        let segment = segments[i];
        segment.len() > 0 && segment[0] == '.' && segment != seq!['.'] && segment != seq!['.', '.']
    }) by {
        let segment = segments[i];
        if segment.len() == 1 && segment[0] == '.' {
            assert(segment =~= seq!['.']);
        }
        if segment.len() == 2 && segment[0] == '.' && segment[1] == '.' {
            assert(segment =~= seq!['.', '.']);
        }
        assert(seq!['.'].len() == 1);
        assert(seq!['.', '.'].len() == 2 && seq!['.', '.'][1] == '.');
    }
}

} // verus!
