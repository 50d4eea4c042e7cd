//! Source-path handling for debug-symbol bundles.
//!
//! A host extracts the source paths referenced by a bundle's debug info and
//! reads the files; the path logic lives here: which paths are user source
//! rather than SDK noise, how colliding file names are disambiguated inside
//! the bundle, and how the manifest pairing each absolute path with its
//! bundle-relative path is assembled.

use vstd::prelude::*;
use vstd::string::StrSliceExecFns;
use vstd::string::StringExecFns;

use crate::strutil::{
    contains_chars, contains_seq, count_char, is_prefix, join_from, join_spec, join_str, lex_le,
    lex_le_str, split_char, split_spec, starts_with_chars, str_eq,
};

verus! {

/// Manifest stored inside the bundle: absolute DWARF source path paired
/// with the bundle-relative path holding its content, in input order.
#[derive(Debug, Clone, PartialEq)]
pub struct SourceManifest {
    pub version: u32,
    pub files: Vec<(String, String)>,
}

/// Collected source files ready to be added to a bundle.
#[derive(Debug, Clone, PartialEq)]
pub struct SourceFiles {
    pub manifest: SourceManifest,
    /// Bundle-relative path paired with the file content.
    pub contents: Vec<(String, Vec<u8>)>,
}

/// A path that names system or generated code rather than user source.
pub open spec fn excluded_path(p: Seq<char>) -> bool {
    ||| is_prefix("/usr/"@, p)
    ||| is_prefix("/Library/Developer/"@, p)
    ||| is_prefix("/Applications/Xcode"@, p)
    ||| is_prefix("/System/"@, p)
    ||| contains_seq(p, "/Xcode.app/"@)
    ||| contains_seq(p, "/SDKs/"@)
    ||| contains_seq(p, "<compiler-generated>"@)
    ||| contains_seq(p, "<built-in>"@)
    ||| contains_seq(p, "/DerivedData/"@)
}

/// The paths of `s` that are user source, in order.
pub open spec fn filtered_paths(s: Seq<Seq<char>>) -> Seq<Seq<char>>
    decreases s.len(),
{
    if s.len() == 0 {
        Seq::empty()
    } else {
        filtered_paths(s.drop_last()) + (if excluded_path(s.last()) {
            Seq::<Seq<char>>::empty()
        } else {
            seq![s.last()]
        })
    }
}

/// Executable test matching `excluded_path`.
fn is_excluded(p: &str) -> (r: bool)
    ensures
        r == excluded_path(p@),
{
    starts_with_chars(p, "/usr/") || starts_with_chars(p, "/Library/Developer/")
        || starts_with_chars(p, "/Applications/Xcode") || starts_with_chars(p, "/System/")
        || contains_chars(p, "/Xcode.app/") || contains_chars(p, "/SDKs/") || contains_chars(
        p,
        "<compiler-generated>",
    ) || contains_chars(p, "<built-in>") || contains_chars(p, "/DerivedData/")
}

/// Filter out system framework and SDK paths, keeping only user source
/// files, in their input order.
pub fn filter_source_paths<'a>(paths: &'a [String]) -> (r: Vec<&'a str>)
    ensures
        r.deep_view() == filtered_paths(paths@.map_values(|p: String| p@)),
{
    let ghost views: Seq<Seq<char>> = paths@.map_values(|p: String| p@);
    let mut r: Vec<&str> = Vec::new();
    let n = paths.len();
    let mut i: usize = 0;
    while i < n
        invariant
            n == paths@.len(),
            views == paths@.map_values(|p: String| p@),
            i <= n,
            r.deep_view() == filtered_paths(views.take(i as int)),
        decreases n - i,
    {
        let ghost before = r.deep_view();
        proof {
            assert(views.take(i + 1).drop_last() =~= views.take(i as int));
            assert(views.take(i + 1).last() == views[i as int]);
        }
        if !is_excluded(paths[i].as_str()) {
            r.push(paths[i].as_str());
            proof {
                assert(r.deep_view() =~~= before + seq![views[i as int]]);
            }
        }
        proof {
            assert(r.deep_view() =~~= filtered_paths(views.take(i + 1)));
        }
        i = i + 1;
    }
    proof {
        assert(views.take(n as int) =~= views);
    }
    r
}

/// Collapse runs of equal neighbouring paths to one: applied after sorting,
/// this leaves each path once.
pub open spec fn dedup_adjacent_spec(s: Seq<Seq<char>>) -> Seq<Seq<char>>
    decreases s.len(),
{
    if s.len() == 0 {
        s
    } else {
        let d = dedup_adjacent_spec(s.drop_last());
        if d.len() > 0 && d.last() == s.last() {
            d
        } else {
            d.push(s.last())
        }
    }
}

/// Remove neighbouring duplicates, keeping the first of each run.
pub fn dedup_adjacent_paths(paths: Vec<String>) -> (r: Vec<String>)
    ensures
        r.deep_view() == dedup_adjacent_spec(paths.deep_view()),
{
    let ghost views: Seq<Seq<char>> = paths.deep_view();
    let mut r: Vec<String> = Vec::new();
    let n = paths.len();
    let mut i: usize = 0;
    while i < n
        invariant
            n == paths@.len(),
            views == paths.deep_view(),
            i <= n,
            r.deep_view() == dedup_adjacent_spec(views.take(i as int)),
        decreases n - i,
    {
        let ghost before = r.deep_view();
        proof {
            assert(views.take(i + 1).drop_last() =~= views.take(i as int));
            assert(views.take(i + 1).last() == views[i as int]);
            assert(views[i as int] == paths@[i as int]@);
        }
        let len = r.len();
        let keep: bool = if len == 0 {
            true
        } else {
            !str_eq(r[len - 1].as_str(), paths[i].as_str())
        };
        if keep {
            r.push(paths[i].clone());
            proof {
                assert(r.deep_view() =~~= before.push(views[i as int]));
            }
        }
        proof {
            assert(r.deep_view() =~~= dedup_adjacent_spec(views.take(i + 1)));
        }
        i = i + 1;
    }
    proof {
        assert(views.take(n as int) =~= views);
    }
    r
}

/// Drop paths with no characters, keeping the rest in order.
pub fn drop_empty_paths(paths: Vec<String>) -> (r: Vec<String>)
    ensures
        r.deep_view() == nonempty_of(paths.deep_view()),
{
    let ghost views: Seq<Seq<char>> = paths.deep_view();
    let mut r: Vec<String> = Vec::new();
    let n = paths.len();
    let mut i: usize = 0;
    while i < n
        invariant
            n == paths@.len(),
            views == paths.deep_view(),
            i <= n,
            r.deep_view() == nonempty_of(views.take(i as int)),
        decreases n - i,
    {
        let ghost before = r.deep_view();
        proof {
            assert(views.take(i + 1).drop_last() =~= views.take(i as int));
            assert(views.take(i + 1).last() == views[i as int]);
            assert(views[i as int] == paths@[i as int]@);
        }
        if !paths[i].as_str().is_empty() {
            r.push(paths[i].clone());
            proof {
                assert(r.deep_view() =~~= before + seq![views[i as int]]);
            }
        }
        proof {
            assert(r.deep_view() =~~= nonempty_of(views.take(i + 1)));
        }
        i = i + 1;
    }
    proof {
        assert(views.take(n as int) =~= views);
    }
    r
}

/// Neighbouring paths are in lexicographic order.
pub open spec fn sorted_paths(s: Seq<Seq<char>>) -> bool {
    forall|i: int| 0 <= i < s.len() - 1 ==> lex_le(#[trigger] s[i], s[i + 1])
}

/// The position where `x` goes in an ordered list: past every entry that
/// is at most `x`.
fn insertion_point(r: &Vec<String>, x: &str) -> (pos: usize)
    ensures
        pos <= r@.len(),
        forall|j: int| 0 <= j < pos ==> lex_le(#[trigger] r.deep_view()[j], x@),
        pos < r@.len() ==> !lex_le(r.deep_view()[pos as int], x@),
{
    let n = r.len();
    let mut pos: usize = 0;
    while pos < n
        invariant
            n == r@.len(),
            pos <= n,
            forall|j: int| 0 <= j < pos ==> lex_le(#[trigger] r.deep_view()[j], x@),
        decreases n - pos,
    {
        let le = lex_le_str(r[pos].as_str(), x);
        proof {
            assert(r.deep_view()[pos as int] == r@[pos as int]@);
        }
        if !le {
            return pos;
        }
        pos = pos + 1;
    }
    pos
}

/// Sort paths into lexicographic order by characters: the result holds
/// exactly the input paths, neighbours in order.
pub fn sort_paths(paths: &Vec<String>) -> (r: Vec<String>)
    ensures
        sorted_paths(r.deep_view()),
        r.deep_view().to_multiset() == paths.deep_view().to_multiset(),
{
    let ghost paths_dv: Seq<Seq<char>> = paths.deep_view();
    let n = paths.len();
    let mut r: Vec<String> = Vec::new();
    proof {
        assert(r.deep_view() =~= paths_dv.take(0int));
    }
    let mut i: usize = 0;
    while i < n
        invariant
            n == paths@.len(),
            paths_dv == paths.deep_view(),
            i <= n,
            r@.len() == i,
            sorted_paths(r.deep_view()),
            r.deep_view().to_multiset() == paths_dv.take(i as int).to_multiset(),
        decreases n - i,
    {
        let x = paths[i].clone();
        let ghost xv = x@;
        proof {
            assert(xv == paths_dv[i as int]);
        }
        let pos = insertion_point(&r, x.as_str());
        let ghost before_dv = r.deep_view();
        proof {
            if pos < before_dv.len() {
                crate::strutil::lemma_lex_le_total(xv, before_dv[pos as int]);
            }
        }
        r.insert(pos, x);
        proof {
            broadcast use vstd::seq_lib::group_to_multiset_ensures;
            broadcast use vstd::multiset::group_multiset_axioms;
            broadcast use vstd::multiset::group_multiset_properties;

            let after_dv = r.deep_view();
            assert(after_dv.len() == before_dv.len() + 1);
            assert(after_dv[pos as int] == xv);
            assert(forall|j: int| 0 <= j < pos ==> #[trigger] after_dv[j] == before_dv[j]);
            assert(forall|j: int|
                pos < j < after_dv.len() ==> #[trigger] after_dv[j] == before_dv[j - 1]);
            assert forall|j: int| 0 <= j < after_dv.len() - 1 implies lex_le(
                #[trigger] after_dv[j],
                after_dv[j + 1],
            ) by {
                if j + 1 < pos {
                    assert(lex_le(before_dv[j], before_dv[j + 1]));
                } else if j + 1 == pos {
                    assert(lex_le(before_dv[j], xv));
                } else if j == pos {
                    assert(lex_le(xv, before_dv[j]));
                } else {
                    assert(lex_le(before_dv[j - 1], before_dv[j]));
                }
            }
            // the insertion adds exactly one copy of the new path
            assert(after_dv.remove(pos as int) =~= before_dv);
            assert(after_dv.remove(pos as int).to_multiset() =~= after_dv.to_multiset().remove(
                xv,
            ));
            assert(after_dv.contains(xv));
            assert(after_dv.to_multiset().count(xv) > 0);
            assert(after_dv.to_multiset() =~= before_dv.to_multiset().insert(xv)) by {
                assert(forall|y: Seq<char>|
                    y != xv ==> #[trigger] after_dv.to_multiset().count(y)
                        == before_dv.to_multiset().count(y));
                assert(after_dv.to_multiset().count(xv) == before_dv.to_multiset().count(xv)
                    + 1);
            }
            assert(paths_dv.take(i + 1) =~= paths_dv.take(i as int).push(xv));
            assert(paths_dv.take(i + 1).to_multiset() =~= paths_dv.take(
                i as int,
            ).to_multiset().insert(xv));
        }
        i = i + 1;
    }
    proof {
        assert(paths_dv.take(n as int) =~= paths_dv);
    }
    r
}

/// The nonempty `/`-separated components of a path.
pub open spec fn path_components(p: Seq<char>) -> Seq<Seq<char>> {
    nonempty_of(split_spec(p, '/'))
}

/// The nonempty elements of a sequence of segments, in order.
pub open spec fn nonempty_of(s: Seq<Seq<char>>) -> Seq<Seq<char>>
    decreases s.len(),
{
    if s.len() == 0 {
        Seq::empty()
    } else {
        nonempty_of(s.drop_last()) + (if s.last().len() == 0 {
            Seq::<Seq<char>>::empty()
        } else {
            seq![s.last()]
        })
    }
}

/// The nonempty `/`-separated components of a path.
fn components_of(p: &str) -> (r: Vec<String>)
    ensures
        r.deep_view() == path_components(p@),
{
    let parts = split_char(p, '/');
    let ghost part_views: Seq<Seq<char>> = parts.deep_view();
    let mut r: Vec<String> = Vec::new();
    let n = parts.len();
    let mut i: usize = 0;
    while i < n
        invariant
            n == parts@.len(),
            part_views == parts.deep_view(),
            i <= n,
            r.deep_view() == nonempty_of(part_views.take(i as int)),
        decreases n - i,
    {
        let ghost before = r.deep_view();
        proof {
            assert(part_views.take(i + 1).drop_last() =~= part_views.take(i as int));
            assert(part_views.take(i + 1).last() == part_views[i as int]);
            assert(part_views[i as int] == parts@[i as int]@);
        }
        if !parts[i].as_str().is_empty() {
            let ghost pv = parts@[i as int]@;
            r.push(parts[i].clone());
            proof {
                assert(r.deep_view() =~~= before + seq![pv]);
            }
        }
        proof {
            assert(r.deep_view() =~~= nonempty_of(part_views.take(i + 1)));
        }
        i = i + 1;
    }
    proof {
        assert(part_views.take(n as int) =~= part_views);
    }
    r
}

/// A valid bundle-relative name for a path: the `/`-join of some nonempty
/// suffix of its components, or the placeholder for a path without any.
pub open spec fn name_ok(p: Seq<char>, name: Seq<char>) -> bool {
    if path_components(p).len() == 0 {
        name == "unknown"@
    } else {
        exists|k: int|
            1 <= k <= path_components(p).len() && name == join_spec(
                #[trigger] path_components(p).skip(path_components(p).len() - k),
                "/"@,
            )
    }
}

/// The bundle name a path starts from: its file name — the last of its
/// nonempty components — or the placeholder for a path without any.
pub open spec fn base_name_of(p: Seq<char>) -> Seq<char> {
    if path_components(p).len() == 0 {
        "unknown"@
    } else {
        path_components(p).last()
    }
}

/// Some character of `s` is the path separator.
pub open spec fn has_slash(s: Seq<char>) -> bool {
    exists|i: int| 0 <= i < s.len() && s[i] == '/'
}

/// No other path starts from the same name as `paths[i]`.
pub open spec fn unique_base(paths: Seq<Seq<char>>, i: int) -> bool {
    forall|j: int|
        0 <= j < paths.len() && j != i ==> base_name_of(#[trigger] paths[j]) != base_name_of(
            paths[i],
        )
}

/// What the disambiguated names guarantee: one per path, each the
/// `/`-join of a nonempty suffix of its path's components (or the
/// placeholder), and a path whose starting name no other path shares keeps
/// exactly that name — collisions alone are deepened.
pub open spec fn zip_names_ok(paths: Seq<Seq<char>>, rels: Seq<Seq<char>>) -> bool {
    &&& rels.len() == paths.len()
    &&& forall|i: int| 0 <= i < paths.len() ==> name_ok(paths[i], #[trigger] rels[i])
    &&& forall|i: int|
        0 <= i < paths.len() && unique_base(paths, i) ==> #[trigger] rels[i] == base_name_of(
            paths[i],
        )
}

/// `names[idx]` occurs at some other position below `bound`.
pub open spec fn shares_name(names: Seq<Seq<char>>, idx: int, bound: int) -> bool {
    exists|j: int| 0 <= j < bound && j != idx && #[trigger] names[j] == names[idx]
}

/// Every nonempty-filtered element is one of the originals.
proof fn lemma_nonempty_of_membership(s: Seq<Seq<char>>)
    ensures
        forall|k: int|
            0 <= k < nonempty_of(s).len() ==> exists|k0: int|
                0 <= k0 < s.len() && s[k0] == #[trigger] nonempty_of(s)[k],
    decreases s.len(),
{
    if s.len() > 0 {
        lemma_nonempty_of_membership(s.drop_last());
        let prev = nonempty_of(s.drop_last());
        assert forall|k: int| 0 <= k < nonempty_of(s).len() implies exists|k0: int|
            0 <= k0 < s.len() && s[k0] == #[trigger] nonempty_of(s)[k] by {
            if k < prev.len() {
                assert(nonempty_of(s)[k] == prev[k]);
                let k0 = choose|k0: int|
                    0 <= k0 < s.drop_last().len() && s.drop_last()[k0] == prev[k];
                assert(s[k0] == nonempty_of(s)[k]);
            } else {
                assert(nonempty_of(s)[k] == s.last());
                assert(s[s.len() - 1] == nonempty_of(s)[k]);
            }
        }
    }
}

/// No character of any path component is the separator.
proof fn lemma_components_no_slash(p: Seq<char>)
    ensures
        forall|k: int, idx: int|
            0 <= k < path_components(p).len() && 0 <= idx < path_components(p)[k].len()
                ==> #[trigger] path_components(p)[k][idx] != '/',
{
    crate::strutil::lemma_split_no_sep(p, '/');
    lemma_nonempty_of_membership(split_spec(p, '/'));
    assert forall|k: int, idx: int|
        0 <= k < path_components(p).len() && 0 <= idx < path_components(p)[k].len()
            implies #[trigger] path_components(p)[k][idx] != '/' by {
        let seg = path_components(p)[k];
        let k0 = choose|k0: int|
            0 <= k0 < split_spec(p, '/').len() && split_spec(p, '/')[k0] == seg;
        assert(split_spec(p, '/')[k0][idx] != '/');
    }
}

/// A starting name holds no separator.
proof fn lemma_base_name_no_slash(p: Seq<char>)
    ensures
        !has_slash(base_name_of(p)),
{
    if path_components(p).len() == 0 {
        reveal_strlit("unknown");
        assert forall|i: int| 0 <= i < "unknown"@.len() implies "unknown"@[i] != '/' by {
            if i == 0 {
                assert("unknown"@[0] != '/');
            } else if i == 1 {
                assert("unknown"@[1] != '/');
            } else if i == 2 {
                assert("unknown"@[2] != '/');
            } else if i == 3 {
                assert("unknown"@[3] != '/');
            } else if i == 4 {
                assert("unknown"@[4] != '/');
            } else if i == 5 {
                assert("unknown"@[5] != '/');
            } else {
                assert("unknown"@[6] != '/');
            }
        }
    } else {
        lemma_components_no_slash(p);
        let b = base_name_of(p);
        assert forall|i: int| 0 <= i < b.len() implies b[i] != '/' by {
            assert(path_components(p)[path_components(p).len() - 1][i] != '/');
        }
    }
}

/// The join of a single part is that part.
proof fn lemma_join_single(parts: Seq<Seq<char>>, sep: Seq<char>)
    requires
        parts.len() == 1,
    ensures
        join_spec(parts, sep) == parts[0],
{
    assert(join_from(parts, sep, 1) == Seq::<char>::empty());
    assert(join_spec(parts, sep) =~= parts[0]);
}

/// The join of two or more parts holds the separator.
proof fn lemma_join_many_has_slash(parts: Seq<Seq<char>>)
    requires
        parts.len() >= 2,
    ensures
        has_slash(join_spec(parts, "/"@)),
{
    reveal_strlit("/");
    let sep = "/"@;
    let tail = join_from(parts, sep, 1);
    assert(tail == sep + parts[1] + join_from(parts, sep, 2));
    assert(tail.len() >= 1);
    assert(tail[0] == '/');
    assert(join_spec(parts, sep) == Seq::<char>::empty() + parts[0] + tail);
    let idx = parts[0].len() as int;
    assert((Seq::<char>::empty() + parts[0]).len() == parts[0].len());
    assert(join_spec(parts, sep)[idx] == tail[0]);
    assert(has_slash(join_spec(parts, sep)));
}

/// The suffix-join of one component is the starting name; of two or more,
/// a name holding the separator.
proof fn lemma_suffix_join_shape(p: Seq<char>, depth: int)
    requires
        1 <= depth <= path_components(p).len(),
    ensures
        depth == 1 ==> join_spec(
            path_components(p).skip(path_components(p).len() - 1),
            "/"@,
        ) == base_name_of(p),
        depth >= 2 ==> has_slash(
            join_spec(path_components(p).skip(path_components(p).len() - depth), "/"@),
        ),
{
    let comps = path_components(p);
    let parts = comps.skip(comps.len() - depth);
    assert(parts.len() == depth);
    if depth == 1 {
        lemma_join_single(parts, "/"@);
        assert(parts[0] == comps.last());
    } else {
        lemma_join_many_has_slash(parts);
    }
}

/// The join of the last `depth` components of `comps`.
fn join_suffix(comps: &Vec<String>, depth: usize) -> (r: String)
    requires
        1 <= depth <= comps@.len(),
    ensures
        r@ == join_spec(comps.deep_view().skip(comps.deep_view().len() - depth), "/"@),
{
    let n = comps.len();
    let mut tail: Vec<String> = Vec::new();
    let mut i: usize = n - depth;
    while i < n
        invariant
            n == comps@.len(),
            n - depth <= i <= n,
            depth <= n,
            tail.deep_view() == comps.deep_view().subrange(n - depth, i as int),
        decreases n - i,
    {
        let ghost before = tail.deep_view();
        tail.push(comps[i].clone());
        proof {
            assert(tail.deep_view() =~~= before.push(comps.deep_view()[i as int]));
            assert(before.push(comps.deep_view()[i as int]) =~~= comps.deep_view().subrange(
                n - depth,
                i + 1,
            ));
        }
        i = i + 1;
    }
    proof {
        assert(comps.deep_view().subrange(n - depth, n as int) =~= comps.deep_view().skip(
            n - depth,
        ));
    }
    join_str(&tail, "/")
}

/// Build disambiguated bundle-relative paths: each entry starts as its
/// path's file name and is lengthened by parent components only while it
/// collides with another entry, so a file name shared with nobody is kept
/// exactly. Every result is a suffix-join of its path's components.
pub fn build_zip_relative_paths(paths: &Vec<String>) -> (r: Vec<String>)
    ensures
        r@.len() == paths@.len(),
        zip_names_ok(paths.deep_view(), r.deep_view()),
{
    let ghost paths_dv: Seq<Seq<char>> = paths.deep_view();
    let n = paths.len();
    let mut result: Vec<String> = Vec::new();
    let mut i: usize = 0;
    // Start with just the file name.
    while i < n
        invariant
            n == paths@.len(),
            paths_dv == paths.deep_view(),
            i <= n,
            result@.len() == i,
            forall|j: int|
                0 <= j < i ==> name_ok(paths_dv[j], #[trigger] result.deep_view()[j]),
            forall|j: int|
                0 <= j < i ==> #[trigger] result.deep_view()[j] == base_name_of(paths_dv[j]),
        decreases n - i,
    {
        let ghost before = result.deep_view();
        let ghost pv = paths_dv[i as int];
        proof {
            assert(paths[i as int]@ == pv);
        }
        let comps = components_of(paths[i].as_str());
        let m = comps.len();
        if m == 0 {
            result.push(String::from_str("unknown"));
            proof {
                assert(path_components(pv).len() == 0);
                assert(result.deep_view()[i as int] == "unknown"@);
                assert(result.deep_view()[i as int] == base_name_of(pv));
                assert(name_ok(pv, result.deep_view()[i as int]));
            }
        } else {
            let name = join_suffix(&comps, 1);
            let ghost nv = name@;
            result.push(name);
            proof {
                assert(comps.deep_view() == path_components(pv));
                assert(result.deep_view()[i as int] == nv);
                assert(nv == join_spec(
                    path_components(pv).skip(path_components(pv).len() - 1),
                    "/"@,
                ));
                lemma_suffix_join_shape(pv, 1);
                assert(result.deep_view()[i as int] == base_name_of(pv));
                assert(name_ok(pv, result.deep_view()[i as int]));
            }
        }
        proof {
            assert(forall|j: int| 0 <= j < i ==> #[trigger] result.deep_view()[j] == before[j]);
        }
        i = i + 1;
    }
    // Resolve collisions by adding one more parent component per round; a
    // bounded number of rounds keeps the loop total even for paths that can
    // never be told apart. Throughout, every entry is either its path's
    // starting name or a deepened name holding a separator, and an entry
    // whose starting name is unique is never touched.
    let mut round: usize = 0;
    while round < 10
        invariant
            n == paths@.len(),
            paths_dv == paths.deep_view(),
            paths_dv.len() == n,
            result@.len() == n,
            forall|j: int|
                0 <= j < n ==> name_ok(paths_dv[j], #[trigger] result.deep_view()[j]),
            forall|j: int|
                0 <= j < n ==> #[trigger] result.deep_view()[j] == base_name_of(paths_dv[j])
                    || has_slash(result.deep_view()[j]),
            forall|j: int|
                0 <= j < n && unique_base(paths_dv, j) ==> #[trigger] result.deep_view()[j]
                    == base_name_of(paths_dv[j]),
        decreases 10 - round,
    {
        let ghost r_start: Seq<Seq<char>> = result.deep_view();
        let mut dup: Vec<bool> = Vec::new();
        let mut i2: usize = 0;
        while i2 < n
            invariant
                n == result@.len(),
                r_start == result.deep_view(),
                i2 <= n,
                dup@.len() == i2,
                forall|idx: int|
                    0 <= idx < i2 ==> #[trigger] dup@[idx] == shares_name(
                        r_start,
                        idx,
                        n as int,
                    ),
            decreases n - i2,
        {
            let mut seen = false;
            let mut j: usize = 0;
            while j < n
                invariant
                    n == result@.len(),
                    r_start == result.deep_view(),
                    i2 < n,
                    j <= n,
                    seen == shares_name(r_start, i2 as int, j as int),
                decreases n - j,
            {
                let is_other = j != i2;
                let eq = str_eq(result[j].as_str(), result[i2].as_str());
                proof {
                    assert(r_start[j as int] == result@[j as int]@);
                    assert(r_start[i2 as int] == result@[i2 as int]@);
                    if shares_name(r_start, i2 as int, j as int) {
                        let w = choose|w: int|
                            0 <= w < j && w != i2 && #[trigger] r_start[w] == r_start[i2 as int];
                        assert(0 <= w < j + 1 && w != i2 && r_start[w] == r_start[i2 as int]);
                        assert(shares_name(r_start, i2 as int, j + 1));
                    }
                }
                if is_other && eq {
                    proof {
                        assert(r_start[j as int] == r_start[i2 as int]);
                        assert(shares_name(r_start, i2 as int, j + 1));
                    }
                    seen = true;
                } else {
                    proof {
                        if shares_name(r_start, i2 as int, j + 1) {
                            let w = choose|w: int|
                                0 <= w < j + 1 && w != i2 && #[trigger] r_start[w]
                                    == r_start[i2 as int];
                            if w == j {
                                assert(j != i2);
                                assert(r_start[j as int] == r_start[i2 as int]);
                                assert(false);
                            } else {
                                assert(shares_name(r_start, i2 as int, j as int));
                            }
                        }
                    }
                }
                j = j + 1;
            }
            dup.push(seen);
            i2 = i2 + 1;
        }
        let mut k: usize = 0;
        while k < n
            invariant
                n == paths@.len(),
                paths_dv == paths.deep_view(),
                paths_dv.len() == n,
                result@.len() == n,
                dup@.len() == n,
                k <= n,
                r_start.len() == n,
                forall|idx: int|
                    0 <= idx < n ==> #[trigger] dup@[idx] == shares_name(
                        r_start,
                        idx,
                        n as int,
                    ),
                forall|j: int|
                    0 <= j < n ==> #[trigger] r_start[j] == base_name_of(paths_dv[j])
                        || has_slash(r_start[j]),
                forall|j: int|
                    0 <= j < n && unique_base(paths_dv, j) ==> #[trigger] r_start[j]
                        == base_name_of(paths_dv[j]),
                forall|j: int|
                    0 <= j < n ==> name_ok(paths_dv[j], #[trigger] result.deep_view()[j]),
                forall|j: int|
                    0 <= j < n ==> #[trigger] result.deep_view()[j] == base_name_of(paths_dv[j])
                        || has_slash(result.deep_view()[j]),
                forall|j: int|
                    0 <= j < n && unique_base(paths_dv, j) ==> #[trigger] result.deep_view()[j]
                        == base_name_of(paths_dv[j]),
            decreases n - k,
        {
            if dup[k] {
                let ghost pv = paths_dv[k as int];
                proof {
                    // A unique starting name never collides: every other
                    // entry is either its own distinct starting name or a
                    // deepened name holding a separator, and starting
                    // names hold none.
                    if unique_base(paths_dv, k as int) {
                        assert(shares_name(r_start, k as int, n as int));
                        let w = choose|w: int|
                            0 <= w < n && w != k && #[trigger] r_start[w] == r_start[k as int];
                        assert(r_start[k as int] == base_name_of(pv));
                        lemma_base_name_no_slash(pv);
                        lemma_base_name_no_slash(paths_dv[w]);
                        if r_start[w] == base_name_of(paths_dv[w]) {
                            assert(base_name_of(paths_dv[w]) != base_name_of(pv));
                            assert(false);
                        } else {
                            assert(has_slash(r_start[w]));
                            assert(has_slash(base_name_of(pv)));
                            assert(false);
                        }
                    }
                }
                let comps = components_of(paths[k].as_str());
                let m = comps.len();
                if m > 0 {
                    let current_depth = match count_char(result[k].as_str(), '/').checked_add(1) {
                        Some(d) => d,
                        None => m,
                    };
                    let new_depth = if current_depth >= m {
                        m
                    } else {
                        current_depth + 1
                    };
                    let name = join_suffix(&comps, new_depth);
                    let ghost nv = name@;
                    let ghost before_dv = result.deep_view();
                    proof {
                        assert(comps.deep_view() == path_components(pv));
                        assert(1 <= new_depth <= path_components(pv).len());
                        assert(name_ok(pv, nv));
                        lemma_suffix_join_shape(pv, new_depth as int);
                        if new_depth == 1 {
                            assert(nv == base_name_of(pv));
                        } else {
                            assert(has_slash(nv));
                        }
                    }
                    result.remove(k);
                    let ghost removed_dv = result.deep_view();
                    result.insert(k, name);
                    proof {
                        assert(forall|j: int|
                            0 <= j < k ==> #[trigger] result.deep_view()[j] == before_dv[j]);
                        assert(forall|j: int|
                            k < j < n ==> #[trigger] result.deep_view()[j] == removed_dv[j - 1]
                                && removed_dv[j - 1] == before_dv[j]);
                        assert(result.deep_view()[k as int] == nv);
                    }
                }
            }
            k = k + 1;
        }
        round = round + 1;
    }
    proof {
        assert(zip_names_ok(paths_dv, result.deep_view()));
    }
    result
}

/// The bundle rows owed for `paths[i..]`: one row per path whose bytes
/// could be read — its absolute path, its bundle path under the source
/// prefix, and its bytes — in input order; unreadable paths contribute
/// nothing.
pub open spec fn bundle_rows(
    paths: Seq<Seq<char>>,
    datas: Seq<Option<Seq<u8>>>,
    rels: Seq<Seq<char>>,
    i: int,
) -> Seq<(Seq<char>, Seq<char>, Seq<u8>)>
    decreases paths.len() - i,
{
    if i < 0 || i >= paths.len() {
        Seq::empty()
    } else {
        (match datas[i] {
            None => Seq::<(Seq<char>, Seq<char>, Seq<u8>)>::empty(),
            Some(d) => seq![(paths[i], "__source/"@ + rels[i], d)],
        }) + bundle_rows(paths, datas, rels, i + 1)
    }
}

/// The rows a manifest-and-contents pair holds, position by position.
pub open spec fn rows_of(
    files: Seq<(String, String)>,
    contents: Seq<(String, Vec<u8>)>,
) -> Seq<(Seq<char>, Seq<char>, Seq<u8>)> {
    Seq::new(files.len(), |j: int| (files[j].0@, files[j].1@, contents[j].1@))
}

/// Pair each readable source file with a bundle path under the source
/// prefix, producing the manifest and the contents: exactly one row per
/// readable input, in input order, carrying that input's own path, its
/// disambiguated bundle-relative name, and its bytes. A path whose content
/// could not be read is skipped.
pub fn assemble_source_files(dwarf_paths: &Vec<String>, datas: Vec<Option<Vec<u8>>>) -> (r:
    SourceFiles)
    requires
        dwarf_paths@.len() == datas@.len(),
    ensures
        r.manifest.version == 1,
        r.manifest.files@.len() == r.contents@.len(),
        forall|j: int|
            0 <= j < r.manifest.files@.len() ==> #[trigger] r.contents@[j].0@
                == r.manifest.files@[j].1@,
        (exists|rels: Seq<Seq<char>>|
            {
                &&& #[trigger] zip_names_ok(dwarf_paths.deep_view(), rels)
                &&& rows_of(r.manifest.files@, r.contents@) == bundle_rows(
                    dwarf_paths.deep_view(),
                    datas.deep_view(),
                    rels,
                    0,
                )
            }),
{
    let zip_rels = build_zip_relative_paths(dwarf_paths);
    let n = dwarf_paths.len();
    let ghost paths_dv: Seq<Seq<char>> = dwarf_paths.deep_view();
    let ghost datas_dv: Seq<Option<Seq<u8>>> = datas.deep_view();
    let ghost rels_dv: Seq<Seq<char>> = zip_rels.deep_view();
    let ghost datas0 = datas@;
    let mut datas = datas;
    let mut files: Vec<(String, String)> = Vec::new();
    let mut contents: Vec<(String, Vec<u8>)> = Vec::new();
    let mut i: usize = 0;
    while i < n
        invariant
            n == dwarf_paths@.len(),
            paths_dv == dwarf_paths.deep_view(),
            rels_dv == zip_rels.deep_view(),
            zip_rels@.len() == n,
            zip_names_ok(paths_dv, rels_dv),
            datas0.len() == n,
            datas_dv.len() == n,
            forall|x: int|
                0 <= x < n ==> #[trigger] datas_dv[x] == (match datas0[x] {
                    Some(v) => Some(v@),
                    None => None,
                }),
            i <= n,
            datas@ == datas0.skip(i as int),
            files@.len() == contents@.len(),
            forall|j: int|
                0 <= j < files@.len() ==> #[trigger] contents@[j].0@ == files@[j].1@,
            rows_of(files@, contents@) + bundle_rows(paths_dv, datas_dv, rels_dv, i as int)
                == bundle_rows(paths_dv, datas_dv, rels_dv, 0),
        decreases n - i,
    {
        let ghost rows_before = rows_of(files@, contents@);
        let d = datas.remove(0);
        proof {
            assert(datas0.skip(i as int)[0] == datas0[i as int]);
            assert(datas@ =~= datas0.skip(i + 1));
        }
        match d {
            Some(data) => {
                let ghost data_view = data@;
                let zip_path = String::from_str("__source/").concat(zip_rels[i].as_str());
                proof {
                    assert(zip_rels@[i as int]@ == rels_dv[i as int]);
                    assert(zip_path@ == "__source/"@ + rels_dv[i as int]);
                    assert(paths_dv[i as int] == dwarf_paths@[i as int]@);
                    assert(datas_dv[i as int] == Some(data_view));
                }
                files.push((dwarf_paths[i].clone(), zip_path.clone()));
                contents.push((zip_path, data));
                proof {
                    assert(rows_of(files@, contents@) =~= rows_before.push(
                        (paths_dv[i as int], "__source/"@ + rels_dv[i as int], data_view),
                    ));
                    assert(bundle_rows(paths_dv, datas_dv, rels_dv, i as int) == seq![
                        (paths_dv[i as int], "__source/"@ + rels_dv[i as int], data_view),
                    ] + bundle_rows(paths_dv, datas_dv, rels_dv, i + 1));
                    assert(rows_of(files@, contents@) + bundle_rows(
                        paths_dv,
                        datas_dv,
                        rels_dv,
                        i + 1,
                    ) =~= bundle_rows(paths_dv, datas_dv, rels_dv, 0));
                }
            },
            None => {
                proof {
                    assert(datas_dv[i as int] is None);
                    assert(bundle_rows(paths_dv, datas_dv, rels_dv, i as int) == bundle_rows(
                        paths_dv,
                        datas_dv,
                        rels_dv,
                        i + 1,
                    ));
                }
            },
        }
        i = i + 1;
    }
    proof {
        assert(bundle_rows(paths_dv, datas_dv, rels_dv, n as int) =~= Seq::<
            (Seq<char>, Seq<char>, Seq<u8>),
        >::empty());
        assert(rows_of(files@, contents@) =~= bundle_rows(paths_dv, datas_dv, rels_dv, 0));
    }
    SourceFiles { manifest: SourceManifest { version: 1, files }, contents }
}

} // verus!
