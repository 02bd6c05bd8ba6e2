//! The dependency list of a build: a text of paths separated by white space, in which
//! a backslash before white space stands for a blank in a path. The first path is
//! the build's own output; of the others, those that end in the marker of a unit's
//! build output belong to a unit that wrote a manifest.

use vstd::prelude::*;
use vstd::string::StringExecFns;
use crate::text::{chars_of, text_of_chars};

verus! {

/// Whether `c` is white space, as Unicode defines it.
pub open spec fn is_space(c: char) -> bool {
    let n = c as u32;
    ||| 0x09 <= n <= 0x0d
    ||| n == 0x20
    ||| n == 0x85
    ||| n == 0xa0
    ||| n == 0x1680
    ||| 0x2000 <= n <= 0x200a
    ||| n == 0x2028
    ||| n == 0x2029
    ||| n == 0x202f
    ||| n == 0x205f
    ||| n == 0x3000
}

/// The piece `cur`, unless it is empty.
pub open spec fn flush(cur: Seq<char>) -> Seq<Seq<char>> {
    if cur.len() > 0 {
        seq![cur]
    } else {
        Seq::empty()
    }
}

/// The pieces of `cur` followed by `rest`, where `cur` is the start of a piece and
/// holds no white space.
pub open spec fn pieces_from(cur: Seq<char>, rest: Seq<char>) -> Seq<Seq<char>>
    decreases rest.len(),
{
    if rest.len() == 0 {
        flush(cur)
    } else if is_space(rest[0]) {
        flush(cur) + pieces_from(Seq::empty(), rest.drop_first())
    } else {
        pieces_from(cur.push(rest[0]), rest.drop_first())
    }
}

/// The pieces of `text`: its longest runs of characters that are not white space, in
/// order.
pub open spec fn pieces(text: Seq<char>) -> Seq<Seq<char>> {
    pieces_from(Seq::empty(), text)
}

/// Whether a piece goes on with the next one: it ends in a backslash, which stood
/// before white space and made a blank of it.
pub open spec fn continues(piece: Seq<char>) -> bool {
    piece.len() > 0 && piece.last() == '\\'
}

/// The paths made of `cur` and the pieces `rest` after it.
pub open spec fn joined_from(cur: Seq<char>, rest: Seq<Seq<char>>) -> Seq<Seq<char>>
    decreases rest.len(),
{
    if rest.len() == 0 {
        seq![cur]
    } else if continues(cur) {
        joined_from(cur.drop_last().push(' ') + rest[0], rest.drop_first())
    } else {
        seq![cur] + joined_from(rest[0], rest.drop_first())
    }
}

/// The paths that `pieces` make: each piece that ends in a backslash is joined with
/// the one after it, with a blank in place of the backslash.
pub open spec fn joined(pieces: Seq<Seq<char>>) -> Seq<Seq<char>> {
    if pieces.len() == 0 {
        Seq::empty()
    } else {
        joined_from(pieces[0], pieces.drop_first())
    }
}

/// The paths of a dependency list but the first, which is the build's own output.
pub open spec fn dependency_paths(text: Seq<char>) -> Seq<Seq<char>> {
    let paths = joined(pieces(text));
    if paths.len() == 0 {
        paths
    } else {
        paths.drop_first()
    }
}

/// Whether `text` ends in `suffix`.
pub open spec fn ends_with(text: Seq<char>, suffix: Seq<char>) -> bool {
    text.len() >= suffix.len() && text.subrange(text.len() - suffix.len(), text.len() as int)
        == suffix
}

/// Whether a path is the marker of a unit's build output.
pub open spec fn is_marker(path: Seq<char>) -> bool {
    ends_with(path, "out/embed_js_preamble.rs"@) || ends_with(path, "out\\embed_js_preamble.rs"@)
}

/// The file name of a marker.
pub open spec fn marker_name() -> Seq<char> {
    "embed_js_preamble.rs"@
}

/// The file name of a manifest.
pub open spec fn manifest_name() -> Seq<char> {
    "embed_js_data.json"@
}

/// The markers among the paths of a dependency list, in order.
pub open spec fn manifest_markers(text: Seq<char>) -> Seq<Seq<char>> {
    dependency_paths(text).filter(|p: Seq<char>| is_marker(p))
}

/// The path of the manifest that lies beside the marker `marker`: the marker's path
/// with the manifest's file name in place of the marker's.
pub open spec fn manifest_beside(marker: Seq<char>) -> Seq<char> {
    marker.take(marker.len() - marker_name().len()) + manifest_name()
}

/// The paths of the manifests of a dependency list: one beside each marker, in order.
pub open spec fn manifest_paths_of(text: Seq<char>) -> Seq<Seq<char>> {
    manifest_markers(text).map_values(|marker: Seq<char>| manifest_beside(marker))
}

/// The texts of `rows`, in order.
pub open spec fn rows_view(rows: Seq<Vec<char>>) -> Seq<Seq<char>> {
    Seq::new(rows.len(), |i: int| rows[i]@)
}

/// The texts of `paths`, in order.
pub open spec fn paths_view(paths: Seq<String>) -> Seq<Seq<char>> {
    Seq::new(paths.len(), |i: int| paths[i]@)
}

/// Whether `c` is white space.
fn space(c: char) -> (r: bool)
    ensures
        r == is_space(c),
{
    let n = c as u32;
    (0x09 <= n && n <= 0x0d) || n == 0x20 || n == 0x85 || n == 0xa0 || n == 0x1680 || (0x2000 <= n
        && n <= 0x200a) || n == 0x2028 || n == 0x2029 || n == 0x202f || n == 0x205f || n == 0x3000
}

/// A copy of `row`.
fn copy_row(row: &Vec<char>) -> (r: Vec<char>)
    ensures
        r@ == row@,
{
    let mut out: Vec<char> = Vec::new();
    let mut i: usize = 0;
    while i < row.len()
        invariant
            i <= row@.len(),
            out@ == row@.take(i as int),
        decreases row@.len() - i,
    {
        out.push(row[i]);
        i += 1;
    }
    out
}

/// Splits a text at white space.
fn split_pieces(text: &Vec<char>) -> (r: Vec<Vec<char>>)
    ensures
        rows_view(r@) == pieces(text@),
{
    let mut out: Vec<Vec<char>> = Vec::new();
    let mut cur: Vec<char> = Vec::new();
    let mut i: usize = 0;
    assert(text@.skip(0) =~= text@);
    while i < text.len()
        invariant
            i <= text@.len(),
            pieces(text@) == rows_view(out@) + pieces_from(cur@, text@.skip(i as int)),
        decreases text@.len() - i,
    {
        let c = text[i];
        let ghost rest = text@.skip(i as int);
        assert(rest.drop_first() =~= text@.skip(i + 1));
        if space(c) {
            if cur.len() > 0 {
                out.push(cur);
                cur = Vec::new();
            } else {
                assert(cur@ =~= Seq::<char>::empty());
            }
        } else {
            cur.push(c);
        }
        i += 1;
    }
    if cur.len() > 0 {
        out.push(cur);
    }
    out
}

/// Joins each piece that ends in a backslash with the piece after it, with a blank
/// in place of the backslash.
fn join_continued(pieces: &Vec<Vec<char>>) -> (r: Vec<Vec<char>>)
    ensures
        rows_view(r@) == joined(rows_view(pieces@)),
{
    let mut out: Vec<Vec<char>> = Vec::new();
    if pieces.len() == 0 {
        return out;
    }
    let ghost all = rows_view(pieces@);
    let mut cur: Vec<char> = copy_row(&pieces[0]);
    let mut i: usize = 1;
    while i < pieces.len()
        invariant
            1 <= i <= pieces@.len(),
            all == rows_view(pieces@),
            joined(all) == rows_view(out@) + joined_from(cur@, all.skip(i as int)),
        decreases pieces@.len() - i,
    {
        let ghost rest = all.skip(i as int);
        assert(rest.drop_first() =~= all.skip(i + 1));
        let goes_on = cur.len() > 0 && cur[cur.len() - 1] == '\\';
        if goes_on {
            let next = &pieces[i];
            cur.pop();
            cur.push(' ');
            let ghost start = cur@;
            let mut k: usize = 0;
            while k < next.len()
                invariant
                    k <= next@.len(),
                    cur@ == start + next@.take(k as int),
                decreases next@.len() - k,
            {
                cur.push(next[k]);
                k += 1;
            }
            assert(next@.take(next@.len() as int) =~= next@);
        } else {
            out.push(cur);
            cur = copy_row(&pieces[i]);
        }
        i += 1;
    }
    out.push(cur);
    out
}

/// Whether `text` ends in `suffix`.
fn has_suffix(text: &Vec<char>, suffix: &Vec<char>) -> (r: bool)
    ensures
        r == ends_with(text@, suffix@),
{
    if text.len() < suffix.len() {
        return false;
    }
    let len = text.len();
    let start = len - suffix.len();
    let ghost tail = text@.subrange(start as int, text@.len() as int);
    let mut k: usize = 0;
    while k < suffix.len()
        invariant
            k <= suffix@.len(),
            len == text@.len(),
            start + suffix@.len() == len,
            tail == text@.subrange(start as int, text@.len() as int),
            forall|j: int| 0 <= j < k ==> tail[j] == suffix@[j],
        decreases suffix@.len() - k,
    {
        if text[start + k] != suffix[k] {
            return false;
        }
        k += 1;
    }
    assert(tail =~= suffix@);
    true
}

/// The markers of units that wrote a manifest, among the paths that the dependency
/// list `text` names after its first.
pub fn manifest_marker_paths(text: &str) -> (r: Vec<String>)
    ensures
        paths_view(r@) == manifest_markers(text@),
{
    let chars = chars_of(text);
    let split = split_pieces(&chars);
    let paths = join_continued(&split);
    let unix = chars_of("out/embed_js_preamble.rs");
    let windows = chars_of("out\\embed_js_preamble.rs");
    let ghost all = rows_view(paths@);
    let ghost keep = |p: Seq<char>| is_marker(p);
    let mut out: Vec<String> = Vec::new();
    if paths.len() == 0 {
        return out;
    }
    let mut i: usize = 1;
    while i < paths.len()
        invariant
            1 <= i <= paths@.len(),
            all == rows_view(paths@),
            all == joined(pieces(text@)),
            keep == |p: Seq<char>| is_marker(p),
            unix@ == "out/embed_js_preamble.rs"@,
            windows@ == "out\\embed_js_preamble.rs"@,
            paths_view(out@) == all.drop_first().take(i - 1).filter(keep),
        decreases paths@.len() - i,
    {
        let path = &paths[i];
        let ghost before = all.drop_first().take(i - 1);
        let ghost next = all.drop_first().take(i as int);
        assert(next.drop_last() =~= before);
        proof {
            reveal(Seq::filter);
        }
        if has_suffix(path, &unix) || has_suffix(path, &windows) {
            let name = text_of_chars(path.as_slice());
            out.push(name);
        }
        i += 1;
    }
    assert(all.drop_first().take(all.len() - 1) =~= all.drop_first());
    out
}

/// The path of the manifest that lies beside a marker.
fn manifest_path(marker: &str) -> (r: String)
    requires
        is_marker(marker@),
    ensures
        r@ == manifest_beside(marker@),
{
    proof {
        reveal_strlit("embed_js_preamble.rs");
        reveal_strlit("out/embed_js_preamble.rs");
        reveal_strlit("out\\embed_js_preamble.rs");
    }
    let chars = chars_of(marker);
    let mut out = String::new();
    let keep = chars.len() - 20;
    let mut i: usize = 0;
    while i < keep
        invariant
            i <= keep <= chars@.len(),
            out@ == chars@.take(i as int),
        decreases keep - i,
    {
        out.push(chars[i]);
        i += 1;
    }
    out.append("embed_js_data.json");
    out
}

/// The paths of the manifests that a link reads: one beside each marker that the
/// dependency list `text` names after its first path.
pub fn manifest_paths(text: &str) -> (r: Vec<String>)
    ensures
        paths_view(r@) == manifest_paths_of(text@),
{
    let markers = manifest_marker_paths(text);
    let mut out: Vec<String> = Vec::new();
    let mut i: usize = 0;
    while i < markers.len()
        invariant
            i <= markers@.len(),
            paths_view(markers@) == manifest_markers(text@),
            out@.len() == i,
            forall|j: int| 0 <= j < i ==> (#[trigger] out@[j])@ == manifest_beside(markers@[j]@),
        decreases markers@.len() - i,
    {
        proof {
            dependency_paths(text@).lemma_filter_pred(|p: Seq<char>| is_marker(p), i as int);
        }
        out.push(manifest_path(markers[i].as_str()));
        i += 1;
    }
    out
}

} // verus!
