//! Diagram files: which diagrams the pages reference, and which files on disk
//! belong to none.

use vstd::prelude::*;
use crate::serve::is_id_char;
use crate::text::{ends_with, occurs_at, occurs_at_exec, slice_of, starts_with, string_of, to_chars, range_eq};

verus! {

/// The pattern of a diagram reference: `diagram-<id>.svg`.
pub const DIAGRAM_REF_PATTERN: &'static str = "diagram-([A-Za-z0-9_-]+)\\.svg";

/// `diagram-`
pub open spec fn diagram_prefix() -> Seq<char> {
    seq!['d', 'i', 'a', 'g', 'r', 'a', 'm', '-']
}

/// `.svg`
pub open spec fn svg_ext() -> Seq<char> {
    seq!['.', 's', 'v', 'g']
}

/// The end of the run of id characters that starts at `j`.
pub open spec fn id_run_end(s: Seq<char>, j: nat) -> nat
    decreases s.len() - j,
{
    if j < s.len() && is_id_char(s[j as int]) {
        id_run_end(s, j + 1)
    } else {
        j
    }
}

pub proof fn lemma_id_run_end(s: Seq<char>, j: nat)
    ensures
        j <= id_run_end(s, j),
        j <= s.len() ==> id_run_end(s, j) <= s.len(),
        forall|k: int| j <= k < id_run_end(s, j) ==> is_id_char(#[trigger] s[k]),
    decreases s.len() - j,
{
    if j < s.len() && is_id_char(s[j as int]) {
        lemma_id_run_end(s, j + 1);
    }
}

/// The end of the reference `diagram-<id>.svg` that starts at `i`, if one does:
/// `diagram-`, one or more id characters (as many as there are), then `.svg`.
pub open spec fn diagram_ref_at(s: Seq<char>, i: nat) -> Option<nat> {
    if occurs_at(s, diagram_prefix(), i as int) {
        let e = id_run_end(s, i + 8);
        if e > i + 8 && occurs_at(s, svg_ext(), e as int) {
            Some(e + 4)
        } else {
            None
        }
    } else {
        None
    }
}

/// The ids of the diagram references in `s` from `i` on, leftmost first, not
/// overlapping.
pub open spec fn diagram_ids_from(s: Seq<char>, i: nat) -> Seq<Seq<char>>
    decreases s.len() - i,
{
    if i >= s.len() {
        seq![]
    } else {
        match diagram_ref_at(s, i) {
            Some(end) => {
                proof {
                    lemma_id_run_end(s, i + 8);
                }
                seq![s.subrange(i + 8 as int, end - 4)] + diagram_ids_from(s, end)
            },
            None => diagram_ids_from(s, i + 1),
        }
    }
}

/// The views of a vector of strings.
pub open spec fn string_views(v: Seq<String>) -> Seq<Seq<char>> {
    v.map_values(|s: String| s@)
}

/// Calls `regex::Regex::new(pattern)` and collects capture group 1 of every
/// match `Regex::captures_iter` yields on `text`. Claimed of the regex crate:
/// the pattern compiles, and the matches of `diagram-([A-Za-z0-9_-]+)\.svg` are
/// the leftmost-first, non-overlapping ones that `diagram_ids_from` lists.
#[verifier::external_body]
fn regex_capture_ids(pattern: &str, text: &str) -> (r: Vec<String>)
    requires
        pattern@ == DIAGRAM_REF_PATTERN@,
    ensures
        string_views(r@) == diagram_ids_from(text@, 0),
{
    let re = regex::Regex::new(pattern).unwrap();
    re.captures_iter(text).map(|c| c[1].to_string()).collect()
}

/// The ids of the diagrams a markdown document references, in order.
pub fn diagram_ids(markdown: &str) -> (r: Vec<String>)
    ensures
        string_views(r@) == diagram_ids_from(markdown@, 0),
{
    regex_capture_ids(DIAGRAM_REF_PATTERN, markdown)
}

/// The id in a rendered diagram's file name `diagram-<id>.svg`.
pub open spec fn svg_id_of(name: Seq<char>) -> Option<Seq<char>> {
    if starts_with(name, diagram_prefix()) && ends_with(name.skip(8), svg_ext()) {
        Some(name.subrange(8, name.len() - 4))
    } else {
        None
    }
}

/// The diagram id of an `img/` file name, if it is a rendered diagram.
pub fn svg_diagram_id(file_name: &str) -> (r: Option<String>)
    ensures
        match svg_id_of(file_name@) {
            Some(id) => r is Some && r->0@ == id,
            None => r is None,
        },
{
    let s = to_chars(file_name);
    let n = s.len();
    let prefix: Vec<char> = vec!['d', 'i', 'a', 'g', 'r', 'a', 'm', '-'];
    let ext: Vec<char> = vec!['.', 's', 'v', 'g'];
    assert(prefix@ =~= diagram_prefix() && ext@ =~= svg_ext());
    if !occurs_at_exec(&s, &prefix, 0) {
        return None;
    }
    if n < 12 || !occurs_at_exec(&s, &ext, n - 4) {
        assert(!ends_with(file_name@.skip(8), svg_ext())) by {
            if n >= 12 {
                assert(file_name@.skip(8).subrange(n - 12, n - 8) =~= s@.subrange(n - 4, n as int));
            }
        }
        return None;
    }
    assert(file_name@.skip(8).subrange(n - 12, n - 8) =~= s@.subrange(n - 4, n as int));
    Some(string_of(&slice_of(&s, 8, n - 4)))
}

/// Whether `id` is among the referenced ids.
pub fn is_referenced(referenced: &Vec<String>, id: &str) -> (r: bool)
    ensures
        r == string_views(referenced@).contains(id@),
{
    let target = to_chars(id);
    let mut i: usize = 0;
    while i < referenced.len()
        invariant
            target@ == id@,
            i <= referenced@.len(),
            forall|j: int| 0 <= j < i ==> referenced@[j]@ != id@,
        decreases referenced.len() - i,
    {
        let c = to_chars(referenced[i].as_str());
        assert(c@.subrange(0, c@.len() as int) =~= c@);
        if range_eq(&c, 0, c.len(), &target) {
            assert(string_views(referenced@)[i as int] == id@);
            return true;
        }
        i += 1;
    }
    assert forall|j: int| 0 <= j < string_views(referenced@).len() implies string_views(
        referenced@,
    )[j] != id@ by {
        assert(string_views(referenced@)[j] == referenced@[j]@);
    }
    false
}

/// The ids referenced by a set of documents: each document's ids in turn.
pub open spec fn referenced_of(docs: Seq<Seq<char>>) -> Seq<Seq<char>>
    decreases docs.len(),
{
    if docs.len() == 0 {
        seq![]
    } else {
        referenced_of(docs.drop_last()) + diagram_ids_from(docs.last(), 0)
    }
}

/// The diagram ids that the given markdown documents reference.
pub fn referenced_ids(docs: &Vec<String>) -> (r: Vec<String>)
    ensures
        string_views(r@) == referenced_of(string_views(docs@)),
{
    let mut r: Vec<String> = Vec::new();
    let mut i: usize = 0;
    while i < docs.len()
        invariant
            i <= docs@.len(),
            string_views(r@) == referenced_of(string_views(docs@).take(i as int)),
        decreases docs.len() - i,
    {
        let ids = diagram_ids(docs[i].as_str());
        let ghost before = r@;
        let mut k: usize = 0;
        while k < ids.len()
            invariant
                k <= ids@.len(),
                r@ == before + ids@.take(k as int),
            decreases ids.len() - k,
        {
            r.push(ids[k].clone());
            assert(ids@.take(k + 1) =~= ids@.take(k as int).push(ids@[k as int]));
            k += 1;
        }
        proof {
            assert(ids@.take(k as int) =~= ids@);
            let t = string_views(docs@).take(i + 1);
            assert(t.drop_last() =~= string_views(docs@).take(i as int));
            assert(t.last() == docs@[i as int]@);
            assert(string_views(r@) =~= string_views(before) + string_views(ids@));
        }
        i += 1;
    }
    assert(string_views(docs@).take(i as int) =~= string_views(docs@));
    r
}

/// `.excalidraw`
pub open spec fn scene_ext() -> Seq<char> {
    seq!['.', 'e', 'x', 'c', 'a', 'l', 'i', 'd', 'r', 'a', 'w']
}

/// The diagram id of a `diagrams/` file name `<id>.excalidraw`: its stem, when
/// its extension is `excalidraw` (a name that is only `.excalidraw` has none).
pub open spec fn scene_id_of(name: Seq<char>) -> Option<Seq<char>> {
    if name.len() > 11 && ends_with(name, scene_ext()) {
        Some(name.subrange(0, name.len() - 11))
    } else {
        None
    }
}

/// The diagram id of a `diagrams/` file name, if it is a diagram's scene.
pub fn scene_diagram_id(file_name: &str) -> (r: Option<String>)
    ensures
        match scene_id_of(file_name@) {
            Some(id) => r is Some && r->0@ == id,
            None => r is None,
        },
{
    let s = to_chars(file_name);
    let n = s.len();
    let ext: Vec<char> = vec!['.', 'e', 'x', 'c', 'a', 'l', 'i', 'd', 'r', 'a', 'w'];
    assert(ext@ =~= scene_ext());
    if n <= 11 || !occurs_at_exec(&s, &ext, n - 11) {
        return None;
    }
    Some(string_of(&slice_of(&s, 0, n - 11)))
}

/// The diagram id a file name stands for: a scene under `diagrams/`, or a
/// rendered SVG under `img/`.
pub open spec fn file_diagram_id(name: Seq<char>, scene: bool) -> Option<Seq<char>> {
    if scene {
        scene_id_of(name)
    } else {
        svg_id_of(name)
    }
}

/// The names among `names` that are diagram files whose id nothing references,
/// in order.
pub open spec fn orphans_in(names: Seq<Seq<char>>, scene: bool, refs: Seq<Seq<char>>) -> Seq<
    Seq<char>,
>
    decreases names.len(),
{
    if names.len() == 0 {
        seq![]
    } else {
        let rest = orphans_in(names.drop_last(), scene, refs);
        match file_diagram_id(names.last(), scene) {
            Some(id) => if refs.contains(id) {
                rest
            } else {
                rest.push(names.last())
            },
            None => rest,
        }
    }
}

fn orphans_exec(names: &Vec<String>, scene: bool, refs: &Vec<String>) -> (r: Vec<String>)
    ensures
        string_views(r@) == orphans_in(string_views(names@), scene, string_views(refs@)),
{
    let mut r: Vec<String> = Vec::new();
    let mut i: usize = 0;
    while i < names.len()
        invariant
            i <= names@.len(),
            string_views(r@) == orphans_in(string_views(names@).take(i as int), scene, string_views(refs@)),
        decreases names.len() - i,
    {
        let name = names[i].as_str();
        let id = if scene {
            scene_diagram_id(name)
        } else {
            svg_diagram_id(name)
        };
        let ghost before = r@;
        proof {
            let t = string_views(names@).take(i + 1);
            assert(t.drop_last() =~= string_views(names@).take(i as int));
            assert(t.last() == names@[i as int]@);
        }
        match id {
            Some(id) => {
                if !is_referenced(refs, id.as_str()) {
                    r.push(names[i].clone());
                    assert(string_views(r@) =~= string_views(before).push(names@[i as int]@));
                }
            },
            None => {},
        }
        i += 1;
    }
    assert(string_views(names@).take(i as int) =~= string_views(names@));
    r
}

/// The diagram files that no markdown document references: (scene files under
/// `diagrams/`, rendered SVGs under `img/`), given the documents' contents and
/// the file names found in the two directories.
pub fn orphan_diagram_files(
    docs: &Vec<String>,
    scene_names: &Vec<String>,
    img_names: &Vec<String>,
) -> (r: (Vec<String>, Vec<String>))
    ensures
        string_views(r.0@) == orphans_in(
            string_views(scene_names@),
            true,
            referenced_of(string_views(docs@)),
        ),
        string_views(r.1@) == orphans_in(
            string_views(img_names@),
            false,
            referenced_of(string_views(docs@)),
        ),
{
    let refs = referenced_ids(docs);
    (orphans_exec(scene_names, true, &refs), orphans_exec(img_names, false, &refs))
}

/// The names among `names` that a collection pass leaves in place: all but
/// `orphans_in`, in order.
pub open spec fn survivors_in(names: Seq<Seq<char>>, scene: bool, refs: Seq<Seq<char>>) -> Seq<
    Seq<char>,
>
    decreases names.len(),
{
    if names.len() == 0 {
        seq![]
    } else {
        let rest = survivors_in(names.drop_last(), scene, refs);
        match file_diagram_id(names.last(), scene) {
            Some(id) => if refs.contains(id) {
                rest.push(names.last())
            } else {
                rest
            },
            None => rest.push(names.last()),
        }
    }
}

/// One collection pass is enough: every name is either an orphan or left in
/// place, and over the same documents the names left in place hold no orphan,
/// so a second pass removes nothing.
pub proof fn law_orphans_gone_after_one_pass(names: Seq<Seq<char>>, scene: bool, refs: Seq<Seq<char>>)
    ensures
        survivors_in(names, scene, refs).to_multiset().add(orphans_in(names, scene, refs).to_multiset())
            == names.to_multiset(),
        orphans_in(survivors_in(names, scene, refs), scene, refs) == Seq::<Seq<char>>::empty(),
    decreases names.len(),
{
    broadcast use vstd::seq_lib::group_to_multiset_ensures;

    if names.len() > 0 {
        let init = names.drop_last();
        let last = names.last();
        law_orphans_gone_after_one_pass(init, scene, refs);
        let rest = survivors_in(init, scene, refs);
        let gone = orphans_in(init, scene, refs);
        assert(init.push(last) =~= names);
        let kept = match file_diagram_id(last, scene) {
            Some(id) => refs.contains(id),
            None => true,
        };
        if kept {
            assert(survivors_in(names, scene, refs) == rest.push(last));
            assert(orphans_in(names, scene, refs) == gone);
            assert(rest.push(last).drop_last() =~= rest);
            assert(orphans_in(rest.push(last), scene, refs) == orphans_in(rest, scene, refs));
            assert(rest.push(last).to_multiset().add(gone.to_multiset()) =~= init.push(last).to_multiset());
        } else {
            assert(survivors_in(names, scene, refs) == rest);
            assert(orphans_in(names, scene, refs) == gone.push(last));
            assert(rest.to_multiset().add(gone.push(last).to_multiset()) =~= init.push(last).to_multiset());
        }
    }
}

} // verus!
