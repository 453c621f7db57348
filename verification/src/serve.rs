//! The editing server's decisions: which handler a request goes to, and the
//! checks and names that keep client-supplied paths inside the project.

use vstd::prelude::*;
use crate::frontmatter::split_of;
use crate::links::{before_char, rfind_char};
use crate::json::{html_json, html_json_of};
use crate::markdown::{base_commonmark, base_html, normalize_markdown, render_html, rewrite_from, strip_spec};
use crate::text::{
    contains, ends_with, find_from, find_from_exec, from_chars, join, join_exec, occurs_at,
    occurs_at_exec, push_all, push_str, range_eq, replace_all, replace_exec, slice_of, split_exec,
    split_on, starts_with, string_of, to_chars, trim, trim_bounds, trim_char, trim_char_bounds,
    trim_start_char, views, ascii_lower_range, ascii_lower_seq, hex_fixed, hex_fixed_exec,
    lemma_find_from,
};

verus! {

// ---------------------------------------------------------------------------
// Errors

/// Why a request was refused.
#[derive(Debug, Clone, Copy, PartialEq, Eq, Structural)]
pub enum ServeError {
    InvalidDiagramId,
    InvalidPagePath,
    InvalidSlug,
    MissingSecretName,
    NotHttpImage,
}

impl ServeError {
    /// The message the client is shown.
    pub fn message(&self) -> (m: &'static str)
        ensures
            m@ == match *self {
                ServeError::InvalidDiagramId => "invalid diagram id"@,
                ServeError::InvalidPagePath => "invalid page path"@,
                ServeError::InvalidSlug => "invalid slug"@,
                ServeError::MissingSecretName => "missing secret name"@,
                ServeError::NotHttpImage => "only http(s) images can be saved"@,
            },
    {
        match self {
            ServeError::InvalidDiagramId => "invalid diagram id",
            ServeError::InvalidPagePath => "invalid page path",
            ServeError::InvalidSlug => "invalid slug",
            ServeError::MissingSecretName => "missing secret name",
            ServeError::NotHttpImage => "only http(s) images can be saved",
        }
    }
}

// ---------------------------------------------------------------------------
// Routing

/// The request methods the server tells apart.
#[derive(Debug, Clone, Copy, PartialEq, Eq, Structural)]
pub enum HttpMethod {
    Get,
    Post,
    Other,
}

/// Where a request goes.
#[derive(Debug, Clone, Copy, PartialEq, Eq, Structural)]
pub enum Route {
    /// The editable page.
    Index,
    Save,
    GetSettings,
    PostSettings,
    Secret,
    SaveImage,
    SaveDiagram,
    CreatePage,
    DeletePage,
    RenamePage,
    ExcalidrawJs,
    ExcalidrawCss,
    /// Any other GET: a file from the repo (images, diagrams, etc.).
    Static,
    NotFound,
}

/// The route of a request with this method and URL.
pub open spec fn route_of_request(method: HttpMethod, url: Seq<char>) -> Route {
    match method {
        HttpMethod::Get => if url == "/"@ || url == "/index.html"@ {
            Route::Index
        } else if url == "/api/settings"@ {
            Route::GetSettings
        } else if url == "/_excalidraw.js"@ {
            Route::ExcalidrawJs
        } else if url == "/_excalidraw.css"@ {
            Route::ExcalidrawCss
        } else {
            Route::Static
        },
        HttpMethod::Post => if url == "/api/save"@ {
            Route::Save
        } else if url == "/api/settings"@ {
            Route::PostSettings
        } else if url == "/api/secret"@ {
            Route::Secret
        } else if url == "/api/save-image"@ {
            Route::SaveImage
        } else if url == "/api/save-diagram"@ {
            Route::SaveDiagram
        } else if url == "/api/create-page"@ {
            Route::CreatePage
        } else if url == "/api/delete-page"@ {
            Route::DeletePage
        } else if url == "/api/rename-page"@ {
            Route::RenamePage
        } else {
            Route::NotFound
        },
        HttpMethod::Other => Route::NotFound,
    }
}

fn is(u: &Vec<char>, lit: &str) -> (b: bool)
    ensures
        b == (u@ == lit@),
{
    let l = to_chars(lit);
    let b = range_eq(u, 0, u.len(), &l);
    assert(u@.subrange(0, u@.len() as int) =~= u@);
    b
}

/// Route a request by its method and URL.
pub fn route(method: HttpMethod, url: &str) -> (r: Route)
    ensures
        r == route_of_request(method, url@),
{
    let u = to_chars(url);
    match method {
        HttpMethod::Get => {
            if is(&u, "/") || is(&u, "/index.html") {
                Route::Index
            } else if is(&u, "/api/settings") {
                Route::GetSettings
            } else if is(&u, "/_excalidraw.js") {
                Route::ExcalidrawJs
            } else if is(&u, "/_excalidraw.css") {
                Route::ExcalidrawCss
            } else {
                Route::Static
            }
        },
        HttpMethod::Post => {
            if is(&u, "/api/save") {
                Route::Save
            } else if is(&u, "/api/settings") {
                Route::PostSettings
            } else if is(&u, "/api/secret") {
                Route::Secret
            } else if is(&u, "/api/save-image") {
                Route::SaveImage
            } else if is(&u, "/api/save-diagram") {
                Route::SaveDiagram
            } else if is(&u, "/api/create-page") {
                Route::CreatePage
            } else if is(&u, "/api/delete-page") {
                Route::DeletePage
            } else if is(&u, "/api/rename-page") {
                Route::RenamePage
            } else {
                Route::NotFound
            }
        },
        HttpMethod::Other => Route::NotFound,
    }
}

// ---------------------------------------------------------------------------
// Paths

/// A path segment that would leave the current directory or name none.
pub open spec fn bad_segment(seg: Seq<char>) -> bool {
    seg.len() == 0 || seg == seq!['.'] || seg == seq!['.', '.']
}

/// Some `/`-separated segment of `s` is empty, `.` or `..`.
pub open spec fn has_bad_segment(s: Seq<char>) -> bool {
    exists|i: int| 0 <= i < split_on(s, '/').len() && bad_segment(#[trigger] split_on(s, '/')[i])
}

fn has_bad_segment_exec(s: &Vec<char>) -> (b: bool)
    ensures
        b == has_bad_segment(s@),
{
    let segs = split_exec(s, '/');
    let mut i: usize = 0;
    while i < segs.len()
        invariant
            i <= segs@.len(),
            segs@.len() == split_on(s@, '/').len(),
            forall|j: int| 0 <= j < segs@.len() ==> #[trigger] segs@[j]@ == split_on(s@, '/')[j],
            forall|j: int| 0 <= j < i ==> !bad_segment(#[trigger] split_on(s@, '/')[j]),
        decreases segs.len() - i,
    {
        let seg = &segs[i];
        assert(seg@ == split_on(s@, '/')[i as int]);
        if seg.len() == 0 || (seg.len() == 1 && seg[0] == '.') || (seg.len() == 2 && seg[0] == '.'
            && seg[1] == '.') {
            assert(seg@.len() == 1 ==> seg@ =~= seq!['.']);
            assert(seg@.len() == 2 ==> seg@ =~= seq!['.', '.']);
            return true;
        }
        assert(seg@.len() == 1 ==> seg@ != seq!['.']) by {
            if seg@.len() == 1 {
                assert(seg@[0] != '.');
            }
        }
        assert(seg@.len() == 2 ==> seg@ != seq!['.', '.']) by {
            if seg@.len() == 2 {
                assert(seg@[0] != '.' || seg@[1] != '.');
            }
        }
        i += 1;
    }
    false
}

/// The file of a page: its slug plus `.md`, for a slug that stays inside the
/// project (not empty, not absolute, no empty, `.` or `..` segment).
pub open spec fn page_file_of(slug: Seq<char>) -> Result<Seq<char>, ServeError> {
    if slug.len() == 0 || starts_with(slug, seq!['/']) || has_bad_segment(slug) {
        Err(ServeError::InvalidSlug)
    } else {
        Ok(slug + seq!['.', 'm', 'd'])
    }
}

/// The project-relative `.md` file for a client-supplied slug; the check that
/// keeps a browser request from naming a file outside the project.
pub fn page_file(slug: &str) -> (r: Result<String, ServeError>)
    ensures
        match r {
            Ok(f) => page_file_of(slug@) == Ok::<Seq<char>, ServeError>(f@),
            Err(e) => page_file_of(slug@) == Err::<Seq<char>, ServeError>(e),
        },
{
    let s = to_chars(slug);
    if s.len() == 0 || s[0] == '/' || has_bad_segment_exec(&s) {
        assert(s@.len() > 0 && s@[0] == '/' ==> starts_with(slug@, seq!['/'])) by {
            if s@.len() > 0 && s@[0] == '/' {
                assert(s@.subrange(0, 1) =~= seq!['/']);
            }
        }
        return Err(ServeError::InvalidSlug);
    }
    assert(!starts_with(slug@, seq!['/'])) by {
        if starts_with(slug@, seq!['/']) {
            assert(s@.subrange(0, 1)[0] == '/');
        }
    }
    let mut out = s;
    push_str(&mut out, ".md");
    proof {
        reveal_strlit(".md");
    }
    assert(out@ =~= slug@ + seq!['.', 'm', 'd']);
    Ok(string_of(&out))
}

/// The trimmed page path with any leading `/` and one `.md`/`.MD` dropped.
pub open spec fn page_stem(path: Seq<char>) -> Seq<char> {
    let p = trim(trim_start_char(trim(path), '/'));
    let stem = if ends_with(p, seq!['.', 'm', 'd']) || ends_with(p, seq!['.', 'M', 'D']) {
        p.take(p.len() - 3)
    } else {
        p
    };
    trim_char(stem, '/')
}

/// (relative `.md` path, slug) for a user-supplied page path: refused when the
/// path is absolute (starts with `/` once trimmed), names no page, or has an
/// empty, `.` or `..` segment.
pub open spec fn md_rel_of(path: Seq<char>) -> Result<(Seq<char>, Seq<char>), ServeError> {
    let stem = page_stem(path);
    if starts_with(trim(path), seq!['/']) || stem.len() == 0 || has_bad_segment(stem) {
        Err(ServeError::InvalidPagePath)
    } else {
        Ok((stem + seq!['.', 'm', 'd'], stem))
    }
}

/// Sanitize a user-supplied page path into (relative `.md` path, slug). Rejects
/// traversal/absolute paths; tolerates a `.md` extension or not.
pub fn sanitize_md_rel(path: &str) -> (r: Result<(String, String), ServeError>)
    ensures
        match r {
            Ok((rel, slug)) => md_rel_of(path@) == Ok::<(Seq<char>, Seq<char>), ServeError>(
                (rel@, slug@),
            ),
            Err(e) => md_rel_of(path@) == Err::<(Seq<char>, Seq<char>), ServeError>(e),
        },
        r is Ok ==> !has_bad_segment((r->Ok_0).1@) && (r->Ok_0).1@.len() > 0,
        starts_with(trim(path@), seq!['/']) ==> r == Err::<(String, String), ServeError>(
            ServeError::InvalidPagePath,
        ),
{
    let s = to_chars(path);
    let n = s.len();
    assert(s@.subrange(0, n as int) =~= path@);
    let (a, b) = trim_bounds(&s, 0, n);
    // an absolute path is refused
    if a < b && s[a] == '/' {
        assert(s@.subrange(a as int, b as int).subrange(0, 1) =~= seq!['/']);
        return Err(ServeError::InvalidPagePath);
    }
    assert(!starts_with(trim(path@), seq!['/'])) by {
        if a < b {
            assert(s@.subrange(a as int, b as int).subrange(0, 1)[0] == s@[a as int]);
        }
    }
    // leading slashes
    let mut c = a;
    while c < b && s[c] == '/'
        invariant
            a <= c <= b <= s@.len(),
            trim_start_char(s@.subrange(c as int, b as int), '/') == trim_start_char(
                s@.subrange(a as int, b as int),
                '/',
            ),
        decreases b - c,
    {
        assert(s@.subrange(c as int, b as int).drop_first() =~= s@.subrange(c + 1, b as int));
        c += 1;
    }
    assert(c < b ==> s@.subrange(c as int, b as int)[0] == s@[c as int]);
    let (d, e) = trim_bounds(&s, c, b);
    let md_lower: Vec<char> = vec!['.', 'm', 'd'];
    let md_upper: Vec<char> = vec!['.', 'M', 'D'];
    assert(md_lower@ =~= seq!['.', 'm', 'd'] && md_upper@ =~= seq!['.', 'M', 'D']);
    let ghost p = s@.subrange(d as int, e as int);
    let has_ext = e - d >= 3 && (occurs_at_exec(&s, &md_lower, e - 3) || occurs_at_exec(
        &s,
        &md_upper,
        e - 3,
    ));
    assert(e - d >= 3 ==> s@.subrange(e - 3, e as int) =~= p.subrange(p.len() - 3, p.len() as int));
    let stem_end = if has_ext {
        e - 3
    } else {
        e
    };
    assert(s@.subrange(d as int, stem_end as int) =~= (if ends_with(p, seq!['.', 'm', 'd']) || ends_with(
        p,
        seq!['.', 'M', 'D'],
    ) {
        p.take(p.len() - 3)
    } else {
        p
    }));
    let (f, g) = trim_char_bounds(&s, d, stem_end, '/');
    let stem = slice_of(&s, f, g);
    assert(stem@ == page_stem(path@));
    if stem.len() == 0 || has_bad_segment_exec(&stem) {
        return Err(ServeError::InvalidPagePath);
    }
    let mut rel = slice_of(&stem, 0, stem.len());
    assert(rel@ =~= stem@);
    push_all(&mut rel, &md_lower);
    Ok((string_of(&rel), string_of(&stem)))
}

// ---------------------------------------------------------------------------
// Page titles

/// What `char::to_uppercase` yields for `c`.
pub uninterp spec fn upper_of(c: char) -> Seq<char>;

/// Calls `char::to_uppercase` and collects the characters it yields. Stated:
/// an ASCII lowercase letter becomes its capital, any other ASCII character
/// stays; beyond ASCII the result is named, not described.
#[verifier::external_body]
fn char_upper(c: char) -> (r: String)
    ensures
        r@ == upper_of(c),
        'a' <= c <= 'z' ==> r@ == seq![((c as u32) - 32) as char],
        (c as u32) < 128 && !('a' <= c <= 'z') ==> r@ == seq![c],
{
    c.to_uppercase().collect()
}

/// A word with its first character upper-cased.
pub open spec fn capitalized(w: Seq<char>) -> Seq<char> {
    if w.len() == 0 {
        seq![]
    } else {
        upper_of(w[0]) + w.skip(1)
    }
}

/// The words of `s`: the non-empty pieces between `-` and `_`.
pub open spec fn words_of(s: Seq<char>) -> Seq<Seq<char>> {
    split_on(s.map_values(|c: char| if c == '_' { '-' } else { c }), '-').filter(
        |w: Seq<char>| w.len() > 0,
    )
}

/// The part of `s` after its last `c`.
pub open spec fn after_last(s: Seq<char>, c: char) -> Seq<char> {
    match rfind_char(s, c) {
        Some(k) => s.skip(k + 1 as int),
        None => s,
    }
}

/// The title for a new page: the last path segment's words, capitalized and
/// joined with spaces.
pub open spec fn title_from_stem(stem: Seq<char>) -> Seq<char> {
    join(words_of(after_last(stem, '/')).map_values(|w: Seq<char>| capitalized(w)), seq![' '])
}

proof fn lemma_rfind_after_plain(d: Seq<char>, s: Seq<char>, c: char)
    requires
        forall|i: int| 0 <= i < s.len() ==> s[i] != c,
    ensures
        rfind_char(d + seq![c] + s, c) == Some(d.len()),
        rfind_char(s, c) is None,
    decreases s.len(),
{
    if s.len() == 0 {
        assert(d + seq![c] + s =~= d.push(c));
    } else {
        let init = s.drop_last();
        assert forall|i: int| 0 <= i < init.len() implies init[i] != c by {
            assert(init[i] == s[i]);
        }
        lemma_rfind_after_plain(d, init, c);
        assert((d + seq![c] + s).drop_last() =~= d + seq![c] + init);
        assert((d + seq![c] + s).last() == s.last());
        assert(s.last() == s[s.len() - 1]);
    }
}

/// The title of a new page depends only on the last segment of its path: for
/// any directory part `d` and segment `s` without `/`, `d/s` and `s` get the
/// same title.
pub proof fn law_title_from_last_segment(d: Seq<char>, s: Seq<char>)
    requires
        forall|i: int| 0 <= i < s.len() ==> s[i] != '/',
    ensures
        title_from_stem(d + seq!['/'] + s) == title_from_stem(s),
{
    lemma_rfind_after_plain(d, s, '/');
    assert((d + seq!['/'] + s).skip(d.len() as int + 1) =~= s);
}

#[verifier::spinoff_prover]
fn after_last_exec(s: &Vec<char>, c: char) -> (r: Vec<char>)
    ensures
        r@ == after_last(s@, c),
{
    let mut k = s.len();
    assert(s@.take(k as int) =~= s@);
    while k > 0 && s[k - 1] != c
        invariant
            k <= s@.len(),
            rfind_char(s@, c) == rfind_char(s@.take(k as int), c),
        decreases k,
    {
        assert(s@.take(k as int).drop_last() =~= s@.take(k - 1));
        k -= 1;
    }
    if k > 0 {
        assert(s@.take(k as int).last() == c);
        let r = slice_of(s, k, s.len());
        assert(r@ =~= s@.skip(k as int));
        r
    } else {
        assert(s@.take(0) =~= seq![]);
        let r = slice_of(s, 0, s.len());
        assert(r@ =~= s@);
        r
    }
}

/// "guide/getting-started" -> "Getting Started"
pub fn titleize(stem: &str) -> (r: String)
    ensures
        r@ == title_from_stem(stem@),
{
    let s = to_chars(stem);
    let last = after_last_exec(&s, '/');
    let mut mapped: Vec<char> = Vec::new();
    let mut i: usize = 0;
    while i < last.len()
        invariant
            i <= last@.len(),
            mapped@ =~= last@.take(i as int).map_values(
                |c: char| if c == '_' { '-' } else { c },
            ),
        decreases last.len() - i,
    {
        let c = last[i];
        mapped.push(if c == '_' { '-' } else { c });
        i += 1;
        assert(last@.take(i as int) =~= last@.take(i - 1).push(c));
    }
    assert(last@.take(i as int) =~= last@);
    let pieces = split_exec(&mapped, '-');
    let ghost ps = split_on(mapped@, '-');
    let ghost pred = |w: Seq<char>| w.len() > 0;
    let ghost cap = |w: Seq<char>| capitalized(w);
    let mut words: Vec<Vec<char>> = Vec::new();
    let mut j: usize = 0;
    while j < pieces.len()
        invariant
            ps == split_on(mapped@, '-'),
            pieces@.len() == ps.len(),
            forall|k: int| 0 <= k < pieces@.len() ==> #[trigger] pieces@[k]@ == ps[k],
            pred == (|w: Seq<char>| w.len() > 0),
            cap == (|w: Seq<char>| capitalized(w)),
            j <= pieces@.len(),
            views(words@) == ps.take(j as int).filter(pred).map_values(cap),
        decreases pieces.len() - j,
    {
        reveal_with_fuel(Seq::filter, 1);
        let w = &pieces[j];
        assert(ps.take(j + 1).drop_last() =~= ps.take(j as int));
        let ghost before = views(words@);
        if w.len() > 0 {
            let up = char_upper(w[0]);
            let mut word = to_chars(up.as_str());
            push_all(&mut word, &slice_of(w, 1, w.len()));
            assert(word@ =~= capitalized(w@));
            words.push(word);
            assert(views(words@) =~= before.push(cap(w@)));
            assert(ps.take(j + 1).filter(pred) =~= ps.take(j as int).filter(pred).push(w@));
        } else {
            assert(ps.take(j + 1).filter(pred) =~= ps.take(j as int).filter(pred));
        }
        j += 1;
    }
    assert(ps.take(j as int) =~= ps);
    let space: Vec<char> = vec![' '];
    assert(space@ =~= seq![' ']);
    let out = join_exec(&words, &space);
    string_of(&out)
}

// ---------------------------------------------------------------------------
// Diagrams and secrets requests

/// An ASCII letter or digit.
pub open spec fn is_ascii_alnum(c: char) -> bool {
    ('a' <= c <= 'z') || ('A' <= c <= 'Z') || ('0' <= c <= '9')
}

pub fn is_ascii_alnum_exec(c: char) -> (b: bool)
    ensures
        b == is_ascii_alnum(c),
{
    ('a' <= c && c <= 'z') || ('A' <= c && c <= 'Z') || ('0' <= c && c <= '9')
}

/// A character allowed in a diagram id.
pub open spec fn is_id_char(c: char) -> bool {
    is_ascii_alnum(c) || c == '-' || c == '_'
}

/// The characters of `s` allowed in a diagram id, in order.
pub open spec fn id_chars(s: Seq<char>) -> Seq<char>
    decreases s.len(),
{
    if s.len() == 0 {
        seq![]
    } else if is_id_char(s.last()) {
        id_chars(s.drop_last()).push(s.last())
    } else {
        id_chars(s.drop_last())
    }
}

/// Keep a client-supplied diagram id to a safe filename fragment (no traversal).
pub fn sanitize_id(id: &str) -> (r: Result<String, ServeError>)
    ensures
        id_chars(id@).len() == 0 ==> r == Err::<String, ServeError>(ServeError::InvalidDiagramId),
        id_chars(id@).len() > 0 ==> r is Ok && r->Ok_0@ == id_chars(id@),
        r is Ok ==> forall|i: int| 0 <= i < r->Ok_0@.len() ==> is_id_char(#[trigger] r->Ok_0@[i]),
{
    let s = to_chars(id);
    let mut clean: Vec<char> = Vec::new();
    let mut i: usize = 0;
    while i < s.len()
        invariant
            s@ == id@,
            i <= s@.len(),
            clean@ == id_chars(s@.take(i as int)),
            forall|k: int| 0 <= k < clean@.len() ==> is_id_char(#[trigger] clean@[k]),
        decreases s.len() - i,
    {
        let c = s[i];
        assert(s@.take(i + 1).drop_last() =~= s@.take(i as int));
        if is_ascii_alnum_exec(c) || c == '-' || c == '_' {
            clean.push(c);
        }
        i += 1;
    }
    assert(s@.take(i as int) =~= s@);
    if clean.len() == 0 {
        return Err(ServeError::InvalidDiagramId);
    }
    Ok(string_of(&clean))
}

/// The two files of a diagram: its editable scene and its rendered SVG.
pub open spec fn diagram_files_of(id: Seq<char>) -> (Seq<char>, Seq<char>) {
    (id + seq!['.', 'e', 'x', 'c', 'a', 'l', 'i', 'd', 'r', 'a', 'w'], seq!['d', 'i', 'a', 'g', 'r', 'a', 'm', '-'] + id + seq!['.', 's', 'v', 'g'])
}

/// (`<id>.excalidraw` under `diagrams/`, `diagram-<id>.svg` under `img/`).
pub fn diagram_files(id: &str) -> (r: (String, String))
    ensures
        (r.0@, r.1@) == diagram_files_of(id@),
{
    let mut scene = to_chars(id);
    let ext: Vec<char> = vec!['.', 'e', 'x', 'c', 'a', 'l', 'i', 'd', 'r', 'a', 'w'];
    push_all(&mut scene, &ext);
    let mut svg: Vec<char> = vec!['d', 'i', 'a', 'g', 'r', 'a', 'm', '-'];
    push_str(&mut svg, id);
    let tail: Vec<char> = vec!['.', 's', 'v', 'g'];
    push_all(&mut svg, &tail);
    assert(scene@ =~= diagram_files_of(id@).0);
    assert(svg@ =~= diagram_files_of(id@).1);
    (string_of(&scene), string_of(&svg))
}

/// A secret-setting request: a name that is not blank, with name and value trimmed.
pub open spec fn secret_request_of(name: Seq<char>, value: Seq<char>) -> Result<
    (Seq<char>, Seq<char>),
    ServeError,
> {
    if trim(name).len() == 0 {
        Err(ServeError::MissingSecretName)
    } else {
        Ok((trim(name), trim(value)))
    }
}

/// Check a secret-setting request and trim its name and value.
pub fn secret_request(name: &str, value: &str) -> (r: Result<(String, String), ServeError>)
    ensures
        match r {
            Ok((n, v)) => secret_request_of(name@, value@) == Ok::<
                (Seq<char>, Seq<char>),
                ServeError,
            >((n@, v@)),
            Err(e) => secret_request_of(name@, value@) == Err::<
                (Seq<char>, Seq<char>),
                ServeError,
            >(e),
        },
{
    let n = to_chars(name);
    let v = to_chars(value);
    assert(n@.subrange(0, n@.len() as int) =~= name@);
    assert(v@.subrange(0, v@.len() as int) =~= value@);
    let (a, b) = trim_bounds(&n, 0, n.len());
    if a == b {
        return Err(ServeError::MissingSecretName);
    }
    let (c, d) = trim_bounds(&v, 0, v.len());
    Ok((from_chars(&n, a, b), from_chars(&v, c, d)))
}

// ---------------------------------------------------------------------------
// Pages created from the browser

/// The source of a new page titled `title`.
pub open spec fn new_page_source(title: Seq<char>) -> Seq<char> {
    seq!['-', '-', '-', '\n', 't', 'i', 't', 'l', 'e', ':', ' '] + title + seq!['\n', '-', '-', '-', '\n', '\n', '#', ' '] + title + seq!['\n', '\n']
}

/// (relative `.md` path, slug, normalized contents) of a page created at
/// `path`: its title is the titleized last segment.
pub fn new_page(path: &str) -> (r: Result<(String, String, String), ServeError>)
    ensures
        match md_rel_of(path@) {
            Ok((rel, slug)) => r is Ok && (r->Ok_0).0@ == rel && (r->Ok_0).1@ == slug && (r->Ok_0).2@
                == strip_spec(base_commonmark(new_page_source(title_from_stem(slug)))),
            Err(e) => r == Err::<(String, String, String), ServeError>(e),
        },
{
    let (rel, slug) = match sanitize_md_rel(path) {
        Ok(p) => p,
        Err(e) => return Err(e),
    };
    let title = titleize(slug.as_str());
    let head: Vec<char> = vec!['-', '-', '-', '\n', 't', 'i', 't', 'l', 'e', ':', ' '];
    let mid: Vec<char> = vec!['\n', '-', '-', '-', '\n', '\n', '#', ' '];
    let tail: Vec<char> = vec!['\n', '\n'];
    let mut src: Vec<char> = Vec::new();
    push_all(&mut src, &head);
    push_str(&mut src, title.as_str());
    push_all(&mut src, &mid);
    push_str(&mut src, title.as_str());
    push_all(&mut src, &tail);
    assert(src@ =~= new_page_source(title@));
    let source = string_of(&src);
    let content = normalize_markdown(source.as_str());
    Ok((rel, slug, content))
}

// ---------------------------------------------------------------------------
// Images saved into the repo

/// `http://` or `https://` (case-sensitive, as the download check has it).
pub open spec fn is_http_url(url: Seq<char>) -> bool {
    starts_with(url, seq!['h', 't', 't', 'p', ':', '/', '/']) || starts_with(url, seq!['h', 't', 't', 'p', 's', ':', '/', '/'])
}

/// Only http(s) images can be downloaded into the repo.
pub fn check_image_url(url: &str) -> (r: Result<(), ServeError>)
    ensures
        r is Ok <==> is_http_url(url@),
        r is Err ==> r == Err::<(), ServeError>(ServeError::NotHttpImage),
{
    let u = to_chars(url);
    let http: Vec<char> = vec!['h', 't', 't', 'p', ':', '/', '/'];
    let https: Vec<char> = vec!['h', 't', 't', 'p', 's', ':', '/', '/'];
    assert(http@ =~= seq!['h', 't', 't', 'p', ':', '/', '/'] && https@ =~= seq!['h', 't', 't', 'p', 's', ':', '/', '/']);
    if occurs_at_exec(&u, &http, 0) || occurs_at_exec(&u, &https, 0) {
        Ok(())
    } else {
        Err(ServeError::NotHttpImage)
    }
}

/// The hash `std::hash::DefaultHasher` (SipHash-1-3 with zero keys) gives `s`.
pub uninterp spec fn std_hash_of(s: Seq<char>) -> u64;

/// Calls `BuildHasher::hash_one` with `BuildHasherDefault<DefaultHasher>`,
/// which hashes `s` exactly as `s.hash(&mut DefaultHasher::new())` then
/// `finish()` do. `DefaultHasher::new()` is not seeded per process, so the same
/// string gives the same value on every run of one build; the value itself is
/// named, not described.
#[verifier::external_body]
fn hash_str(s: &str) -> (h: u64)
    ensures
        h == std_hash_of(s@),
{
    std::hash::BuildHasher::hash_one(
        &std::hash::BuildHasherDefault::<std::collections::hash_map::DefaultHasher>::default(),
        s,
    )
}

/// A character kept in an image file name; anything else becomes `-`.
pub open spec fn file_name_char(c: char) -> char {
    if is_ascii_alnum(c) || c == '.' || c == '-' || c == '_' {
        c
    } else {
        '-'
    }
}

/// The last path segment of a URL, before any query or fragment.
pub open spec fn url_basename(url: Seq<char>) -> Seq<char> {
    after_last(url.take(before_query(url).len() as int), '/')
}

/// With `#` read as `?`: the text before the first `?`.
pub open spec fn before_query(url: Seq<char>) -> Seq<char> {
    before_char(url.map_values(|c: char| if c == '#' { '?' } else { c }), '?')
}

/// The index of the first `?` or `#` in `u` (its length if none).
fn query_end(u: &Vec<char>) -> (k: usize)
    ensures
        k <= u@.len(),
        k == before_query(u@).len(),
{
    let mut k: usize = 0;
    while k < u.len() && u[k] != '?' && u[k] != '#'
        invariant
            k <= u@.len(),
            forall|j: int| 0 <= j < k ==> u@[j] != '?' && u@[j] != '#',
        decreases u.len() - k,
    {
        k += 1;
    }
    proof {
        let m = u@.map_values(|c: char| if c == '#' { '?' } else { c });
        assert forall|j: int| 0 <= j < k implies !occurs_at(m, seq!['?'], j) by {
            if occurs_at(m, seq!['?'], j) {
                assert(m.subrange(j, j + 1)[0] == m[j]);
            }
        }
        crate::text::lemma_find_from_skip(m, seq!['?'], 0, k as nat);
        if k < u@.len() {
            assert(m.subrange(k as int, k + 1) =~= seq!['?']);
            assert(find_from(m, seq!['?'], k as nat) == Some(k as nat));
        } else {
            assert(find_from(m, seq!['?'], k as nat) is None);
        }
    }
    k
}

/// The sanitized basename: unsafe characters as `-`, `image` when nothing
/// usable is left, `.png` added when there is no extension.
pub open spec fn image_basename(url: Seq<char>) -> Seq<char> {
    let clean = url_basename(url).map_values(|c: char| file_name_char(c));
    let clean = if clean.len() == 0 || clean == seq!['.'] {
        seq!['i', 'm', 'a', 'g', 'e']
    } else {
        clean
    };
    if contains(clean, seq!['.']) {
        clean
    } else {
        clean + seq!['.', 'p', 'n', 'g']
    }
}

/// The file name a downloaded image is stored under: 16 hex digits of the
/// URL's hash, `-`, then the sanitized basename.
pub open spec fn image_name_of(url: Seq<char>, hash: u64) -> Seq<char> {
    hex_fixed(hash as nat, 16) + seq!['-'] + image_basename(url)
}

/// A unique, stable, sanitized filename for a downloaded image: a hash of the URL
/// (idempotent — same URL → same file) plus the URL's basename.
pub fn image_filename(url: &str) -> (r: String)
    ensures
        r@ == image_name_of(url@, std_hash_of(url@)),
        forall|i: int| 0 <= i < r@.len() ==> #[trigger] r@[i] != '/' && r@[i] != ' ',
        contains(r@, seq!['.']),
{
    let h = hash_str(url);
    let u = to_chars(url);
    // the part before any '?' or '#'
    let k = query_end(&u);
    let q = slice_of(&u, 0, k);
    assert(q@ =~= url@.take(before_query(url@).len() as int));
    let base = after_last_exec(&q, '/');
    assert(base@ == url_basename(url@));
    let ghost clean0 = url_basename(url@).map_values(|c: char| file_name_char(c));
    let mut clean: Vec<char> = Vec::new();
    let mut i: usize = 0;
    while i < base.len()
        invariant
            i <= base@.len(),
            clean@ =~= base@.take(i as int).map_values(|c: char| file_name_char(c)),
        decreases base.len() - i,
    {
        let c = base[i];
        let kept = if is_ascii_alnum_exec(c) || c == '.' || c == '-' || c == '_' {
            c
        } else {
            '-'
        };
        clean.push(kept);
        i += 1;
        assert(base@.take(i as int) =~= base@.take(i - 1).push(c));
    }
    assert(base@.take(i as int) =~= base@);
    assert(clean@ =~= clean0);
    assert(clean@.len() == 1 && clean@[0] == '.' ==> clean@ =~= seq!['.']);
    if clean.len() == 0 || (clean.len() == 1 && clean[0] == '.') {
        clean = vec!['i', 'm', 'a', 'g', 'e'];
        assert(clean@ =~= seq!['i', 'm', 'a', 'g', 'e']);
    } else {
        assert(clean@ != seq!['.']) by {
            if clean@.len() == 1 {
                assert(clean@[0] != '.');
            }
        }
    }
    assert(clean@ == (if clean0.len() == 0 || clean0 == seq!['.'] {
        seq!['i', 'm', 'a', 'g', 'e']
    } else {
        clean0
    }));
    let dot: Vec<char> = vec!['.'];
    assert(dot@ =~= seq!['.']);
    proof {
        crate::markdown::lemma_contains_find(clean@, seq!['.']);
    }
    if find_from_exec(&clean, &dot, 0).is_none() {
        let png: Vec<char> = vec!['.', 'p', 'n', 'g'];
        assert(png@ =~= seq!['.', 'p', 'n', 'g']);
        push_all(&mut clean, &png);
    }
    assert(clean@ =~= image_basename(url@));
    let mut out = hex_fixed_exec(h, 16);
    out.push('-');
    push_all(&mut out, &clean);
    assert(out@ =~= image_name_of(url@, std_hash_of(url@)));
    proof {
        lemma_image_name_safe(url@, std_hash_of(url@));
    }
    string_of(&out)
}

proof fn lemma_hex_fixed_hex_digits(n: nat, k: nat)
    ensures
        forall|i: int| 0 <= i < hex_fixed(n, k).len() ==> (#[trigger] hex_fixed(n, k)[i] != '/'
            && hex_fixed(n, k)[i] != ' '),
    decreases k,
{
    if k > 0 {
        lemma_hex_fixed_hex_digits(n / 16, (k - 1) as nat);
        let prev = hex_fixed(n / 16, (k - 1) as nat);
        let d = crate::text::hex_char(n % 16);
        assert(d != '/' && d != ' ');
        assert forall|i: int| 0 <= i < hex_fixed(n, k).len() implies (#[trigger] hex_fixed(
            n,
            k,
        )[i] != '/' && hex_fixed(n, k)[i] != ' ') by {
            if i < prev.len() {
                assert(hex_fixed(n, k)[i] == prev[i]);
            }
        }
    }
}

/// Image file names hold no `/` and no space, and always have an extension.
pub proof fn lemma_image_name_safe(url: Seq<char>, hash: u64)
    ensures
        forall|i: int| 0 <= i < image_name_of(url, hash).len() ==> #[trigger] image_name_of(
            url,
            hash,
        )[i] != '/' && image_name_of(url, hash)[i] != ' ',
        contains(image_name_of(url, hash), seq!['.']),
{
    lemma_hex_fixed_hex_digits(hash as nat, 16);
    let h = hex_fixed(hash as nat, 16);
    let b = image_basename(url);
    let clean0 = url_basename(url).map_values(|c: char| file_name_char(c));
    assert forall|i: int| 0 <= i < b.len() implies b[i] != '/' && b[i] != ' ' by {
        if clean0.len() == 0 || clean0 == seq!['.'] {
        } else if i < clean0.len() {
            assert(clean0[i] == file_name_char(url_basename(url)[i]));
        }
    }
    let all = h + seq!['-'] + b;
    assert forall|i: int| 0 <= i < all.len() implies all[i] != '/' && all[i] != ' ' by {
        if i < h.len() {
        } else if i == h.len() {
        } else {
            assert(all[i] == b[i - h.len() - 1]);
        }
    }
    let k: int = if contains(b, seq!['.']) {
        choose|k: int| occurs_at(b, seq!['.'], k)
    } else {
        let c = if clean0.len() == 0 || clean0 == seq!['.'] {
            seq!['i', 'm', 'a', 'g', 'e']
        } else {
            clean0
        };
        assert(!contains(c, seq!['.']));
        assert(b == c + seq!['.', 'p', 'n', 'g']);
        assert(b.subrange(c.len() as int, c.len() as int + 1) =~= seq!['.']);
        assert(occurs_at(b, seq!['.'], c.len() as int));
        c.len() as int
    };
    assert(occurs_at(b, seq!['.'], k));
    let j = h.len() + 1 + k;
    assert(all.subrange(j, j + 1) =~= b.subrange(k, k + 1));
    assert(occurs_at(all, seq!['.'], j));
}

/// (file name, normalized markdown, body) when the image at `url` is saved
/// into the repo: every occurrence of the URL in the page's markdown points at
/// `img/<file name>` instead, and the page is normalized.
pub open spec fn image_update_of(url: Seq<char>, markdown: Seq<char>) -> (
    Seq<char>,
    Seq<char>,
    Seq<char>,
) {
    let name = image_name_of(url, std_hash_of(url));
    let normalized = strip_spec(
        base_commonmark(replace_all(markdown, url, seq!['i', 'm', 'g', '/'] + name)),
    );
    (name, normalized, split_of(normalized).1)
}

/// The stored image's file name, the page's new markdown, and its new body.
pub fn image_update(url: &str, markdown: &str) -> (r: (String, String, String))
    requires
        is_http_url(url@),
    ensures
        (r.0@, r.1@, r.2@) == image_update_of(url@, markdown@),
{
    let name = image_filename(url);
    let mut local: Vec<char> = vec!['i', 'm', 'g', '/'];
    assert(local@ =~= seq!['i', 'm', 'g', '/']);
    push_str(&mut local, name.as_str());
    let u = to_chars(url);
    assert(u@.len() > 0) by {
        assert(u@.subrange(0, 7).len() == 7 || u@.subrange(0, 8).len() == 8);
    }
    let m = to_chars(markdown);
    let replaced = replace_exec(&m, &u, &local);
    let source = string_of(&replaced);
    let normalized = normalize_markdown(source.as_str());
    let (_fm, body) = crate::frontmatter::split_frontmatter(normalized.as_str());
    (name, normalized, body)
}

// ---------------------------------------------------------------------------
// Tidying up after a page leaves

/// `dir` lies strictly inside `base`; both are given by their path components.
pub open spec fn strictly_inside(base: Seq<Seq<char>>, dir: Seq<Seq<char>>) -> bool {
    base.len() < dir.len() && dir.take(base.len() as int) == base
}

fn same_text(a: &str, b: &str) -> (r: bool)
    ensures
        r == (a@ == b@),
{
    let x = to_chars(a);
    let y = to_chars(b);
    assert(x@.subrange(0, x@.len() as int) =~= x@);
    range_eq(&x, 0, x.len(), &y)
}

/// Whether the walk up from a removed page's directory removes `dir`: it must
/// lie strictly inside the project directory `base` (both canonical, given by
/// their components) and be empty. The walk stops at the first it keeps.
pub fn removes_parent(base: &Vec<String>, dir: &Vec<String>, is_empty: bool) -> (r: bool)
    ensures
        r == (is_empty && strictly_inside(
            base@.map_values(|c: String| c@),
            dir@.map_values(|c: String| c@),
        )),
{
    let ghost bv = base@.map_values(|c: String| c@);
    let ghost dv = dir@.map_values(|c: String| c@);
    if !is_empty || base.len() >= dir.len() {
        return false;
    }
    let mut i: usize = 0;
    while i < base.len()
        invariant
            bv == base@.map_values(|c: String| c@),
            dv == dir@.map_values(|c: String| c@),
            base@.len() < dir@.len(),
            i <= base@.len(),
            forall|j: int| 0 <= j < i ==> #[trigger] dv[j] == bv[j],
        decreases base.len() - i,
    {
        if !same_text(base[i].as_str(), dir[i].as_str()) {
            assert(dv.take(bv.len() as int)[i as int] != bv[i as int]);
            return false;
        }
        i += 1;
    }
    assert(dv.take(bv.len() as int) =~= bv);
    true
}

// ---------------------------------------------------------------------------
// Saving a page

/// What saving `markdown` as the page `slug` writes and answers: the file
/// normalized, and `{"html":..,"ok":true}` with the page rendered from it.
pub fn save_outcome(slug: &str, markdown: &str) -> (r: (String, String))
    ensures
        r.0@ == strip_spec(base_commonmark(markdown@)),
        r.1@ == html_json_of(rewrite_from(base_html(r.0@), slug@, 0)),
{
    let normalized = normalize_markdown(markdown);
    let html = render_html(normalized.as_str(), slug);
    let answer = html_json(html.as_str());
    (normalized, answer)
}


// ---------------------------------------------------------------------------
// Static files

/// The repo-relative path a GET serves: before any query or fragment, without
/// leading `/`; none when empty or when a segment is `..`.
pub open spec fn static_path_of(url: Seq<char>) -> Option<Seq<char>> {
    let rel = trim_start_char(url.take(before_query(url).len() as int), '/');
    if rel.len() == 0 || (exists|i: int|
        0 <= i < split_on(rel, '/').len() && #[trigger] split_on(rel, '/')[i] == seq!['.', '.']) {
        None
    } else {
        Some(rel)
    }
}

/// The repo-relative file a GET for `url` may serve, if any.
pub fn static_rel_path(url: &str) -> (r: Option<String>)
    ensures
        match static_path_of(url@) {
            Some(p) => r is Some && r->0@ == p,
            None => r is None,
        },
{
    let u = to_chars(url);
    let k = query_end(&u);
    let mut a: usize = 0;
    assert(u@.take(k as int) =~= u@.subrange(0, k as int));
    while a < k && u[a] == '/'
        invariant
            a <= k <= u@.len(),
            trim_start_char(u@.subrange(a as int, k as int), '/') == trim_start_char(
                u@.take(k as int),
                '/',
            ),
        decreases k - a,
    {
        assert(u@.subrange(a as int, k as int).drop_first() =~= u@.subrange(a + 1, k as int));
        a += 1;
    }
    assert(a < k ==> u@.subrange(a as int, k as int)[0] == u@[a as int]);
    assert(trim_start_char(u@.subrange(a as int, k as int), '/') == u@.subrange(a as int, k as int));
    assert(u@.take(k as int) =~= url@.take(before_query(url@).len() as int));
    let rel = slice_of(&u, a, k);
    assert(rel@ == trim_start_char(url@.take(before_query(url@).len() as int), '/'));
    if rel.len() == 0 {
        return None;
    }
    let segs = split_exec(&rel, '/');
    let mut i: usize = 0;
    while i < segs.len()
        invariant
            i <= segs@.len(),
            segs@.len() == split_on(rel@, '/').len(),
            forall|j: int| 0 <= j < segs@.len() ==> #[trigger] segs@[j]@ == split_on(rel@, '/')[j],
            forall|j: int| 0 <= j < i ==> #[trigger] split_on(rel@, '/')[j] != seq!['.', '.'],
            rel@ == trim_start_char(url@.take(before_query(url@).len() as int), '/'),
            rel@.len() > 0,
        decreases segs.len() - i,
    {
        let seg = &segs[i];
        assert(seg@ == split_on(rel@, '/')[i as int]);
        if seg.len() == 2 && seg[0] == '.' && seg[1] == '.' {
            assert(seg@ =~= seq!['.', '.']);
            return None;
        }
        assert(seg@ != seq!['.', '.']) by {
            if seg@.len() == 2 {
                assert(seg@[0] != '.' || seg@[1] != '.');
            }
        }
        i += 1;
    }
    Some(string_of(&rel))
}

/// The content type served for a file extension (compared case-insensitively).
pub open spec fn content_type_of(ext: Option<Seq<char>>) -> Seq<char> {
    match ext {
        None => "application/octet-stream"@,
        Some(e) => {
            let l = ascii_lower_seq(e);
            if l == "png"@ {
                "image/png"@
            } else if l == "jpg"@ || l == "jpeg"@ {
                "image/jpeg"@
            } else if l == "gif"@ {
                "image/gif"@
            } else if l == "svg"@ {
                "image/svg+xml"@
            } else if l == "webp"@ {
                "image/webp"@
            } else if l == "avif"@ {
                "image/avif"@
            } else if l == "ico"@ {
                "image/x-icon"@
            } else if l == "json"@ || l == "excalidraw"@ {
                "application/json"@
            } else {
                "application/octet-stream"@
            }
        },
    }
}

/// The content type for a file with this extension.
pub fn content_type(ext: Option<&str>) -> (r: &'static str)
    ensures
        r@ == content_type_of(
            match ext {
                Some(e) => Some(e@),
                None => None,
            },
        ),
{
    match ext {
        None => "application/octet-stream",
        Some(e) => {
            let c = to_chars(e);
            let l = ascii_lower_range(&c, 0, c.len());
            assert(c@.subrange(0, c@.len() as int) =~= e@);
            if is(&l, "png") {
                "image/png"
            } else if is(&l, "jpg") || is(&l, "jpeg") {
                "image/jpeg"
            } else if is(&l, "gif") {
                "image/gif"
            } else if is(&l, "svg") {
                "image/svg+xml"
            } else if is(&l, "webp") {
                "image/webp"
            } else if is(&l, "avif") {
                "image/avif"
            } else if is(&l, "ico") {
                "image/x-icon"
            } else if is(&l, "json") || is(&l, "excalidraw") {
                "application/json"
            } else {
                "application/octet-stream"
            }
        },
    }
}

} // verus!
