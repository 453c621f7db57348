//! Pages: what one markdown file becomes, and the order pages are listed in.

use vstd::prelude::*;
use crate::frontmatter::{first_h1, first_h1_of, frontmatter_meta, meta_of, split_frontmatter, split_of};
use crate::links::{slug_for, slug_of};
use crate::markdown::{base_html, render_html, rewrite_from, strip_list_separators, strip_spec};
use crate::text::{ends_with, lines, occurs_at_exec, to_chars};

verus! {

broadcast use vstd::seq_lib::group_to_multiset_ensures;

/// One rendered page of the site.
pub struct Page {
    pub slug: String,
    pub title: String,
    pub order: i64,
    pub html: String,
    /// Raw frontmatter block (incl. delimiters + trailing newline), or "" if none.
    /// Re-attached on save so the editor never has to show YAML.
    pub frontmatter: String,
    /// Markdown body without frontmatter — what the WYSIWYG editor loads.
    pub body: String,
}

/// The title of a page: the frontmatter title, else the first `# ` heading of
/// the body, else the slug.
pub open spec fn title_of(fm_title: Option<Seq<char>>, body: Seq<char>, slug: Seq<char>) -> Seq<
    char,
> {
    match fm_title {
        Some(t) => t,
        None => match first_h1_of(lines(body)) {
            Some(h) => h,
            None => slug,
        },
    }
}

/// What `page_from_source` makes of the file at relative path `rel` holding `raw`.
pub open spec fn page_matches(p: Page, rel: Seq<char>, raw: Seq<char>) -> bool {
    let slug = slug_of(rel);
    let (fm, body) = split_of(raw);
    let (t, order) = meta_of(lines(fm));
    let body = strip_spec(body);
    &&& p.slug@ == slug
    &&& p.frontmatter@ == fm
    &&& p.body@ == body
    &&& p.order == order
    &&& p.html@ == rewrite_from(base_html(raw), slug, 0)
    &&& p.title@ == title_of(t, body, slug)
}

/// The page for one markdown file, given its path relative to the root (with
/// `/` separators) and its contents.
pub fn page_from_source(rel: &str, raw: &str) -> (p: Page)
    ensures
        page_matches(p, rel@, raw@),
{
    let slug = slug_for(rel);
    let (frontmatter, body) = split_frontmatter(raw);
    let (fm_title, order) = frontmatter_meta(frontmatter.as_str());
    // Strip the `<!-- end list -->` artifact so the editor never displays it,
    // even if an older save left one in the file.
    let body = strip_list_separators(body.as_str());
    // Render the whole file: front_matter_delimiter drops the frontmatter from HTML.
    let html = render_html(raw, slug.as_str());
    let title = match fm_title {
        Some(t) => t,
        None => match first_h1(body.as_str()) {
            Some(h) => h,
            None => slug.clone(),
        },
    };
    Page { slug, title, order, html, frontmatter, body }
}

// ---------------------------------------------------------------------------
// Ordering

/// `a < b` in the order of `String`: lexicographic by code point.
pub open spec fn seq_lt(a: Seq<char>, b: Seq<char>) -> bool
    decreases a.len(),
{
    if a.len() == 0 {
        b.len() > 0
    } else if b.len() == 0 {
        false
    } else if a[0] != b[0] {
        a[0] < b[0]
    } else {
        seq_lt(a.drop_first(), b.drop_first())
    }
}

pub proof fn lemma_seq_lt_asym(a: Seq<char>, b: Seq<char>)
    ensures
        !(seq_lt(a, b) && seq_lt(b, a)),
    decreases a.len(),
{
    if a.len() > 0 && b.len() > 0 && a[0] == b[0] {
        lemma_seq_lt_asym(a.drop_first(), b.drop_first());
    }
}

pub proof fn lemma_seq_lt_total(a: Seq<char>, b: Seq<char>)
    ensures
        a == b || seq_lt(a, b) || seq_lt(b, a),
    decreases a.len(),
{
    if a.len() > 0 && b.len() > 0 && a[0] == b[0] {
        lemma_seq_lt_total(a.drop_first(), b.drop_first());
        if a.drop_first() == b.drop_first() {
            assert(a =~= seq![a[0]] + a.drop_first());
            assert(b =~= seq![b[0]] + b.drop_first());
        }
    } else if a.len() == 0 && b.len() == 0 {
        assert(a =~= b);
    }
}

pub proof fn lemma_seq_lt_trans(a: Seq<char>, b: Seq<char>, c: Seq<char>)
    requires
        seq_lt(a, b),
        seq_lt(b, c),
    ensures
        seq_lt(a, c),
    decreases a.len(),
{
    if a.len() > 0 && b.len() > 0 && c.len() > 0 && a[0] == b[0] && b[0] == c[0] {
        lemma_seq_lt_trans(a.drop_first(), b.drop_first(), c.drop_first());
    }
}

/// `a` sorts strictly before `b`: by `order`, then by slug.
pub open spec fn page_before(a: Page, b: Page) -> bool {
    a.order < b.order || (a.order == b.order && seq_lt(a.slug@, b.slug@))
}

/// No page sorts strictly before one listed ahead of it.
pub open spec fn pages_sorted(s: Seq<Page>) -> bool {
    forall|i: int, j: int| 0 <= i < j < s.len() ==> !page_before(s[j], s[i])
}

/// Pages are ordered by `order` as numbers first; the slug only breaks ties.
pub proof fn law_page_order_numeric(a: Page, b: Page)
    ensures
        a.order < b.order ==> page_before(a, b) && !page_before(b, a),
        a.order == b.order ==> (page_before(a, b) <==> seq_lt(a.slug@, b.slug@)),
{
}

/// In a sorted list the orders never decrease, and pages of equal order come
/// in slug order.
pub proof fn law_sorted_pages_ascend(s: Seq<Page>)
    requires
        pages_sorted(s),
    ensures
        forall|i: int, j: int|
            0 <= i < j < s.len() ==> #[trigger] s[i].order <= #[trigger] s[j].order && (s[i].order
                == s[j].order ==> !seq_lt(s[j].slug@, s[i].slug@)),
{
    assert forall|i: int, j: int| 0 <= i < j < s.len() implies #[trigger] s[i].order
        <= #[trigger] s[j].order && (s[i].order == s[j].order ==> !seq_lt(s[j].slug@, s[i].slug@)) by {
        assert(!page_before(s[j], s[i]));
    }
}

proof fn lemma_page_before_asym(a: Page, b: Page)
    ensures
        !(page_before(a, b) && page_before(b, a)),
{
    lemma_seq_lt_asym(a.slug@, b.slug@);
}

proof fn lemma_page_before_ahead(p: Page, q: Page, r: Page)
    requires
        page_before(p, q),
        !page_before(r, q),
    ensures
        !page_before(r, p),
{
    lemma_seq_lt_total(q.slug@, r.slug@);
    lemma_seq_lt_asym(p.slug@, r.slug@);
    if p.order == q.order && q.order == r.order && seq_lt(q.slug@, r.slug@) {
        lemma_seq_lt_trans(p.slug@, q.slug@, r.slug@);
    }
}

/// `a < b` for two strings, by code point.
pub fn str_lt(a: &str, b: &str) -> (r: bool)
    ensures
        r == seq_lt(a@, b@),
{
    let x = to_chars(a);
    let y = to_chars(b);
    let mut i: usize = 0;
    assert(x@.skip(0) =~= x@);
    assert(y@.skip(0) =~= y@);
    loop
        invariant
            i <= x@.len(),
            i <= y@.len(),
            x@ == a@,
            y@ == b@,
            seq_lt(a@, b@) == seq_lt(x@.skip(i as int), y@.skip(i as int)),
        decreases x@.len() - i,
    {
        if i == x.len() {
            return i < y.len();
        }
        if i == y.len() {
            return false;
        }
        if x[i] != y[i] {
            return x[i] < y[i];
        }
        assert(x@.skip(i as int).drop_first() =~= x@.skip(i + 1));
        assert(y@.skip(i as int).drop_first() =~= y@.skip(i + 1));
        i += 1;
    }
}

fn page_before_exec(a: &Page, b: &Page) -> (r: bool)
    ensures
        r == page_before(*a, *b),
{
    a.order < b.order || (a.order == b.order && str_lt(a.slug.as_str(), b.slug.as_str()))
}

/// Two pages tie: neither sorts before the other.
pub open spec fn page_tie(a: Page, b: Page) -> bool {
    a.order == b.order && a.slug@ == b.slug@
}

/// `after` is `before` rearranged, `perm[k]` being the position in `before`
/// of `after[k]`, with pages that tie left in their order.
pub open spec fn stable_rearrangement(before: Seq<Page>, after: Seq<Page>, perm: Seq<int>) -> bool {
    &&& perm.len() == after.len()
    &&& after.len() == before.len()
    &&& forall|k: int| 0 <= k < perm.len() ==> 0 <= #[trigger] perm[k] < before.len() && after[k] == before[perm[k]]
    &&& forall|a: int, b: int| 0 <= a < b < perm.len() ==> #[trigger] perm[a] != #[trigger] perm[b]
    &&& forall|a: int, b: int|
        0 <= a < b < perm.len() && page_tie(#[trigger] after[a], #[trigger] after[b]) ==> perm[a] < perm[b]
}

/// Sort pages by `order`, then by slug; pages that tie keep their relative order.
pub fn sort_pages(pages: &mut Vec<Page>)
    ensures
        pages_sorted(final(pages)@),
        final(pages)@.to_multiset() == old(pages)@.to_multiset(),
        exists|perm: Seq<int>| stable_rearrangement(old(pages)@, final(pages)@, perm),
{
    let ghost orig = pages@;
    let ghost mut perm: Seq<int> = seq![];
    let mut sorted: Vec<Page> = Vec::new();
    while pages.len() > 0
        invariant
            pages_sorted(sorted@),
            sorted@.to_multiset().add(pages@.to_multiset()) == old(pages)@.to_multiset(),
            orig == old(pages)@,
            pages@ == orig.skip(sorted@.len() as int),
            sorted@.len() <= orig.len(),
            perm.len() == sorted@.len(),
            forall|k: int| 0 <= k < perm.len() ==> 0 <= #[trigger] perm[k] < sorted@.len() && sorted@[k] == orig[perm[k]],
            forall|a: int, b: int| 0 <= a < b < perm.len() ==> #[trigger] perm[a] != #[trigger] perm[b],
            forall|a: int, b: int|
                0 <= a < b < perm.len() && page_tie(#[trigger] sorted@[a], #[trigger] sorted@[b]) ==> perm[a] < perm[b],
        decreases pages@.len(),
    {
        let ghost rest = pages@;
        let ghost t = sorted@.len() as int;
        let p = pages.remove(0);
        assert(rest.remove(0) == pages@);
        assert(p == orig[t]);
        assert(pages@ =~= orig.skip(t + 1));
        // the first position holding a page that `p` sorts strictly before
        let mut k: usize = 0;
        while k < sorted.len() && !page_before_exec(&p, &sorted[k])
            invariant
                k <= sorted@.len(),
                forall|i: int| 0 <= i < k ==> !page_before(p, #[trigger] sorted@[i]),
            decreases sorted@.len() - k,
        {
            k += 1;
        }
        let ghost before = sorted@;
        proof {
            if k < before.len() {
                assert forall|i: int| k <= i < before.len() implies !page_before(
                    #[trigger] before[i],
                    p,
                ) by {
                    if i > k {
                        lemma_page_before_ahead(p, before[k as int], before[i]);
                    } else {
                        lemma_page_before_asym(p, before[k as int]);
                    }
                }
            }
        }
        sorted.insert(k, p);
        proof {
            let old_perm = perm;
            perm = old_perm.insert(k as int, t);
            before.insert_ensures(k as int, p);
            assert(sorted@ == before.insert(k as int, p));
            // every page from k on sorts strictly after p, so none ties with it
            assert forall|i: int| k <= i < before.len() implies !page_tie(p, #[trigger] before[i]) by {
                if page_tie(p, before[i]) {
                    assert(page_before(p, before[k as int]));
                    if i > k {
                        assert(!page_before(before[i], before[k as int]));
                    }
                }
            }
            assert forall|j: int| 0 <= j < perm.len() implies 0 <= #[trigger] perm[j] < sorted@.len() && sorted@[j] == orig[perm[j]] by {
                if j < k {
                    assert(perm[j] == old_perm[j]);
                } else if j > k {
                    assert(perm[j] == old_perm[j - 1]);
                }
            }
            assert forall|a: int, b: int| 0 <= a < b < perm.len() implies #[trigger] perm[a] != #[trigger] perm[b] by {
                if a != k && b != k {
                    let a0 = if a < k { a } else { a - 1 };
                    let b0 = if b < k { b } else { b - 1 };
                    assert(perm[a] == old_perm[a0] && perm[b] == old_perm[b0]);
                } else if a == k {
                    assert(perm[b] == old_perm[b - 1]);
                } else {
                    assert(perm[a] == old_perm[a]);
                }
            }
            assert forall|a: int, b: int|
                0 <= a < b < perm.len() && page_tie(#[trigger] sorted@[a], #[trigger] sorted@[b]) implies perm[a] < perm[b] by {
                if a != k && b != k {
                    let a0 = if a < k { a } else { a - 1 };
                    let b0 = if b < k { b } else { b - 1 };
                    assert(perm[a] == old_perm[a0] && perm[b] == old_perm[b0]);
                    assert(sorted@[a] == before[a0] && sorted@[b] == before[b0]);
                } else if a == k {
                    assert(sorted@[b] == before[b - 1]);
                    assert(!page_tie(p, before[b - 1]));
                } else {
                    assert(perm[a] == old_perm[a]);
                }
            }
            assert(sorted@ == before.insert(k as int, p));
            assert(sorted@.remove(k as int) =~= before);
            assert(sorted@[k as int] == p);
            assert(sorted@.to_multiset() =~= before.to_multiset().insert(p));
            assert(rest.to_multiset() =~= pages@.to_multiset().insert(p));
            assert forall|i: int, j: int| 0 <= i < j < sorted@.len() implies !page_before(
                #[trigger] sorted@[j],
                #[trigger] sorted@[i],
            ) by {
                if j < k {
                    assert(sorted@[i] == before[i] && sorted@[j] == before[j]);
                } else if j == k {
                    assert(sorted@[i] == before[i]);
                } else if i == k {
                    assert(sorted@[j] == before[j - 1]);
                } else if i < k {
                    assert(sorted@[i] == before[i] && sorted@[j] == before[j - 1]);
                } else {
                    assert(sorted@[i] == before[i - 1] && sorted@[j] == before[j - 1]);
                }
            }
        }
    }
    assert(pages@.to_multiset() =~= vstd::multiset::Multiset::empty());
    assert(stable_rearrangement(orig, sorted@, perm));
    *pages = sorted;
}

// ---------------------------------------------------------------------------
// Walking the tree

/// Directory names whose contents are never pages.
pub open spec fn is_ignored_dir(name: Seq<char>) -> bool {
    name == seq!['.', 'g', 'i', 't'] || name == seq![
        'n',
        'o',
        'd',
        'e',
        '_',
        'm',
        'o',
        'd',
        'u',
        'l',
        'e',
        's',
    ] || name == seq!['t', 'a', 'r', 'g', 'e', 't'] || name == seq!['d', 'i', 's', 't']
}

/// Whether a path, given by its components, lies under `.git`, `node_modules`,
/// `target` or `dist`.
pub fn ignored(components: &Vec<String>) -> (r: bool)
    ensures
        r == exists|i: int| 0 <= i < components@.len() && is_ignored_dir(#[trigger] components@[i]@),
{
    let git: Vec<char> = vec!['.', 'g', 'i', 't'];
    let node: Vec<char> = vec!['n', 'o', 'd', 'e', '_', 'm', 'o', 'd', 'u', 'l', 'e', 's'];
    let target: Vec<char> = vec!['t', 'a', 'r', 'g', 'e', 't'];
    let dist: Vec<char> = vec!['d', 'i', 's', 't'];
    let mut i: usize = 0;
    while i < components.len()
        invariant
            i <= components@.len(),
            git@ == seq!['.', 'g', 'i', 't'],
            node@ == seq!['n', 'o', 'd', 'e', '_', 'm', 'o', 'd', 'u', 'l', 'e', 's'],
            target@ == seq!['t', 'a', 'r', 'g', 'e', 't'],
            dist@ == seq!['d', 'i', 's', 't'],
            forall|j: int| 0 <= j < i ==> !is_ignored_dir(#[trigger] components@[j]@),
        decreases components.len() - i,
    {
        let c = to_chars(components[i].as_str());
        let n = c.len();
        if crate::text::range_eq(&c, 0, n, &git) || crate::text::range_eq(&c, 0, n, &node)
            || crate::text::range_eq(&c, 0, n, &target) || crate::text::range_eq(
            &c,
            0,
            n,
            &dist,
        ) {
            assert(c@.subrange(0, n as int) =~= c@);
            return true;
        }
        assert(c@.subrange(0, n as int) =~= c@);
        i += 1;
    }
    false
}

/// A file name whose extension is `md` (`.md` alone is a hidden file with no
/// extension).
pub open spec fn is_md_name(name: Seq<char>) -> bool {
    name.len() > 3 && ends_with(name, seq!['.', 'm', 'd'])
}

/// Whether a file name has the extension `md`.
pub fn has_md_extension(file_name: &str) -> (r: bool)
    ensures
        r == is_md_name(file_name@),
{
    let s = to_chars(file_name);
    let n = s.len();
    let ext: Vec<char> = vec!['.', 'm', 'd'];
    assert(ext@ =~= seq!['.', 'm', 'd']);
    n > 3 && occurs_at_exec(&s, &ext, n - 3)
}

/// The pages of a site, from each markdown file's relative path (with `/`
/// separators) and contents: one page per file, sorted by `order`, then slug,
/// files that tie keeping the order they were given in.
pub fn collect_pages(sources: &Vec<(String, String)>) -> (r: Vec<Page>)
    ensures
        pages_sorted(r@),
        exists|made: Seq<Page>, perm: Seq<int>|
            #![trigger stable_rearrangement(made, r@, perm)]
            {
                &&& made.len() == sources@.len()
                &&& forall|i: int|
                    0 <= i < made.len() ==> page_matches(
                        #[trigger] made[i],
                        sources@[i].0@,
                        sources@[i].1@,
                    )
                &&& r@.to_multiset() == made.to_multiset()
                &&& stable_rearrangement(made, r@, perm)
            },
{
    let mut made: Vec<Page> = Vec::new();
    let mut i: usize = 0;
    while i < sources.len()
        invariant
            i <= sources@.len(),
            made@.len() == i,
            forall|j: int|
                0 <= j < i ==> page_matches(#[trigger] made@[j], sources@[j].0@, sources@[j].1@),
        decreases sources.len() - i,
    {
        let (rel, raw) = (&sources[i].0, &sources[i].1);
        made.push(page_from_source(rel.as_str(), raw.as_str()));
        i += 1;
    }
    let ghost unsorted = made@;
    sort_pages(&mut made);
    let ghost perm = choose|perm: Seq<int>| stable_rearrangement(unsorted, made@, perm);
    assert(unsorted.len() == sources@.len());
    assert(stable_rearrangement(unsorted, made@, perm));
    made
}

} // verus!
