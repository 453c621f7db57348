//! Per-repo settings + secrets.
//!
//! Three buckets, deliberately separated:
//! - **Project settings** (`.caret/config.toml`) — committed; travels with the repo.
//! - **Secrets** (`.caret/secrets.toml`) — gitignored; values never leave the server.
//! - Personal/device overrides live in the browser (localStorage), not here.

use vstd::prelude::*;
use crate::diagrams::string_views;
use crate::json::{json_bool, json_bool_exec, json_quoted, json_string, json_string_array, json_string_array_exec};
use crate::pages::{lemma_seq_lt_asym, lemma_seq_lt_total, lemma_seq_lt_trans, seq_lt, str_lt};
use crate::site::theme_name;
use crate::text::{
    from_chars, lines, lines_exec, lines_from, find_from, lemma_find_from_skip, occurs_at, push_all,
    push_str, range_eq, string_of, to_chars, trim, trim_bounds,
};

verus! {

// ---------------------------------------------------------------------------
// Settings

/// The project settings kept in `.caret/config.toml`.
pub struct Settings {
    pub auto_save: bool,
    /// "dark" | "light" — the repo default; a viewer may override on their device.
    pub theme: String,
    /// Display title for the project; empty falls back to the directory name.
    pub title: String,
}

impl Default for Settings {
    fn default() -> (s: Self)
        ensures
            !s.auto_save,
            s.theme@ == seq!['d', 'a', 'r', 'k'],
            s.title@.len() == 0,
    {
        let dark: Vec<char> = vec!['d', 'a', 'r', 'k'];
        assert(dark@ =~= seq!['d', 'a', 'r', 'k']);
        Settings { auto_save: false, theme: string_of(&dark), title: String::new() }
    }
}

impl Clone for Settings {
    fn clone(&self) -> (s: Self)
        ensures
            s == *self,
    {
        Settings { auto_save: self.auto_save, theme: self.theme.clone(), title: self.title.clone() }
    }
}

/// Settings as the browser sends them: theme `light` or else `dark`, title trimmed.
pub fn settings_from_input(auto_save: bool, theme: &str, title: &str) -> (s: Settings)
    ensures
        s.auto_save == auto_save,
        s.theme@ == theme_name(theme@),
        s.title@ == trim(title@),
{
    Settings { auto_save, theme: normalized_theme(theme), title: trimmed(title) }
}

fn trimmed(s: &str) -> (r: String)
    ensures
        r@ == trim(s@),
{
    let c = to_chars(s);
    assert(c@.subrange(0, c@.len() as int) =~= s@);
    let (a, b) = trim_bounds(&c, 0, c.len());
    from_chars(&c, a, b)
}

fn normalized_theme(theme: &str) -> (r: String)
    ensures
        r@ == theme_name(theme@),
{
    let t = to_chars(theme);
    let light: Vec<char> = vec!['l', 'i', 'g', 'h', 't'];
    let dark: Vec<char> = vec!['d', 'a', 'r', 'k'];
    assert(light@ =~= seq!['l', 'i', 'g', 'h', 't'] && dark@ =~= seq!['d', 'a', 'r', 'k']);
    assert(t@.subrange(0, t@.len() as int) =~= theme@);
    if range_eq(&t, 0, t.len(), &light) {
        string_of(&light)
    } else {
        string_of(&dark)
    }
}

/// The served directory's name (e.g. "my-docs") — the project-title fallback:
/// `docs` when there is none.
pub fn project_basename(name: Option<&str>) -> (r: String)
    ensures
        r@ == match name {
            Some(n) => if n@.len() > 0 {
                n@
            } else {
                seq!['d', 'o', 'c', 's']
            },
            None => seq!['d', 'o', 'c', 's'],
        },
{
    let docs: Vec<char> = vec!['d', 'o', 'c', 's'];
    assert(docs@ =~= seq!['d', 'o', 'c', 's']);
    match name {
        Some(n) => {
            if n.unicode_len() == 0 {
                string_of(&docs)
            } else {
                string_of(&to_chars(n))
            }
        },
        None => string_of(&docs),
    }
}

/// The project name shown in the header: the trimmed title, or the directory
/// name when the title is blank.
pub open spec fn project_name_of(title: Seq<char>, basename: Seq<char>) -> Seq<char> {
    if trim(title).len() == 0 {
        basename
    } else {
        trim(title)
    }
}

/// The client-visible settings as JSON (keys in the order serde_json writes them).
pub open spec fn client_json_of(
    auto_save: bool,
    theme: Seq<char>,
    title: Seq<char>,
    basename: Seq<char>,
    secret_names: Seq<Seq<char>>,
) -> Seq<char> {
    seq!['{', '"', 'a', 'u', 't', 'o', 'S', 'a', 'v', 'e', '"', ':'] + json_bool(auto_save) + seq![',', '"', 'b', 'a', 's', 'e', 'n', 'a', 'm', 'e', '"', ':'] + json_quoted(basename)
        + seq![',', '"', 'p', 'r', 'o', 'j', 'e', 'c', 't', '"', ':'] + json_quoted(project_name_of(title, basename)) + seq![',', '"', 's', 'e', 'c', 'r', 'e', 't', 's', '"', ':'] + json_string_array(secret_names) + seq![',', '"', 't', 'h', 'e', 'm', 'e', '"', ':'] + json_quoted(theme_name(theme))
        + seq![',', '"', 't', 'i', 't', 'l', 'e', '"', ':'] + json_quoted(title) + seq!['}']
}

/// The blob injected into the page: (theme, json) where json carries the
/// client-visible settings — including which secrets are set, never their values.
pub fn client_blob(settings: &Settings, basename: &str, secret_names: &Vec<String>) -> (r: (
    String,
    String,
))
    ensures
        r.0@ == theme_name(settings.theme@),
        r.1@ == client_json_of(
            settings.auto_save,
            settings.theme@,
            settings.title@,
            basename@,
            string_views(secret_names@),
        ),
{
    let theme = normalized_theme(settings.theme.as_str());
    let title = trimmed(settings.title.as_str());
    let project = if title.as_str().unicode_len() == 0 {
        string_of(&to_chars(basename))
    } else {
        title
    };
    let mut out: Vec<char> = vec!['{', '"', 'a', 'u', 't', 'o', 'S', 'a', 'v', 'e', '"', ':'];
    let ghost s0 = out@;
    assert(s0 =~= seq!['{', '"', 'a', 'u', 't', 'o', 'S', 'a', 'v', 'e', '"', ':']);
    push_all(&mut out, &json_bool_exec(settings.auto_save));
    push_str(&mut out, ",\"basename\":");
    push_str(&mut out, json_string(basename).as_str());
    push_str(&mut out, ",\"project\":");
    push_str(&mut out, json_string(project.as_str()).as_str());
    push_str(&mut out, ",\"secrets\":");
    let arr = json_string_array_exec(secret_names);
    push_all(&mut out, &arr);
    push_str(&mut out, ",\"theme\":");
    push_str(&mut out, json_string(theme.as_str()).as_str());
    push_str(&mut out, ",\"title\":");
    push_str(&mut out, json_string(settings.title.as_str()).as_str());
    out.push('}');
    proof {
        reveal_strlit(",\"basename\":");
        reveal_strlit(",\"project\":");
        reveal_strlit(",\"secrets\":");
        reveal_strlit(",\"theme\":");
        reveal_strlit(",\"title\":");
        assert(",\"basename\":"@ =~= seq![',', '"', 'b', 'a', 's', 'e', 'n', 'a', 'm', 'e', '"', ':']);
        assert(",\"project\":"@ =~= seq![',', '"', 'p', 'r', 'o', 'j', 'e', 'c', 't', '"', ':']);
        assert(",\"secrets\":"@ =~= seq![',', '"', 's', 'e', 'c', 'r', 'e', 't', 's', '"', ':']);
        assert(",\"theme\":"@ =~= seq![',', '"', 't', 'h', 'e', 'm', 'e', '"', ':']);
        assert(",\"title\":"@ =~= seq![',', '"', 't', 'i', 't', 'l', 'e', '"', ':']);
        assert(string_views(secret_names@) =~= secret_names@.map_values(|s: String| s@));
    }
    assert(out@ =~= client_json_of(
        settings.auto_save,
        settings.theme@,
        settings.title@,
        basename@,
        string_views(secret_names@),
    ));
    (theme, string_of(&out))
}

// ---------------------------------------------------------------------------
// Secrets

/// A secret table: (name, value) entries in strictly increasing name order.
pub open spec fn names_sorted(t: Seq<(Seq<char>, Seq<char>)>) -> bool {
    forall|i: int, j: int| 0 <= i < j < t.len() ==> seq_lt(t[i].0, t[j].0)
}

/// The table holds the entry (n, v).
pub open spec fn has_entry(t: Seq<(Seq<char>, Seq<char>)>, n: Seq<char>, v: Seq<char>) -> bool {
    exists|i: int| 0 <= i < t.len() && #[trigger] t[i] == (n, v)
}

/// The names in the table, in order.
pub open spec fn names_of(t: Seq<(Seq<char>, Seq<char>)>) -> Seq<Seq<char>> {
    t.map_values(|e: (Seq<char>, Seq<char>)| e.0)
}

/// `after` is `before` with `name` set to `value` — or, when `clear_empty` and
/// the value is empty, with `name` removed.
pub open spec fn set_post(
    before: Seq<(Seq<char>, Seq<char>)>,
    after: Seq<(Seq<char>, Seq<char>)>,
    name: Seq<char>,
    value: Seq<char>,
    clear_empty: bool,
) -> bool {
    &&& names_sorted(after)
    &&& forall|n: Seq<char>, v: Seq<char>|
        #![trigger has_entry(after, n, v)]
        has_entry(after, n, v) <==> if n == name {
            (!clear_empty || value.len() > 0) && v == value
        } else {
            has_entry(before, n, v)
        }
}

/// The secrets kept in `.caret/secrets.toml`, keyed by name.
pub struct Secrets {
    entries: Vec<(String, String)>,
}

impl View for Secrets {
    type V = Seq<(Seq<char>, Seq<char>)>;

    closed spec fn view(&self) -> Seq<(Seq<char>, Seq<char>)> {
        self.entries@.map_values(|e: (String, String)| (e.0@, e.1@))
    }
}

impl Secrets {
    #[verifier::type_invariant]
    spec fn wf(self) -> bool {
        names_sorted(self@)
    }

    /// No secrets.
    pub fn new() -> (s: Secrets)
        ensures
            s@ == Seq::<(Seq<char>, Seq<char>)>::empty(),
    {
        let s = Secrets { entries: Vec::new() };
        assert(s@ =~= Seq::<(Seq<char>, Seq<char>)>::empty());
        s
    }

    /// The table is sorted by name, names unique.
    pub fn sorted(&self)
        ensures
            names_sorted(self@),
    {
        proof {
            use_type_invariant(self);
        }
    }
}

fn str_eq(a: &str, b: &str) -> (r: bool)
    ensures
        r == (a@ == b@),
{
    let x = to_chars(a);
    let y = to_chars(b);
    assert(x@.subrange(0, x@.len() as int) =~= x@);
    range_eq(&x, 0, x.len(), &y)
}

fn set_entry(store: &mut Secrets, name: &str, value: &str, clear_empty: bool)
    ensures
        set_post(old(store)@, final(store)@, name@, value@, clear_empty),
{
    proof {
        use_type_invariant(&*store);
    }
    let ghost before = store@;
    let mut e: Vec<(String, String)> = Vec::new();
    std::mem::swap(&mut e, &mut store.entries);
    assert(before == e@.map_values(|x: (String, String)| (x.0@, x.1@)));
    let mut k: usize = 0;
    while k < e.len() && str_lt(e[k].0.as_str(), name)
        invariant
            k <= e@.len(),
            before == e@.map_values(|x: (String, String)| (x.0@, x.1@)),
            forall|i: int| 0 <= i < k ==> seq_lt(#[trigger] before[i].0, name@),
        decreases e@.len() - k,
    {
        k += 1;
    }
    let drop = clear_empty && value.unicode_len() == 0;
    if k < e.len() && str_eq(e[k].0.as_str(), name) {
        // `name` is at k: no other entry has it
        assert forall|i: int| 0 <= i < before.len() && i != k implies #[trigger] before[i].0
            != name@ by {
            if i < k {
                lemma_seq_lt_asym(before[i].0, name@);
            } else {
                lemma_seq_lt_asym(before[k as int].0, before[i].0);
            }
        }
        if drop {
            e.remove(k);
            let ghost after = e@.map_values(|x: (String, String)| (x.0@, x.1@));
            assert(after =~= before.remove(k as int));
            assert forall|n: Seq<char>, v: Seq<char>| #[trigger]
                has_entry(after, n, v) <==> if n == name@ {
                    false
                } else {
                    has_entry(before, n, v)
                } by {
                if has_entry(after, n, v) {
                    let i = choose|i: int| 0 <= i < after.len() && #[trigger] after[i] == (n, v);
                    let j = if i < k { i } else { i + 1 };
                    assert(before[j] == (n, v));
                    assert(before[j].0 == n);
                }
                if n != name@ && has_entry(before, n, v) {
                    let j = choose|j: int| 0 <= j < before.len() && #[trigger] before[j] == (n, v);
                    assert(j != k);
                    let i = if j < k { j } else { j - 1 };
                    assert(after[i] == (n, v));
                }
            }
            assert(names_sorted(after)) by {
                assert forall|i: int, j: int| 0 <= i < j < after.len() implies seq_lt(
                    after[i].0,
                    after[j].0,
                ) by {
                    let i2 = if i < k { i } else { i + 1 };
                    let j2 = if j < k { j } else { j + 1 };
                    assert(after[i] == before[i2] && after[j] == before[j2]);
                }
            }
        } else {
            let entry = (string_of(&to_chars(name)), string_of(&to_chars(value)));
            e.set(k, entry);
            let ghost after = e@.map_values(|x: (String, String)| (x.0@, x.1@));
            assert(after =~= before.update(k as int, (name@, value@)));
            assert forall|n: Seq<char>, v: Seq<char>| #[trigger]
                has_entry(after, n, v) <==> if n == name@ {
                    v == value@
                } else {
                    has_entry(before, n, v)
                } by {
                if n == name@ && v == value@ {
                    assert(after[k as int] == (n, v));
                }
                if has_entry(after, n, v) {
                    let i = choose|i: int| 0 <= i < after.len() && #[trigger] after[i] == (n, v);
                    if i != k {
                        assert(before[i] == (n, v));
                        assert(before[i].0 == n);
                    } else {
                        assert(after[i].0 == name@ && after[i].1 == value@);
                    }
                }
                if n != name@ && has_entry(before, n, v) {
                    let j = choose|j: int| 0 <= j < before.len() && #[trigger] before[j] == (n, v);
                    assert(after[j] == (n, v));
                }
            }
            assert(names_sorted(after)) by {
                assert forall|i: int, j: int| 0 <= i < j < after.len() implies seq_lt(
                    after[i].0,
                    after[j].0,
                ) by {
                    assert(after[i].0 == before[i].0 && after[j].0 == before[j].0);
                }
            }
        }
    } else {
        // every entry from k on sorts after `name`
        assert forall|i: int| k <= i < before.len() implies seq_lt(
            name@,
            #[trigger] before[i].0,
        ) by {
            lemma_seq_lt_total(before[k as int].0, name@);
            if i > k {
                lemma_seq_lt_trans(name@, before[k as int].0, before[i].0);
            }
        }
        assert forall|i: int| 0 <= i < before.len() implies #[trigger] before[i].0 != name@ by {
            if i >= k {
                lemma_seq_lt_asym(name@, before[i].0);
            } else {
                lemma_seq_lt_asym(before[i].0, name@);
            }
        }
        if !drop {
            let entry = (string_of(&to_chars(name)), string_of(&to_chars(value)));
            e.insert(k, entry);
            let ghost after = e@.map_values(|x: (String, String)| (x.0@, x.1@));
            assert(after =~= before.insert(k as int, (name@, value@)));
            assert forall|n: Seq<char>, v: Seq<char>| #[trigger]
                has_entry(after, n, v) <==> if n == name@ {
                    v == value@
                } else {
                    has_entry(before, n, v)
                } by {
                if n == name@ && v == value@ {
                    assert(after[k as int] == (n, v));
                }
                if has_entry(after, n, v) {
                    let i = choose|i: int| 0 <= i < after.len() && #[trigger] after[i] == (n, v);
                    if i < k {
                        assert(before[i] == (n, v));
                        assert(before[i].0 == n);
                    } else if i > k {
                        assert(before[i - 1] == (n, v));
                        assert(before[i - 1].0 == n);
                    } else {
                        assert(after[i].0 == name@ && after[i].1 == value@);
                    }
                }
                if has_entry(before, n, v) {
                    let j = choose|j: int| 0 <= j < before.len() && #[trigger] before[j] == (n, v);
                    if j < k {
                        assert(after[j] == (n, v));
                    } else {
                        assert(after[j + 1] == (n, v));
                    }
                }
            }
            assert(names_sorted(after)) by {
                assert forall|i: int, j: int| 0 <= i < j < after.len() implies seq_lt(
                    after[i].0,
                    after[j].0,
                ) by {
                    if j < k {
                        assert(after[i] == before[i] && after[j] == before[j]);
                    } else if j == k {
                        assert(after[i] == before[i]);
                    } else if i == k {
                        assert(after[j] == before[j - 1]);
                    } else if i < k {
                        assert(after[i] == before[i] && after[j] == before[j - 1]);
                        lemma_seq_lt_trans(before[i].0, name@, before[j - 1].0);
                    } else {
                        assert(after[i] == before[i - 1] && after[j] == before[j - 1]);
                    }
                }
            }
        } else {
            assert forall|n: Seq<char>, v: Seq<char>| #[trigger]
                has_entry(before, n, v) <==> if n == name@ {
                    false
                } else {
                    has_entry(before, n, v)
                } by {
                if n == name@ && has_entry(before, n, v) {
                    let j = choose|j: int| 0 <= j < before.len() && #[trigger] before[j] == (n, v);
                    assert(before[j].0 == name@);
                }
            }
        }
    }
    store.entries = e;
}

/// Set (or, with an empty value, clear) a secret.
pub fn set_secret(store: &mut Secrets, name: &str, value: &str)
    ensures
        set_post(old(store)@, final(store)@, name@, value@, true),
{
    set_entry(store, name, value, true)
}

/// Record a secret as read from the secrets file, whatever its value.
pub fn insert_secret(store: &mut Secrets, name: &str, value: &str)
    ensures
        set_post(old(store)@, final(store)@, name@, value@, false),
{
    set_entry(store, name, value, false)
}

/// Names of secrets currently set. Values are intentionally NOT returned.
pub fn secret_names(store: &Secrets) -> (r: Vec<String>)
    ensures
        string_views(r@) == names_of(store@),
{
    let mut r: Vec<String> = Vec::new();
    let mut i: usize = 0;
    while i < store.entries.len()
        invariant
            i <= store.entries@.len(),
            r@.len() == i,
            string_views(r@) =~= names_of(store@).take(i as int),
        decreases store.entries.len() - i,
    {
        let ghost r0 = r@;
        r.push(store.entries[i].0.clone());
        proof {
            assert(store@[i as int] == (store.entries@[i as int].0@, store.entries@[i as int].1@));
            assert(names_of(store@)[i as int] == store@[i as int].0);
            assert forall|j: int| 0 <= j < i + 1 implies string_views(r@)[j] == names_of(store@)[j] by {
                if j < i {
                    assert(r@[j] == r0[j]);
                    assert(string_views(r0)[j] == names_of(store@).take(i as int)[j]);
                }
            }
            assert(string_views(r@) =~= names_of(store@).take(i + 1));
        }
        i += 1;
    }
    assert(names_of(store@).take(i as int) =~= names_of(store@));
    r
}

/// The (name, value) entries, in name order, for writing the secrets file.
pub fn secret_entries(store: &Secrets) -> (r: Vec<(String, String)>)
    ensures
        r@.map_values(|e: (String, String)| (e.0@, e.1@)) == store@,
{
    let mut r: Vec<(String, String)> = Vec::new();
    let mut i: usize = 0;
    while i < store.entries.len()
        invariant
            i <= store.entries@.len(),
            r@.len() == i,
            r@.map_values(|e: (String, String)| (e.0@, e.1@)) =~= store@.take(i as int),
        decreases store.entries.len() - i,
    {
        let e = &store.entries[i];
        let ghost r0 = r@;
        r.push((e.0.clone(), e.1.clone()));
        proof {
            assert(store@[i as int] == (store.entries@[i as int].0@, store.entries@[i as int].1@));
            let f = |e: (String, String)| (e.0@, e.1@);
            assert forall|j: int| 0 <= j < i + 1 implies r@.map_values(f)[j] == store@[j] by {
                if j < i {
                    assert(r@[j] == r0[j]);
                    assert(r0.map_values(f)[j] == store@.take(i as int)[j]);
                }
            }
            assert(r@.map_values(f) =~= store@.take(i + 1));
        }
        i += 1;
    }
    assert(store@.take(i as int) =~= store@);
    r
}

/// The client blob carries which secrets are set, never their values: two
/// secret tables with the same names give the same blob.
pub proof fn law_blob_hides_secret_values(
    auto_save: bool,
    theme: Seq<char>,
    title: Seq<char>,
    basename: Seq<char>,
    a: Seq<(Seq<char>, Seq<char>)>,
    b: Seq<(Seq<char>, Seq<char>)>,
)
    requires
        names_of(a) == names_of(b),
    ensures
        client_json_of(auto_save, theme, title, basename, names_of(a)) == client_json_of(
            auto_save,
            theme,
            title,
            basename,
            names_of(b),
        ),
{
}

/// A secret set to a non-empty value is listed by name afterwards; one set to
/// the empty value is not; no other name comes or goes.
pub proof fn law_set_secret_listing(
    before: Seq<(Seq<char>, Seq<char>)>,
    after: Seq<(Seq<char>, Seq<char>)>,
    name: Seq<char>,
    value: Seq<char>,
)
    requires
        set_post(before, after, name, value, true),
    ensures
        names_of(after).contains(name) <==> value.len() > 0,
        forall|m: Seq<char>| m != name ==> (names_of(after).contains(m) <==> names_of(before).contains(m)),
{
    if value.len() > 0 {
        assert(has_entry(after, name, value));
        let i = choose|i: int| 0 <= i < after.len() && #[trigger] after[i] == (name, value);
        assert(names_of(after)[i] == name);
    }
    if names_of(after).contains(name) {
        let i = choose|i: int| 0 <= i < names_of(after).len() && names_of(after)[i] == name;
        assert(has_entry(after, name, after[i].1));
    }
    assert forall|m: Seq<char>| m != name implies (names_of(after).contains(m) <==> names_of(
        before,
    ).contains(m)) by {
        if names_of(after).contains(m) {
            let i = choose|i: int| 0 <= i < names_of(after).len() && names_of(after)[i] == m;
            assert(has_entry(after, m, after[i].1));
            assert(has_entry(before, m, after[i].1));
            let j = choose|j: int| 0 <= j < before.len() && #[trigger] before[j] == (m, after[i].1);
            assert(names_of(before)[j] == m);
        }
        if names_of(before).contains(m) {
            let j = choose|j: int| 0 <= j < names_of(before).len() && names_of(before)[j] == m;
            assert(has_entry(before, m, before[j].1));
            assert(has_entry(after, m, before[j].1));
            let i = choose|i: int| 0 <= i < after.len() && #[trigger] after[i] == (m, before[j].1);
            assert(names_of(after)[i] == m);
        }
    }
}

// ---------------------------------------------------------------------------
// .gitignore

/// The line that keeps the secrets file out of commits.
pub open spec fn secrets_ignore_line() -> Seq<char> {
    seq!['.', 'c', 'a', 'r', 'e', 't', '/', 's', 'e', 'c', 'r', 'e', 't', 's', '.', 't', 'o', 'm', 'l']
}

/// Some line of `content`, trimmed, is the secrets-file line.
pub open spec fn ignores_secrets(content: Seq<char>) -> bool {
    exists|i: int| 0 <= i < lines(content).len() && trim(#[trigger] lines(content)[i]) == secrets_ignore_line()
}

/// The `.gitignore` text after making sure it ignores the secrets file: none
/// when it already does, else the line appended (after a newline if the text
/// does not end with one).
pub open spec fn gitignore_update_of(content: Seq<char>) -> Option<Seq<char>> {
    if ignores_secrets(content) {
        None
    } else {
        let c = if content.len() > 0 && content.last() != '\n' {
            content.push('\n')
        } else {
            content
        };
        Some(c + secrets_ignore_line() + seq!['\n'])
    }
}

/// Append `.caret/secrets.toml` to `.gitignore` if it isn't already ignored:
/// the new text, or none when nothing needs to change.
pub fn gitignore_update(content: &str) -> (r: Option<String>)
    ensures
        match gitignore_update_of(content@) {
            Some(c) => r is Some && r->0@ == c,
            None => r is None,
        },
{
    let c = to_chars(content);
    let ls = lines_exec(&c);
    let needle: Vec<char> = vec!['.', 'c', 'a', 'r', 'e', 't', '/', 's', 'e', 'c', 'r', 'e', 't', 's', '.', 't', 'o', 'm', 'l'];
    assert(needle@ =~= secrets_ignore_line());
    let mut i: usize = 0;
    while i < ls.len()
        invariant
            needle@ == secrets_ignore_line(),
            i <= ls@.len(),
            ls@.len() == lines(content@).len(),
            forall|j: int| 0 <= j < ls@.len() ==> #[trigger] ls@[j]@ == lines(content@)[j],
            forall|j: int| 0 <= j < i ==> trim(#[trigger] lines(content@)[j]) != secrets_ignore_line(),
        decreases ls.len() - i,
    {
        let line = &ls[i];
        let (a, b) = trim_bounds(line, 0, line.len());
        assert(line@.subrange(0, line@.len() as int) =~= line@);
        if range_eq(line, a, b, &needle) {
            assert(trim(lines(content@)[i as int]) == secrets_ignore_line());
            return None;
        }
        i += 1;
    }
    let mut out = c;
    let n = out.len();
    if n > 0 && out[n - 1] != '\n' {
        out.push('\n');
    }
    push_all(&mut out, &needle);
    out.push('\n');
    assert(out@ =~= gitignore_update_of(content@)->0);
    Some(string_of(&out))
}

proof fn lemma_lines_suffix(s: Seq<char>, i: nat, j: nat)
    requires
        i < j <= s.len(),
        s[j - 1] == '\n',
    ensures
        lines_from(s, j).len() <= lines_from(s, i).len(),
        lines_from(s, i).skip(lines_from(s, i).len() - lines_from(s, j).len()) == lines_from(s, j),
    decreases j - i,
{
    crate::text::lemma_find_from(s, seq!['\n'], i);
    assert(occurs_at(s, seq!['\n'], j - 1)) by {
        assert(s.subrange(j - 1, j as int) =~= seq!['\n']);
    }
    let k = find_from(s, seq!['\n'], i)->0;
    let rest = lines_from(s, k + 1);
    assert(lines_from(s, i) =~= seq![crate::text::strip_cr(s.subrange(i as int, k as int))] + rest);
    if k + 1 < j {
        lemma_lines_suffix(s, k + 1, j);
    }
    assert(lines_from(s, i).skip(lines_from(s, i).len() - lines_from(s, j).len()) =~= lines_from(
        s,
        j,
    ));
}

/// After the update the text ignores the secrets file, so a second update
/// changes nothing: a key can never land in a commit, and the line is added once.
pub proof fn law_gitignore_update_idempotent(content: Seq<char>)
    ensures
        gitignore_update_of(content) matches Some(c) ==> ignores_secrets(c) && gitignore_update_of(
            c,
        ) is None,
{
    if let Some(y) = gitignore_update_of(content) {
        let c1 = if content.len() > 0 && content.last() != '\n' {
            content.push('\n')
        } else {
            content
        };
        let p = c1.len();
        let needle = secrets_ignore_line();
        assert(y =~= c1 + needle + seq!['\n']);
        let q = p + needle.len();
        // the needle holds no newline: the first one from p is the final one
        assert forall|k: int| p <= k < q implies !occurs_at(y, seq!['\n'], k) by {
            assert(y[k] == needle[k - p]);
            if occurs_at(y, seq!['\n'], k) {
                assert(y.subrange(k, k + 1)[0] == y[k]);
            }
        }
        lemma_find_from_skip(y, seq!['\n'], p as nat, q as nat);
        assert(y.subrange(q as int, q as int + 1) =~= seq!['\n']);
        assert(find_from(y, seq!['\n'], q as nat) == Some(q as nat));
        assert(y.subrange(p as int, q as int) =~= needle);
        assert(lines_from(y, (q + 1) as nat) =~= seq![]);
        assert(lines_from(y, p as nat) =~= seq![needle]);
        let ls = lines(y);
        if p > 0 {
            assert(y[p - 1] == '\n');
            lemma_lines_suffix(y, 0, p as nat);
            assert(ls[ls.len() - 1] == lines_from(y, p as nat)[0]);
        }
        assert(trim(needle) =~= needle);
        assert(trim(ls[ls.len() - 1]) == needle);
    }
}

} // verus!
