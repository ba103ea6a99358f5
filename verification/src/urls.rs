//! Links to notebooks: URL-safe slugs of titles and notebook URLs.
use vstd::prelude::*;

verus! {

/// What `regex::Regex::replace_all` returns for the given pattern, haystack
/// and replacement, or `None` when the pattern does not compile.
pub uninterp spec fn regex_replace_all_result(
    pattern: Seq<char>,
    haystack: Seq<char>,
    replacement: Seq<char>,
) -> Option<Seq<char>>;

/// `s` without its `'` characters.
pub open spec fn remove_ticks(s: Seq<char>) -> Seq<char>
    decreases s.len(),
{
    if s.len() == 0 {
        s
    } else if s[0] == '\'' {
        remove_ticks(s.drop_first())
    } else {
        seq![s[0]] + remove_ticks(s.drop_first())
    }
}

/// `s` with every run of two or more `-` shortened to a single `-`.
pub open spec fn collapse_dashes(s: Seq<char>) -> Seq<char>
    decreases s.len(),
{
    if s.len() == 0 {
        s
    } else if s.len() >= 2 && s[0] == '-' && s[1] == '-' {
        collapse_dashes(s.drop_first())
    } else {
        seq![s[0]] + collapse_dashes(s.drop_first())
    }
}

/// An ASCII character that the regex class `\w` matches.
pub open spec fn is_ascii_word(c: char) -> bool {
    ('a' <= c && c <= 'z') || ('A' <= c && c <= 'Z') || ('0' <= c && c <= '9') || c == '_'
}

/// Whether the regex crate's Unicode class `\w` holds a character beyond
/// ASCII (its Unicode tables decide).
pub uninterp spec fn regex_unicode_word(c: char) -> bool;

/// Whether the regex class `\w` holds `c`: among ASCII characters the
/// letters, digits and `_`; beyond ASCII as the Unicode tables say.
pub open spec fn is_word_char(c: char) -> bool {
    if (c as u32) < 0x80 {
        is_ascii_word(c)
    } else {
        regex_unicode_word(c)
    }
}

/// `s` with each character that `\w` does not hold replaced by `-`.
pub open spec fn replace_non_word(s: Seq<char>) -> Seq<char> {
    s.map_values(|c: char| if is_word_char(c) { c } else { '-' })
}

/// The pattern of `'`.
pub open spec fn tick_pattern() -> Seq<char> {
    seq!['\'']
}

/// The pattern of the regex class of non-word characters, `\W`.
pub open spec fn non_word_pattern() -> Seq<char> {
    seq!['\\', 'W']
}

/// The pattern of two or more dashes, `-{2,}`.
pub open spec fn dashes_pattern() -> Seq<char> {
    seq!['-', '{', '2', ',', '}']
}

/// Calls `regex::Regex::new` on `pattern` and, when it compiles,
/// `Regex::replace_all` on `haystack` with `replacement` (used literally
/// here: none of the replacements the library passes holds `$`).
/// The result is named by `regex_replace_all_result`; for the three
/// patterns the library uses, the contract states what the regex
/// documentation gives: `'` removes every `'`, `\W` (one character not in
/// `\w`) replaces each such character on its own (ASCII letters, digits and
/// `_` are word characters, the other ASCII characters are not; for other
/// characters the Unicode tables decide, named by `regex_unicode_word`), and
/// `-{2,}` replaces each maximal run of two or more dashes.
#[verifier::external_body]
fn regex_replace_all(pattern: &str, haystack: &str, replacement: &str) -> (r: Option<String>)
    ensures
        r is Some <==> regex_replace_all_result(pattern@, haystack@, replacement@) is Some,
        r is Some ==> regex_replace_all_result(pattern@, haystack@, replacement@) == Some(
            r->0@,
        ),
        pattern@ == tick_pattern() && replacement@ == Seq::<char>::empty() ==> r is Some
            && r->0@ == remove_ticks(haystack@),
        pattern@ == non_word_pattern() && replacement@ == seq!['-'] ==> r is Some
            && r->0@ == replace_non_word(haystack@) && forall|i: int|
            0 <= i < haystack@.len() && (haystack@[i] as u32) >= 0x80 ==> (r->0@[i] == haystack@[i]
                <==> regex_unicode_word(#[trigger] haystack@[i])),
        pattern@ == dashes_pattern() && replacement@ == seq!['-'] ==> r is Some && r->0@
            == collapse_dashes(haystack@),
{
    let re = regex::Regex::new(pattern).ok()?;
    Some(re.replace_all(haystack, regex::NoExpand(replacement)).into_owned())
}

/// The slug of `s`: ticks removed, non-word characters replaced by `-`,
/// runs of dashes shortened, each step as the regex crate does it.
pub open spec fn slug_spec(s: Seq<char>) -> Seq<char> {
    collapse_dashes(replace_non_word(remove_ticks(s)))
}

/// Every character of `s` is a word character or `-`.
pub open spec fn word_or_dash(s: Seq<char>) -> bool {
    forall|i: int| 0 <= i < s.len() ==> is_word_char(#[trigger] s[i]) || s[i] == '-'
}

/// `s` holds no `'`.
pub open spec fn no_ticks(s: Seq<char>) -> bool {
    forall|i: int| 0 <= i < s.len() ==> s[i] != '\''
}

/// `s` holds no two `-` in a row.
pub open spec fn no_double_dash(s: Seq<char>) -> bool {
    forall|i: int| 0 <= i < s.len() - 1 ==> !(s[i] == '-' && #[trigger] s[i + 1] == '-')
}

proof fn lemma_remove_ticks(s: Seq<char>)
    ensures
        no_ticks(remove_ticks(s)),
        remove_ticks(s).len() <= s.len(),
    decreases s.len(),
{
    if s.len() > 0 {
        lemma_remove_ticks(s.drop_first());
    }
}

proof fn lemma_collapse_dashes(s: Seq<char>)
    ensures
        no_double_dash(collapse_dashes(s)),
        s.len() > 0 ==> collapse_dashes(s).len() > 0 && collapse_dashes(s)[0] == s[0],
        no_ticks(s) ==> no_ticks(collapse_dashes(s)),
        word_or_dash(s) ==> word_or_dash(collapse_dashes(s)),
        no_double_dash(s) ==> collapse_dashes(s) == s,
    decreases s.len(),
{
    if s.len() > 0 {
        let t = s.drop_first();
        lemma_collapse_dashes(t);
        if s.len() >= 2 && s[0] == '-' && s[1] == '-' {
            if no_double_dash(s) {
                assert(!(s[0] == '-' && s[0int + 1] == '-'));
            }
            if word_or_dash(s) {
                assert(word_or_dash(t)) by {
                    assert forall|i: int| 0 <= i < t.len() implies is_word_char(#[trigger] t[i])
                        || t[i] == '-' by {
                        assert(t[i] == s[i + 1]);
                    }
                }
            }
        } else {
            let r = collapse_dashes(s);
            let c = collapse_dashes(t);
            assert(r == seq![s[0]] + c);
            assert forall|i: int| 0 <= i < r.len() - 1 implies !(r[i] == '-' && #[trigger] r[i + 1]
                == '-') by {
                if i > 0 {
                    assert(r[i] == c[i - 1]);
                    assert(r[i + 1] == c[i]);
                    assert(!(c[i - 1] == '-' && c[(i - 1) + 1] == '-'));
                } else {
                    assert(t.len() > 0);
                    assert(r[1] == c[0]);
                    assert(c[0] == t[0]);
                    assert(t[0] == s[1]);
                }
            }
            if no_ticks(s) {
                assert forall|i: int| 0 <= i < r.len() implies r[i] != '\'' by {
                    if i > 0 {
                        assert(r[i] == c[i - 1]);
                    }
                }
            }
            if word_or_dash(s) {
                assert(word_or_dash(t)) by {
                    assert forall|i: int| 0 <= i < t.len() implies is_word_char(#[trigger] t[i])
                        || t[i] == '-' by {
                        assert(t[i] == s[i + 1]);
                    }
                }
                assert forall|i: int| 0 <= i < r.len() implies is_word_char(#[trigger] r[i]) || r[i]
                    == '-' by {
                    if i > 0 {
                        assert(r[i] == c[i - 1]);
                    }
                }
            }
            if no_double_dash(s) {
                assert(no_double_dash(t)) by {
                    assert forall|i: int| 0 <= i < t.len() - 1 implies !(t[i] == '-' && #[trigger] t[i
                        + 1] == '-') by {
                        assert(t[i] == s[i + 1]);
                        assert(t[i + 1] == s[(i + 1) + 1]);
                    }
                }
                assert(r =~= s);
            }
        }
    }
}

proof fn lemma_remove_ticks_none(s: Seq<char>)
    requires
        no_ticks(s),
    ensures
        remove_ticks(s) == s,
    decreases s.len(),
{
    if s.len() > 0 {
        let t = s.drop_first();
        assert(no_ticks(t)) by {
            assert forall|i: int| 0 <= i < t.len() implies t[i] != '\'' by {
                assert(t[i] == s[i + 1]);
            }
        }
        lemma_remove_ticks_none(t);
        assert(s[0] != '\'');
        assert(seq![s[0]] + t =~= s);
    }
}

proof fn lemma_replace_non_word(s: Seq<char>)
    ensures
        no_ticks(replace_non_word(s)),
        word_or_dash(replace_non_word(s)),
        word_or_dash(s) ==> replace_non_word(s) == s,
{
    let r = replace_non_word(s);
    assert(!is_word_char('\''));
    assert(!is_word_char('-'));
    assert forall|i: int| 0 <= i < r.len() implies r[i] != '\'' by {
        assert(r[i] == (if is_word_char(s[i]) { s[i] } else { '-' }));
    }
    assert forall|i: int| 0 <= i < r.len() implies is_word_char(#[trigger] r[i]) || r[i] == '-' by {
        assert(r[i] == (if is_word_char(s[i]) { s[i] } else { '-' }));
    }
    if word_or_dash(s) {
        assert forall|i: int| 0 <= i < r.len() implies r[i] == s[i] by {
            assert(is_word_char(s[i]) || s[i] == '-');
        }
        assert(r =~= s);
    }
}

/// A slug holds no `'`, no two `-` in a row, and nothing but word
/// characters (of the regex class `\w`) and `-`.
pub proof fn law_slug_shape(input: Seq<char>)
    ensures
        no_ticks(slug_spec(input)),
        no_double_dash(slug_spec(input)),
        word_or_dash(slug_spec(input)),
{
    let m = replace_non_word(remove_ticks(input));
    lemma_replace_non_word(remove_ticks(input));
    lemma_collapse_dashes(m);
}

/// Slugifying a slug gives it back.
pub proof fn law_slug_idempotent(input: Seq<char>)
    ensures
        slug_spec(slug_spec(input)) == slug_spec(input),
{
    let r = slug_spec(input);
    law_slug_shape(input);
    lemma_remove_ticks_none(r);
    lemma_replace_non_word(r);
    lemma_collapse_dashes(r);
}

/// Makes a URL safe slug of a notebook title.
pub fn slugify(input: String) -> (r: String)
    ensures
        r@ == slug_spec(input@),
        no_ticks(r@),
        no_double_dash(r@),
        word_or_dash(r@),
{
    proof {
        reveal_strlit("'");
        reveal_strlit("");
        reveal_strlit("\\W");
        reveal_strlit("-");
        reveal_strlit("-{2,}");
        assert("'"@ =~= tick_pattern());
        assert(""@ =~= Seq::<char>::empty());
        assert("\\W"@ =~= non_word_pattern());
        assert("-"@ =~= seq!['-']);
        assert("-{2,}"@ =~= dashes_pattern());
    }
    let a = match regex_replace_all("'", input.as_str(), "") {
        Some(a) => a,
        None => {
            return input;
        },
    };
    let b = match regex_replace_all("\\W", a.as_str(), "-") {
        Some(b) => b,
        None => {
            return input;
        },
    };
    let c = match regex_replace_all("-{2,}", b.as_str(), "-") {
        Some(c) => c,
        None => {
            return input;
        },
    };
    proof {
        law_slug_shape(input@);
    }
    c
}

/// What `url::Url::parse` followed by `PathSegmentsMut::extend` gives as a
/// serialized URL, or `None` when the base does not parse or cannot be a base.
pub uninterp spec fn url_extend_path_result(base: Seq<char>, segments: Seq<Seq<char>>) -> Option<
    Seq<char>,
>;

/// What `url::Url::parse` followed by `Url::set_fragment` gives as a
/// serialized URL, or `None` when the URL does not parse.
pub uninterp spec fn url_set_fragment_result(url: Seq<char>, fragment: Seq<char>) -> Option<
    Seq<char>,
>;

/// The views of a list of strings.
pub open spec fn views(v: Seq<String>) -> Seq<Seq<char>> {
    v.map_values(|s: String| s@)
}

/// Calls `url::Url::parse` on `base` and `PathSegmentsMut::extend` with the
/// segments (which percent-encodes them), and returns the serialization.
/// The result is named by `url_extend_path_result`; the URL rules decide it
/// and this contract states nothing more of it.
#[verifier::external_body]
fn url_extend_path(base: &str, segments: &Vec<String>) -> (r: Option<String>)
    ensures
        r is Some <==> url_extend_path_result(base@, views(segments@)) is Some,
        r is Some ==> url_extend_path_result(base@, views(segments@)) == Some(r->0@),
{
    let mut u = url::Url::parse(base).ok()?;
    u.path_segments_mut().ok()?.extend(segments);
    Some(u.into())
}

/// Calls `url::Url::parse` on `url` and `Url::set_fragment` with `fragment`,
/// and returns the serialization. The result is named by
/// `url_set_fragment_result`; this contract states nothing more of it.
#[verifier::external_body]
fn url_set_fragment(url: &str, fragment: &str) -> (r: Option<String>)
    ensures
        r is Some <==> url_set_fragment_result(url@, fragment@) is Some,
        r is Some ==> url_set_fragment_result(url@, fragment@) == Some(r->0@),
{
    let mut u = url::Url::parse(url).ok()?;
    u.set_fragment(Some(fragment));
    Some(u.into())
}

// ---------------------------------------------------------------------------
// The realtime websocket.
// ---------------------------------------------------------------------------

/// What `url::Url::parse` followed by `Url::scheme` gives: the URL's scheme,
/// or `None` when the URL does not parse.
pub uninterp spec fn url_scheme_result(url: Seq<char>) -> Option<Seq<char>>;

/// What `url::Url::parse`, `Url::set_scheme` with `scheme` and
/// `Url::set_path` with `path` give as a serialized URL, or `None` when the
/// URL does not parse or its scheme cannot be changed to `scheme`.
pub uninterp spec fn url_set_ws_result(url: Seq<char>, scheme: Seq<char>, path: Seq<char>) -> Option<
    Seq<char>,
>;

/// Calls `url::Url::parse` on `url` and returns `Url::scheme`. Named by
/// `url_scheme_result`.
#[verifier::external_body]
fn url_scheme(url: &str) -> (r: Option<String>)
    ensures
        r is Some <==> url_scheme_result(url@) is Some,
        r is Some ==> url_scheme_result(url@) == Some(r->0@),
{
    Some(url::Url::parse(url).ok()?.scheme().to_string())
}

/// Calls `url::Url::parse` on `url`, `Url::set_scheme` with `scheme` and
/// `Url::set_path` with `path`, and returns the serialization. Named by
/// `url_set_ws_result`; the URL rules decide it and this contract states
/// nothing more of it.
#[verifier::external_body]
fn url_set_ws(url: &str, scheme: &str, path: &str) -> (r: Option<String>)
    ensures
        r is Some <==> url_set_ws_result(url@, scheme@, path@) is Some,
        r is Some ==> url_set_ws_result(url@, scheme@, path@) == Some(r->0@),
{
    let mut u = url::Url::parse(url).ok()?;
    u.set_scheme(scheme).ok()?;
    u.set_path(path);
    Some(u.into())
}

/// The websocket scheme for a server reached by `scheme`: `wss` for `https`,
/// `ws` otherwise.
pub open spec fn websocket_scheme(scheme: Seq<char>) -> Seq<char> {
    if scheme == "https"@ {
        "wss"@
    } else {
        "ws"@
    }
}

/// The realtime websocket address of the server at `base_url`.
pub open spec fn websocket_url_spec(base_url: Seq<char>) -> Option<Seq<char>> {
    match url_scheme_result(base_url) {
        Some(scheme) => url_set_ws_result(base_url, websocket_scheme(scheme), "/api/ws"@),
        None => None,
    }
}

/// The address of the realtime websocket of the server at `base_url`: the
/// same URL with the scheme `wss` (for `https`) or `ws` (otherwise) and the
/// path `/api/ws`. `None` when the URL does not parse or its scheme cannot
/// become a websocket scheme (a scheme such as `foo` or `file`).
pub fn websocket_url(base_url: &str) -> (r: Option<String>)
    ensures
        r is Some <==> websocket_url_spec(base_url@) is Some,
        r is Some ==> websocket_url_spec(base_url@) == Some(r->0@),
{
    let scheme = match url_scheme(base_url) {
        Some(s) => s,
        None => return None,
    };
    let https = crate::text::chars_eq(&crate::text::chars_of(scheme.as_str()), &crate::text::chars_of("https"));
    if https {
        url_set_ws(base_url, "wss", "/api/ws")
    } else {
        url_set_ws(base_url, "ws", "/api/ws")
    }
}

/// The default base URL of notebook links.
pub open spec fn default_base_url_spec() -> Seq<char> {
    "https://studio.fiberplane.com/"@
}

/// The default base URL of notebook links.
pub fn default_base_url() -> (r: String)
    ensures
        r@ == default_base_url_spec(),
{
    String::from_str("https://studio.fiberplane.com/")
}

/// The last path segment of a notebook link: the slug of the title followed
/// by `-` and the notebook id, or the id alone.
pub open spec fn notebook_slug_spec(notebook_id: Seq<char>, title: Option<Seq<char>>) -> Seq<char> {
    match title {
        Some(t) => slug_spec(t) + seq!['-'] + notebook_id,
        None => notebook_id,
    }
}

/// The URL of a notebook, as a builder with the given fields produces it.
pub open spec fn notebook_url_spec(
    workspace_id: Seq<char>,
    notebook_id: Seq<char>,
    base_url: Option<Seq<char>>,
    title: Option<Seq<char>>,
    cell_id: Option<Seq<char>>,
) -> Option<Seq<char>> {
    let base = match base_url {
        Some(b) => b,
        None => default_base_url_spec(),
    };
    let segments = seq![
        "workspaces"@,
        workspace_id,
        "notebooks"@,
        notebook_slug_spec(notebook_id, title),
    ];
    match url_extend_path_result(base, segments) {
        Some(u) => match cell_id {
            Some(c) => url_set_fragment_result(u, c),
            None => Some(u),
        },
        None => None,
    }
}

/// The fields of a `NotebookUrlBuilder`, as plain values.
pub struct NotebookUrlModel {
    pub workspace_id: Seq<char>,
    pub notebook_id: Seq<char>,
    pub base_url: Option<Seq<char>>,
    pub title: Option<Seq<char>>,
    pub cell_id: Option<Seq<char>>,
}

/// The view of an optional string.
pub open spec fn opt_view(o: Option<String>) -> Option<Seq<char>> {
    match o {
        Some(s) => Some(s@),
        None => None,
    }
}

/// The URL a builder with these fields produces.
pub open spec fn model_url(m: NotebookUrlModel) -> Option<Seq<char>> {
    notebook_url_spec(m.workspace_id, m.notebook_id, m.base_url, m.title, m.cell_id)
}

/// Builds the URL of a notebook, with an optional base URL, title slug and
/// cell anchor.
pub struct NotebookUrlBuilder {
    workspace_id: String,
    notebook_id: String,
    base_url: Option<String>,
    title: Option<String>,
    cell_id: Option<String>,
}

impl View for NotebookUrlBuilder {
    type V = NotebookUrlModel;

    closed spec fn view(&self) -> NotebookUrlModel {
        NotebookUrlModel {
            workspace_id: self.workspace_id@,
            notebook_id: self.notebook_id@,
            base_url: opt_view(self.base_url),
            title: opt_view(self.title),
            cell_id: opt_view(self.cell_id),
        }
    }
}

impl NotebookUrlBuilder {
    /// A builder for the notebook with the given ids (in their base64
    /// form), on the default base URL, without title or cell.
    pub fn new(workspace_id: String, notebook_id: String) -> (r: Self)
        ensures
            r@ == (NotebookUrlModel {
                workspace_id: workspace_id@,
                notebook_id: notebook_id@,
                base_url: None,
                title: None,
                cell_id: None,
            }),
    {
        NotebookUrlBuilder { workspace_id, notebook_id, base_url: None, title: None, cell_id: None }
    }

    /// Overrides the default base URL (a serialized URL).
    pub fn base_url(self, base_url: String) -> (r: Self)
        ensures
            r@ == (NotebookUrlModel { base_url: Some(base_url@), ..self@ }),
    {
        NotebookUrlBuilder { base_url: Some(base_url), ..self }
    }

    /// Includes a slug of the title in the URL.
    pub fn title(self, title: String) -> (r: Self)
        ensures
            r@ == (NotebookUrlModel { title: Some(title@), ..self@ }),
    {
        NotebookUrlBuilder { title: Some(title), ..self }
    }

    /// Adds a link to the cell with the given id.
    pub fn cell_id(self, cell_id: String) -> (r: Self)
        ensures
            r@ == (NotebookUrlModel { cell_id: Some(cell_id@), ..self@ }),
    {
        NotebookUrlBuilder { cell_id: Some(cell_id), ..self }
    }

    /// Builds the URL; `None` when the base URL cannot take path segments.
    pub fn url(self) -> (r: Option<String>)
        ensures
            r is Some <==> model_url(self@) is Some,
            r is Some ==> model_url(self@) == Some(r->0@),
    {
        let ghost m = self@;
        let base = match self.base_url {
            Some(b) => b,
            None => default_base_url(),
        };
        let slug = match self.title {
            Some(t) => {
                let mut s = slugify(t);
                s.append("-");
                s.append(self.notebook_id.as_str());
                proof {
                    reveal_strlit("-");
                    assert(s@ =~= slug_spec(t@) + seq!['-'] + m.notebook_id);
                }
                s
            },
            None => self.notebook_id.clone(),
        };
        let mut segments: Vec<String> = Vec::new();
        segments.push(String::from_str("workspaces"));
        segments.push(self.workspace_id);
        segments.push(String::from_str("notebooks"));
        segments.push(slug);
        proof {
            assert(slug@ == notebook_slug_spec(m.notebook_id, m.title));
            assert(views(segments@) =~= seq![
                "workspaces"@,
                m.workspace_id,
                "notebooks"@,
                notebook_slug_spec(m.notebook_id, m.title),
            ]);
        }
        let u = url_extend_path(base.as_str(), &segments);
        match u {
            Some(u) => match self.cell_id {
                Some(c) => url_set_fragment(u.as_str(), c.as_str()),
                None => Some(u),
            },
            None => None,
        }
    }
}

} // verus!
