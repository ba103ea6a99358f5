//! Crawling linked notebooks into a directory of Markdown files: the order
//! in which notebooks are visited, the names of their files, the links
//! between them and the table of contents.
use crate::fields::{decimal, decimal_chars};
use crate::text::{chars_eq, chars_of, extend_chars, has_prefix, lowercase_result, starts_with,
    string_of, to_lowercase};
use vstd::prelude::*;

verus! {

// ---------------------------------------------------------------------------
// Regular expression matches.
// ---------------------------------------------------------------------------

/// One match of a regular expression in a text: the text between the end of
/// the previous match (or the start) and this match, the matched text, and
/// what its first group captured.
pub struct RegexMatch {
    pub before: String,
    pub whole: String,
    pub group: Option<String>,
}

/// The model of a `RegexMatch`.
pub type MatchView = (Seq<char>, Seq<char>, Option<Seq<char>>);

impl View for RegexMatch {
    type V = MatchView;

    open spec fn view(&self) -> MatchView {
        (self.before@, self.whole@, match self.group {
            Some(g) => Some(g@),
            None => None,
        })
    }
}

/// A character of the URL-safe Base64 alphabet of notebook ids.
pub open spec fn is_base64url_char(c: char) -> bool {
    ('a' <= c && c <= 'z') || ('A' <= c && c <= 'Z') || ('0' <= c && c <= '9') || c == '_' || c
        == '-'
}

/// `u` ends in 22 characters of the URL-safe Base64 alphabet: the length of
/// a notebook id.
pub open spec fn ends_in_notebook_id(u: Seq<char>) -> bool {
    u.len() >= 22 && forall|i: int| u.len() - 22 <= i < u.len() ==> is_base64url_char(#[trigger] u[i])
}

/// The regex `([a-zA-Z0-9_-]{22})$`, character by character.
pub open spec fn id_suffix_regex() -> Seq<char> {
    seq![
        '(', '[', 'a', '-', 'z', 'A', '-', 'Z', '0', '-', '9', '_', '-', ']', '{', '2', '2', '}', ')',
        '$',
    ]
}

/// What `regex::Regex::captures_iter` finds in a text: the successive
/// non-overlapping matches, leftmost first, and the text after the last
/// one; `None` when the pattern does not compile.
pub uninterp spec fn regex_captures_result(pattern: Seq<char>, haystack: Seq<char>) -> Option<
    (Seq<MatchView>, Seq<char>),
>;

/// Calls `regex::Regex::new` on `pattern` and `Regex::captures_iter` on
/// `haystack`, and hands each match out with the text before it, its text
/// and its first group, then the text after the last match. Named by
/// `regex_captures_result`. For `([a-zA-Z0-9_-]{22})$` the contract states
/// what the regex documentation gives: `$` matches only at the end of the
/// text, so there is one match, the last 22 characters (also the group),
/// when they all lie in the class, and none otherwise.
#[verifier::external_body]
fn regex_captures(pattern: &str, haystack: &str) -> (r: Option<(Vec<RegexMatch>, String)>)
    ensures
        r is Some <==> regex_captures_result(pattern@, haystack@) is Some,
        r is Some ==> regex_captures_result(pattern@, haystack@) == Some(
            ((r->0).0@.map_values(|m: RegexMatch| m@), (r->0).1@),
        ),
        pattern@ == id_suffix_regex() ==> r is Some && if ends_in_notebook_id(haystack@) {
            let cut = haystack@.len() - 22;
            &&& (r->0).0@.map_values(|m: RegexMatch| m@) == seq![
                (haystack@.take(cut), haystack@.skip(cut), Some(haystack@.skip(cut))),
            ]
            &&& (r->0).1@ == Seq::<char>::empty()
        } else {
            (r->0).0@.len() == 0 && (r->0).1@ == haystack@
        },
{
    let re = regex::Regex::new(pattern).ok()?;
    let mut matches = Vec::new();
    let mut last: usize = 0;
    for caps in re.captures_iter(haystack) {
        let m = caps.get(0)?;
        matches.push(RegexMatch {
            before: haystack[last..m.start()].to_string(),
            whole: m.as_str().to_string(),
            group: caps.get(1).map(|g| g.as_str().to_string()),
        });
        last = m.end();
    }
    Some((matches, haystack[last..].to_string()))
}

/// The pattern of a notebook id at the end of a URL.
pub open spec fn notebook_id_pattern() -> Seq<char> {
    "([a-zA-Z0-9_-]{22})$"@
}

/// The pattern of a link to a notebook in Markdown text.
pub open spec fn notebook_url_pattern() -> Seq<char> {
    "http\\S+[/]notebooks?[/]\\S*([a-zA-Z0-9_-]{22})\\b"@
}

/// The id of the notebook a link points to: a link into the crawled
/// workspace (it starts with the base URL) that ends in a notebook id.
pub open spec fn linked_id_spec(url: Seq<char>, base_url: Seq<char>) -> Option<Seq<char>> {
    if !has_prefix(url, base_url) {
        None
    } else {
        match regex_captures_result(notebook_id_pattern(), url) {
            Some((ms, _)) => if ms.len() > 0 {
                ms[0].2
            } else {
                None
            },
            None => None,
        }
    }
}

/// The id of the notebook that `url` links to, if it links into the
/// crawled workspace.
pub fn linked_notebook_id(url: &str, base_url: &str) -> (r: Option<String>)
    ensures
        match r {
            Some(id) => linked_id_spec(url@, base_url@) == Some(id@),
            None => linked_id_spec(url@, base_url@) is None,
        },
        has_prefix(url@, base_url@) && ends_in_notebook_id(url@) ==> (r matches Some(id) && id@
            == url@.skip(url@.len() - 22)),
        !(has_prefix(url@, base_url@) && ends_in_notebook_id(url@)) ==> r is None,
{
    proof {
        reveal_strlit(r"([a-zA-Z0-9_-]{22})$");
        assert(r"([a-zA-Z0-9_-]{22})$"@ =~= id_suffix_regex());
    }
    if !starts_with(&chars_of(url), &chars_of(base_url)) {
        return None;
    }
    match regex_captures(r"([a-zA-Z0-9_-]{22})$", url) {
        Some((ms, _)) => {
            if ms.len() > 0 {
                match &ms[0].group {
                    Some(g) => Some(g.clone()),
                    None => None,
                }
            } else {
                None
            }
        },
        None => None,
    }
}

// ---------------------------------------------------------------------------
// File names.
// ---------------------------------------------------------------------------

/// How a character of a title is written in a file name: spaces become
/// `_`, a `/` becomes `\\/` and a `\` becomes `\\` (the escape added for
/// `/` is escaped again, as the successive replacements do).
pub open spec fn escape_title_char(c: char) -> Seq<char> {
    if c == ' ' {
        seq!['_']
    } else if c == '/' {
        seq!['\\', '\\', '/']
    } else if c == '\\' {
        seq!['\\', '\\']
    } else {
        seq![c]
    }
}

/// The title with each character written as in a file name.
pub open spec fn escape_title(t: Seq<char>) -> Seq<char>
    decreases t.len(),
{
    if t.len() == 0 {
        Seq::empty()
    } else {
        escape_title(t.drop_last()) + escape_title_char(t.last())
    }
}

/// The file name of a crawled notebook: its escaped, lowercased title,
/// `_` and the number of notebooks of the same title crawled before it
/// (when there are any), and `.md`; so notebooks with the same title do not
/// overwrite one another.
pub open spec fn file_name_spec(title: Seq<char>, earlier: nat) -> Seq<char> {
    lowercase_result(escape_title(title)) + (if earlier > 0 {
        seq!['_'] + decimal(earlier)
    } else {
        Seq::empty()
    }) + seq!['.', 'm', 'd']
}

fn escape_title_exec(title: &str) -> (r: String)
    ensures
        r@ == escape_title(title@),
{
    let t = chars_of(title);
    let mut out: Vec<char> = Vec::new();
    let mut i: usize = 0;
    while i < t.len()
        invariant
            i <= t@.len(),
            t@ == title@,
            out@ == escape_title(t@.subrange(0, i as int)),
        decreases t@.len() - i,
    {
        let c = t[i];
        let ghost before = out@;
        if c == ' ' {
            out.push('_');
        } else if c == '/' {
            out.push('\\');
            out.push('\\');
            out.push('/');
        } else if c == '\\' {
            out.push('\\');
            out.push('\\');
        } else {
            out.push(c);
        }
        proof {
            let sub = t@.subrange(0, i + 1);
            assert(sub.drop_last() =~= t@.subrange(0, i as int));
            assert(sub.last() == c);
            assert(out@ =~= before + escape_title_char(c));
        }
        i = i + 1;
    }
    assert(t@.subrange(0, t@.len() as int) =~= t@);
    string_of(&out)
}

/// The file name of a crawled notebook titled `title`, after `earlier`
/// notebooks of the same title.
pub fn crawl_file_name(title: &str, earlier: usize) -> (r: String)
    ensures
        r@ == file_name_spec(title@, earlier as nat),
{
    let escaped = escape_title_exec(title);
    let lower = to_lowercase(escaped.as_str());
    let mut out = chars_of(lower.as_str());
    if earlier > 0 {
        out.push('_');
        extend_chars(&mut out, &decimal_chars(earlier));
    }
    out.push('.');
    out.push('m');
    out.push('d');
    proof {
        assert(out@ =~= file_name_spec(title@, earlier as nat));
    }
    string_of(&out)
}

// ---------------------------------------------------------------------------
// The crawl.
// ---------------------------------------------------------------------------

/// A notebook that was written to a file.
pub struct CrawledNotebook {
    pub id: String,
    pub title: String,
    pub file_name: String,
    pub crawl_index: usize,
}

/// The model of a crawled notebook: id, title, file name, crawl index.
pub type CrawledView = (Seq<char>, Seq<char>, Seq<char>, nat);

impl View for CrawledNotebook {
    type V = CrawledView;

    open spec fn view(&self) -> CrawledView {
        (self.id@, self.title@, self.file_name@, self.crawl_index as nat)
    }
}

/// The notebooks still to visit, front first, and the ones written so far,
/// in the order they were visited.
pub struct Crawl {
    queue: Vec<String>,
    head: usize,
    crawled: Vec<CrawledNotebook>,
    crawl_index: usize,
}

/// Whether a notebook with id `id` is among the crawled ones.
pub open spec fn is_crawled(crawled: Seq<CrawledView>, id: Seq<char>) -> bool {
    exists|i: int| 0 <= i < crawled.len() && #[trigger] crawled[i].0 == id
}

/// The number of crawled notebooks titled `title`.
pub open spec fn title_count(crawled: Seq<CrawledView>, title: Seq<char>) -> nat
    decreases crawled.len(),
{
    if crawled.len() == 0 {
        0
    } else {
        title_count(crawled.drop_last(), title) + (if crawled.last().1 == title {
            1nat
        } else {
            0nat
        })
    }
}

/// Notebooks with the same title are numbered in turn: each one recorded
/// raises the count of its title by one and leaves every other count as it
/// was, so the file names of same-titled notebooks carry 0, 1, 2, ...
pub proof fn law_same_titles_numbered_in_turn(
    crawled: Seq<CrawledView>,
    entry: CrawledView,
    title: Seq<char>,
)
    ensures
        title_count(crawled.push(entry), title) == title_count(crawled, title) + (if entry.1
            == title {
            1nat
        } else {
            0nat
        }),
{
    assert(crawled.push(entry).drop_last() =~= crawled);
}

impl Crawl {
    /// The ids still to visit, front first.
    pub closed spec fn pending(&self) -> Seq<Seq<char>> {
        self.queue@.subrange(self.head as int, self.queue@.len() as int).map_values(
            |s: String| s@,
        )
    }

    /// The crawled notebooks, in the order they were visited.
    pub closed spec fn crawled(&self) -> Seq<CrawledView> {
        self.crawled@.map_values(|c: CrawledNotebook| c@)
    }

    /// How many notebooks were taken from the queue to be fetched.
    pub closed spec fn visits(&self) -> nat {
        self.crawl_index as nat
    }

    /// The crawl's invariant: no notebook was written twice, and each was
    /// written under the visit that fetched it, in increasing order.
    pub closed spec fn wf(&self) -> bool {
        &&& self.head <= self.queue@.len()
        &&& forall|i: int, j: int|
            0 <= i < j < self.crawled@.len() ==> self.crawled@[i].id@ != self.crawled@[j].id@
        &&& forall|i: int, j: int|
            0 <= i < j < self.crawled@.len() ==> self.crawled@[i].crawl_index
                < self.crawled@[j].crawl_index
        &&& forall|i: int|
            0 <= i < self.crawled@.len() ==> 1 <= #[trigger] self.crawled@[i].crawl_index
                <= self.crawl_index
    }

    /// A crawl that starts at the notebook `start`.
    pub fn new(start: String) -> (c: Self)
        ensures
            c.wf(),
            c.pending() == seq![start@],
            c.crawled().len() == 0,
            c.visits() == 0,
    {
        let mut queue: Vec<String> = Vec::new();
        queue.push(start);
        let c = Crawl { queue, head: 0, crawled: Vec::new(), crawl_index: 0 };
        assert(c.pending() =~= seq![queue@[0]@]);
        c
    }

    fn crawled_contains(&self, id: &str) -> (r: bool)
        ensures
            r == is_crawled(self.crawled(), id@),
    {
        let mut i: usize = 0;
        while i < self.crawled.len()
            invariant
                i <= self.crawled@.len(),
                forall|j: int| 0 <= j < i ==> self.crawled@[j].id@ != id@,
            decreases self.crawled@.len() - i,
        {
            if chars_eq(&chars_of(self.crawled[i].id.as_str()), &chars_of(id)) {
                assert(self.crawled()[i as int].0 == id@);
                return true;
            }
            i = i + 1;
        }
        assert(!is_crawled(self.crawled(), id@)) by {
            if is_crawled(self.crawled(), id@) {
                let k = choose|k: int|
                    0 <= k < self.crawled().len() && #[trigger] self.crawled()[k].0 == id@;
                assert(self.crawled@[k].id@ != id@);
            }
        }
        false
    }

    fn count_title(&self, title: &str) -> (r: usize)
        ensures
            r == title_count(self.crawled(), title@),
    {
        let ghost cv = self.crawled();
        let mut n: usize = 0;
        let mut i: usize = 0;
        while i < self.crawled.len()
            invariant
                i <= self.crawled@.len(),
                cv == self.crawled(),
                n == title_count(cv.subrange(0, i as int), title@),
                n <= i,
            decreases self.crawled@.len() - i,
        {
            assert(cv.subrange(0, i + 1).drop_last() =~= cv.subrange(0, i as int));
            assert(cv[i as int].1 == self.crawled@[i as int].title@);
            if chars_eq(&chars_of(self.crawled[i].title.as_str()), &chars_of(title)) {
                n = n + 1;
            }
            i = i + 1;
        }
        assert(cv.subrange(0, cv.len() as int) =~= cv);
        n
    }

    /// The next notebook to fetch: ids at the front of the queue that were
    /// already written are dropped, and the first other one is taken and
    /// counted as a visit. `None` when the queue runs out.
    pub fn next(&mut self) -> (r: Option<String>)
        requires
            old(self).wf(),
            old(self).visits() < usize::MAX,
        ensures
            final(self).wf(),
            final(self).crawled() == old(self).crawled(),
            match r {
                None => final(self).pending().len() == 0 && final(self).visits() == old(
                    self,
                ).visits() && forall|i: int|
                    0 <= i < old(self).pending().len() ==> is_crawled(
                        old(self).crawled(),
                        #[trigger] old(self).pending()[i],
                    ),
                Some(id) => final(self).visits() == old(self).visits() + 1 && !is_crawled(
                    old(self).crawled(),
                    id@,
                ) && exists|k: int|
                    0 <= k < old(self).pending().len() && old(self).pending()[k] == id@
                        && final(self).pending() == old(self).pending().subrange(
                        k + 1,
                        old(self).pending().len() as int,
                    ) && forall|i: int|
                        0 <= i < k ==> is_crawled(
                            old(self).crawled(),
                            #[trigger] old(self).pending()[i],
                        ),
            },
    {
        let ghost start = self.head as int;
        let ghost p0 = old(self).pending();
        while self.head < self.queue.len()
            invariant
                self.wf(),
                self.queue@ == old(self).queue@,
                self.crawled@ == old(self).crawled@,
                self.crawl_index == old(self).crawl_index,
                self.crawl_index < usize::MAX,
                start == old(self).head as int,
                p0 == old(self).pending(),
                start <= self.head <= self.queue@.len(),
                forall|i: int|
                    0 <= i < self.head - start ==> is_crawled(
                        old(self).crawled(),
                        #[trigger] p0[i],
                    ),
            decreases self.queue@.len() - self.head,
        {
            let h = self.head;
            proof {
                assert(p0[h - start] == self.queue@[h as int]@);
            }
            let found = self.crawled_contains(self.queue[h].as_str());
            self.head = h + 1;
            if !found {
                self.crawl_index = self.crawl_index + 1;
                let id = self.queue[h].clone();
                proof {
                    assert(self.pending() =~= p0.subrange(h - start + 1, p0.len() as int));
                }
                return Some(id);
            }
        }
        proof {
            assert(self.pending() =~= Seq::<Seq<char>>::empty());
        }
        None
    }

    /// Records the notebook `id` titled `title`, fetched in the visit that
    /// `next` just counted, and queues the notebooks it links to. Returns
    /// the name of the file it is written to.
    pub fn record(&mut self, id: String, title: String, links: Vec<String>) -> (file_name: String)
        requires
            old(self).wf(),
            !is_crawled(old(self).crawled(), id@),
            old(self).visits() >= 1,
            old(self).crawled().len() > 0 ==> old(self).crawled().last().3 < old(self).visits(),
        ensures
            final(self).wf(),
            final(self).visits() == old(self).visits(),
            file_name@ == file_name_spec(title@, title_count(old(self).crawled(), title@)),
            final(self).crawled() == old(self).crawled().push(
                (id@, title@, file_name@, old(self).visits()),
            ),
            final(self).pending() == old(self).pending() + links@.map_values(|s: String| s@),
    {
        let earlier = self.count_title(title.as_str());
        let file_name = crawl_file_name(title.as_str(), earlier);
        let ghost old_pending = self.pending();
        let mut i: usize = 0;
        while i < links.len()
            invariant
                self.wf(),
                self.crawled@ == old(self).crawled@,
                self.crawl_index == old(self).crawl_index,
                self.head == old(self).head,
                i <= links@.len(),
                old_pending == old(self).pending(),
                self.pending() == old_pending + links@.subrange(0, i as int).map_values(
                    |s: String| s@,
                ),
            decreases links@.len() - i,
        {
            let ghost before = self.queue@;
            let ghost before_pending = self.pending();
            let link = links[i].clone();
            self.queue.push(link);
            proof {
                assert(self.queue@.subrange(self.head as int, self.queue@.len() as int)
                    =~= before.subrange(self.head as int, before.len() as int).push(link));
                assert(self.pending() =~= before_pending.push(links@[i as int]@));
                assert(links@.subrange(0, i + 1).map_values(|s: String| s@) =~= links@.subrange(
                    0,
                    i as int,
                ).map_values(|s: String| s@).push(links@[i as int]@));
                assert(self.pending() =~= old_pending + links@.subrange(0, i + 1).map_values(
                    |s: String| s@,
                ));
            }
            i = i + 1;
        }
        assert(links@.subrange(0, links@.len() as int) =~= links@);
        let entry = CrawledNotebook {
            id,
            title,
            file_name: file_name.clone(),
            crawl_index: self.crawl_index,
        };
        let ghost old_crawled = self.crawled@;
        self.crawled.push(entry);
        proof {
            assert forall|a: int, b: int|
                0 <= a < b < self.crawled@.len() implies self.crawled@[a].id@
                != self.crawled@[b].id@ by {
                if b == old_crawled.len() {
                    assert(old(self).crawled()[a].0 == old_crawled[a].id@);
                }
            }
            assert(self.crawled() =~= old(self).crawled().push(
                (id@, title@, file_name@, old(self).visits()),
            ));
        }
        file_name
    }

    /// The crawled notebooks, in the order they were visited.
    pub fn crawled_notebooks(&self) -> (r: &Vec<CrawledNotebook>)
        ensures
            r@.map_values(|c: CrawledNotebook| c@) == self.crawled(),
    {
        &self.crawled
    }

    /// The file a crawled notebook was written to.
    pub fn file_of(&self, id: &str) -> (r: Option<String>)
        requires
            self.wf(),
        ensures
            r is Some <==> is_crawled(self.crawled(), id@),
            r matches Some(f) ==> f@ == crawled_file(self.crawled(), id@),
    {
        let mut i: usize = 0;
        while i < self.crawled.len()
            invariant
                self.wf(),
                i <= self.crawled@.len(),
                forall|j: int| 0 <= j < i ==> self.crawled@[j].id@ != id@,
            decreases self.crawled@.len() - i,
        {
            if chars_eq(&chars_of(self.crawled[i].id.as_str()), &chars_of(id)) {
                proof {
                    let cv = self.crawled();
                    assert(cv[i as int].0 == id@);
                    let k = choose|k: int| 0 <= k < cv.len() && #[trigger] cv[k].0 == id@;
                    assert(k == i as int) by {
                        if k != i as int {
                            if k < i {
                                assert(self.crawled@[k].id@ != self.crawled@[i as int].id@);
                            } else {
                                assert(self.crawled@[i as int].id@ != self.crawled@[k].id@);
                            }
                        }
                    }
                }
                let f = self.crawled[i].file_name.clone();
                return Some(f);
            }
            i = i + 1;
        }
        assert(!is_crawled(self.crawled(), id@)) by {
            if is_crawled(self.crawled(), id@) {
                let k = choose|k: int|
                    0 <= k < self.crawled().len() && #[trigger] self.crawled()[k].0 == id@;
                assert(self.crawled@[k].id@ != id@);
            }
        }
        None
    }

    /// Rewrites the links to crawled notebooks in `markdown` into relative
    /// links to their files; other links stay as they are. `None` when the
    /// link pattern does not compile.
    pub fn relink_markdown(&self, markdown: &str) -> (r: Option<String>)
        requires
            self.wf(),
        ensures
            match regex_captures_result(notebook_url_pattern(), markdown@) {
                Some((ms, tail)) => r matches Some(t) && t@ == relink_spec(ms, self.crawled())
                    + tail,
                None => r is None,
            },
    {
        let found = regex_captures(
            "http\\S+[/]notebooks?[/]\\S*([a-zA-Z0-9_-]{22})\\b",
            markdown,
        );
        let (ms, tail) = match found {
            Some(x) => x,
            None => return None,
        };
        let ghost mv = ms@.map_values(|m: RegexMatch| m@);
        let mut out: Vec<char> = Vec::new();
        let mut i: usize = 0;
        while i < ms.len()
            invariant
                self.wf(),
                i <= ms@.len(),
                mv == ms@.map_values(|m: RegexMatch| m@),
                out@ == relink_spec(mv.subrange(0, i as int), self.crawled()),
            decreases ms@.len() - i,
        {
            let ghost before = out@;
            let m = &ms[i];
            extend_chars(&mut out, &chars_of(m.before.as_str()));
            let target = match &m.group {
                Some(id) => self.file_of(id.as_str()),
                None => None,
            };
            match target {
                Some(f) => {
                    out.push('.');
                    out.push('/');
                    extend_chars(&mut out, &chars_of(f.as_str()));
                },
                None => {
                    extend_chars(&mut out, &chars_of(m.whole.as_str()));
                },
            }
            proof {
                let sub = mv.subrange(0, i + 1);
                assert(sub.drop_last() =~= mv.subrange(0, i as int));
                assert(sub.last() == m@);
                assert(out@ =~= before + relink_match(m@, self.crawled()));
            }
            i = i + 1;
        }
        assert(mv.subrange(0, mv.len() as int) =~= mv);
        extend_chars(&mut out, &chars_of(tail.as_str()));
        Some(string_of(&out))
    }

    /// The table of contents: a list item linking each crawled notebook's
    /// file, in the order they were visited.
    pub fn summary(&self) -> (r: String)
        ensures
            r@ == summary_spec(self.crawled()),
    {
        let mut out: Vec<char> = Vec::new();
        let mut i: usize = 0;
        while i < self.crawled.len()
            invariant
                i <= self.crawled@.len(),
                out@ == summary_spec(self.crawled().subrange(0, i as int)),
            decreases self.crawled@.len() - i,
        {
            let ghost before = out@;
            let c = &self.crawled[i];
            extend_chars(&mut out, &chars_of("- ["));
            extend_chars(&mut out, &chars_of(c.title.as_str()));
            extend_chars(&mut out, &chars_of("](./"));
            extend_chars(&mut out, &chars_of(c.file_name.as_str()));
            extend_chars(&mut out, &chars_of(")\n"));
            proof {
                let sub = self.crawled().subrange(0, i + 1);
                assert(sub.drop_last() =~= self.crawled().subrange(0, i as int));
                assert(sub.last() == c@);
                assert(out@ =~= before + summary_line(c@));
            }
            i = i + 1;
        }
        assert(self.crawled().subrange(0, self.crawled@.len() as int) =~= self.crawled());
        string_of(&out)
    }
}

/// The file of the crawled notebook `id` (the crawl never writes a
/// notebook twice, so there is at most one).
pub open spec fn crawled_file(crawled: Seq<CrawledView>, id: Seq<char>) -> Seq<char> {
    crawled[choose|k: int| 0 <= k < crawled.len() && #[trigger] crawled[k].0 == id].2
}

/// A match of the link pattern, rewritten: the text before it, then a
/// relative link to the file of the notebook it points to where that was
/// crawled, else the link as it was.
pub open spec fn relink_match(m: MatchView, crawled: Seq<CrawledView>) -> Seq<char> {
    m.0 + match m.2 {
        Some(id) => if is_crawled(crawled, id) {
            seq!['.', '/'] + crawled_file(crawled, id)
        } else {
            m.1
        },
        None => m.1,
    }
}

/// The matches, each rewritten, one after the other.
pub open spec fn relink_spec(ms: Seq<MatchView>, crawled: Seq<CrawledView>) -> Seq<char>
    decreases ms.len(),
{
    if ms.len() == 0 {
        Seq::empty()
    } else {
        relink_spec(ms.drop_last(), crawled) + relink_match(ms.last(), crawled)
    }
}

/// A crawl never writes a notebook twice: the crawled notebooks have
/// distinct ids.
pub proof fn law_each_notebook_written_once(c: Crawl)
    requires
        c.wf(),
    ensures
        forall|i: int, j: int|
            0 <= i < j < c.crawled().len() ==> #[trigger] c.crawled()[i].0 != #[trigger] c.crawled()[j].0,
{
    assert forall|i: int, j: int| 0 <= i < j < c.crawled().len() implies #[trigger] c.crawled()[i].0
        != #[trigger] c.crawled()[j].0 by {
        assert(c.crawled@[i].id@ != c.crawled@[j].id@);
    }
}

/// The crawled notebooks, and so the table of contents, are in the order
/// they were visited: their visit numbers increase, and none is past the
/// visits counted so far.
pub proof fn law_contents_in_visit_order(c: Crawl)
    requires
        c.wf(),
    ensures
        forall|i: int, j: int|
            0 <= i < j < c.crawled().len() ==> #[trigger] c.crawled()[i].3 < #[trigger] c.crawled()[j].3,
        forall|i: int| 0 <= i < c.crawled().len() ==> 1 <= #[trigger] c.crawled()[i].3 <= c.visits(),
{
    assert forall|i: int, j: int| 0 <= i < j < c.crawled().len() implies #[trigger] c.crawled()[i].3
        < #[trigger] c.crawled()[j].3 by {
        assert(c.crawled@[i].crawl_index < c.crawled@[j].crawl_index);
    }
    assert forall|i: int| 0 <= i < c.crawled().len() implies 1 <= #[trigger] c.crawled()[i].3
        <= c.visits() by {
        assert(1 <= c.crawled@[i].crawl_index <= c.crawl_index);
    }
}

/// The list item of one crawled notebook.
pub open spec fn summary_line(c: CrawledView) -> Seq<char> {
    "- ["@ + c.1 + "](./"@ + c.2 + ")\n"@
}

/// The table of contents of the crawled notebooks.
pub open spec fn summary_spec(crawled: Seq<CrawledView>) -> Seq<char>
    decreases crawled.len(),
{
    if crawled.len() == 0 {
        Seq::empty()
    } else {
        summary_spec(crawled.drop_last()) + summary_line(crawled.last())
    }
}

} // verus!
