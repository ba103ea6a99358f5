//! Rows of the list tables the command line tool prints.
use crate::text::{chars_of, extend_chars, lines, lines_spec, slice_chars, string_of};
use crate::timestamps::{display_result, display_timestamp, format_rfc3339, rfc3339_format_result,
    Timestamp};
use vstd::prelude::*;

verus! {

/// The first line of a text, or nothing for a text without lines.
pub open spec fn first_line(s: Seq<char>) -> Seq<char> {
    if lines_spec(s).len() > 0 {
        lines_spec(s)[0]
    } else {
        Seq::empty()
    }
}

/// The ellipsis that marks a cropped description.
pub open spec fn ellipsis() -> Seq<char> {
    seq!['.', '.', '.']
}

/// The first line of `description`, cut to `max_len` characters: a longer
/// line keeps `max_len - 3` characters followed by `...`.
pub open spec fn crop_spec(description: Seq<char>, max_len: nat) -> Seq<char> {
    let line = first_line(description);
    if line.len() <= max_len {
        line
    } else {
        line.subrange(0, max_len - 3) + ellipsis()
    }
}

/// A cropped description fits its width.
pub proof fn law_cropped_fits(description: Seq<char>, max_len: nat)
    requires
        first_line(description).len() > max_len ==> max_len >= 3,
    ensures
        crop_spec(description, max_len).len() <= max_len,
{
}

/// Crops a description to fit a table cell: only the first line is kept,
/// and a line longer than `max_len` characters is cut and ends in `...`.
/// A line that has to be cut needs room for the ellipsis.
pub fn crop_description(description: &str, max_len: usize) -> (r: String)
    requires
        first_line(description@).len() > max_len ==> max_len >= 3,
    ensures
        r@ == crop_spec(description@, max_len as nat),
{
    let all = lines(&chars_of(description));
    proof {
        assert(all@.len() == lines_spec(description@).len());
    }
    if all.len() == 0 {
        return String::new();
    }
    let line = &all[0];
    proof {
        assert(line@ == lines_spec(description@)[0]);
    }
    if line.len() == 0 {
        return String::new();
    }
    if line.len() <= max_len {
        string_of(line)
    } else {
        let mut out = slice_chars(line, 0, max_len - 3);
        let dots: Vec<char> = vec!['.', '.', '.'];
        extend_chars(&mut out, &dots);
        proof {
            assert(dots@ =~= ellipsis());
        }
        string_of(&out)
    }
}

/// A text, or the empty text where there is none.
pub open spec fn or_empty(o: Option<Seq<char>>) -> Seq<char> {
    match o {
        Some(s) => s,
        None => Seq::empty(),
    }
}

/// The view of an optional string.
pub open spec fn opt_view(o: Option<String>) -> Option<Seq<char>> {
    match o {
        Some(s) => Some(s@),
        None => None,
    }
}

/// An instant in RFC 3339, or the empty text where it cannot be formatted.
fn rfc3339_or_empty(t: Timestamp) -> (r: String)
    ensures
        r@ == or_empty(rfc3339_format_result(t)),
{
    match format_rfc3339(t) {
        Some(s) => s,
        None => String::new(),
    }
}

/// An instant as `Display` prints it, or the empty text where it cannot.
fn display_or_empty(t: Timestamp) -> (r: String)
    ensures
        r@ == or_empty(display_result(t)),
{
    match display_timestamp(t) {
        Some(s) => s,
        None => String::new(),
    }
}

/// A text, or the empty text where there is none.
fn unwrap_or_empty(o: Option<String>) -> (r: String)
    ensures
        r@ == or_empty(opt_view(o)),
{
    match o {
        Some(s) => s,
        None => String::new(),
    }
}

/// A text, or the given replacement where there is none.
fn or_else(o: Option<String>, replacement: &str) -> (r: String)
    ensures
        r@ == match o {
            Some(s) => s@,
            None => replacement@,
        },
{
    match o {
        Some(s) => s,
        None => String::from_str(replacement),
    }
}

/// A row of `fp data-sources list`.
pub struct DataSourceRow {
    pub name: String,
    pub proxy_name: String,
    pub provider_type: String,
    pub updated_at: String,
    pub created_at: String,
}

impl DataSourceRow {
    /// The row of a data source: no proxy shows as an empty name, and the
    /// instants in RFC 3339.
    pub fn new(
        name: String,
        proxy_name: Option<String>,
        provider_type: String,
        updated_at: Timestamp,
        created_at: Timestamp,
    ) -> (r: Self)
        ensures
            r.name@ == name@,
            r.proxy_name@ == or_empty(opt_view(proxy_name)),
            r.provider_type@ == provider_type@,
            r.updated_at@ == or_empty(rfc3339_format_result(updated_at)),
            r.created_at@ == or_empty(rfc3339_format_result(created_at)),
    {
        DataSourceRow {
            name,
            proxy_name: unwrap_or_empty(proxy_name),
            provider_type,
            updated_at: rfc3339_or_empty(updated_at),
            created_at: rfc3339_or_empty(created_at),
        }
    }
}

/// A row of `fp integrations pagerduty list`.
pub struct PagerDutyReceiverRow {
    pub name: String,
    pub incident_created_template: String,
    pub updated_at: String,
    pub created_at: String,
}

impl PagerDutyReceiverRow {
    /// The row of a PagerDuty receiver: no template shows as `<none>`, and
    /// the instants in RFC 3339.
    pub fn new(
        name: String,
        incident_created_template_name: Option<String>,
        updated_at: Timestamp,
        created_at: Timestamp,
    ) -> (r: Self)
        ensures
            r.name@ == name@,
            r.incident_created_template@ == match incident_created_template_name {
                Some(t) => t@,
                None => "<none>"@,
            },
            r.updated_at@ == or_empty(rfc3339_format_result(updated_at)),
            r.created_at@ == or_empty(rfc3339_format_result(created_at)),
    {
        PagerDutyReceiverRow {
            name,
            incident_created_template: or_else(incident_created_template_name, "<none>"),
            updated_at: rfc3339_or_empty(updated_at),
            created_at: rfc3339_or_empty(created_at),
        }
    }
}

/// A row of `fp notebooks list`.
pub struct NotebookSummaryRow {
    pub title: String,
    pub id: String,
    pub visibility: String,
    pub updated_at: String,
    pub created_at: String,
}

impl NotebookSummaryRow {
    /// The row of a notebook: the instants as `Display` prints them.
    pub fn new(
        id: String,
        title: String,
        visibility: String,
        updated_at: Timestamp,
        created_at: Timestamp,
    ) -> (r: Self)
        ensures
            r.id@ == id@,
            r.title@ == title@,
            r.visibility@ == visibility@,
            r.updated_at@ == or_empty(display_result(updated_at)),
            r.created_at@ == or_empty(display_result(created_at)),
    {
        NotebookSummaryRow {
            id,
            title,
            visibility,
            updated_at: display_or_empty(updated_at),
            created_at: display_or_empty(created_at),
        }
    }
}

/// A row of `fp snippets list`.
pub struct SnippetRow {
    pub name: String,
    pub description: String,
    pub updated_at: String,
    pub created_at: String,
}

impl SnippetRow {
    /// The row of a snippet: the instants as `Display` prints them.
    pub fn new(name: String, description: String, updated_at: Timestamp, created_at: Timestamp) -> (r:
        Self)
        ensures
            r.name@ == name@,
            r.description@ == description@,
            r.updated_at@ == or_empty(display_result(updated_at)),
            r.created_at@ == or_empty(display_result(created_at)),
    {
        SnippetRow {
            name,
            description,
            updated_at: display_or_empty(updated_at),
            created_at: display_or_empty(created_at),
        }
    }
}

/// The width that a template description is cropped to.
pub const TEMPLATE_DESCRIPTION_WIDTH: usize = 24;

/// A row of `fp templates list`.
pub struct TemplateRow {
    pub name: String,
    pub description: String,
    pub updated_at: String,
    pub created_at: String,
}

impl TemplateRow {
    /// The row of a template: its description cropped to 24 characters.
    pub fn new(name: String, description: &str, updated_at: String, created_at: String) -> (r:
        Self)
        ensures
            r.name@ == name@,
            r.description@ == crop_spec(description@, 24),
            r.updated_at@ == updated_at@,
            r.created_at@ == created_at@,
    {
        TemplateRow {
            name,
            description: crop_description(description, TEMPLATE_DESCRIPTION_WIDTH),
            updated_at,
            created_at,
        }
    }
}

/// A row of `fp proxies list`.
pub struct ProxySummaryRow {
    pub name: String,
    pub id: String,
    pub status: String,
    pub data_sources_connected: String,
}

/// `connected / total`.
pub open spec fn connected_spec(connected: nat, total: nat) -> Seq<char> {
    crate::fields::decimal(connected) + seq![' ', '/', ' '] + crate::fields::decimal(total)
}

impl ProxySummaryRow {
    /// The row of a proxy: how many of its data sources are connected, out
    /// of how many.
    pub fn new(
        name: String,
        id: String,
        status: String,
        connected_data_sources: usize,
        total_data_sources: usize,
    ) -> (r: Self)
        ensures
            r.name@ == name@,
            r.id@ == id@,
            r.status@ == status@,
            r.data_sources_connected@ == connected_spec(
                connected_data_sources as nat,
                total_data_sources as nat,
            ),
    {
        let mut count = crate::fields::decimal_chars(connected_data_sources);
        let sep: Vec<char> = vec![' ', '/', ' '];
        extend_chars(&mut count, &sep);
        let total = crate::fields::decimal_chars(total_data_sources);
        extend_chars(&mut count, &total);
        proof {
            assert(sep@ =~= seq![' ', '/', ' ']);
        }
        ProxySummaryRow { name, id, status, data_sources_connected: string_of(&count) }
    }
}

/// The status of a data source, as the API reports it.
pub enum DataSourceStatus {
    Connected,
    Error(String),
}

/// The status column of a data source: `Connected`, `Error`, or empty when
/// the status is unknown.
pub open spec fn status_text(status: Option<DataSourceStatus>) -> Seq<char> {
    match status {
        Some(DataSourceStatus::Connected) => "Connected"@,
        Some(DataSourceStatus::Error(_)) => "Error"@,
        None => Seq::empty(),
    }
}

/// A row of `fp proxies data-sources`.
pub struct DataSourceAndProxySummaryRow {
    pub name: String,
    pub proxy_name: String,
    pub provider_type: String,
    pub status: String,
}

impl DataSourceAndProxySummaryRow {
    /// The row of a data source with its proxy.
    pub fn new(
        name: String,
        proxy_name: Option<String>,
        provider_type: String,
        status: Option<DataSourceStatus>,
    ) -> (r: Self)
        ensures
            r.name@ == name@,
            r.proxy_name@ == or_empty(opt_view(proxy_name)),
            r.provider_type@ == provider_type@,
            r.status@ == status_text(status),
    {
        let status_text = match &status {
            Some(DataSourceStatus::Connected) => String::from_str("Connected"),
            Some(DataSourceStatus::Error(_)) => String::from_str("Error"),
            None => String::new(),
        };
        DataSourceAndProxySummaryRow {
            name,
            proxy_name: unwrap_or_empty(proxy_name),
            provider_type,
            status: status_text,
        }
    }
}

} // verus!
