//! Parsing of command output into log records: JSON log lines, nginx access
//! log lines and GitHub Actions log lines, grouped by timestamp or as one
//! list of events in the order of the lines.
use vstd::prelude::*;
use crate::fields::{
    flatten_nested_value, flatten_spec, has_key, insert_spec, json_node, json_node_result,
    key_index, lemma_insert_other, lemma_insert_unique, lemma_key_index, lemma_lookup_push,
    lemma_remove_other, lemma_remove_unique, lookup, pairs_view, remove_spec,
    unique_keys, FieldMap, Fields, JsonNode, JsonNodeView,
};
use crate::text::{
    chars_eq, chars_of, has_prefix, is_blank, lines, lines_spec, starts_with, string_of, trim,
    trim_spec,
};
use crate::timestamps::{
    format_rfc3339, parse_timestamp, rfc3339_format_result, timestamp_spec, unix_seconds,
    now_utc, unix_timestamp, well_behaved, Timestamp,
};

verus! {

/// A log record.
pub struct LogRecord {
    /// Whole seconds since the Unix epoch.
    pub timestamp: i128,
    pub body: String,
    pub attributes: FieldMap,
    pub resource: FieldMap,
    pub trace_id: Option<String>,
    pub span_id: Option<String>,
}

/// The model of a log record.
pub struct LogRecordView {
    pub timestamp: int,
    pub body: Seq<char>,
    pub attributes: Fields,
    pub resource: Fields,
    pub trace_id: Option<Seq<char>>,
    pub span_id: Option<Seq<char>>,
}

/// The view of an optional string.
pub open spec fn opt_str(o: Option<String>) -> Option<Seq<char>> {
    match o {
        Some(s) => Some(s@),
        None => None,
    }
}

impl View for LogRecord {
    type V = LogRecordView;

    open spec fn view(&self) -> LogRecordView {
        LogRecordView {
            timestamp: self.timestamp as int,
            body: self.body@,
            attributes: self.attributes@,
            resource: self.resource@,
            trace_id: opt_str(self.trace_id),
            span_id: opt_str(self.span_id),
        }
    }
}

impl LogRecord {
    /// Both field maps have distinct keys.
    pub open spec fn wf(&self) -> bool {
        self.attributes.wf() && self.resource.wf()
    }
}

/// The record of a line without a timestamp of its own.
pub open spec fn plain_record(timestamp: int, line: Seq<char>) -> LogRecordView {
    LogRecordView {
        timestamp,
        body: line,
        attributes: Seq::empty(),
        resource: Seq::empty(),
        trace_id: None,
        span_id: None,
    }
}

fn make_plain_record(timestamp: i128, line: &[char]) -> (r: LogRecord)
    ensures
        r@ == plain_record(timestamp as int, line@),
        r.wf(),
{
    LogRecord {
        timestamp,
        body: string_of(line),
        attributes: FieldMap::new(),
        resource: FieldMap::new(),
        trace_id: None,
        span_id: None,
    }
}

// ---------------------------------------------------------------------------
// The fields that carry meaning.
// ---------------------------------------------------------------------------

/// The fields a timestamp is looked for in, in order.
pub open spec fn timestamp_fields_spec() -> Seq<Seq<char>> {
    seq!["@timestamp"@, "timestamp"@, "fields.timestamp"@, "ts"@]
}

/// The fields the body is looked for in, in order.
pub open spec fn body_fields_spec() -> Seq<Seq<char>> {
    seq!["body"@, "message"@, "fields.body"@, "fields.message"@, "log"@, "msg"@]
}

/// Prefixes of the fields that describe the resource rather than the event.
pub open spec fn resource_prefixes_spec() -> Seq<Seq<char>> {
    seq!["agent."@, "cloud."@, "container."@, "host."@, "service."@]
}

/// Fields with a resource prefix that still describe the event.
pub open spec fn resource_exceptions_spec() -> Seq<Seq<char>> {
    seq!["container.labels"@, "host.uptime"@, "service.state"@]
}

fn timestamp_fields() -> (r: Vec<&'static str>)
    ensures
        r@.map_values(|s: &str| s@) == timestamp_fields_spec(),
{
    let r = vec!["@timestamp", "timestamp", "fields.timestamp", "ts"];
    assert(r@.map_values(|s: &str| s@) =~= timestamp_fields_spec());
    r
}

fn body_fields() -> (r: Vec<&'static str>)
    ensures
        r@.map_values(|s: &str| s@) == body_fields_spec(),
{
    let r = vec!["body", "message", "fields.body", "fields.message", "log", "msg"];
    assert(r@.map_values(|s: &str| s@) =~= body_fields_spec());
    r
}

fn resource_prefixes() -> (r: Vec<&'static str>)
    ensures
        r@.map_values(|s: &str| s@) == resource_prefixes_spec(),
{
    let r = vec!["agent.", "cloud.", "container.", "host.", "service."];
    assert(r@.map_values(|s: &str| s@) =~= resource_prefixes_spec());
    r
}

fn resource_exceptions() -> (r: Vec<&'static str>)
    ensures
        r@.map_values(|s: &str| s@) == resource_exceptions_spec(),
{
    let r = vec!["container.labels", "host.uptime", "service.state"];
    assert(r@.map_values(|s: &str| s@) =~= resource_exceptions_spec());
    r
}

/// A field that describes the resource: it has a resource prefix and is not
/// one of the exceptions.
pub open spec fn is_resource_key(k: Seq<char>) -> bool {
    (exists|i: int| 0 <= i < resource_prefixes_spec().len() && has_prefix(k, resource_prefixes_spec()[i]))
        && !resource_exceptions_spec().contains(k)
}

fn resource_key(k: &str) -> (r: bool)
    ensures
        r == is_resource_key(k@),
{
    let kc = chars_of(k);
    let prefixes = resource_prefixes();
    let mut found = false;
    let mut i: usize = 0;
    while i < prefixes.len()
        invariant
            i <= prefixes@.len(),
            kc@ == k@,
            prefixes@.map_values(|s: &str| s@) == resource_prefixes_spec(),
            found == exists|j: int| 0 <= j < i && has_prefix(k@, resource_prefixes_spec()[j]),
        decreases prefixes@.len() - i,
    {
        let pc = chars_of(prefixes[i]);
        assert(resource_prefixes_spec()[i as int] == prefixes@[i as int]@);
        if starts_with(kc.as_slice(), pc.as_slice()) {
            found = true;
        }
        i = i + 1;
    }
    if !found {
        return false;
    }
    let exceptions = resource_exceptions();
    let mut j: usize = 0;
    while j < exceptions.len()
        invariant
            j <= exceptions@.len(),
            kc@ == k@,
            exceptions@.map_values(|s: &str| s@) == resource_exceptions_spec(),
            forall|m: int| 0 <= m < j ==> resource_exceptions_spec()[m] != k@,
        decreases exceptions@.len() - j,
    {
        let ec = chars_of(exceptions[j]);
        assert(resource_exceptions_spec()[j as int] == exceptions@[j as int]@);
        if chars_eq(kc.as_slice(), ec.as_slice()) {
            assert(resource_exceptions_spec()[j as int] == k@);
            return false;
        }
        j = j + 1;
    }
    true
}

// ---------------------------------------------------------------------------
// From flat fields to a record.
// ---------------------------------------------------------------------------

/// Removes field `a`, or, when it is absent, field `b`; returns the value
/// removed.
pub open spec fn take_either(l: Fields, a: Seq<char>, b: Seq<char>) -> (Option<Seq<char>>, Fields) {
    if lookup(l, a) is Some {
        (lookup(l, a), remove_spec(l, a))
    } else {
        (lookup(l, b), remove_spec(l, b))
    }
}

/// Looks for a timestamp in the fields `names[i..]`, in order: each field
/// found is removed, and the first that parses gives the timestamp.
pub open spec fn find_timestamp_spec<F: Fn(&str) -> Option<i128>>(
    l: Fields,
    names: Seq<Seq<char>>,
    i: nat,
    f: F,
) -> (Option<Timestamp>, Fields)
    decreases names.len() - i,
{
    if i >= names.len() {
        (None, l)
    } else {
        match lookup(l, names[i as int]) {
            Some(v) => {
                let l1 = remove_spec(l, names[i as int]);
                match timestamp_spec(v, f) {
                    Some(t) => (Some(t), l1),
                    None => find_timestamp_spec(l1, names, i + 1, f),
                }
            },
            None => find_timestamp_spec(l, names, i + 1, f),
        }
    }
}

/// Takes the first of the fields `names[i..]` that is present as the body
/// (removing it), or the empty body.
pub open spec fn find_body_spec(l: Fields, names: Seq<Seq<char>>, i: nat) -> (Seq<char>, Fields)
    decreases names.len() - i,
{
    if i >= names.len() {
        (Seq::empty(), l)
    } else {
        match lookup(l, names[i as int]) {
            Some(v) => (v, remove_spec(l, names[i as int])),
            None => find_body_spec(l, names, i + 1),
        }
    }
}

/// Splits fields into resource fields and attributes.
pub open spec fn split_resource(l: Fields) -> (Fields, Fields)
    decreases l.len(),
{
    if l.len() == 0 {
        (Seq::empty(), Seq::empty())
    } else {
        let (r, a) = split_resource(l.drop_last());
        let p = l.last();
        if is_resource_key(p.0) {
            (insert_spec(r, p.0, p.1), a)
        } else {
            (r, insert_spec(a, p.0, p.1))
        }
    }
}

/// The record made of flat fields, keyed by its timestamp in RFC 3339; none
/// when no field holds a timestamp (or when the timestamp cannot be written
/// in RFC 3339).
pub open spec fn parse_flattened_spec<F: Fn(&str) -> Option<i128>>(l0: Fields, f: F) -> Option<
    (Seq<char>, LogRecordView),
> {
    let (trace_id, l1) = take_either(l0, "trace_id"@, "trace.id"@);
    let (span_id, l2) = take_either(l1, "span_id"@, "span.id"@);
    let (ts, l3) = find_timestamp_spec(l2, timestamp_fields_spec(), 0, f);
    let (body, l4) = find_body_spec(l3, body_fields_spec(), 0);
    let (resource, attributes) = split_resource(l4);
    match ts {
        None => None,
        Some(t) => match rfc3339_format_result(t) {
            None => None,
            Some(key) => Some(
                (
                    key,
                    LogRecordView {
                        timestamp: unix_seconds(t),
                        body,
                        attributes,
                        resource,
                        trace_id,
                        span_id,
                    },
                ),
            ),
        },
    }
}

fn take_either_exec(fields: &mut FieldMap, a: &str, b: &str) -> (r: Option<String>)
    requires
        old(fields).wf(),
    ensures
        final(fields).wf(),
        (opt_str(r), final(fields)@) == take_either(old(fields)@, a@, b@),
{
    match fields.remove(a) {
        Some(v) => Some(v),
        None => {
            proof {
                assert(remove_spec(old(fields)@, a@) == old(fields)@);
            }
            fields.remove(b)
        },
    }
}

fn find_timestamp<F: Fn(&str) -> Option<i128>>(fields: &mut FieldMap, unix_float: &F) -> (r: Option<Timestamp>)
    requires
        old(fields).wf(),
        well_behaved(*unix_float),
    ensures
        final(fields).wf(),
        (r, final(fields)@) == find_timestamp_spec(old(fields)@, timestamp_fields_spec(), 0, *unix_float),
{
    let names = timestamp_fields();
    let mut i: usize = 0;
    while i < names.len()
        invariant
            fields.wf(),
            well_behaved(*unix_float),
            i <= names@.len(),
            names@.map_values(|s: &str| s@) == timestamp_fields_spec(),
            find_timestamp_spec(old(fields)@, timestamp_fields_spec(), 0, *unix_float)
                == find_timestamp_spec(fields@, timestamp_fields_spec(), i as nat, *unix_float),
        decreases names@.len() - i,
    {
        assert(timestamp_fields_spec()[i as int] == names@[i as int]@);
        let ghost prev = fields@;
        match fields.remove(names[i]) {
            Some(v) => {
                let t = parse_timestamp(v.as_str(), unix_float);
                if t.is_some() {
                    return t;
                }
            },
            None => {
                assert(fields@ == prev);
            },
        }
        i = i + 1;
    }
    None
}

fn find_body(fields: &mut FieldMap) -> (r: String)
    requires
        old(fields).wf(),
    ensures
        final(fields).wf(),
        (r@, final(fields)@) == find_body_spec(old(fields)@, body_fields_spec(), 0),
{
    let names = body_fields();
    let mut i: usize = 0;
    while i < names.len()
        invariant
            fields.wf(),
            i <= names@.len(),
            names@.map_values(|s: &str| s@) == body_fields_spec(),
            fields@ == old(fields)@,
            find_body_spec(old(fields)@, body_fields_spec(), 0) == find_body_spec(
                fields@,
                body_fields_spec(),
                i as nat,
            ),
        decreases names@.len() - i,
    {
        assert(body_fields_spec()[i as int] == names@[i as int]@);
        match fields.remove(names[i]) {
            Some(v) => {
                return v;
            },
            None => {
                assert(remove_spec(old(fields)@, names@[i as int]@) == old(fields)@);
            },
        }
        i = i + 1;
    }
    String::new()
}

fn split_fields(fields: &FieldMap) -> (r: (FieldMap, FieldMap))
    ensures
        r.0.wf(),
        r.1.wf(),
        (r.0@, r.1@) == split_resource(fields@),
{
    let mut resource = FieldMap::new();
    let mut attributes = FieldMap::new();
    let mut i: usize = 0;
    while i < fields.len()
        invariant
            i <= fields@.len(),
            resource.wf(),
            attributes.wf(),
            (resource@, attributes@) == split_resource(fields@.subrange(0, i as int)),
        decreases fields@.len() - i,
    {
        let (k, v) = fields.entry(i);
        proof {
            let pre = fields@.subrange(0, i as int + 1);
            assert(pre.drop_last() =~= fields@.subrange(0, i as int));
            assert(pre.last() == fields@[i as int]);
        }
        if resource_key(k.as_str()) {
            resource.insert(k, v);
        } else {
            attributes.insert(k, v);
        }
        i = i + 1;
    }
    assert(fields@.subrange(0, fields@.len() as int) =~= fields@);
    (resource, attributes)
}

/// Makes a log record of flat fields.
pub fn parse_flattened_json<F: Fn(&str) -> Option<i128>>(fields: FieldMap, unix_float: &F) -> (r:
    Option<(String, LogRecord)>)
    requires
        fields.wf(),
        well_behaved(*unix_float),
    ensures
        match r {
            Some((k, rec)) => rec.wf() && parse_flattened_spec(fields@, *unix_float) == Some(
                (k@, rec@),
            ),
            None => parse_flattened_spec(fields@, *unix_float) is None,
        },
{
    let mut fields = fields;
    let trace_id = take_either_exec(&mut fields, "trace_id", "trace.id");
    let span_id = take_either_exec(&mut fields, "span_id", "span.id");
    let ts = find_timestamp(&mut fields, unix_float);
    let body = find_body(&mut fields);
    let (resource, attributes) = split_fields(&fields);
    match ts {
        None => None,
        Some(t) => match format_rfc3339(t) {
            None => None,
            Some(key) => {
                let rec = LogRecord {
                    timestamp: unix_timestamp(t),
                    body,
                    attributes,
                    resource,
                    trace_id,
                    span_id,
                };
                Some((key, rec))
            },
        },
    }
}

// ---------------------------------------------------------------------------
// From a line to flat fields.
// ---------------------------------------------------------------------------

/// What `grok::Pattern::match_against` gives for `line` once `pattern` is
/// compiled with the default patterns (keeping only the named captures when
/// `alias_only`): the captures, or `None` when the pattern does not compile
/// or does not match.
pub uninterp spec fn grok_match_result(pattern: Seq<char>, alias_only: bool, line: Seq<char>) -> Option<
    Fields,
>;

/// Whether `char::is_lowercase` holds of a character.
pub uninterp spec fn char_is_lowercase_result(c: char) -> bool;

/// Calls `grok::Grok::default().compile(pattern, alias_only)` and
/// `Pattern::match_against(line)`, and collects the captures (alias and
/// matched text, in the order of the aliases). Named by
/// `grok_match_result`; the grok patterns decide it and this contract states
/// nothing more of it.
#[verifier::external_body]
fn grok_match(pattern: &str, alias_only: bool, line: &str) -> (r: Option<Vec<(String, String)>>)
    ensures
        r is Some <==> grok_match_result(pattern@, alias_only, line@) is Some,
        r is Some ==> grok_match_result(pattern@, alias_only, line@) == Some(pairs_view(r->0@)),
{
    let compiled = grok::Grok::default().compile(pattern, alias_only).ok()?;
    let matches = compiled.match_against(line)?;
    Some(matches.iter().map(|(k, v)| (k.to_string(), v.to_string())).collect())
}

/// Calls `char::is_lowercase` (the Unicode `Lowercase` property): among
/// ASCII characters exactly `a` to `z` have it; for others the Unicode
/// tables decide, named by `char_is_lowercase_result`.
#[verifier::external_body]
fn char_is_lowercase(c: char) -> (r: bool)
    ensures
        r == char_is_lowercase_result(c),
        (c as u32) < 128 ==> (r <==> ('a' <= c && c <= 'z')),
{
    c.is_lowercase()
}

/// Every character of `s` is lowercase.
pub open spec fn all_lowercase(s: Seq<char>) -> bool {
    forall|i: int| 0 <= i < s.len() ==> char_is_lowercase_result(#[trigger] s[i])
}

fn is_all_lowercase(s: &str) -> (r: bool)
    ensures
        r == all_lowercase(s@),
{
    let c = chars_of(s);
    let mut i: usize = 0;
    while i < c.len()
        invariant
            i <= c@.len(),
            c@ == s@,
            forall|j: int| 0 <= j < i ==> char_is_lowercase_result(#[trigger] s@[j]),
        decreases c@.len() - i,
    {
        if !char_is_lowercase(c[i]) {
            return false;
        }
        i = i + 1;
    }
    true
}

/// The number of leading `c` in `s`.
pub open spec fn count_leading(s: Seq<char>, c: char) -> nat
    decreases s.len(),
{
    if s.len() > 0 && s[0] == c {
        1 + count_leading(s.drop_first(), c)
    } else {
        0
    }
}

/// The number of trailing `c` in `s`.
pub open spec fn count_trailing(s: Seq<char>, c: char) -> nat
    decreases s.len(),
{
    if s.len() > 0 && s.last() == c {
        1 + count_trailing(s.drop_last(), c)
    } else {
        0
    }
}

/// `s` without leading and trailing `c`, as `str::trim_matches(c)` gives it.
pub open spec fn trim_matches_spec(s: Seq<char>, c: char) -> Seq<char> {
    let t = s.subrange(count_leading(s, c) as int, s.len() as int);
    t.subrange(0, t.len() - count_trailing(t, c))
}

proof fn lemma_count_leading(s: Seq<char>, c: char, i: int)
    requires
        0 <= i <= s.len(),
        forall|j: int| 0 <= j < i ==> s[j] == c,
    ensures
        count_leading(s, c) == i + count_leading(s.subrange(i, s.len() as int), c),
        count_leading(s, c) <= s.len(),
    decreases i,
{
    if i > 0 {
        lemma_count_leading(s.drop_first(), c, i - 1);
        assert(s.drop_first().subrange(i - 1, s.drop_first().len() as int) =~= s.subrange(
            i,
            s.len() as int,
        ));
    } else {
        assert(s.subrange(0, s.len() as int) =~= s);
        lemma_count_leading_bound(s, c);
    }
}

proof fn lemma_count_leading_bound(s: Seq<char>, c: char)
    ensures
        count_leading(s, c) <= s.len(),
    decreases s.len(),
{
    if s.len() > 0 {
        lemma_count_leading_bound(s.drop_first(), c);
    }
}

proof fn lemma_count_trailing(s: Seq<char>, c: char, i: int)
    requires
        0 <= i <= s.len(),
        forall|j: int| s.len() - i <= j < s.len() ==> s[j] == c,
    ensures
        count_trailing(s, c) == i + count_trailing(s.subrange(0, s.len() - i), c),
    decreases i,
{
    if i > 0 {
        lemma_count_trailing(s.drop_last(), c, i - 1);
        assert(s.drop_last().subrange(0, s.drop_last().len() - (i - 1)) =~= s.subrange(
            0,
            s.len() - i,
        ));
    } else {
        assert(s.subrange(0, s.len() as int) =~= s);
    }
}

proof fn lemma_count_trailing_bound(s: Seq<char>, c: char)
    ensures
        count_trailing(s, c) <= s.len(),
    decreases s.len(),
{
    if s.len() > 0 {
        lemma_count_trailing_bound(s.drop_last(), c);
    }
}

/// `s` without leading and trailing `c`.
pub fn trim_matches(s: &str, c: char) -> (r: String)
    ensures
        r@ == trim_matches_spec(s@, c),
{
    let v = chars_of(s);
    let n = v.len();
    let mut a: usize = 0;
    while a < n && v[a] == c
        invariant
            a <= n,
            n == v@.len(),
            forall|j: int| 0 <= j < a ==> v@[j] == c,
        decreases n - a,
    {
        a = a + 1;
    }
    proof {
        lemma_count_leading(v@, c, a as int);
        if a < n {
            assert(count_leading(v@.subrange(a as int, n as int), c) == 0);
        } else {
            assert(v@.subrange(a as int, n as int).len() == 0);
        }
    }
    let ghost t = v@.subrange(a as int, n as int);
    let mut b: usize = n;
    while b > a && v[b - 1] == c
        invariant
            a <= b <= n,
            n == v@.len(),
            t == v@.subrange(a as int, n as int),
            forall|j: int| b <= j < n ==> v@[j] == c,
        decreases b,
    {
        b = b - 1;
    }
    proof {
        let k = n - b;
        assert forall|j: int| t.len() - k <= j < t.len() implies t[j] == c by {
            assert(t[j] == v@[a + j]);
        }
        lemma_count_trailing(t, c, k as int);
        let u = t.subrange(0, t.len() - k);
        if b > a {
            assert(u.last() == v@[b - 1]);
        }
        assert(count_trailing(u, c) == 0);
        assert(t.subrange(0, t.len() - k) =~= v@.subrange(a as int, b as int));
    }
    let r = crate::text::slice_chars(v.as_slice(), a, b);
    string_of(r.as_slice())
}

/// The nginx access log line pattern.
pub open spec fn nginx_pattern_spec() -> Seq<char> {
    NGINX_PATTERN@
}

/// The GitHub Actions log line pattern.
pub open spec fn github_action_pattern_spec() -> Seq<char> {
    GITHUB_ACTION_PATTERN@
}

/// The grok pattern of nginx access log lines.
pub const NGINX_PATTERN: &'static str = "%{IPORHOST:clientip} %{USER:ident} %{USER:auth} \\[%{HTTPDATE:timestamp}\\] \"(?:%{WORD:verb} %{NOTSPACE:request}(?: HTTP/%{NUMBER:httpversion})?|%{DATA:rawrequest})\" %{NUMBER:response} (?:%{NUMBER:bytes}|-) %{QS:referrer} %{QS:agent}";

/// The grok pattern of GitHub Actions log lines.
pub const GITHUB_ACTION_PATTERN: &'static str = "%{WORD:job}%{SPACE}%{DATA:step}%{SPACE}%{TIMESTAMP_ISO8601:timestamp}%{SPACE}%{GREEDYDATA:body}";

/// The fields of grok captures: components written in upper case (the
/// building blocks of the pattern) are left out, and quotes around values
/// removed.
pub open spec fn grok_fields_spec(m: Fields) -> Fields
    decreases m.len(),
{
    if m.len() == 0 {
        Seq::empty()
    } else {
        let acc = grok_fields_spec(m.drop_last());
        let p = m.last();
        if all_lowercase(p.0) {
            insert_spec(acc, p.0, trim_matches_spec(p.1, '"'))
        } else {
            acc
        }
    }
}

/// Flattens the members of a JSON object, each under its own name.
pub open spec fn flatten_object_spec(members: Fields, i: nat) -> Fields
    decreases i,
{
    if i == 0 || i > members.len() {
        Seq::empty()
    } else {
        flatten_spec(
            flatten_object_spec(members, (i - 1) as nat),
            members[i - 1].0,
            members[i - 1].1,
            JSON_DEPTH as nat,
        )
    }
}

/// How deep JSON values are flattened: serde_json refuses deeper nesting.
pub const JSON_DEPTH: usize = 128;

/// The flat fields of a line, if it is a log line: a JSON object, or else a
/// line the nginx pattern matches, or else one the GitHub Actions pattern
/// matches.
pub open spec fn line_fields_spec(line: Seq<char>) -> Option<Fields> {
    match json_node_result(line) {
        Some(JsonNodeView::Object(members)) => Some(flatten_object_spec(members, members.len())),
        _ => match grok_match_result(nginx_pattern_spec(), true, line) {
            Some(m) => Some(grok_fields_spec(m)),
            None => match grok_match_result(github_action_pattern_spec(), true, line) {
                Some(m) => Some(grok_fields_spec(m)),
                None => None,
            },
        },
    }
}

/// The record of a line, keyed by its timestamp, if the line is a log line
/// with a timestamp.
pub open spec fn parse_log_spec<F: Fn(&str) -> Option<i128>>(line: Seq<char>, f: F) -> Option<
    (Seq<char>, LogRecordView),
> {
    match line_fields_spec(line) {
        Some(l) => parse_flattened_spec(l, f),
        None => None,
    }
}

fn grok_fields(m: Vec<(String, String)>) -> (r: FieldMap)
    ensures
        r.wf(),
        r@ == grok_fields_spec(pairs_view(m@)),
{
    let mut r = FieldMap::new();
    let mut i: usize = 0;
    while i < m.len()
        invariant
            i <= m@.len(),
            r.wf(),
            r@ == grok_fields_spec(pairs_view(m@).subrange(0, i as int)),
        decreases m@.len() - i,
    {
        proof {
            let pre = pairs_view(m@).subrange(0, i as int + 1);
            assert(pre.drop_last() =~= pairs_view(m@).subrange(0, i as int));
        }
        if is_all_lowercase(m[i].0.as_str()) {
            let v = trim_matches(m[i].1.as_str(), '"');
            r.insert(m[i].0.clone(), v);
        }
        i = i + 1;
    }
    assert(pairs_view(m@).subrange(0, m@.len() as int) =~= pairs_view(m@));
    r
}

fn line_fields(line: &str) -> (r: Option<FieldMap>)
    ensures
        match r {
            Some(l) => l.wf() && line_fields_spec(line@) == Some(l@),
            None => line_fields_spec(line@) is None,
        },
{
    if let Some(JsonNode::Object(members)) = json_node(line) {
        let ghost mv = pairs_view(members@);
        let mut out = FieldMap::new();
        let mut i: usize = 0;
        while i < members.len()
            invariant
                i <= members@.len(),
                mv == pairs_view(members@),
                out.wf(),
                out@ == flatten_object_spec(mv, i as nat),
            decreases members@.len() - i,
        {
            let k = crate::text::chars_of(members[i].0.as_str());
            flatten_nested_value(&mut out, k, members[i].1.as_str(), JSON_DEPTH);
            i = i + 1;
        }
        return Some(out);
    }
    match grok_match(NGINX_PATTERN, true, line) {
        Some(m) => Some(grok_fields(m)),
        None => match grok_match(GITHUB_ACTION_PATTERN, true, line) {
            Some(m) => Some(grok_fields(m)),
            None => None,
        },
    }
}

/// Parses one line into a record keyed by its timestamp.
pub fn parse_log<F: Fn(&str) -> Option<i128>>(line: &str, unix_float: &F) -> (r: Option<(String, LogRecord)>)
    requires
        well_behaved(*unix_float),
    ensures
        match r {
            Some((k, rec)) => rec.wf() && parse_log_spec(line@, *unix_float) == Some((k@, rec@)),
            None => parse_log_spec(line@, *unix_float) is None,
        },
{
    match line_fields(line) {
        Some(fields) => parse_flattened_json(fields, unix_float),
        None => None,
    }
}

// ---------------------------------------------------------------------------
// Grouping records by timestamp.
// ---------------------------------------------------------------------------

/// Records grouped by the RFC 3339 text of their timestamp.
pub type Groups = Seq<(Seq<char>, Seq<LogRecordView>)>;

/// The records under `key`, none when the key is absent.
pub open spec fn group_of(logs: Groups, key: Seq<char>) -> Seq<LogRecordView> {
    match lookup(logs, key) {
        Some(v) => v,
        None => Seq::empty(),
    }
}

/// The state of the line-by-line parse: the groups so far, the most recent
/// timestamp seen, and the lines without a timestamp since the last line
/// that had one.
pub struct LogsState {
    pub logs: Groups,
    pub recent: Option<(Seq<char>, int)>,
    pub pending: Seq<Seq<char>>,
}

/// The records for lines without a timestamp, stamped with `timestamp`.
pub open spec fn plain_records(timestamp: int, lines: Seq<Seq<char>>) -> Seq<LogRecordView> {
    lines.map_values(|l: Seq<char>| plain_record(timestamp, l))
}

/// The effect of one line on the parse. A line with a timestamp goes into
/// the group of its timestamp, after the pending lines without one. A line
/// without a timestamp goes into the group of the most recent timestamp;
/// before any line with a timestamp it is kept pending, to go with the next
/// line that has one.
pub open spec fn line_step<F: Fn(&str) -> Option<i128>>(st: LogsState, raw: Seq<char>, f: F) -> LogsState {
    let line = trim_spec(raw);
    if line.len() == 0 {
        st
    } else {
        match parse_log_spec(line, f) {
            Some((key, rec)) => LogsState {
                logs: insert_spec(
                    st.logs,
                    key,
                    (plain_records(rec.timestamp, st.pending) + group_of(st.logs, key)).push(rec),
                ),
                recent: Some((key, rec.timestamp)),
                pending: Seq::empty(),
            },
            None => match st.recent {
                Some((k, ts)) => LogsState {
                    logs: insert_spec(st.logs, k, group_of(st.logs, k).push(plain_record(ts, line))),
                    recent: st.recent,
                    pending: st.pending,
                },
                None => LogsState { logs: st.logs, recent: None, pending: st.pending.push(line) },
            },
        }
    }
}

/// The state after the first `n` lines.
pub open spec fn lines_state<F: Fn(&str) -> Option<i128>>(ls: Seq<Seq<char>>, n: nat, f: F) -> LogsState
    decreases n,
{
    if n == 0 || n > ls.len() {
        LogsState { logs: Seq::empty(), recent: None, pending: Seq::empty() }
    } else {
        line_step(lines_state(ls, (n - 1) as nat, f), ls[n - 1], f)
    }
}

/// The groups once all lines are parsed: lines still pending go into the
/// group of the current time.
pub open spec fn finish_spec(st: LogsState, now: Timestamp) -> Groups {
    if st.pending.len() > 0 {
        match rfc3339_format_result(now) {
            Some(k) => insert_spec(
                st.logs,
                k,
                group_of(st.logs, k) + plain_records(unix_seconds(now), st.pending),
            ),
            None => st.logs,
        }
    } else {
        st.logs
    }
}

/// The records of command output, grouped by timestamp, with `now` as the
/// current time.
pub open spec fn parse_logs_spec<F: Fn(&str) -> Option<i128>>(output: Seq<char>, now: Timestamp, f: F) -> Groups {
    let ls = lines_spec(output);
    finish_spec(lines_state(ls, ls.len(), f), now)
}

/// Whether the output holds a log line: a non-blank line that parses as
/// one.
pub open spec fn contains_logs_spec<F: Fn(&str) -> Option<i128>>(output: Seq<char>, f: F) -> bool {
    let ls = lines_spec(output);
    exists|i: int|
        0 <= i < ls.len() && trim_spec(ls[i]).len() != 0 && parse_log_spec(ls[i], f) is Some
}

/// Records grouped by timestamp, each group in order.
pub struct LogGroups {
    groups: Vec<(String, Vec<LogRecord>)>,
}

/// The view of a list of records.
pub open spec fn records_view(v: Seq<LogRecord>) -> Seq<LogRecordView> {
    v.map_values(|r: LogRecord| r@)
}

/// The view of a list of groups.
pub open spec fn groups_view(v: Seq<(String, Vec<LogRecord>)>) -> Groups {
    v.map_values(|g: (String, Vec<LogRecord>)| (g.0@, records_view(g.1@)))
}

impl View for LogGroups {
    type V = Groups;

    closed spec fn view(&self) -> Groups {
        groups_view(self.groups@)
    }
}

impl LogGroups {
    /// Keys are distinct and every record is well formed.
    pub closed spec fn wf(&self) -> bool {
        &&& unique_keys(self@)
        &&& forall|i: int, j: int|
            0 <= i < self.groups@.len() && 0 <= j < self.groups@[i].1@.len()
                ==> #[trigger] self.groups@[i].1@[j].wf()
    }

    /// No groups.
    pub fn new() -> (r: Self)
        ensures
            r@ == Seq::<(Seq<char>, Seq<LogRecordView>)>::empty(),
            r.wf(),
    {
        let r = LogGroups { groups: Vec::new() };
        assert(r@ =~= Seq::<(Seq<char>, Seq<LogRecordView>)>::empty());
        r
    }

    /// The number of groups.
    pub fn len(&self) -> (r: usize)
        ensures
            r == self@.len(),
    {
        self.groups.len()
    }

    /// The key of group `i`.
    pub fn key(&self, i: usize) -> (r: String)
        requires
            i < self@.len(),
        ensures
            r@ == self@[i as int].0,
    {
        self.groups[i].0.clone()
    }

    /// The number of records in group `i`.
    pub fn group_len(&self, i: usize) -> (r: usize)
        requires
            i < self@.len(),
        ensures
            r == self@[i as int].1.len(),
    {
        self.groups[i].1.len()
    }

    /// Record `j` of group `i`.
    pub fn record(&self, i: usize, j: usize) -> (r: &LogRecord)
        requires
            i < self@.len(),
            j < self@[i as int].1.len(),
        ensures
            r@ == self@[i as int].1[j as int],
    {
        &self.groups[i].1[j]
    }

    /// The index of the group under `key`, if any.
    pub fn find(&self, key: &str) -> (r: Option<usize>)
        requires
            self.wf(),
        ensures
            match r {
                Some(i) => has_key(self@, key@) && key_index(self@, key@) == i,
                None => !has_key(self@, key@),
            },
    {
        let kc = chars_of(key);
        let mut i: usize = 0;
        while i < self.groups.len()
            invariant
                i <= self@.len(),
                self@.len() == self.groups@.len(),
                kc@ == key@,
                unique_keys(self@),
                forall|j: int| 0 <= j < i ==> self@[j].0 != key@,
            decreases self@.len() - i,
        {
            let ec = chars_of(self.groups[i].0.as_str());
            if chars_eq(ec.as_slice(), kc.as_slice()) {
                proof {
                    lemma_key_index(self@, key@, i as int);
                }
                return Some(i);
            }
            i = i + 1;
        }
        None
    }

    /// Sets the group under `key` to `recs`.
    fn set_group(&mut self, key: String, recs: Vec<LogRecord>)
        requires
            old(self).wf(),
            forall|j: int| 0 <= j < recs@.len() ==> #[trigger] recs@[j].wf(),
        ensures
            final(self).wf(),
            final(self)@ == insert_spec(old(self)@, key@, records_view(recs@)),
    {
        proof {
            lemma_insert_unique(self@, key@, records_view(recs@));
        }
        match self.find(key.as_str()) {
            Some(i) => {
                self.groups.set(i, (key, recs));
                assert(self@ =~= insert_spec(old(self)@, key@, records_view(recs@)));
            },
            None => {
                self.groups.push((key, recs));
                assert(self@ =~= insert_spec(old(self)@, key@, records_view(recs@)));
            },
        }
    }

    /// Takes the records under `key` out, leaving the group empty (or
    /// absent).
    fn take_group(&mut self, key: &str) -> (r: Vec<LogRecord>)
        requires
            old(self).wf(),
        ensures
            final(self).wf(),
            records_view(r@) == group_of(old(self)@, key@),
            forall|j: int| 0 <= j < r@.len() ==> #[trigger] r@[j].wf(),
            forall|v: Seq<LogRecordView>|
                insert_spec(final(self)@, key@, v) == insert_spec(old(self)@, key@, v),
            has_key(final(self)@, key@) == has_key(old(self)@, key@),
    {
        match self.find(key) {
            Some(i) => {
                let ghost before = self@;
                let (k, recs) = self.groups.remove(i);
                let empty: Vec<LogRecord> = Vec::new();
                proof {
                    assert(records_view(empty@) =~= Seq::<LogRecordView>::empty());
                    assert(k@ == key@);
                }
                self.groups.insert(i, (k, empty));
                proof {
                    assert(self@ =~= before.update(i as int, (key@, Seq::<LogRecordView>::empty())));
                    assert(unique_keys(self@));
                    lemma_key_index(self@, key@, i as int);
                    assert forall|v: Seq<LogRecordView>|
                        insert_spec(self@, key@, v) == insert_spec(before, key@, v) by {
                        assert(insert_spec(self@, key@, v) =~= insert_spec(before, key@, v));
                    }
                    assert forall|a: int, b: int|
                        0 <= a < self.groups@.len() && 0 <= b < self.groups@[a].1@.len()
                            implies #[trigger] self.groups@[a].1@[b].wf() by {
                        assert(a != i);
                    }
                    assert forall|j: int| 0 <= j < recs@.len() implies #[trigger] recs@[j].wf() by {
                        assert(old(self).groups@[i as int].1@[j].wf());
                    }
                }
                recs
            },
            None => {
                let r: Vec<LogRecord> = Vec::new();
                assert(records_view(r@) =~= Seq::<LogRecordView>::empty());
                r
            },
        }
    }
}

fn plain_records_exec(timestamp: i128, pending: &Vec<Vec<char>>) -> (r: Vec<LogRecord>)
    ensures
        records_view(r@) == plain_records(timestamp as int, pending@.map_values(|l: Vec<char>| l@)),
        forall|j: int| 0 <= j < r@.len() ==> #[trigger] r@[j].wf(),
{
    let mut r: Vec<LogRecord> = Vec::new();
    let mut i: usize = 0;
    while i < pending.len()
        invariant
            i <= pending@.len(),
            r@.len() == i,
            records_view(r@) == plain_records(
                timestamp as int,
                pending@.map_values(|l: Vec<char>| l@).subrange(0, i as int),
            ),
            forall|j: int| 0 <= j < r@.len() ==> #[trigger] r@[j].wf(),
        decreases pending@.len() - i,
    {
        let rec = make_plain_record(timestamp, pending[i].as_slice());
        let ghost r0 = r@;
        r.push(rec);
        proof {
            let pv = pending@.map_values(|l: Vec<char>| l@);
            let lhs = records_view(r@);
            let rhs = plain_records(timestamp as int, pv.subrange(0, i as int + 1));
            assert(lhs.len() == rhs.len());
            assert forall|k: int| 0 <= k < lhs.len() implies lhs[k] == rhs[k] by {
                if k < i {
                    assert(lhs[k] == records_view(r0)[k]);
                    assert(rhs[k] == plain_records(timestamp as int, pv.subrange(0, i as int))[k]);
                } else {
                    assert(lhs[k] == rec@);
                    assert(pv[k] == pending@[k]@);
                }
            }
            assert(lhs =~= rhs);
        }
        i = i + 1;
    }
    assert(pending@.map_values(|l: Vec<char>| l@).subrange(0, pending@.len() as int)
        =~= pending@.map_values(|l: Vec<char>| l@));
    r
}


/// The model of the state of the exec parse.
pub open spec fn state_view(
    logs: Groups,
    recent: Option<(String, i128)>,
    pending: Seq<Vec<char>>,
) -> LogsState {
    LogsState {
        logs,
        recent: match recent {
            Some((k, t)) => Some((k@, t as int)),
            None => None,
        },
        pending: pending.map_values(|l: Vec<char>| l@),
    }
}

/// Parses command output into records grouped by the RFC 3339 text of their
/// timestamp, with `now` standing for the current time (the timestamp of
/// lines when no line has one).
pub fn parse_logs_at<F: Fn(&str) -> Option<i128>>(output: &str, now: Timestamp, unix_float: &F) -> (r:
    LogGroups)
    requires
        well_behaved(*unix_float),
    ensures
        r.wf(),
        unique_keys(r@),
        r@ == parse_logs_spec(output@, now, *unix_float),
        rfc3339_format_result(now) is Some ==> total_records(r@) == non_blank_lines(
            lines_spec(output@),
            lines_spec(output@).len(),
        ).len(),
{
    proof {
        if rfc3339_format_result(now) is Some {
            law_each_line_stored_once(output@, now, *unix_float);
        }
    }
    let chars = chars_of(output);
    let ls = lines(chars.as_slice());
    let ghost lsv = ls@.map_values(|l: Vec<char>| l@);
    let mut logs = LogGroups::new();
    let mut recent: Option<(String, i128)> = None;
    let mut pending: Vec<Vec<char>> = Vec::new();
    let mut i: usize = 0;
    assert(state_view(logs@, recent, pending@) =~= lines_state(lsv, 0, *unix_float)) by {
        assert(pending@.map_values(|l: Vec<char>| l@) =~= Seq::<Seq<char>>::empty());
    }
    while i < ls.len()
        invariant
            well_behaved(*unix_float),
            i <= ls@.len(),
            lsv == ls@.map_values(|l: Vec<char>| l@),
            lsv == lines_spec(output@),
            logs.wf(),
            state_view(logs@, recent, pending@) == lines_state(lsv, i as nat, *unix_float),
        decreases ls@.len() - i,
    {
        let ghost st = state_view(logs@, recent, pending@);
        let line = trim(ls[i].as_slice());
        proof {
            assert(lsv[i as int] == ls@[i as int]@);
            assert(lines_state(lsv, i as nat + 1, *unix_float) == line_step(st, lsv[i as int], *unix_float));
        }
        if line.len() > 0 {
            let line_str = string_of(line.as_slice());
            match parse_log(line_str.as_str(), unix_float) {
                Some((key, rec)) => {
                    let mut recs = plain_records_exec(rec.timestamp, &pending);
                    let mut old_group = logs.take_group(key.as_str());
                    recs.append(&mut old_group);
                    let ts = rec.timestamp;
                    let ghost rv = rec@;
                    recs.push(rec);
                    proof {
                        assert(records_view(recs@) =~= (plain_records(
                            ts as int,
                            pending@.map_values(|l: Vec<char>| l@),
                        ) + group_of(st.logs, key@)).push(rv));
                    }
                    logs.set_group(key.clone(), recs);
                    recent = Some((key, ts));
                    pending = Vec::new();
                    proof {
                        assert(pending@.map_values(|l: Vec<char>| l@) =~= Seq::<Seq<char>>::empty());
                    }
                },
                None => {
                    match &recent {
                        Some((k, ts)) => {
                            let mut g = logs.take_group(k.as_str());
                            let prec = make_plain_record(*ts, line.as_slice());
                            let ghost g0 = g@;
                            g.push(prec);
                            proof {
                                assert(records_view(g@) =~= records_view(g0).push(prec@));
                            }
                            logs.set_group(k.clone(), g);
                        },
                        None => {
                            let ghost p0 = pending@;
                            pending.push(line);
                            proof {
                                assert(pending@.map_values(|l: Vec<char>| l@) =~= p0.map_values(
                                    |l: Vec<char>| l@,
                                ).push(trim_spec(lsv[i as int])));
                            }
                        },
                    }
                },
            }
        }
        i = i + 1;
    }
    if pending.len() > 0 {
        match format_rfc3339(now) {
            Some(k) => {
                let mut g = logs.take_group(k.as_str());
                let mut extra = plain_records_exec(unix_timestamp(now), &pending);
                let ghost g0 = g@;
                let ghost e0 = extra@;
                g.append(&mut extra);
                proof {
                    assert(records_view(g@) =~= records_view(g0) + records_view(e0));
                }
                logs.set_group(k, g);
            },
            None => {},
        }
    }
    logs
}

/// Parses command output into records grouped by the RFC 3339 text of their
/// timestamp; lines are stamped with the current time when no line has a
/// timestamp.
pub fn parse_logs<F: Fn(&str) -> Option<i128>>(output: &str, unix_float: &F) -> (r: LogGroups)
    requires
        well_behaved(*unix_float),
    ensures
        r.wf(),
        exists|now: Timestamp|
            now.offset_seconds == 0 && r@ == parse_logs_spec(output@, now, *unix_float),
{
    let now = now_utc();
    parse_logs_at(output, now, unix_float)
}

/// Whether some non-blank line of the output is a log line.
pub fn contains_logs<F: Fn(&str) -> Option<i128>>(output: &str, unix_float: &F) -> (r: bool)
    requires
        well_behaved(*unix_float),
    ensures
        r == contains_logs_spec(output@, *unix_float),
{
    let chars = chars_of(output);
    let ls = lines(chars.as_slice());
    let ghost lsv = ls@.map_values(|l: Vec<char>| l@);
    let mut i: usize = 0;
    while i < ls.len()
        invariant
            well_behaved(*unix_float),
            i <= ls@.len(),
            lsv == ls@.map_values(|l: Vec<char>| l@),
            lsv == lines_spec(output@),
            forall|j: int|
                0 <= j < i ==> !(trim_spec(lsv[j]).len() != 0 && parse_log_spec(lsv[j], *unix_float) is Some),
        decreases ls@.len() - i,
    {
        assert(lsv[i as int] == ls@[i as int]@);
        if !is_blank(ls[i].as_slice()) {
            let line_str = string_of(ls[i].as_slice());
            if parse_log(line_str.as_str(), unix_float).is_some() {
                return true;
            }
        }
        i = i + 1;
    }
    false
}

// ---------------------------------------------------------------------------
// Records as one flat list of events.
// ---------------------------------------------------------------------------

/// The state of the line-by-line parse into a flat list: the events so
/// far, the timestamp of the most recent log line, and the lines without a
/// timestamp seen before any log line.
pub struct EventsState {
    pub events: Seq<LogRecordView>,
    pub recent: Option<int>,
    pub pending: Seq<Seq<char>>,
}

/// The effect of one line on the flat parse. A log line follows the
/// pending lines, which take its timestamp; a line without a timestamp
/// after a log line takes the most recent timestamp; before any log line it
/// is kept pending.
pub open spec fn event_step<F: Fn(&str) -> Option<i128>>(st: EventsState, raw: Seq<char>, f: F) -> EventsState {
    let line = trim_spec(raw);
    if line.len() == 0 {
        st
    } else {
        match parse_log_spec(line, f) {
            Some((_key, rec)) => EventsState {
                events: (st.events + plain_records(rec.timestamp, st.pending)).push(rec),
                recent: Some(rec.timestamp),
                pending: Seq::empty(),
            },
            None => match st.recent {
                Some(ts) => EventsState { events: st.events.push(plain_record(ts, line)), ..st },
                None => EventsState { pending: st.pending.push(line), ..st },
            },
        }
    }
}

/// The flat parse after the first `n` lines.
pub open spec fn events_state<F: Fn(&str) -> Option<i128>>(ls: Seq<Seq<char>>, n: nat, f: F) -> EventsState
    decreases n,
{
    if n == 0 || n > ls.len() {
        EventsState { events: Seq::empty(), recent: None, pending: Seq::empty() }
    } else {
        event_step(events_state(ls, (n - 1) as nat, f), ls[n - 1], f)
    }
}

/// The events of command output, with `now` as the current time: lines
/// still pending at the end (no line had a timestamp) take the current
/// time.
pub open spec fn log_events_spec<F: Fn(&str) -> Option<i128>>(output: Seq<char>, now: Timestamp, f: F) -> Seq<
    LogRecordView,
> {
    let ls = lines_spec(output);
    let st = events_state(ls, ls.len(), f);
    st.events + plain_records(unix_seconds(now), st.pending)
}

/// Parses command output into one list of events, in the order of the
/// lines: each non-blank line gives one event. Lines without a timestamp
/// take the timestamp of the most recent log line, those before the first
/// log line take its timestamp (and come just before it), and when no line
/// has one they all take `now`, in whole seconds.
pub fn parse_log_events<F: Fn(&str) -> Option<i128>>(output: &str, now: Timestamp, unix_float: &F) -> (r:
    Vec<LogRecord>)
    requires
        well_behaved(*unix_float),
    ensures
        records_view(r@) == log_events_spec(output@, now, *unix_float),
        forall|j: int| 0 <= j < r@.len() ==> #[trigger] r@[j].wf(),
{
    let chars = chars_of(output);
    let ls = lines(chars.as_slice());
    let ghost lsv = ls@.map_values(|l: Vec<char>| l@);
    let mut events: Vec<LogRecord> = Vec::new();
    let mut recent: Option<i128> = None;
    let mut pending: Vec<Vec<char>> = Vec::new();
    let mut i: usize = 0;
    proof {
        assert(records_view(events@) =~= Seq::<LogRecordView>::empty());
        assert(pending@.map_values(|l: Vec<char>| l@) =~= Seq::<Seq<char>>::empty());
    }
    while i < ls.len()
        invariant
            well_behaved(*unix_float),
            i <= ls@.len(),
            lsv == ls@.map_values(|l: Vec<char>| l@),
            lsv == lines_spec(output@),
            forall|j: int| 0 <= j < events@.len() ==> #[trigger] events@[j].wf(),
            (EventsState {
                events: records_view(events@),
                recent: match recent {
                    Some(t) => Some(t as int),
                    None => None,
                },
                pending: pending@.map_values(|l: Vec<char>| l@),
            }) == events_state(lsv, i as nat, *unix_float),
        decreases ls@.len() - i,
    {
        let line = trim(ls[i].as_slice());
        proof {
            assert(lsv[i as int] == ls@[i as int]@);
        }
        if line.len() > 0 {
            let line_str = string_of(line.as_slice());
            match parse_log(line_str.as_str(), unix_float) {
                Some((_key, rec)) => {
                    let ghost e0 = records_view(events@);
                    let mut recs = plain_records_exec(rec.timestamp, &pending);
                    let ghost p0 = records_view(recs@);
                    events.append(&mut recs);
                    let ts = rec.timestamp;
                    let ghost rv = rec@;
                    events.push(rec);
                    proof {
                        assert(records_view(events@) =~= (e0 + p0).push(rv));
                    }
                    recent = Some(ts);
                    pending = Vec::new();
                    proof {
                        assert(pending@.map_values(|l: Vec<char>| l@) =~= Seq::<Seq<char>>::empty());
                    }
                },
                None => {
                    match recent {
                        Some(ts) => {
                            let ghost e0 = records_view(events@);
                            let prec = make_plain_record(ts, line.as_slice());
                            let ghost pr = prec@;
                            events.push(prec);
                            proof {
                                assert(records_view(events@) =~= e0.push(pr));
                            }
                        },
                        None => {
                            let ghost p0 = pending@;
                            pending.push(line);
                            proof {
                                assert(pending@.map_values(|l: Vec<char>| l@) =~= p0.map_values(
                                    |l: Vec<char>| l@,
                                ).push(trim_spec(lsv[i as int])));
                            }
                        },
                    }
                },
            }
        }
        i = i + 1;
    }
    let ghost e0 = records_view(events@);
    let mut rest = plain_records_exec(unix_timestamp(now), &pending);
    let ghost r0 = records_view(rest@);
    events.append(&mut rest);
    proof {
        assert(records_view(events@) =~= e0 + r0);
    }
    events
}

/// The timestamp of a line, when it is a log line.
pub open spec fn line_time<F: Fn(&str) -> Option<i128>>(line: Seq<char>, f: F) -> Option<int> {
    match parse_log_spec(line, f) {
        Some((_key, rec)) => Some(rec.timestamp),
        None => None,
    }
}

/// The timestamp of the nearest log line before position `i`.
pub open spec fn time_before<F: Fn(&str) -> Option<i128>>(l: Seq<Seq<char>>, i: int, f: F) -> Option<int>
    decreases i,
{
    if i <= 0 {
        None
    } else {
        match line_time(l[i - 1], f) {
            Some(t) => Some(t),
            None => time_before(l, i - 1, f),
        }
    }
}

/// The timestamp of the nearest log line after position `i`.
pub open spec fn time_after<F: Fn(&str) -> Option<i128>>(l: Seq<Seq<char>>, i: int, f: F) -> Option<int>
    decreases l.len() - i,
{
    if i + 1 >= l.len() {
        None
    } else {
        match line_time(l[i + 1], f) {
            Some(t) => Some(t),
            None => time_after(l, i + 1, f),
        }
    }
}

/// The event of the `i`-th of the lines `l` (trimmed, non-blank): its own
/// record for a log line; otherwise the line, stamped with the timestamp of
/// the nearest log line before it, else of the nearest one after it, else
/// with the current time.
pub open spec fn event_of<F: Fn(&str) -> Option<i128>>(
    l: Seq<Seq<char>>,
    i: int,
    f: F,
    now: Timestamp,
) -> LogRecordView {
    match parse_log_spec(l[i], f) {
        Some((_key, rec)) => rec,
        None => plain_record(
            match time_before(l, i, f) {
                Some(t) => t,
                None => match time_after(l, i, f) {
                    Some(t) => t,
                    None => unix_seconds(now),
                },
            },
            l[i],
        ),
    }
}

/// The flat parse, one trimmed non-blank line at a time.
pub open spec fn event_line_step<F: Fn(&str) -> Option<i128>>(st: EventsState, line: Seq<char>, f: F) -> EventsState {
    match parse_log_spec(line, f) {
        Some((_key, rec)) => EventsState {
            events: (st.events + plain_records(rec.timestamp, st.pending)).push(rec),
            recent: Some(rec.timestamp),
            pending: Seq::empty(),
        },
        None => match st.recent {
            Some(ts) => EventsState { events: st.events.push(plain_record(ts, line)), ..st },
            None => EventsState { pending: st.pending.push(line), ..st },
        },
    }
}

/// The flat parse of trimmed non-blank lines.
pub open spec fn events_of_lines<F: Fn(&str) -> Option<i128>>(l: Seq<Seq<char>>, f: F) -> EventsState
    decreases l.len(),
{
    if l.len() == 0 {
        EventsState { events: Seq::empty(), recent: None, pending: Seq::empty() }
    } else {
        event_line_step(events_of_lines(l.drop_last(), f), l.last(), f)
    }
}

proof fn lemma_events_state_lines<F: Fn(&str) -> Option<i128>>(ls: Seq<Seq<char>>, n: nat, f: F)
    requires
        n <= ls.len(),
    ensures
        events_state(ls, n, f) == events_of_lines(non_blank_lines(ls, n), f),
    decreases n,
{
    if n > 0 {
        lemma_events_state_lines(ls, (n - 1) as nat, f);
        if trim_spec(ls[n - 1]).len() != 0 {
            let l = non_blank_lines(ls, n);
            assert(l.drop_last() =~= non_blank_lines(ls, (n - 1) as nat));
        }
    }
}

proof fn lemma_time_before_prefix<F: Fn(&str) -> Option<i128>>(l: Seq<Seq<char>>, k: int, i: int, f: F)
    requires
        0 <= i <= k <= l.len(),
    ensures
        time_before(l, i, f) == time_before(l.take(k), i, f),
    decreases i,
{
    if i > 0 {
        assert(l.take(k)[i - 1] == l[i - 1]);
        lemma_time_before_prefix(l, k, i - 1, f);
    }
}

proof fn lemma_time_after_next<F: Fn(&str) -> Option<i128>>(l: Seq<Seq<char>>, i: int, j: int, f: F)
    requires
        0 <= i < j < l.len(),
        forall|k: int| i < k < j ==> line_time(#[trigger] l[k], f) is None,
        line_time(l[j], f) is Some,
    ensures
        time_after(l, i, f) == line_time(l[j], f),
    decreases j - i,
{
    if i + 1 < j {
        assert(line_time(l[i + 1], f) is None);
        lemma_time_after_next(l, i + 1, j, f);
    }
}

proof fn lemma_time_after_none<F: Fn(&str) -> Option<i128>>(l: Seq<Seq<char>>, i: int, f: F)
    requires
        0 <= i,
        forall|k: int| i < k < l.len() ==> line_time(#[trigger] l[k], f) is None,
    ensures
        time_after(l, i, f) is None,
    decreases l.len() - i,
{
    if i + 1 < l.len() {
        assert(line_time(l[i + 1], f) is None);
        lemma_time_after_none(l, i + 1, f);
    }
}

proof fn lemma_time_before_none<F: Fn(&str) -> Option<i128>>(l: Seq<Seq<char>>, i: int, f: F)
    requires
        i <= l.len(),
        forall|k: int| 0 <= k < i ==> line_time(#[trigger] l[k], f) is None,
    ensures
        time_before(l, i, f) is None,
    decreases i,
{
    if i > 0 {
        assert(line_time(l[i - 1], f) is None);
        lemma_time_before_none(l, i - 1, f);
    }
}

/// What the flat parse of the first `m` lines of `l` has settled: before
/// the first log line every line waits; after it, every line has its final
/// event.
#[verifier::rlimit(60)]
proof fn lemma_events_prefix<F: Fn(&str) -> Option<i128>>(l: Seq<Seq<char>>, m: int, f: F, now: Timestamp)
    requires
        0 <= m <= l.len(),
    ensures
        ({
            let st = events_of_lines(l.take(m), f);
            &&& st.recent == time_before(l, m, f)
            &&& st.recent is None ==> st.events.len() == 0 && st.pending == l.take(m) && forall|k: int|
                0 <= k < m ==> line_time(#[trigger] l[k], f) is None
            &&& st.recent is Some ==> st.pending.len() == 0 && st.events.len() == m && forall|k: int|
                0 <= k < m ==> #[trigger] st.events[k] == event_of(l, k, f, now)
        }),
    decreases m,
{
    if m > 0 {
        lemma_events_prefix(l, m - 1, f, now);
        let p = l.take(m - 1);
        assert(l.take(m).drop_last() =~= p);
        assert(l.take(m).last() == l[m - 1]);
        let st = events_of_lines(p, f);
        let x = l[m - 1];
        lemma_time_before_prefix(l, m - 1, m - 1, f);
        let st2 = events_of_lines(l.take(m), f);
        assert(st2 == event_line_step(st, x, f));
        match parse_log_spec(x, f) {
            Some((_key, rec)) => {
                assert(line_time(x, f) == Some(rec.timestamp));
                if st.recent is None {
                    let ev = (st.events + plain_records(rec.timestamp, st.pending)).push(rec);
                    assert forall|k: int| 0 <= k < m implies #[trigger] st2.events[k] == event_of(
                        l,
                        k,
                        f,
                        now,
                    ) by {
                        if k < m - 1 {
                            assert(st2.events[k] == plain_record(rec.timestamp, p[k]));
                            assert(p[k] == l[k]);
                            assert(line_time(l[k], f) is None);
                            lemma_time_before_none(l, k, f);
                            lemma_time_after_next(l, k, m - 1, f);
                        }
                    }
                } else {
                    assert forall|k: int| 0 <= k < m implies #[trigger] st2.events[k] == event_of(
                        l,
                        k,
                        f,
                        now,
                    ) by {
                        if k < m - 1 {
                            assert(st2.events[k] == st.events[k]);
                        }
                    }
                }
            },
            None => {
                assert(line_time(x, f) is None);
                match st.recent {
                    Some(ts) => {
                        assert forall|k: int| 0 <= k < m implies #[trigger] st2.events[k]
                            == event_of(l, k, f, now) by {
                            if k < m - 1 {
                                assert(st2.events[k] == st.events[k]);
                            }
                        }
                    },
                    None => {
                        assert(st2.pending =~= l.take(m));
                        assert forall|k: int| 0 <= k < m implies line_time(#[trigger] l[k], f)
                            is None by {
                        }
                    },
                }
            },
        }
    } else {
        assert(l.take(0) =~= Seq::<Seq<char>>::empty());
    }
}

/// Each event of the flat parse belongs to one non-blank line, in order: a
/// log line gives its own record; any other line gives itself, stamped with
/// the timestamp of the nearest log line before it, else of the nearest log
/// line after it, else with the current time.
pub proof fn law_events_line_by_line<F: Fn(&str) -> Option<i128>>(output: Seq<char>, now: Timestamp, f: F)
    ensures
        ({
            let l = non_blank_lines(lines_spec(output), lines_spec(output).len());
            log_events_spec(output, now, f) == Seq::new(l.len(), |i: int| event_of(l, i, f, now))
        }),
{
    let ls = lines_spec(output);
    let l = non_blank_lines(ls, ls.len());
    lemma_events_state_lines(ls, ls.len(), f);
    lemma_events_prefix(l, l.len() as int, f, now);
    assert(l.take(l.len() as int) =~= l);
    let st = events_of_lines(l, f);
    let r = st.events + plain_records(unix_seconds(now), st.pending);
    let want = Seq::new(l.len(), |i: int| event_of(l, i, f, now));
    if st.recent is None {
        assert forall|k: int| 0 <= k < l.len() implies r[k] == want[k] by {
            lemma_time_before_none(l, k, f);
            lemma_time_after_none(l, k, f);
        }
    } else {
        assert forall|k: int| 0 <= k < l.len() implies r[k] == want[k] by {
            assert(r[k] == st.events[k]);
        }
    }
    assert(r =~= want);
}

/// Each non-blank line of the output gives exactly one event.
pub proof fn law_one_event_per_line<F: Fn(&str) -> Option<i128>>(output: Seq<char>, now: Timestamp, f: F)
    ensures
        log_events_spec(output, now, f).len() == non_blank_lines(
            lines_spec(output),
            lines_spec(output).len(),
        ).len(),
{
    let ls = lines_spec(output);
    lemma_events_count(ls, ls.len(), f);
}

proof fn lemma_events_count<F: Fn(&str) -> Option<i128>>(ls: Seq<Seq<char>>, n: nat, f: F)
    requires
        n <= ls.len(),
    ensures
        events_state(ls, n, f).events.len() + events_state(ls, n, f).pending.len()
            == non_blank_lines(ls, n).len(),
        events_state(ls, n, f).recent is Some ==> events_state(ls, n, f).pending.len() == 0,
    decreases n,
{
    if n > 0 {
        lemma_events_count(ls, (n - 1) as nat, f);
    }
}

// ---------------------------------------------------------------------------
// Which fields carry the time and which describe the resource.
// ---------------------------------------------------------------------------

proof fn lemma_take_either_keeps(l: Seq<(Seq<char>, Seq<char>)>, a: Seq<char>, b: Seq<char>, k: Seq<char>)
    requires
        unique_keys(l),
        k != a,
        k != b,
    ensures
        lookup(take_either(l, a, b).1, k) == lookup(l, k),
        unique_keys(take_either(l, a, b).1),
{
    if lookup(l, a) is Some {
        lemma_remove_other(l, a, k);
    } else {
        lemma_remove_other(l, b, k);
    }
}

proof fn lemma_find_timestamp_unique<F: Fn(&str) -> Option<i128>>(
    l: Fields,
    names: Seq<Seq<char>>,
    i: nat,
    f: F,
)
    requires
        unique_keys(l),
    ensures
        unique_keys(find_timestamp_spec(l, names, i, f).1),
    decreases names.len() - i,
{
    if i < names.len() {
        lemma_remove_unique(l, names[i as int]);
        lemma_find_timestamp_unique(l, names, i + 1, f);
        lemma_find_timestamp_unique(remove_spec(l, names[i as int]), names, i + 1, f);
    }
}

proof fn lemma_find_body_unique(l: Fields, names: Seq<Seq<char>>, i: nat)
    requires
        unique_keys(l),
    ensures
        unique_keys(find_body_spec(l, names, i).1),
    decreases names.len() - i,
{
    if i < names.len() {
        lemma_remove_unique(l, names[i as int]);
        lemma_find_body_unique(l, names, i + 1);
    }
}

/// A field `@timestamp` that holds a timestamp gives the record its time:
/// it is the first place a timestamp is looked for, so whatever other
/// fields hold, the record is filed under the RFC 3339 text of that
/// timestamp and stamped with it.
pub proof fn law_at_timestamp_field_gives_the_time<F: Fn(&str) -> Option<i128>>(
    l0: Fields,
    f: F,
    v: Seq<char>,
    t: Timestamp,
    key: Seq<char>,
)
    requires
        unique_keys(l0),
        lookup(l0, "@timestamp"@) == Some(v),
        timestamp_spec(v, f) == Some(t),
        rfc3339_format_result(t) == Some(key),
    ensures
        parse_flattened_spec(l0, f) matches Some((k, rec)) && k == key && rec.timestamp
            == unix_seconds(t),
{
    reveal_strlit("@timestamp");
    reveal_strlit("trace_id");
    reveal_strlit("trace.id");
    reveal_strlit("span_id");
    reveal_strlit("span.id");
    let at = "@timestamp"@;
    assert(at[0] == '@');
    assert(at != "trace_id"@ && at != "trace.id"@ && at != "span_id"@ && at != "span.id"@) by {
        assert("trace_id"@[0] == 't' && "trace.id"@[0] == 't' && "span_id"@[0] == 's'
            && "span.id"@[0] == 's');
    }
    lemma_take_either_keeps(l0, "trace_id"@, "trace.id"@, at);
    let l1 = take_either(l0, "trace_id"@, "trace.id"@).1;
    lemma_take_either_keeps(l1, "span_id"@, "span.id"@, at);
    let l2 = take_either(l1, "span_id"@, "span.id"@).1;
    assert(lookup(l2, at) == Some(v));
    assert(timestamp_fields_spec()[0] == at);
    assert(find_timestamp_spec(l2, timestamp_fields_spec(), 0, f).0 == Some(t));
}

proof fn lemma_find_timestamp_keeps<F: Fn(&str) -> Option<i128>>(
    l: Fields,
    names: Seq<Seq<char>>,
    i: nat,
    f: F,
    k: Seq<char>,
)
    requires
        unique_keys(l),
        forall|j: int| i <= j < names.len() ==> names[j] != k,
    ensures
        lookup(find_timestamp_spec(l, names, i, f).1, k) == lookup(l, k),
    decreases names.len() - i,
{
    if i < names.len() {
        assert(names[i as int] != k);
        lemma_remove_other(l, names[i as int], k);
        lemma_find_timestamp_keeps(l, names, i + 1, f, k);
        lemma_find_timestamp_keeps(remove_spec(l, names[i as int]), names, i + 1, f, k);
    }
}

/// The fields a timestamp is read from, in the order they are tried.
pub open spec fn time_field_names() -> Seq<Seq<char>> {
    seq!["@timestamp"@, "timestamp"@, "fields.timestamp"@, "ts"@]
}

/// The time fields are tried in order: `@timestamp`, `timestamp`,
/// `fields.timestamp`, `ts`. When the first of them that is present holds
/// a timestamp, the record gets that timestamp.
pub proof fn law_time_fields_in_order<F: Fn(&str) -> Option<i128>>(
    l0: Fields,
    f: F,
    j: int,
    v: Seq<char>,
    t: Timestamp,
    key: Seq<char>,
)
    requires
        unique_keys(l0),
        0 <= j < 4,
        forall|k: int| 0 <= k < j ==> lookup(l0, #[trigger] time_field_names()[k]) is None,
        lookup(l0, time_field_names()[j]) == Some(v),
        timestamp_spec(v, f) == Some(t),
        rfc3339_format_result(t) == Some(key),
    ensures
        parse_flattened_spec(l0, f) matches Some((k, rec)) && k == key && rec.timestamp
            == unix_seconds(t),
{
    reveal_strlit("@timestamp");
    reveal_strlit("timestamp");
    reveal_strlit("fields.timestamp");
    reveal_strlit("ts");
    reveal_strlit("trace_id");
    reveal_strlit("trace.id");
    reveal_strlit("span_id");
    reveal_strlit("span.id");
    let names = time_field_names();
    assert(names == timestamp_fields_spec());
    assert forall|k: int| 0 <= k < 4 implies names[k] != "trace_id"@ && names[k] != "trace.id"@
        && names[k] != "span_id"@ && names[k] != "span.id"@ by {
        assert(names[0][0] == '@');
        assert(names[1].len() == 9 && names[2].len() == 16 && names[3].len() == 2);
        assert("trace_id"@.len() == 8 && "trace.id"@.len() == 8 && "span_id"@.len() == 7
            && "span.id"@.len() == 7);
        assert("trace_id"@[0] == 't' && "trace.id"@[0] == 't' && "span_id"@[0] == 's'
            && "span.id"@[0] == 's');
    }
    let (_tr, l1) = take_either(l0, "trace_id"@, "trace.id"@);
    let (_sp, l2) = take_either(l1, "span_id"@, "span.id"@);
    assert forall|k: int| 0 <= k < 4 implies lookup(l2, #[trigger] names[k]) == lookup(l0, names[k]) by {
        lemma_take_either_keeps(l0, "trace_id"@, "trace.id"@, names[k]);
        lemma_take_either_keeps(l1, "span_id"@, "span.id"@, names[k]);
    }
    lemma_take_either_keeps(l0, "trace_id"@, "trace.id"@, names[0]);
    lemma_take_either_keeps(l1, "span_id"@, "span.id"@, names[0]);
    lemma_time_fields_walk(l2, f, 0, j, t);
}

proof fn lemma_time_fields_walk<F: Fn(&str) -> Option<i128>>(l: Fields, f: F, i: int, j: int, t: Timestamp)
    requires
        unique_keys(l),
        0 <= i <= j < 4,
        forall|k: int| i <= k < j ==> lookup(l, #[trigger] time_field_names()[k]) is None,
        lookup(l, time_field_names()[j]) matches Some(v) && timestamp_spec(v, f) == Some(t),
    ensures
        find_timestamp_spec(l, time_field_names(), i as nat, f).0 == Some(t),
    decreases j - i,
{
    if i < j {
        assert(lookup(l, time_field_names()[i]) is None);
        lemma_time_fields_walk(l, f, i + 1, j, t);
    }
}

/// The trace and span ids come from `trace_id` (else `trace.id`) and
/// `span_id` (else `span.id`).
pub proof fn law_trace_and_span_ids<F: Fn(&str) -> Option<i128>>(l0: Fields, f: F)
    requires
        unique_keys(l0),
    ensures
        parse_flattened_spec(l0, f) matches Some((_k, rec)) ==> {
            &&& rec.trace_id == (if lookup(l0, "trace_id"@) is Some {
                lookup(l0, "trace_id"@)
            } else {
                lookup(l0, "trace.id"@)
            })
            &&& lookup(l0, "span_id"@) is Some ==> rec.span_id == lookup(l0, "span_id"@)
        },
{
    reveal_strlit("trace_id");
    reveal_strlit("trace.id");
    reveal_strlit("span_id");
    assert("span_id"@ != "trace_id"@ && "span_id"@ != "trace.id"@) by {
        assert("span_id"@.len() == 7 && "trace_id"@.len() == 8 && "trace.id"@.len() == 8);
    }
    lemma_take_either_keeps(l0, "trace_id"@, "trace.id"@, "span_id"@);
}

/// The body comes from the field `body` when the line has one.
pub proof fn law_body_field_gives_the_body<F: Fn(&str) -> Option<i128>>(l0: Fields, f: F, b: Seq<char>)
    requires
        unique_keys(l0),
        lookup(l0, "body"@) == Some(b),
    ensures
        parse_flattened_spec(l0, f) matches Some((_k, rec)) ==> rec.body == b,
{
    reveal_strlit("body");
    reveal_strlit("trace_id");
    reveal_strlit("trace.id");
    reveal_strlit("span_id");
    reveal_strlit("span.id");
    let bd = "body"@;
    assert(bd != "trace_id"@ && bd != "trace.id"@ && bd != "span_id"@ && bd != "span.id"@) by {
        assert(bd.len() == 4 && "trace_id"@.len() == 8 && "trace.id"@.len() == 8 && "span_id"@.len()
            == 7 && "span.id"@.len() == 7);
    }
    lemma_take_either_keeps(l0, "trace_id"@, "trace.id"@, bd);
    let l1 = take_either(l0, "trace_id"@, "trace.id"@).1;
    lemma_take_either_keeps(l1, "span_id"@, "span.id"@, bd);
    let l2 = take_either(l1, "span_id"@, "span.id"@).1;
    let names = timestamp_fields_spec();
    reveal_strlit("@timestamp");
    reveal_strlit("timestamp");
    reveal_strlit("fields.timestamp");
    reveal_strlit("ts");
    assert forall|j: int| 0 <= j < names.len() implies names[j] != bd by {
        assert(names[0].len() == 10 && names[1].len() == 9 && names[2].len() == 16 && names[3].len()
            == 2);
    }
    lemma_find_timestamp_keeps(l2, names, 0, f, bd);
    let l3 = find_timestamp_spec(l2, names, 0, f).1;
    assert(body_fields_spec()[0] == bd);
    assert(lookup(l3, bd) == Some(b));
}

/// The fields a body is read from, in the order they are tried.
pub open spec fn body_field_names() -> Seq<Seq<char>> {
    seq!["body"@, "message"@, "fields.body"@, "fields.message"@, "log"@, "msg"@]
}

/// The body fields are tried in order: `body`, `message`, `fields.body`,
/// `fields.message`, `log`, `msg`; the first of them that is present gives
/// the record's body.
pub proof fn law_body_fields_in_order<F: Fn(&str) -> Option<i128>>(l0: Fields, f: F, j: int, b: Seq<char>)
    requires
        unique_keys(l0),
        0 <= j < 6,
        forall|k: int| 0 <= k < j ==> lookup(l0, #[trigger] body_field_names()[k]) is None,
        lookup(l0, body_field_names()[j]) == Some(b),
    ensures
        parse_flattened_spec(l0, f) matches Some((_k, rec)) ==> rec.body == b,
{
    reveal_strlit("body");
    reveal_strlit("message");
    reveal_strlit("fields.body");
    reveal_strlit("fields.message");
    reveal_strlit("log");
    reveal_strlit("msg");
    reveal_strlit("trace_id");
    reveal_strlit("trace.id");
    reveal_strlit("span_id");
    reveal_strlit("span.id");
    reveal_strlit("@timestamp");
    reveal_strlit("timestamp");
    reveal_strlit("fields.timestamp");
    reveal_strlit("ts");
    let names = body_field_names();
    assert(names == body_fields_spec());
    let tn = timestamp_fields_spec();
    assert(names[0].len() == 4 && names[1].len() == 7 && names[2].len() == 11 && names[3].len() == 14
        && names[4].len() == 3 && names[5].len() == 3 && names[1][0] == 'm');
    assert(tn[0].len() == 10 && tn[1].len() == 9 && tn[2].len() == 16 && tn[3].len() == 2);
    assert("trace_id"@.len() == 8 && "trace.id"@.len() == 8 && "span_id"@.len() == 7
        && "span.id"@.len() == 7 && "span_id"@[0] == 's' && "span.id"@[0] == 's');
    let (_tr, l1) = take_either(l0, "trace_id"@, "trace.id"@);
    let (_sp, l2) = take_either(l1, "span_id"@, "span.id"@);
    let l3 = find_timestamp_spec(l2, tn, 0, f).1;
    assert forall|k: int| 0 <= k < 6 implies lookup(l3, #[trigger] names[k]) == lookup(l0, names[k]) by {
        let n = names[k];
        assert(n != "trace_id"@ && n != "trace.id"@ && n != "span_id"@ && n != "span.id"@);
        assert(forall|i: int| 0 <= i < tn.len() ==> tn[i] != n);
        lemma_take_either_keeps(l0, "trace_id"@, "trace.id"@, n);
        lemma_take_either_keeps(l1, "span_id"@, "span.id"@, n);
        lemma_find_timestamp_keeps(l2, tn, 0, f, n);
    }
    lemma_body_fields_walk(l3, 0, j, b);
}

proof fn lemma_body_fields_walk(l: Fields, i: int, j: int, b: Seq<char>)
    requires
        0 <= i <= j < 6,
        forall|k: int| i <= k < j ==> lookup(l, #[trigger] body_field_names()[k]) is None,
        lookup(l, body_field_names()[j]) == Some(b),
    ensures
        find_body_spec(l, body_field_names(), i as nat).0 == b,
    decreases j - i,
{
    if i < j {
        assert(lookup(l, body_field_names()[i]) is None);
        lemma_body_fields_walk(l, i + 1, j, b);
    }
}

/// The prefixes of the fields that describe the resource.
pub open spec fn has_resource_prefix(k: Seq<char>) -> bool {
    ||| has_prefix(k, "agent."@)
    ||| has_prefix(k, "cloud."@)
    ||| has_prefix(k, "container."@)
    ||| has_prefix(k, "host."@)
    ||| has_prefix(k, "service."@)
}

/// Splitting fields: a field with a resource prefix (`agent.`, `cloud.`,
/// `container.`, `host.`, `service.`) goes to the resource, unless it is
/// `container.labels`, `host.uptime` or `service.state`; every other field
/// goes to the attributes. Each keeps its value.
pub proof fn law_resource_split(l: Fields, k: Seq<char>)
    requires
        unique_keys(l),
    ensures
        has_resource_prefix(k) && !is_event_field_with_resource_prefix(k) ==> lookup(
            split_resource(l).0,
            k,
        ) == lookup(l, k) && lookup(split_resource(l).1, k) is None,
        !(has_resource_prefix(k) && !is_event_field_with_resource_prefix(k)) ==> lookup(
            split_resource(l).1,
            k,
        ) == lookup(l, k) && lookup(split_resource(l).0, k) is None,
    decreases l.len(),
{
    let ps = resource_prefixes_spec();
    let es = resource_exceptions_spec();
    assert(ps[0] == "agent."@ && ps[1] == "cloud."@ && ps[2] == "container."@ && ps[3] == "host."@
        && ps[4] == "service."@);
    assert(es[0] == "container.labels"@ && es[1] == "host.uptime"@ && es[2] == "service.state"@);
    assert((exists|i: int| 0 <= i < ps.len() && has_prefix(k, ps[i])) == has_resource_prefix(k)) by {
        if has_resource_prefix(k) {
            if has_prefix(k, "agent."@) {
                assert(has_prefix(k, ps[0]));
            } else if has_prefix(k, "cloud."@) {
                assert(has_prefix(k, ps[1]));
            } else if has_prefix(k, "container."@) {
                assert(has_prefix(k, ps[2]));
            } else if has_prefix(k, "host."@) {
                assert(has_prefix(k, ps[3]));
            } else {
                assert(has_prefix(k, ps[4]));
            }
        }
    }
    assert(es.contains(k) == is_event_field_with_resource_prefix(k)) by {
        if is_event_field_with_resource_prefix(k) {
            if k == "container.labels"@ {
                assert(es[0] == k);
            } else if k == "host.uptime"@ {
                assert(es[1] == k);
            } else {
                assert(es[2] == k);
            }
        }
    }
    assert(is_resource_key(k) == (has_resource_prefix(k) && !is_event_field_with_resource_prefix(k)));
    lemma_split_resource(l, k);
}

proof fn lemma_split_resource(l: Fields, k: Seq<char>)
    requires
        unique_keys(l),
    ensures
        unique_keys(split_resource(l).0),
        unique_keys(split_resource(l).1),
        is_resource_key(k) ==> lookup(split_resource(l).0, k) == lookup(l, k) && lookup(
            split_resource(l).1,
            k,
        ) is None,
        !is_resource_key(k) ==> lookup(split_resource(l).1, k) == lookup(l, k) && lookup(
            split_resource(l).0,
            k,
        ) is None,
    decreases l.len(),
{
    if l.len() == 0 {
        assert(!has_key(Seq::<(Seq<char>, Seq<char>)>::empty(), k));
    } else {
        let d = l.drop_last();
        let p = l.last();
        assert(d.push(p) =~= l);
        lemma_lookup_push(d, p, k);
        lemma_split_resource(d, k);
        let (r, a) = split_resource(d);
        if is_resource_key(p.0) {
            lemma_insert_unique(r, p.0, p.1);
            if p.0 != k {
                lemma_insert_other(r, p.0, p.1, k);
            }
        } else {
            lemma_insert_unique(a, p.0, p.1);
            if p.0 != k {
                lemma_insert_other(a, p.0, p.1, k);
            }
        }
    }
}

/// The fields that are written like resource fields but describe the event
/// itself: `container.labels`, `host.uptime` and `service.state`.
pub open spec fn is_event_field_with_resource_prefix(k: Seq<char>) -> bool {
    k == "container.labels"@ || k == "host.uptime"@ || k == "service.state"@
}

/// `container.labels`, `host.uptime` and `service.state` stay with the
/// attributes: splitting fields never puts them among the resource fields,
/// and the attributes keep their value.
pub proof fn law_event_fields_stay_attributes(l: Fields, e: Seq<char>)
    requires
        unique_keys(l),
        is_event_field_with_resource_prefix(e),
    ensures
        lookup(split_resource(l).0, e) is None,
        lookup(split_resource(l).1, e) == lookup(l, e),
        unique_keys(split_resource(l).0),
        unique_keys(split_resource(l).1),
    decreases l.len(),
{
    assert(resource_exceptions_spec()[0] == "container.labels"@);
    assert(resource_exceptions_spec()[1] == "host.uptime"@);
    assert(resource_exceptions_spec()[2] == "service.state"@);
    assert(resource_exceptions_spec().contains(e));
    assert(!is_resource_key(e));
    if l.len() == 0 {
        assert(!has_key(Seq::<(Seq<char>, Seq<char>)>::empty(), e));
    } else {
        let d = l.drop_last();
        let p = l.last();
        assert(d.push(p) =~= l);
        lemma_lookup_push(d, p, e);
        law_event_fields_stay_attributes(d, e);
        let (r, a) = split_resource(d);
        if is_resource_key(p.0) {
            assert(p.0 != e);
            lemma_insert_unique(r, p.0, p.1);
            lemma_insert_other(r, p.0, p.1, e);
        } else {
            lemma_insert_unique(a, p.0, p.1);
            if p.0 == e {
            } else {
                lemma_insert_other(a, p.0, p.1, e);
            }
        }
    }
}

/// A parsed record never has `container.labels`, `host.uptime` or
/// `service.state` among its resource fields.
pub proof fn law_record_resource_holds_no_event_field<F: Fn(&str) -> Option<i128>>(
    l0: Fields,
    f: F,
    e: Seq<char>,
)
    requires
        unique_keys(l0),
        is_event_field_with_resource_prefix(e),
    ensures
        parse_flattened_spec(l0, f) matches Some((_k, rec)) ==> lookup(rec.resource, e) is None,
{
    let (trace_id, l1) = take_either(l0, "trace_id"@, "trace.id"@);
    if lookup(l0, "trace_id"@) is Some {
        lemma_remove_unique(l0, "trace_id"@);
    } else {
        lemma_remove_unique(l0, "trace.id"@);
    }
    let (span_id, l2) = take_either(l1, "span_id"@, "span.id"@);
    if lookup(l1, "span_id"@) is Some {
        lemma_remove_unique(l1, "span_id"@);
    } else {
        lemma_remove_unique(l1, "span.id"@);
    }
    lemma_find_timestamp_unique(l2, timestamp_fields_spec(), 0, f);
    let l3 = find_timestamp_spec(l2, timestamp_fields_spec(), 0, f).1;
    lemma_find_body_unique(l3, body_fields_spec(), 0);
    let l4 = find_body_spec(l3, body_fields_spec(), 0).1;
    law_event_fields_stay_attributes(l4, e);
}

/// A log line is filed under its own timestamp: its record ends the group
/// of that timestamp, right after the lines without a timestamp that came
/// before it, and nothing stays pending.
pub proof fn law_log_line_filed_under_its_timestamp<F: Fn(&str) -> Option<i128>>(
    st: LogsState,
    raw: Seq<char>,
    f: F,
    key: Seq<char>,
    rec: LogRecordView,
)
    requires
        unique_keys(st.logs),
        trim_spec(raw).len() != 0,
        parse_log_spec(trim_spec(raw), f) == Some((key, rec)),
    ensures
        group_of(line_step(st, raw, f).logs, key) == (plain_records(rec.timestamp, st.pending)
            + group_of(st.logs, key)).push(rec),
        line_step(st, raw, f).pending.len() == 0,
        line_step(st, raw, f).recent == Some((key, rec.timestamp)),
        unique_keys(line_step(st, raw, f).logs),
{
    lemma_insert_unique(
        st.logs,
        key,
        (plain_records(rec.timestamp, st.pending) + group_of(st.logs, key)).push(rec),
    );
}

/// A line without a timestamp after one that had a timestamp is stored
/// once: at the end of the group of the most recent timestamp, stamped with
/// that timestamp, and nothing new is left pending.
pub proof fn law_plain_line_follows_recent<F: Fn(&str) -> Option<i128>>(
    st: LogsState,
    raw: Seq<char>,
    f: F,
    key: Seq<char>,
    ts: int,
)
    requires
        unique_keys(st.logs),
        trim_spec(raw).len() != 0,
        parse_log_spec(trim_spec(raw), f) is None,
        st.recent == Some((key, ts)),
    ensures
        line_step(st, raw, f).pending == st.pending,
        group_of(line_step(st, raw, f).logs, key) == group_of(st.logs, key).push(
            plain_record(ts, trim_spec(raw)),
        ),
        forall|k: Seq<char>| k != key ==> group_of(line_step(st, raw, f).logs, k) == group_of(st.logs, k),
        unique_keys(line_step(st, raw, f).logs),
{
    let v = group_of(st.logs, key).push(plain_record(ts, trim_spec(raw)));
    lemma_insert_unique(st.logs, key, v);
    assert forall|k: Seq<char>| k != key implies group_of(line_step(st, raw, f).logs, k) == group_of(
        st.logs,
        k,
    ) by {
        lemma_insert_other(st.logs, key, v, k);
    }
}

/// A line without a timestamp before any line that had one is kept
/// pending, and no group changes.
pub proof fn law_plain_line_waits<F: Fn(&str) -> Option<i128>>(st: LogsState, raw: Seq<char>, f: F)
    requires
        trim_spec(raw).len() != 0,
        parse_log_spec(trim_spec(raw), f) is None,
        st.recent is None,
    ensures
        line_step(st, raw, f).pending == st.pending.push(trim_spec(raw)),
        line_step(st, raw, f).logs == st.logs,
{
}

/// The trimmed, non-blank lines among the first `n`.
pub open spec fn non_blank_lines(ls: Seq<Seq<char>>, n: nat) -> Seq<Seq<char>>
    decreases n,
{
    if n == 0 || n > ls.len() {
        Seq::empty()
    } else if trim_spec(ls[n - 1]).len() == 0 {
        non_blank_lines(ls, (n - 1) as nat)
    } else {
        non_blank_lines(ls, (n - 1) as nat).push(trim_spec(ls[n - 1]))
    }
}

/// Output without any log line gives a single group, under the current
/// time, holding every non-blank line in order.
pub proof fn law_no_timestamps_one_group<F: Fn(&str) -> Option<i128>>(
    output: Seq<char>,
    now: Timestamp,
    f: F,
    key: Seq<char>,
)
    requires
        forall|i: int|
            0 <= i < lines_spec(output).len() ==> parse_log_spec(
                trim_spec(#[trigger] lines_spec(output)[i]),
                f,
            ) is None,
        rfc3339_format_result(now) == Some(key),
        non_blank_lines(lines_spec(output), lines_spec(output).len()).len() > 0,
    ensures
        parse_logs_spec(output, now, f) == seq![
            (
                key,
                plain_records(
                    unix_seconds(now),
                    non_blank_lines(lines_spec(output), lines_spec(output).len()),
                ),
            ),
        ],
{
    let ls = lines_spec(output);
    lemma_no_timestamps_state(ls, ls.len(), f);
    let st = lines_state(ls, ls.len(), f);
    assert(group_of(st.logs, key) =~= Seq::<LogRecordView>::empty());
    assert(!has_key(st.logs, key));
    assert(plain_records(unix_seconds(now), st.pending) =~= Seq::<LogRecordView>::empty() + plain_records(unix_seconds(now), st.pending));
}

proof fn lemma_no_timestamps_state<F: Fn(&str) -> Option<i128>>(ls: Seq<Seq<char>>, n: nat, f: F)
    requires
        n <= ls.len(),
        forall|i: int| 0 <= i < ls.len() ==> parse_log_spec(trim_spec(#[trigger] ls[i]), f) is None,
    ensures
        lines_state(ls, n, f).logs == Seq::<(Seq<char>, Seq<LogRecordView>)>::empty(),
        lines_state(ls, n, f).recent is None,
        lines_state(ls, n, f).pending == non_blank_lines(ls, n),
    decreases n,
{
    if n > 0 {
        lemma_no_timestamps_state(ls, (n - 1) as nat, f);
        assert(parse_log_spec(trim_spec(ls[n - 1]), f) is None);
    }
}

/// The number of records over all groups.
pub open spec fn total_records(logs: Groups) -> nat
    decreases logs.len(),
{
    if logs.len() == 0 {
        0
    } else {
        total_records(logs.drop_last()) + logs.last().1.len()
    }
}

proof fn lemma_total_update(logs: Groups, i: int, x: (Seq<char>, Seq<LogRecordView>))
    requires
        0 <= i < logs.len(),
    ensures
        total_records(logs.update(i, x)) + logs[i].1.len() == total_records(logs) + x.1.len(),
    decreases logs.len(),
{
    let u = logs.update(i, x);
    if i == logs.len() - 1 {
        assert(u.drop_last() =~= logs.drop_last());
    } else {
        assert(u.drop_last() =~= logs.drop_last().update(i, x));
        lemma_total_update(logs.drop_last(), i, x);
    }
}

proof fn lemma_total_insert(logs: Groups, key: Seq<char>, v: Seq<LogRecordView>)
    requires
        unique_keys(logs),
    ensures
        total_records(insert_spec(logs, key, v)) + group_of(logs, key).len() == total_records(logs)
            + v.len(),
{
    if has_key(logs, key) {
        lemma_total_update(logs, key_index(logs, key), (key, v));
    } else {
        assert(insert_spec(logs, key, v).drop_last() =~= logs);
    }
}

proof fn lemma_grouped_count<F: Fn(&str) -> Option<i128>>(ls: Seq<Seq<char>>, n: nat, f: F)
    requires
        n <= ls.len(),
    ensures
        unique_keys(lines_state(ls, n, f).logs),
        total_records(lines_state(ls, n, f).logs) + lines_state(ls, n, f).pending.len()
            == non_blank_lines(ls, n).len(),
        lines_state(ls, n, f).recent is Some ==> lines_state(ls, n, f).pending.len() == 0,
    decreases n,
{
    if n > 0 {
        lemma_grouped_count(ls, (n - 1) as nat, f);
        let st = lines_state(ls, (n - 1) as nat, f);
        let line = trim_spec(ls[n - 1]);
        if line.len() != 0 {
            match parse_log_spec(line, f) {
                Some((key, rec)) => {
                    let v = (plain_records(rec.timestamp, st.pending) + group_of(st.logs, key)).push(rec);
                    lemma_insert_unique(st.logs, key, v);
                    lemma_total_insert(st.logs, key, v);
                },
                None => match st.recent {
                    Some((k, ts)) => {
                        let v = group_of(st.logs, k).push(plain_record(ts, line));
                        lemma_insert_unique(st.logs, k, v);
                        lemma_total_insert(st.logs, k, v);
                    },
                    None => {},
                },
            }
        }
    }
}

/// Each non-blank line of the output is stored exactly once: the groups
/// hold as many records as there are non-blank lines (when the current
/// time can be written in RFC 3339, which lines without a timestamp are
/// grouped under).
pub proof fn law_each_line_stored_once<F: Fn(&str) -> Option<i128>>(
    output: Seq<char>,
    now: Timestamp,
    f: F,
)
    requires
        rfc3339_format_result(now) is Some,
    ensures
        total_records(parse_logs_spec(output, now, f)) == non_blank_lines(
            lines_spec(output),
            lines_spec(output).len(),
        ).len(),
{
    let ls = lines_spec(output);
    lemma_grouped_count(ls, ls.len(), f);
    let st = lines_state(ls, ls.len(), f);
    if st.pending.len() > 0 {
        let k = rfc3339_format_result(now)->0;
        lemma_total_insert(st.logs, k, group_of(st.logs, k) + plain_records(unix_seconds(now), st.pending));
    }
}

/// Lines still pending at the end go, in order, at the end of the group of
/// the current time.
pub proof fn law_pending_lines_stamped_now(st: LogsState, now: Timestamp, key: Seq<char>)
    requires
        unique_keys(st.logs),
        st.pending.len() > 0,
        rfc3339_format_result(now) == Some(key),
    ensures
        group_of(finish_spec(st, now), key) == group_of(st.logs, key) + plain_records(
            unix_seconds(now),
            st.pending,
        ),
        unique_keys(finish_spec(st, now)),
{
    lemma_insert_unique(
        st.logs,
        key,
        group_of(st.logs, key) + plain_records(unix_seconds(now), st.pending),
    );
}

} // verus!
