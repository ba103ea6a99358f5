//! Templates: how their parameters are listed, where a converted
//! notebook's images point, and how the arguments of a template expansion
//! are read from the command line.
use crate::fields::{has_key, insert_spec, lookup, unique_keys, FieldMap, Fields};
use crate::text::{chars_of, extend_chars, string_of, trim, trim_spec};
use serde_json::Value;
use std::collections::HashMap;
use vstd::prelude::*;

verus! {

/// A parameter of a template, with its default value. The default of a
/// number parameter is held as the text the number is printed as, and the
/// default of an array or object parameter as its JSON text.
pub enum TemplateParameter {
    String { name: String, default_value: Option<String> },
    Number { name: String, default_text: String },
    Boolean { name: String, default_value: Option<bool> },
    Array { name: String, default_json: String },
    Object { name: String, default_json: String },
    Unknown { name: String },
}

/// The text of a boolean.
pub open spec fn bool_text(b: bool) -> Seq<char> {
    if b {
        "true"@
    } else {
        "false"@
    }
}

/// The line that describes one parameter.
pub open spec fn parameter_line(p: TemplateParameter) -> Seq<char> {
    match p {
        TemplateParameter::String { name, default_value } => name@ + ": string (default: \""@
            + match default_value {
            Some(d) => d@,
            None => Seq::empty(),
        } + "\")"@,
        TemplateParameter::Number { name, default_text } => name@ + ": number (default: "@
            + default_text@ + ")"@,
        TemplateParameter::Boolean { name, default_value } => name@ + ": boolean (default: "@
            + bool_text(
            match default_value {
                Some(b) => b,
                None => false,
            },
        ) + ")"@,
        TemplateParameter::Array { name, default_json } => name@ + ": array (default: "@
            + default_json@ + ")"@,
        TemplateParameter::Object { name, default_json } => name@ + ": object (default: "@
            + default_json@ + ")"@,
        TemplateParameter::Unknown { name } => name@ + ": (type unknown)"@,
    }
}

/// The lines of the parameters, separated by line feeds.
pub open spec fn parameter_lines(ps: Seq<TemplateParameter>) -> Seq<char>
    decreases ps.len(),
{
    if ps.len() == 0 {
        Seq::empty()
    } else if ps.len() == 1 {
        parameter_line(ps[0])
    } else {
        parameter_lines(ps.drop_last()) + seq!['\n'] + parameter_line(ps.last())
    }
}

/// The parameter list of a template as shown in its details: `(none)`
/// without parameters.
pub open spec fn format_parameters_spec(ps: Seq<TemplateParameter>) -> Seq<char> {
    if ps.len() == 0 {
        "(none)"@
    } else {
        parameter_lines(ps)
    }
}

/// A boolean parameter is listed with its own default value: `true` or
/// `false` as the parameter says, and `false` when it has none.
pub proof fn law_boolean_default_is_shown(name: String, default_value: Option<bool>)
    ensures
        format_parameters_spec(seq![TemplateParameter::Boolean { name, default_value }]) == name@
            + ": boolean (default: "@ + (if default_value == Some(true) {
            "true"@
        } else {
            "false"@
        }) + ")"@,
{
}

/// Appends the characters of `s`.
fn push_str(out: &mut Vec<char>, s: &str)
    ensures
        final(out)@ == old(out)@ + s@,
{
    extend_chars(out, &chars_of(s));
}

/// Appends the line of one parameter.
fn push_parameter(out: &mut Vec<char>, p: &TemplateParameter)
    ensures
        final(out)@ == old(out)@ + parameter_line(*p),
{
    match p {
        TemplateParameter::String { name, default_value } => {
            push_str(out, name.as_str());
            push_str(out, ": string (default: \"");
            match default_value {
                Some(d) => push_str(out, d.as_str()),
                None => {},
            }
            push_str(out, "\")");
        },
        TemplateParameter::Number { name, default_text } => {
            push_str(out, name.as_str());
            push_str(out, ": number (default: ");
            push_str(out, default_text.as_str());
            push_str(out, ")");
        },
        TemplateParameter::Boolean { name, default_value } => {
            push_str(out, name.as_str());
            push_str(out, ": boolean (default: ");
            let b = match default_value {
                Some(b) => *b,
                None => false,
            };
            if b {
                push_str(out, "true");
            } else {
                push_str(out, "false");
            }
            push_str(out, ")");
        },
        TemplateParameter::Array { name, default_json } => {
            push_str(out, name.as_str());
            push_str(out, ": array (default: ");
            push_str(out, default_json.as_str());
            push_str(out, ")");
        },
        TemplateParameter::Object { name, default_json } => {
            push_str(out, name.as_str());
            push_str(out, ": object (default: ");
            push_str(out, default_json.as_str());
            push_str(out, ")");
        },
        TemplateParameter::Unknown { name } => {
            push_str(out, name.as_str());
            push_str(out, ": (type unknown)");
        },
    }
}

/// Lists the parameters of a template, one line each: name, type and
/// default value.
pub fn format_template_parameters(parameters: &Vec<TemplateParameter>) -> (r: String)
    ensures
        r@ == format_parameters_spec(parameters@),
{
    if parameters.len() == 0 {
        return String::from_str("(none)");
    }
    let mut out: Vec<char> = Vec::new();
    let mut i: usize = 0;
    while i < parameters.len()
        invariant
            i <= parameters@.len(),
            out@ == parameter_lines(parameters@.subrange(0, i as int)),
        decreases parameters@.len() - i,
    {
        let ghost before = out@;
        if i > 0 {
            out.push('\n');
        }
        push_parameter(&mut out, &parameters[i]);
        proof {
            let sub = parameters@.subrange(0, i + 1);
            assert(sub.drop_last() =~= parameters@.subrange(0, i as int));
            assert(sub.last() == parameters@[i as int]);
            if i == 0 {
                assert(out@ =~= parameter_lines(sub));
            } else {
                assert(out@ =~= parameter_lines(sub));
            }
        }
        i = i + 1;
    }
    assert(parameters@.subrange(0, parameters@.len() as int) =~= parameters@);
    string_of(&out)
}

/// The address of a file uploaded to a notebook.
pub open spec fn file_url_spec(base_url: Seq<char>, notebook_id: Seq<char>, file_id: Seq<char>) -> Seq<
    char,
> {
    base_url + "api/notebooks/"@ + notebook_id + "/files/"@ + file_id
}

/// The URL and file id of an image cell of a notebook turned into a
/// template: an image that was uploaded to the notebook (a file id and no
/// URL) gets the URL of the uploaded file and loses its file id, so that
/// the template loads it from there; other images stay as they are.
pub fn template_image(
    url: Option<String>,
    file_id: Option<String>,
    base_url: &str,
    notebook_id: &str,
) -> (r: (Option<String>, Option<String>))
    ensures
        match (url, file_id) {
            (None, Some(f)) => r.1 is None && (r.0 matches Some(u) && u@ == file_url_spec(
                base_url@,
                notebook_id@,
                f@,
            )),
            _ => r == (url, file_id),
        },
{
    match (url, file_id) {
        (None, Some(f)) => {
            let mut out = chars_of(base_url);
            push_str(&mut out, "api/notebooks/");
            push_str(&mut out, notebook_id);
            push_str(&mut out, "/files/");
            push_str(&mut out, f.as_str());
            (Some(string_of(&out)), None)
        },
        (u, f) => (u, f),
    }
}

// ---------------------------------------------------------------------------
// Template arguments.
// ---------------------------------------------------------------------------

/// The value of a template argument: a string, or any other JSON value as
/// its compact JSON text.
pub enum TemplateArgValue {
    String(String),
    Json(String),
}

/// The model of a `TemplateArgValue`.
pub enum TemplateArgView {
    String(Seq<char>),
    Json(Seq<char>),
}

impl View for TemplateArgValue {
    type V = TemplateArgView;

    open spec fn view(&self) -> TemplateArgView {
        match self {
            TemplateArgValue::String(s) => TemplateArgView::String(s@),
            TemplateArgValue::Json(j) => TemplateArgView::Json(j@),
        }
    }
}

/// Why template arguments could not be read.
#[derive(Debug, Clone, Copy, PartialEq, Eq, Structural)]
pub enum TemplateArgumentsError {
    /// A piece between separators has neither `:` nor `=`.
    MissingDelimiter,
}

/// The model of a list of arguments.
pub open spec fn args_view(v: Seq<(String, TemplateArgValue)>) -> Seq<(Seq<char>, TemplateArgView)> {
    v.map_values(|p: (String, TemplateArgValue)| (p.0@, p.1@))
}

/// The map that a list of pairs with distinct keys stands for.
pub open spec fn args_map(l: Seq<(Seq<char>, TemplateArgView)>) -> Map<Seq<char>, TemplateArgView> {
    Map::new(|k: Seq<char>| has_key(l, k), |k: Seq<char>| lookup(l, k)->0)
}

/// What `serde_json::from_str::<HashMap<String, serde_json::Value>>` gives
/// for a text: the members of a JSON object (string values as strings,
/// other values as their compact JSON text), or `None` when the text is not
/// a JSON object.
pub uninterp spec fn json_object_result(text: Seq<char>) -> Option<Map<Seq<char>, TemplateArgView>>;

/// Calls `serde_json::from_str::<HashMap<String, serde_json::Value>>` and
/// lists the members; named by `json_object_result`. The map's keys are
/// distinct; the order of the list is the map's, which this contract
/// leaves open.
#[verifier::external_body]
fn json_object(text: &str) -> (r: Option<Vec<(String, TemplateArgValue)>>)
    ensures
        r is Some <==> json_object_result(text@) is Some,
        r matches Some(v) ==> unique_keys(args_view(v@)) && json_object_result(text@) == Some(
            args_map(args_view(v@)),
        ),
{
    let members = serde_json::from_str::<HashMap<String, Value>>(text).ok()?;
    Some(members.into_iter().map(|(k, v)| match v {
        Value::String(s) => (k, TemplateArgValue::String(s)),
        other => (k, TemplateArgValue::Json(other.to_string())),
    }).collect())
}

/// Whether `c` separates arguments.
pub open spec fn is_arg_separator(c: char) -> bool {
    c == ';' || c == ','
}

/// Whether `c` separates a key from its value.
pub open spec fn is_key_delimiter(c: char) -> bool {
    c == ':' || c == '='
}

/// The pieces of `s` between separators, empty pieces included, as
/// `str::split` with `[';', ',']` gives them.
pub open spec fn split_args(s: Seq<char>) -> Seq<Seq<char>>
    decreases s.len(),
{
    if s.len() == 0 {
        seq![Seq::<char>::empty()]
    } else if is_arg_separator(s.last()) {
        split_args(s.drop_last()).push(Seq::empty())
    } else {
        let p = split_args(s.drop_last());
        p.update(p.len() - 1, p.last().push(s.last()))
    }
}

/// `d` is the first delimiter of `t`.
pub open spec fn is_first_delimiter(t: Seq<char>, d: int) -> bool {
    &&& 0 <= d < t.len()
    &&& is_key_delimiter(t[d])
    &&& forall|j: int| 0 <= j < d ==> !is_key_delimiter(#[trigger] t[j])
}

/// The key and value of a piece: its trimmed text split at the first `:` or
/// `=`; `None` without either.
pub open spec fn key_value(piece: Seq<char>) -> Option<(Seq<char>, Seq<char>)> {
    let t = trim_spec(piece);
    if exists|d: int| is_first_delimiter(t, d) {
        let d = choose|d: int| is_first_delimiter(t, d);
        Some((t.take(d), t.skip(d + 1)))
    } else {
        None
    }
}

/// The arguments of the first `n` pieces, each key set to its last value,
/// in the order keys first occur; `None` when one piece has no delimiter.
pub open spec fn key_values(pieces: Seq<Seq<char>>, n: nat) -> Option<Fields>
    decreases n,
{
    if n == 0 || n > pieces.len() {
        Some(Seq::empty())
    } else {
        match (key_values(pieces, (n - 1) as nat), key_value(pieces[n - 1])) {
            (Some(l), Some((k, v))) => Some(insert_spec(l, k, v)),
            _ => None,
        }
    }
}

/// Arguments written as `key=value` (or `key:value`) pairs separated by
/// `,` or `;`, all values strings.
pub open spec fn pair_arguments(s: Seq<char>) -> Option<Seq<(Seq<char>, TemplateArgView)>> {
    match key_values(split_args(s), split_args(s).len()) {
        Some(l) => Some(l.map_values(|p: (Seq<char>, Seq<char>)| (p.0, TemplateArgView::String(p.1)))),
        None => None,
    }
}

proof fn lemma_first_delimiter_unique(t: Seq<char>, a: int, b: int)
    requires
        is_first_delimiter(t, a),
        is_first_delimiter(t, b),
    ensures
        a == b,
{
    if a < b {
        assert(!is_key_delimiter(t[a]));
    } else if b < a {
        assert(!is_key_delimiter(t[b]));
    }
}

fn split_args_exec(s: &[char]) -> (r: Vec<Vec<char>>)
    ensures
        r@.map_values(|v: Vec<char>| v@) == split_args(s@),
{
    let mut parts: Vec<Vec<char>> = Vec::new();
    let mut cur: Vec<char> = Vec::new();
    let mut i: usize = 0;
    assert(s@.take(0) =~= Seq::<char>::empty());
    assert(parts@.map_values(|v: Vec<char>| v@).push(cur@) =~= split_args(s@.take(0)));
    while i < s.len()
        invariant
            i <= s@.len(),
            parts@.map_values(|v: Vec<char>| v@).push(cur@) == split_args(s@.take(i as int)),
        decreases s@.len() - i,
    {
        let ghost before = parts@.map_values(|v: Vec<char>| v@).push(cur@);
        let c = s[i];
        assert(s@.take(i + 1).drop_last() =~= s@.take(i as int));
        assert(s@.take(i + 1).last() == c);
        if c == ';' || c == ',' {
            let mut done: Vec<char> = Vec::new();
            std::mem::swap(&mut done, &mut cur);
            parts.push(done);
            assert(parts@.map_values(|v: Vec<char>| v@).push(cur@) =~= before.push(Seq::empty()));
        } else {
            cur.push(c);
            assert(parts@.map_values(|v: Vec<char>| v@).push(cur@) =~= before.update(
                before.len() - 1,
                before.last().push(c),
            ));
        }
        i = i + 1;
    }
    assert(s@.take(s@.len() as int) =~= s@);
    parts.push(cur);
    parts
}

fn key_value_exec(piece: &[char]) -> (r: Option<(Vec<char>, Vec<char>)>)
    ensures
        match r {
            Some((k, v)) => key_value(piece@) == Some((k@, v@)),
            None => key_value(piece@) is None,
        },
{
    let t = trim(piece);
    let mut d: usize = 0;
    while d < t.len()
        invariant
            d <= t@.len(),
            t@ == trim_spec(piece@),
            forall|j: int| 0 <= j < d ==> !is_key_delimiter(#[trigger] t@[j]),
        decreases t@.len() - d,
    {
        if t[d] == ':' || t[d] == '=' {
            proof {
                assert(is_first_delimiter(t@, d as int));
                let c = choose|e: int| is_first_delimiter(t@, e);
                lemma_first_delimiter_unique(t@, c, d as int);
            }
            let k = crate::text::slice_chars(t.as_slice(), 0, d);
            let v = crate::text::slice_chars(t.as_slice(), d + 1, t.len());
            assert(k@ =~= t@.take(d as int));
            assert(v@ =~= t@.skip(d + 1));
            return Some((k, v));
        }
        d = d + 1;
    }
    assert forall|e: int| !is_first_delimiter(t@, e) by {
        if is_first_delimiter(t@, e) {
            assert(!is_key_delimiter(t@[e]));
        }
    }
    None
}

/// Reads the arguments of a template expansion: a JSON object, or else
/// `key=value` (or `key:value`) pairs separated by `,` or `;`, each piece
/// trimmed and split at its first `:` or `=`, all values strings and a
/// repeated key set to its last value. A piece without `:` or `=` (an
/// empty text included) is refused. The keys of the result are distinct.
pub fn parse_template_arguments(s: &str) -> (r: Result<Vec<(String, TemplateArgValue)>, TemplateArgumentsError>)
    ensures
        r matches Ok(v) ==> unique_keys(args_view(v@)),
        json_object_result(s@) matches Some(m) ==> (r matches Ok(v) && args_map(args_view(v@)) == m),
        json_object_result(s@) is None ==> match pair_arguments(s@) {
            Some(l) => r matches Ok(v) && args_view(v@) == l,
            None => r == Err::<Vec<(String, TemplateArgValue)>, TemplateArgumentsError>(
                TemplateArgumentsError::MissingDelimiter,
            ),
        },
{
    if let Some(v) = json_object(s) {
        return Ok(v);
    }
    let chars = chars_of(s);
    let pieces = split_args_exec(chars.as_slice());
    let ghost pv = pieces@.map_values(|v: Vec<char>| v@);
    let mut fields = FieldMap::new();
    let mut i: usize = 0;
    while i < pieces.len()
        invariant
            i <= pieces@.len(),
            pv == pieces@.map_values(|v: Vec<char>| v@),
            pv == split_args(s@),
            fields.wf(),
            key_values(pv, i as nat) == Some(fields@),
            json_object_result(s@) is None,
        decreases pieces@.len() - i,
    {
        assert(pv[i as int] == pieces@[i as int]@);
        match key_value_exec(pieces[i].as_slice()) {
            Some((k, v)) => {
                fields.insert(string_of(k.as_slice()), string_of(v.as_slice()));
            },
            None => {
                proof {
                    lemma_key_values_stays_none(pv, (i + 1) as nat, pv.len());
                }
                return Err(TemplateArgumentsError::MissingDelimiter);
            },
        }
        i = i + 1;
    }
    let mut out: Vec<(String, TemplateArgValue)> = Vec::new();
    let mut j: usize = 0;
    while j < fields.len()
        invariant
            j <= fields@.len(),
            fields.wf(),
            key_values(pv, pv.len()) == Some(fields@),
            pv == split_args(s@),
            args_view(out@) == fields@.take(j as int).map_values(
                |p: (Seq<char>, Seq<char>)| (p.0, TemplateArgView::String(p.1)),
            ),
        decreases fields@.len() - j,
    {
        let (k, v) = fields.entry(j);
        let ghost o0 = args_view(out@);
        let ghost kv = (k@, TemplateArgView::String(v@));
        out.push((k, TemplateArgValue::String(v)));
        proof {
            let f = |p: (Seq<char>, Seq<char>)| (p.0, TemplateArgView::String(p.1));
            assert(args_view(out@) =~= o0.push(kv));
            assert(fields@.take(j + 1) =~= fields@.take(j as int).push(fields@[j as int]));
            assert(fields@.take(j + 1).map_values(f) =~= fields@.take(j as int).map_values(f).push(
                f(fields@[j as int]),
            ));
        }
        j = j + 1;
    }
    assert(fields@.take(fields@.len() as int) =~= fields@);
    proof {
        let l = args_view(out@);
        assert forall|a: int, b: int| 0 <= a < l.len() && 0 <= b < l.len() && a != b implies l[a].0
            != l[b].0 by {
            assert(l[a].0 == fields@[a].0);
            assert(l[b].0 == fields@[b].0);
        }
    }
    Ok(out)
}

/// Once one piece has no delimiter, no longer prefix has arguments.
proof fn lemma_key_values_stays_none(pieces: Seq<Seq<char>>, n: nat, m: nat)
    requires
        0 < n <= m <= pieces.len(),
        key_value(pieces[n - 1]) is None,
    ensures
        key_values(pieces, m) is None,
    decreases m - n,
{
    if m > n {
        lemma_key_values_stays_none(pieces, n, (m - 1) as nat);
    }
}

/// The arguments of a template expansion.
pub struct TemplateArguments(pub Vec<(String, TemplateArgValue)>);

impl TemplateArguments {
    /// Reads template arguments as `parse_template_arguments` does.
    pub fn from_str(s: &str) -> (r: Result<TemplateArguments, TemplateArgumentsError>)
        ensures
            match (r, parse_template_arguments_spec(s@)) {
                (Ok(a), Some(Some(l))) => args_view(a.0@) == l,
                (Ok(a), Some(None)) => unique_keys(args_view(a.0@)) && json_object_result(s@)
                    == Some(args_map(args_view(a.0@))),
                (Err(e), None) => e == TemplateArgumentsError::MissingDelimiter,
                _ => false,
            },
    {
        match parse_template_arguments(s) {
            Ok(v) => Ok(TemplateArguments(v)),
            Err(e) => Err(e),
        }
    }
}

/// Which way `s` is read: `Some(None)` as a JSON object, `Some(Some(l))` as
/// the pairs `l`, `None` not at all.
pub open spec fn parse_template_arguments_spec(s: Seq<char>) -> Option<
    Option<Seq<(Seq<char>, TemplateArgView)>>,
> {
    if json_object_result(s) is Some {
        Some(None)
    } else {
        match pair_arguments(s) {
            Some(l) => Some(Some(l)),
            None => None,
        }
    }
}

} // verus!
