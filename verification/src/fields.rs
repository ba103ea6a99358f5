//! Flat field maps: string keys to string values, as association lists
//! without repeated keys, and the flattening of nested JSON into them.
use vstd::prelude::*;
use crate::text::{chars_eq, chars_of, extend_chars, string_of};
use serde_json::Value;

verus! {

/// An association list: pairs of key and value.
pub type Fields = Seq<(Seq<char>, Seq<char>)>;

/// No key occurs twice.
pub open spec fn unique_keys<V>(l: Seq<(Seq<char>, V)>) -> bool {
    forall|i: int, j: int| 0 <= i < l.len() && 0 <= j < l.len() && i != j ==> l[i].0 != l[j].0
}

/// Whether `k` is a key of `l`.
pub open spec fn has_key<V>(l: Seq<(Seq<char>, V)>, k: Seq<char>) -> bool {
    exists|i: int| 0 <= i < l.len() && l[i].0 == k
}

/// The index of key `k` in `l` (meaningful when `has_key(l, k)`).
pub open spec fn key_index<V>(l: Seq<(Seq<char>, V)>, k: Seq<char>) -> int {
    choose|i: int| 0 <= i < l.len() && l[i].0 == k
}

/// The value of key `k`, if any.
pub open spec fn lookup<V>(l: Seq<(Seq<char>, V)>, k: Seq<char>) -> Option<V> {
    if has_key(l, k) {
        Some(l[key_index(l, k)].1)
    } else {
        None
    }
}

/// `l` with `k` set to `v`: an existing entry is replaced in place, a new
/// one goes at the end.
pub open spec fn insert_spec<V>(l: Seq<(Seq<char>, V)>, k: Seq<char>, v: V) -> Seq<(Seq<char>, V)> {
    if has_key(l, k) {
        l.update(key_index(l, k), (k, v))
    } else {
        l.push((k, v))
    }
}

/// `l` without key `k`.
pub open spec fn remove_spec<V>(l: Seq<(Seq<char>, V)>, k: Seq<char>) -> Seq<(Seq<char>, V)> {
    if has_key(l, k) {
        l.remove(key_index(l, k))
    } else {
        l
    }
}

pub proof fn lemma_key_index<V>(l: Seq<(Seq<char>, V)>, k: Seq<char>, i: int)
    requires
        unique_keys(l),
        0 <= i < l.len(),
        l[i].0 == k,
    ensures
        has_key(l, k),
        key_index(l, k) == i,
{
    assert(has_key(l, k));
    let j = key_index(l, k);
    assert(l[j].0 == k);
}

pub proof fn lemma_insert_unique<V>(l: Seq<(Seq<char>, V)>, k: Seq<char>, v: V)
    requires
        unique_keys(l),
    ensures
        unique_keys(insert_spec(l, k, v)),
        lookup(insert_spec(l, k, v), k) == Some(v),
{
    let r = insert_spec(l, k, v);
    if has_key(l, k) {
        let idx = key_index(l, k);
        assert(unique_keys(r));
        lemma_key_index(r, k, idx);
    } else {
        assert(unique_keys(r));
        lemma_key_index(r, k, l.len() as int);
    }
}

/// Setting one key leaves the value of every other key as it was.
pub proof fn lemma_insert_other<V>(l: Seq<(Seq<char>, V)>, k: Seq<char>, v: V, k2: Seq<char>)
    requires
        unique_keys(l),
        k2 != k,
    ensures
        lookup(insert_spec(l, k, v), k2) == lookup(l, k2),
{
    lemma_insert_unique(l, k, v);
    let r = insert_spec(l, k, v);
    if has_key(l, k2) {
        let i2 = key_index(l, k2);
        assert(r[i2] == l[i2]);
        lemma_key_index(r, k2, i2);
    } else if has_key(r, k2) {
        let i = key_index(r, k2);
        assert(r[i].0 == k2);
        if has_key(l, k) {
            assert(i != key_index(l, k));
        } else {
            assert(i != l.len());
        }
        assert(r[i] == l[i]);
    }
}

/// Removing one key leaves the value of every other key as it was.
pub proof fn lemma_remove_other<V>(l: Seq<(Seq<char>, V)>, k: Seq<char>, k2: Seq<char>)
    requires
        unique_keys(l),
        k2 != k,
    ensures
        lookup(remove_spec(l, k), k2) == lookup(l, k2),
        unique_keys(remove_spec(l, k)),
{
    lemma_remove_unique(l, k);
    let r = remove_spec(l, k);
    if has_key(l, k) {
        let idx = key_index(l, k);
        if has_key(l, k2) {
            let i2 = key_index(l, k2);
            assert(i2 != idx);
            let j = if i2 < idx {
                i2
            } else {
                i2 - 1
            };
            assert(r[j] == l[i2]);
            lemma_key_index(r, k2, j);
        } else if has_key(r, k2) {
            let j = key_index(r, k2);
            let i2 = if j < idx {
                j
            } else {
                j + 1
            };
            assert(r[j] == l[i2]);
        }
    }
}

/// The value of a key in a list with one more entry at the end.
pub proof fn lemma_lookup_push<V>(l: Seq<(Seq<char>, V)>, p: (Seq<char>, V), k: Seq<char>)
    requires
        unique_keys(l.push(p)),
    ensures
        lookup(l.push(p), k) == if p.0 == k {
            Some(p.1)
        } else {
            lookup(l, k)
        },
        unique_keys(l),
{
    let q = l.push(p);
    assert(unique_keys(l)) by {
        assert forall|i: int, j: int| 0 <= i < l.len() && 0 <= j < l.len() && i != j implies l[i].0
            != l[j].0 by {
            assert(q[i] == l[i] && q[j] == l[j]);
        }
    }
    if p.0 == k {
        lemma_key_index(q, k, l.len() as int);
    } else if has_key(l, k) {
        let i = key_index(l, k);
        assert(q[i] == l[i]);
        lemma_key_index(q, k, i);
    } else if has_key(q, k) {
        let j = key_index(q, k);
        if j < l.len() {
            assert(q[j] == l[j]);
        }
    }
}

pub proof fn lemma_remove_unique<V>(l: Seq<(Seq<char>, V)>, k: Seq<char>)
    requires
        unique_keys(l),
    ensures
        unique_keys(remove_spec(l, k)),
        !has_key(remove_spec(l, k), k),
{
    let r = remove_spec(l, k);
    if has_key(l, k) {
        let idx = key_index(l, k);
        assert forall|i: int, j: int|
            0 <= i < r.len() && 0 <= j < r.len() && i != j implies r[i].0 != r[j].0 by {
            let i2 = if i < idx {
                i
            } else {
                i + 1
            };
            let j2 = if j < idx {
                j
            } else {
                j + 1
            };
            assert(r[i] == l[i2]);
            assert(r[j] == l[j2]);
        }
        if has_key(r, k) {
            let i = key_index(r, k);
            let i2 = if i < idx {
                i
            } else {
                i + 1
            };
            assert(r[i] == l[i2]);
        }
    }
}

/// A map from strings to strings, kept as a list of entries with distinct
/// keys.
pub struct FieldMap {
    entries: Vec<(String, String)>,
}

/// The view of a list of string pairs.
pub open spec fn pairs_view(v: Seq<(String, String)>) -> Fields {
    v.map_values(|p: (String, String)| (p.0@, p.1@))
}

impl View for FieldMap {
    type V = Fields;

    closed spec fn view(&self) -> Fields {
        pairs_view(self.entries@)
    }
}

impl FieldMap {
    /// No key occurs twice.
    pub open spec fn wf(&self) -> bool {
        unique_keys(self@)
    }

    /// The empty map.
    pub fn new() -> (r: Self)
        ensures
            r@ == Seq::<(Seq<char>, Seq<char>)>::empty(),
            r.wf(),
    {
        let r = FieldMap { entries: Vec::new() };
        assert(r@ =~= Seq::<(Seq<char>, Seq<char>)>::empty());
        r
    }

    /// The number of entries.
    pub fn len(&self) -> (r: usize)
        ensures
            r == self@.len(),
    {
        self.entries.len()
    }

    /// The index of `key`, if present.
    fn find(&self, key: &str) -> (r: Option<usize>)
        requires
            self.wf(),
        ensures
            match r {
                Some(i) => has_key(self@, key@) && key_index(self@, key@) == i,
                None => !has_key(self@, key@),
            },
    {
        let kc = chars_of(key);
        let mut i: usize = 0;
        while i < self.entries.len()
            invariant
                i <= self@.len(),
                self@.len() == self.entries@.len(),
                kc@ == key@,
                unique_keys(self@),
                forall|j: int| 0 <= j < i ==> self@[j].0 != key@,
            decreases self@.len() - i,
        {
            let ec = chars_of(self.entries[i].0.as_str());
            if chars_eq(ec.as_slice(), kc.as_slice()) {
                proof {
                    lemma_key_index(self@, key@, i as int);
                }
                return Some(i);
            }
            i = i + 1;
        }
        None
    }

    /// The value of `key`, if present.
    pub fn get(&self, key: &str) -> (r: Option<String>)
        requires
            self.wf(),
        ensures
            match r {
                Some(v) => lookup(self@, key@) == Some(v@),
                None => lookup(self@, key@) is None,
            },
    {
        match self.find(key) {
            Some(i) => Some(self.entries[i].1.clone()),
            None => None,
        }
    }

    /// Sets `key` to `value`.
    pub fn insert(&mut self, key: String, value: String)
        requires
            old(self).wf(),
        ensures
            final(self)@ == insert_spec(old(self)@, key@, value@),
            final(self).wf(),
    {
        proof {
            lemma_insert_unique(self@, key@, value@);
        }
        match self.find(key.as_str()) {
            Some(i) => {
                self.entries.set(i, (key, value));
                assert(self@ =~= insert_spec(old(self)@, key@, value@));
            },
            None => {
                self.entries.push((key, value));
                assert(self@ =~= insert_spec(old(self)@, key@, value@));
            },
        }
    }

    /// Removes `key` and returns its value, if present.
    pub fn remove(&mut self, key: &str) -> (r: Option<String>)
        requires
            old(self).wf(),
        ensures
            final(self)@ == remove_spec(old(self)@, key@),
            final(self).wf(),
            match r {
                Some(v) => lookup(old(self)@, key@) == Some(v@),
                None => lookup(old(self)@, key@) is None,
            },
    {
        proof {
            lemma_remove_unique(self@, key@);
        }
        match self.find(key) {
            Some(i) => {
                let (_, v) = self.entries.remove(i);
                assert(self@ =~= remove_spec(old(self)@, key@));
                Some(v)
            },
            None => None,
        }
    }

    /// The entry at `i`.
    pub fn entry(&self, i: usize) -> (r: (String, String))
        requires
            i < self@.len(),
        ensures
            r.0@ == self@[i as int].0,
            r.1@ == self@[i as int].1,
    {
        let (k, v) = &self.entries[i];
        (k.clone(), v.clone())
    }
}

// ---------------------------------------------------------------------------
// JSON
// ---------------------------------------------------------------------------

/// One level of a parsed JSON value; nested values are kept as their
/// compact JSON text.
#[derive(Debug)]
pub enum JsonNode {
    Null,
    Bool(bool),
    /// A number, as `serde_json::Number` displays it.
    Number(String),
    Str(String),
    /// The elements, each as JSON text.
    Array(Vec<String>),
    /// The members, each value as JSON text, in the map's key order.
    Object(Vec<(String, String)>),
}

/// The model of a `JsonNode`.
pub enum JsonNodeView {
    Null,
    Bool(bool),
    Number(Seq<char>),
    Str(Seq<char>),
    Array(Seq<Seq<char>>),
    Object(Fields),
}

impl View for JsonNode {
    type V = JsonNodeView;

    open spec fn view(&self) -> JsonNodeView {
        match self {
            JsonNode::Null => JsonNodeView::Null,
            JsonNode::Bool(b) => JsonNodeView::Bool(*b),
            JsonNode::Number(n) => JsonNodeView::Number(n@),
            JsonNode::Str(s) => JsonNodeView::Str(s@),
            JsonNode::Array(a) => JsonNodeView::Array(a@.map_values(|s: String| s@)),
            JsonNode::Object(o) => JsonNodeView::Object(pairs_view(o@)),
        }
    }
}

/// What `serde_json::from_str::<serde_json::Value>` gives for a text, one
/// level deep, or `None` when the text is not JSON.
pub uninterp spec fn json_node_result(text: Seq<char>) -> Option<JsonNodeView>;

/// Calls `serde_json::from_str::<serde_json::Value>` and converts the top
/// level of the value: nested values are turned back into compact JSON
/// text with `Value::to_string`, numbers are displayed. The result is named
/// by `json_node_result`; serde_json's parser decides it and this contract
/// states nothing more of it.
#[verifier::external_body]
pub(crate) fn json_node(text: &str) -> (r: Option<JsonNode>)
    ensures
        r is Some <==> json_node_result(text@) is Some,
        r is Some ==> json_node_result(text@) == Some(r->0@),
{
    match serde_json::from_str::<Value>(text).ok()? {
        Value::Null => Some(JsonNode::Null),
        Value::Bool(b) => Some(JsonNode::Bool(b)),
        Value::Number(n) => Some(JsonNode::Number(n.to_string())),
        Value::String(s) => Some(JsonNode::Str(s)),
        Value::Array(a) => Some(JsonNode::Array(a.iter().map(|v| v.to_string()).collect())),
        Value::Object(o) => Some(JsonNode::Object(o.iter().map(|(k, v)| (k.clone(), v.to_string())).collect())),
    }
}

/// The decimal digits of `n`, as `usize`'s `Display` writes them.
pub open spec fn decimal(n: nat) -> Seq<char>
    decreases n,
{
    if n < 10 {
        seq![digit_char(n)]
    } else {
        decimal(n / 10).push(digit_char(n % 10))
    }
}

/// The digit for `d < 10`.
pub open spec fn digit_char(d: nat) -> char {
    if d == 0 { '0' }
    else if d == 1 { '1' }
    else if d == 2 { '2' }
    else if d == 3 { '3' }
    else if d == 4 { '4' }
    else if d == 5 { '5' }
    else if d == 6 { '6' }
    else if d == 7 { '7' }
    else if d == 8 { '8' }
    else { '9' }
}

fn digit_char_exec(d: usize) -> (c: char)
    requires
        d < 10,
    ensures
        c == digit_char(d as nat),
{
    if d == 0 { '0' }
    else if d == 1 { '1' }
    else if d == 2 { '2' }
    else if d == 3 { '3' }
    else if d == 4 { '4' }
    else if d == 5 { '5' }
    else if d == 6 { '6' }
    else if d == 7 { '7' }
    else if d == 8 { '8' }
    else { '9' }
}

/// The decimal digits of `n`.
pub fn decimal_chars(n: usize) -> (r: Vec<char>)
    ensures
        r@ == decimal(n as nat),
    decreases n,
{
    if n < 10 {
        let mut v: Vec<char> = Vec::new();
        v.push(digit_char_exec(n));
        assert(v@ =~= decimal(n as nat));
        v
    } else {
        let mut v = decimal_chars(n / 10);
        v.push(digit_char_exec(n % 10));
        v
    }
}

/// The text a flattened value is stored as.
pub open spec fn scalar_text(node: JsonNodeView) -> Option<Seq<char>> {
    match node {
        JsonNodeView::Null => Some(Seq::empty()),
        JsonNodeView::Bool(b) => Some(
            if b {
                "true"@
            } else {
                "false"@
            },
        ),
        JsonNodeView::Number(n) => Some(n),
        JsonNodeView::Str(s) => Some(s),
        _ => None,
    }
}

/// Flattens the JSON text `text` found under `key` into `m`: members of
/// objects go under `key.member`, elements of arrays under `key[index]`,
/// and other values are stored as text (null as the empty string). The
/// `depth` bounds the nesting, as serde_json's own recursion limit does.
pub open spec fn flatten_spec(m: Fields, key: Seq<char>, text: Seq<char>, depth: nat) -> Fields
    decreases depth, 0nat, 0nat,
{
    if depth == 0 {
        m
    } else {
        match json_node_result(text) {
            None => m,
            Some(node) => match node {
                JsonNodeView::Object(members) => flatten_members(m, key, members, (depth - 1) as nat, 0),
                JsonNodeView::Array(items) => flatten_items(m, key, items, (depth - 1) as nat, 0),
                _ => insert_spec(m, key, scalar_text(node).unwrap()),
            },
        }
    }
}

/// Flattens the members of an object from index `i` on.
pub open spec fn flatten_members(m: Fields, key: Seq<char>, members: Fields, depth: nat, i: nat) -> Fields
    decreases depth, 1nat, members.len() - i,
{
    if i >= members.len() {
        m
    } else {
        let m1 = flatten_spec(m, key + seq!['.'] + members[i as int].0, members[i as int].1, depth);
        flatten_members(m1, key, members, depth, i + 1)
    }
}

/// Flattens the elements of an array from index `i` on.
pub open spec fn flatten_items(m: Fields, key: Seq<char>, items: Seq<Seq<char>>, depth: nat, i: nat) -> Fields
    decreases depth, 1nat, items.len() - i,
{
    if i >= items.len() {
        m
    } else {
        let m1 = flatten_spec(m, key + seq!['['] + decimal(i) + seq![']'], items[i as int], depth);
        flatten_items(m1, key, items, depth, i + 1)
    }
}

/// Flattens the JSON text `text` found under `key` into `out`.
pub fn flatten_nested_value(out: &mut FieldMap, key: Vec<char>, text: &str, depth: usize)
    requires
        old(out).wf(),
    ensures
        final(out).wf(),
        final(out)@ == flatten_spec(old(out)@, key@, text@, depth as nat),
    decreases depth, 0nat, 0nat,
{
    if depth == 0 {
        return;
    }
    match json_node(text) {
        None => {},
        Some(node) => match node {
            JsonNode::Object(members) => {
                let ghost mv = pairs_view(members@);
                let mut i: usize = 0;
                while i < members.len()
                    invariant
                        out.wf(),
                        depth > 0,
                        i <= members@.len(),
                        mv == pairs_view(members@),
                        mv.len() == members@.len(),
                        flatten_spec(old(out)@, key@, text@, depth as nat) == flatten_members(out@, key@, mv, (depth - 1) as nat, i as nat),
                    decreases members@.len() - i,
                {
                    let mut k = key.clone();
                    k.push('.');
                    let mc = chars_of(members[i].0.as_str());
                    extend_chars(&mut k, mc.as_slice());
                    proof {
                        assert(k@ =~= key@ + seq!['.'] + mv[i as int].0);
                    }
                    flatten_nested_value(out, k, members[i].1.as_str(), depth - 1);
                    i = i + 1;
                }
            },
            JsonNode::Array(items) => {
                let ghost iv = items@.map_values(|s: String| s@);
                let mut i: usize = 0;
                while i < items.len()
                    invariant
                        out.wf(),
                        depth > 0,
                        i <= items@.len(),
                        iv == items@.map_values(|s: String| s@),
                        flatten_spec(old(out)@, key@, text@, depth as nat) == flatten_items(out@, key@, iv, (depth - 1) as nat, i as nat),
                    decreases items@.len() - i,
                {
                    let mut k = key.clone();
                    k.push('[');
                    let d = decimal_chars(i);
                    extend_chars(&mut k, d.as_slice());
                    k.push(']');
                    proof {
                        assert(k@ =~= key@ + seq!['['] + decimal(i as nat) + seq![']']);
                    }
                    flatten_nested_value(out, k, items[i].as_str(), depth - 1);
                    i = i + 1;
                }
            },
            JsonNode::Str(s) => {
                out.insert(string_of(key.as_slice()), s);
            },
            JsonNode::Number(n) => {
                out.insert(string_of(key.as_slice()), n);
            },
            JsonNode::Bool(b) => {
                let v = if b {
                    String::from_str("true")
                } else {
                    String::from_str("false")
                };
                out.insert(string_of(key.as_slice()), v);
            },
            JsonNode::Null => {
                out.insert(string_of(key.as_slice()), String::new());
            },
        },
    }
}

} // verus!
