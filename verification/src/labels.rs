//! How labels are shown.
use crate::text::{chars_of, extend_chars, string_of};
use vstd::prelude::*;

verus! {

/// A label as `key` or `key=value`.
pub open spec fn label_text(key: Seq<char>, value: Option<Seq<char>>) -> Seq<char> {
    match value {
        Some(v) => key + seq!['='] + v,
        None => key,
    }
}

/// The labels, in the given order, separated by `", "`.
pub open spec fn labels_text(labels: Seq<(Seq<char>, Option<Seq<char>>)>) -> Seq<char>
    decreases labels.len(),
{
    if labels.len() == 0 {
        Seq::empty()
    } else if labels.len() == 1 {
        label_text(labels[0].0, labels[0].1)
    } else {
        labels_text(labels.drop_last()) + seq![',', ' '] + label_text(
            labels.last().0,
            labels.last().1,
        )
    }
}

/// The view of a list of labels.
pub open spec fn labels_view(labels: Seq<(String, Option<String>)>) -> Seq<(Seq<char>, Option<Seq<char>>)> {
    labels.map_values(|l: (String, Option<String>)| (l.0@, match l.1 {
        Some(v) => Some(v@),
        None => None,
    }))
}

/// Shows labels as `key=value` (or `key` for a label without value),
/// separated by `", "`, in the order given.
pub fn print_labels(labels: &Vec<(String, Option<String>)>) -> (r: String)
    ensures
        r@ == labels_text(labels_view(labels@)),
{
    let ghost lv = labels_view(labels@);
    let mut out: Vec<char> = Vec::new();
    let mut i: usize = 0;
    while i < labels.len()
        invariant
            i <= labels@.len(),
            lv == labels_view(labels@),
            out@ == labels_text(lv.subrange(0, i as int)),
        decreases labels@.len() - i,
    {
        let ghost before = out@;
        if i > 0 {
            out.push(',');
            out.push(' ');
        }
        let (key, value) = &labels[i];
        extend_chars(&mut out, &chars_of(key.as_str()));
        match value {
            Some(v) => {
                out.push('=');
                extend_chars(&mut out, &chars_of(v.as_str()));
            },
            None => {},
        }
        proof {
            let sub = lv.subrange(0, i + 1);
            assert(sub.drop_last() =~= lv.subrange(0, i as int));
            assert(sub.last() == lv[i as int]);
            if i == 0 {
                assert(out@ =~= label_text(lv[0].0, lv[0].1));
            } else {
                assert(out@ =~= before + seq![',', ' '] + label_text(sub.last().0, sub.last().1));
            }
        }
        i = i + 1;
    }
    assert(lv.subrange(0, labels@.len() as int) =~= lv);
    string_of(&out)
}

/// A notebook label as shown in its details: `key`, or `key=value` when
/// the value is not empty.
pub open spec fn notebook_label_text(key: Seq<char>, value: Seq<char>) -> Seq<char> {
    if value.len() == 0 {
        key
    } else {
        key + seq!['='] + value
    }
}

/// The labels, one per line.
pub open spec fn notebook_labels_lines(labels: Seq<(Seq<char>, Seq<char>)>) -> Seq<char>
    decreases labels.len(),
{
    if labels.len() == 0 {
        Seq::empty()
    } else if labels.len() == 1 {
        notebook_label_text(labels[0].0, labels[0].1)
    } else {
        notebook_labels_lines(labels.drop_last()) + seq!['\n'] + notebook_label_text(
            labels.last().0,
            labels.last().1,
        )
    }
}

/// The labels of a notebook as shown in its details: one per line, or
/// `(none)` when it has none.
pub open spec fn notebook_labels_spec(labels: Seq<(Seq<char>, Seq<char>)>) -> Seq<char> {
    if labels.len() == 0 {
        "(none)"@
    } else {
        notebook_labels_lines(labels)
    }
}

/// Shows the labels of a notebook, one per line.
pub fn format_notebook_labels(labels: &Vec<(String, String)>) -> (r: String)
    ensures
        r@ == notebook_labels_spec(labels@.map_values(|l: (String, String)| (l.0@, l.1@))),
{
    let ghost lv = labels@.map_values(|l: (String, String)| (l.0@, l.1@));
    if labels.len() == 0 {
        return String::from_str("(none)");
    }
    let mut out: Vec<char> = Vec::new();
    let mut i: usize = 0;
    while i < labels.len()
        invariant
            i <= labels@.len(),
            lv == labels@.map_values(|l: (String, String)| (l.0@, l.1@)),
            out@ == notebook_labels_lines(lv.subrange(0, i as int)),
        decreases labels@.len() - i,
    {
        let ghost before = out@;
        if i > 0 {
            out.push('\n');
        }
        let (key, value) = &labels[i];
        extend_chars(&mut out, &chars_of(key.as_str()));
        if !value.as_str().is_empty() {
            out.push('=');
            extend_chars(&mut out, &chars_of(value.as_str()));
        }
        proof {
            let sub = lv.subrange(0, i + 1);
            assert(sub.drop_last() =~= lv.subrange(0, i as int));
            assert(sub.last() == lv[i as int]);
            assert(out@ =~= notebook_labels_lines(sub));
        }
        i = i + 1;
    }
    assert(lv.subrange(0, labels@.len() as int) =~= lv);
    string_of(&out)
}

} // verus!
