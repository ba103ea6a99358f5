//! Turning a range of notebook cells into a snippet: how the cells are
//! listed for picking, and how the first and last cell are found.
use crate::fields::{decimal, decimal_chars};
use crate::text::{chars_eq, chars_of, extend_chars, string_of};
use vstd::prelude::*;
use vstd::utf8::{decode_utf8, encode_utf8, encode_utf8_decode_utf8, is_char_boundary};

verus! {

/// How many bytes of a cell's content are shown when it is listed.
pub const SHOWN_CONTENT_BYTES: usize = 100;

/// `s` with each line feed written as `\n`.
pub open spec fn escape_newlines(s: Seq<char>) -> Seq<char>
    decreases s.len(),
{
    if s.len() == 0 {
        Seq::empty()
    } else {
        escape_newlines(s.drop_last()) + if s.last() == '\n' {
            seq!['\\', 'n']
        } else {
            seq![s.last()]
        }
    }
}

/// The content of a cell as listed: when its UTF-8 encoding is longer
/// than 100 bytes, the text of its first 100 bytes with line feeds written
/// as `\n`, followed by `...`; else the content as it is.
pub open spec fn shown_content(content: Seq<char>) -> Seq<char> {
    let bytes = encode_utf8(content);
    if bytes.len() > 100 {
        escape_newlines(decode_utf8(bytes.subrange(0, 100))) + seq!['.', '.', '.']
    } else {
        content
    }
}

/// The line that lists a cell for picking.
pub open spec fn cell_line_spec(
    index: nat,
    content: Seq<char>,
    cell_type: Seq<char>,
    id: Seq<char>,
) -> Seq<char> {
    decimal(index) + seq!['.', ' ', '"'] + shown_content(content) + seq!['"', ' ', '(']
        + cell_type + " cell, ID: "@ + id + seq![')']
}

/// Appends `s` with its line feeds written as `\n`.
fn push_escaped_newlines(out: &mut Vec<char>, s: &str)
    ensures
        final(out)@ == old(out)@ + escape_newlines(s@),
{
    let cs = chars_of(s);
    let mut i: usize = 0;
    while i < cs.len()
        invariant
            i <= cs@.len(),
            cs@ == s@,
            out@ == old(out)@ + escape_newlines(cs@.subrange(0, i as int)),
        decreases cs@.len() - i,
    {
        let ghost before = out@;
        if cs[i] == '\n' {
            out.push('\\');
            out.push('n');
        } else {
            out.push(cs[i]);
        }
        proof {
            let sub = cs@.subrange(0, i + 1);
            assert(sub.drop_last() =~= cs@.subrange(0, i as int));
            assert(sub.last() == cs@[i as int]);
            assert(out@ =~= old(out)@ + escape_newlines(sub));
        }
        i = i + 1;
    }
    assert(cs@.subrange(0, cs@.len() as int) =~= cs@);
}

/// Lists a cell for picking: its index, its content (cut to 100 bytes), its
/// type and its id. A content that has to be cut is cut at a character
/// boundary.
pub fn cell_display_line(index: usize, content: &str, cell_type: &str, id: &str) -> (r: String)
    requires
        encode_utf8(content@).len() > 100 ==> is_char_boundary(encode_utf8(content@), 100),
    ensures
        r@ == cell_line_spec(index as nat, content@, cell_type@, id@),
{
    let mut out = decimal_chars(index);
    out.push('.');
    out.push(' ');
    out.push('"');
    let ghost start = out@;
    assert(start =~= decimal(index as nat) + seq!['.', ' ', '"']);
    if content.as_bytes().len() > SHOWN_CONTENT_BYTES {
        let (head, _) = content.split_at(SHOWN_CONTENT_BYTES);
        proof {
            encode_utf8_decode_utf8(head@);
            assert(head@ == decode_utf8(encode_utf8(content@).subrange(0, 100)));
        }
        push_escaped_newlines(&mut out, head);
        out.push('.');
        out.push('.');
        out.push('.');
        assert(out@ =~= start + shown_content(content@));
    } else {
        extend_chars(&mut out, &chars_of(content));
        assert(out@ =~= start + shown_content(content@));
    }
    let ghost mid = out@;
    out.push('"');
    out.push(' ');
    out.push('(');
    extend_chars(&mut out, &chars_of(cell_type));
    extend_chars(&mut out, &chars_of(" cell, ID: "));
    extend_chars(&mut out, &chars_of(id));
    out.push(')');
    proof {
        assert(out@ =~= mid + seq!['"', ' ', '('] + cell_type@ + " cell, ID: "@ + id@ + seq![')']);
        assert(out@ =~= cell_line_spec(index as nat, content@, cell_type@, id@));
    }
    string_of(&out)
}

/// The index of the first cell whose id is `id`, if any.
pub open spec fn cell_position_spec(ids: Seq<Seq<char>>, id: Seq<char>) -> Option<int> {
    if exists|i: int| 0 <= i < ids.len() && ids[i] == id {
        Some(choose|i: int| 0 <= i < ids.len() && ids[i] == id && forall|j: int| 0 <= j < i ==> ids[j] != id)
    } else {
        None
    }
}

/// No cell has the given id.
#[derive(Debug, PartialEq, Eq)]
pub struct CellNotFound {
    pub cell_id: String,
}

/// Finds the cell whose id was given as the first or last cell of a
/// snippet: the first cell with that id.
pub fn find_cell(ids: &Vec<String>, cell_id: &str) -> (r: Result<usize, CellNotFound>)
    ensures
        match cell_position_spec(ids@.map_values(|s: String| s@), cell_id@) {
            Some(i) => r == Ok::<usize, CellNotFound>(i as usize),
            None => r matches Err(e) && e.cell_id@ == cell_id@,
        },
{
    let ghost iv = ids@.map_values(|s: String| s@);
    let target = chars_of(cell_id);
    let mut i: usize = 0;
    while i < ids.len()
        invariant
            i <= ids@.len(),
            iv == ids@.map_values(|s: String| s@),
            target@ == cell_id@,
            forall|j: int| 0 <= j < i ==> iv[j] != cell_id@,
        decreases ids@.len() - i,
    {
        if chars_eq(&chars_of(ids[i].as_str()), &target) {
            proof {
                assert(iv[i as int] == cell_id@);
                let k = choose|k: int|
                    0 <= k < iv.len() && iv[k] == cell_id@ && forall|j: int|
                        0 <= j < k ==> iv[j] != cell_id@;
                assert(k == i as int) by {
                    if k < i {
                        assert(iv[k] != cell_id@);
                    }
                    if i < k {
                        assert(iv[i as int] != cell_id@);
                    }
                }
            }
            return Ok(i);
        }
        i = i + 1;
    }
    proof {
        if exists|k: int| 0 <= k < iv.len() && iv[k] == cell_id@ {
            let k = choose|k: int| 0 <= k < iv.len() && iv[k] == cell_id@;
            assert(iv[k] != cell_id@);
        }
    }
    Err(CellNotFound { cell_id: String::from_str(cell_id) })
}

} // verus!
