//! Small parsers for command line arguments and generated shell completions.
use crate::text::{chars_of, extend_chars, lemma_newline_pos_unique, lines, lines_spec, newline_pos,
    slice_chars, string_of, strip_cr};
use vstd::prelude::*;

verus! {

/// A `key=value` argument, such as a label.
#[derive(Clone)]
pub struct KeyValueArgument {
    pub key: String,
    pub value: String,
}

/// Why a `key=value` argument was refused.
#[derive(Debug, PartialEq, Eq, Structural)]
pub enum KeyValueError {
    /// The argument was empty.
    EmptyInput,
}

impl KeyValueError {
    /// The message shown to the user.
    pub fn message(&self) -> (s: String)
        ensures
            s@ == "empty input"@,
    {
        String::from_str("empty input")
    }
}

/// The index of the first occurrence of `c` in `s`, if any.
pub open spec fn first_index_of(s: Seq<char>, c: char) -> Option<int> {
    if s.contains(c) {
        Some(choose|i: int| 0 <= i < s.len() && s[i] == c && forall|j: int| 0 <= j < i ==> s[j] != c)
    } else {
        None
    }
}

/// The key and value of a non-empty argument: split at the first `=`; an
/// argument without `=` is a key with an empty value.
pub open spec fn key_value_spec(s: Seq<char>) -> (Seq<char>, Seq<char>) {
    match first_index_of(s, '=') {
        Some(i) => (s.subrange(0, i), s.subrange(i + 1, s.len() as int)),
        None => (s, Seq::empty()),
    }
}

/// The first `=` in `s`, with what the spec says of it.
fn find_equals(s: &Vec<char>) -> (r: Option<usize>)
    ensures
        match r {
            Some(i) => i < s@.len() && first_index_of(s@, '=') == Some(i as int),
            None => first_index_of(s@, '=') is None,
        },
{
    let mut i: usize = 0;
    while i < s.len()
        invariant
            i <= s@.len(),
            forall|j: int| 0 <= j < i ==> s@[j] != '=',
        decreases s@.len() - i,
    {
        if s[i] == '=' {
            proof {
                assert(s@.contains('='));
                let k = choose|k: int|
                    0 <= k < s@.len() && s@[k] == '=' && forall|j: int|
                        0 <= j < k ==> s@[j] != '=';
                assert(k == i as int) by {
                    if k < i {
                        assert(s@[k] != '=');
                    }
                    if i < k {
                        assert(s@[i as int] == '=');
                    }
                }
            }
            return Some(i);
        }
        i = i + 1;
    }
    proof {
        assert(!s@.contains('=')) by {
            if s@.contains('=') {
                let k = choose|k: int| 0 <= k < s@.len() && s@[k] == '=';
                assert(s@[k] != '=');
            }
        }
    }
    None
}

impl KeyValueArgument {
    /// Parses a `key=value` argument; see `key_value_spec`.
    pub fn parse(s: &str) -> (r: Result<KeyValueArgument, KeyValueError>)
        ensures
            s@.len() == 0 ==> r == Err::<KeyValueArgument, KeyValueError>(
                KeyValueError::EmptyInput,
            ),
            s@.len() > 0 ==> (r matches Ok(kv) && (kv.key@, kv.value@) == key_value_spec(s@)),
    {
        if s.is_empty() {
            return Err(KeyValueError::EmptyInput);
        }
        let chars = chars_of(s);
        match find_equals(&chars) {
            Some(i) => {
                let n = chars.len();
                let key = slice_chars(&chars, 0, i);
                let value = slice_chars(&chars, i + 1, n);
                Ok(KeyValueArgument { key: string_of(&key), value: string_of(&value) })
            },
            None => Ok(KeyValueArgument { key: string_of(&chars), value: String::new() }),
        }
    }
}

impl core::str::FromStr for KeyValueArgument {
    type Err = KeyValueError;

    fn from_str(s: &str) -> (r: Result<KeyValueArgument, KeyValueError>)
        ensures
            s@.len() == 0 ==> r == Err::<KeyValueArgument, KeyValueError>(
                KeyValueError::EmptyInput,
            ),
            s@.len() > 0 ==> (r matches Ok(kv) && (kv.key@, kv.value@) == key_value_spec(s@)),
    {
        KeyValueArgument::parse(s)
    }
}

/// Writing a key without `=` and a value as `key=value` and parsing it
/// gives the key and value back.
pub proof fn law_key_value_round_trip(key: Seq<char>, value: Seq<char>)
    requires
        !key.contains('='),
    ensures
        key_value_spec(key + seq!['='] + value) == (key, value),
{
    let s = key + seq!['='] + value;
    let n = key.len() as int;
    assert(s[n] == '=');
    assert(s.contains('='));
    let k = choose|i: int| 0 <= i < s.len() && s[i] == '=' && forall|j: int| 0 <= j < i ==> s[j] != '=';
    assert(k == n) by {
        if k < n {
            assert(s[k] == key[k]);
            assert(key.contains('='));
        }
        if n < k {
            assert(s[n] != '=');
        }
    }
    assert(s.subrange(0, n) =~= key);
    assert(s.subrange(n + 1, s.len() as int) =~= value);
}

/// The first line of a zsh completion script.
pub open spec fn compdef_line() -> Seq<char> {
    "#compdef _fp fp\n"@
}

/// The given lines, each followed by a line feed.
pub open spec fn joined_lines(ls: Seq<Seq<char>>) -> Seq<char>
    decreases ls.len(),
{
    if ls.len() == 0 {
        Seq::empty()
    } else {
        joined_lines(ls.drop_last()) + ls.last() + seq!['\n']
    }
}

/// The lines of a generated script without its first and last line.
pub open spec fn inner_lines(ls: Seq<Seq<char>>) -> Seq<Seq<char>> {
    if ls.len() >= 2 {
        ls.subrange(1, ls.len() - 1)
    } else {
        Seq::empty()
    }
}

/// The zsh completion script with its first and last line replaced by a
/// `#compdef` header, so that it can be loaded as a completion function.
pub open spec fn zsh_fixup_spec(script: Seq<char>) -> Seq<char> {
    compdef_line() + joined_lines(inner_lines(lines_spec(script)))
}

/// Whatever the generated script, the rewritten one starts with the line
/// `#compdef _fp fp`.
pub proof fn law_zsh_script_starts_with_compdef(script: Seq<char>)
    ensures
        lines_spec(zsh_fixup_spec(script)).len() > 0,
        lines_spec(zsh_fixup_spec(script))[0] == "#compdef _fp fp"@,
{
    reveal_strlit("#compdef _fp fp\n");
    reveal_strlit("#compdef _fp fp");
    let out = zsh_fixup_spec(script);
    let head = compdef_line();
    assert(head.len() == 16);
    assert(out.len() >= 16);
    assert forall|j: int| 0 <= j < 15 implies out[j] != '\n' by {
        assert(out[j] == head[j]);
    }
    assert(out[15] == '\n');
    lemma_newline_pos_unique(out, 15);
    assert(newline_pos(out) == 15);
    assert(out.subrange(0, 15) =~= "#compdef _fp fp"@);
    assert(strip_cr(out.subrange(0, 15)) == out.subrange(0, 15));
}

/// Rewrites a generated zsh completion script so that zsh loads it as a
/// completion function: the first and last lines are dropped and a
/// `#compdef _fp fp` line is put first.
pub fn zsh_completions_fixup(script: &str) -> (r: String)
    ensures
        r@ == zsh_fixup_spec(script@),
{
    let all = lines(&chars_of(script));
    let ghost ls = all@.map_values(|l: Vec<char>| l@);
    let header = "#compdef _fp fp\n";
    let mut out = chars_of(header);
    let ghost start = out@;
    if all.len() >= 2 {
        let last = all.len() - 1;
        let mut i: usize = 1;
        while i < last
            invariant
                ls == all@.map_values(|l: Vec<char>| l@),
                last == ls.len() - 1,
                1 <= i <= last,
                out@ == start + joined_lines(ls.subrange(1, i as int)),
            decreases last - i,
        {
            let ghost before = out@;
            extend_chars(&mut out, &all[i]);
            out.push('\n');
            proof {
                let sub = ls.subrange(1, i + 1);
                assert(sub.drop_last() =~= ls.subrange(1, i as int));
                assert(sub.last() == all@[i as int]@);
                assert(out@ =~= start + joined_lines(sub));
            }
            i = i + 1;
        }
        proof {
            assert(inner_lines(ls) == ls.subrange(1, ls.len() - 1));
        }
    } else {
        proof {
            assert(inner_lines(ls) =~= Seq::<Seq<char>>::empty());
            assert(joined_lines(inner_lines(ls)) =~= Seq::<char>::empty());
            assert(out@ =~= start + joined_lines(inner_lines(ls)));
        }
    }
    string_of(&out)
}

} // verus!
