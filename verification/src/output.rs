//! Key and value rows of the detail tables the command line tool prints.
use vstd::prelude::*;

verus! {

/// One row of a detail table.
pub struct GenericKeyValue {
    pub key: String,
    pub value: String,
}

impl View for GenericKeyValue {
    type V = (Seq<char>, Seq<char>);

    open spec fn view(&self) -> (Seq<char>, Seq<char>) {
        (self.key@, self.value@)
    }
}

/// The views of a list of rows.
pub open spec fn rows_view(rows: Seq<GenericKeyValue>) -> Seq<(Seq<char>, Seq<char>)> {
    rows.map_values(|r: GenericKeyValue| r@)
}

impl GenericKeyValue {
    /// A row with the given key and value.
    pub fn new(key: String, value: String) -> (r: Self)
        ensures
            r@ == (key@, value@),
    {
        GenericKeyValue { key, value }
    }

    /// A row whose key is a literal.
    pub fn with_key(key: &str, value: String) -> (r: Self)
        ensures
            r@ == (key@, value@),
    {
        GenericKeyValue { key: String::from_str(key), value }
    }
}

} // verus!
