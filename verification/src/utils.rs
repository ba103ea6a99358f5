use vstd::prelude::*;

verus! {

/// The three outcomes of combining a "clear" flag with an optional update:
/// `Some(None)` clears the value, `Some(Some(v))` replaces it, `None` leaves it.
pub open spec fn clear_or_update_spec<T>(clear: bool, update: Option<T>) -> Option<Option<T>> {
    if clear {
        Some(None)
    } else {
        match update {
            Some(v) => Some(Some(v)),
            None => None,
        }
    }
}

/// Decide how an optional field is to be patched: a set `clear` flag wins over
/// any update value.
pub fn clear_or_update<T>(clear: bool, update: Option<T>) -> (res: Option<Option<T>>)
    ensures
        res == clear_or_update_spec(clear, update),
{
    if clear {
        Some(None)
    } else if let Some(value) = update {
        Some(Some(value))
    } else {
        None
    }
}

} // verus!
