//! The 64-symbol printable alphabet that tokens are written in.

use vstd::prelude::*;

verus! {

/// The printable character that stands for a value below 64: the digits,
/// then upper case, then lower case, then `-` and `_`.
pub open spec fn symbol(value: u8) -> char {
    if value < 10 {
        (value + 48) as char
    } else if value < 36 {
        (value + 55) as char
    } else if value < 62 {
        (value + 61) as char
    } else if value == 62 {
        '-'
    } else {
        '_'
    }
}

/// Whether every value of the sequence has a symbol.
pub open spec fn in_alphabet(values: Seq<u8>) -> bool {
    forall|i: int| 0 <= i < values.len() ==> values[i] < 64
}

/// The text that a sequence of values is written as, symbol by symbol.
pub open spec fn symbols(values: Seq<u8>) -> Seq<char> {
    Seq::new(values.len(), |i: int| symbol(values[i]))
}

/// No symbol is a path separator.
pub proof fn lemma_symbols_clean(values: Seq<u8>)
    requires
        in_alphabet(values),
    ensures
        !symbols(values).contains('/'),
{
    assert forall|i: int| 0 <= i < values.len() implies symbols(values)[i] != '/' by {
        assert(values[i] < 64);
    }
}

} // verus!
