//! Bytes that commands print: as text, where they are UTF-8, and as they are
//! shown otherwise.
use vstd::prelude::*;
use vstd::utf8::{decode_utf8, valid_utf8};

use crate::text::{decimal, decimal_text, is_shown_as, join_texts, joined, texts};

verus! {

/// The error of `std::str::from_utf8`.
#[verifier::external_type_specification]
#[verifier::external_body]
pub struct ExUtf8Error(std::str::Utf8Error);

/// What is shown of the error that `std::str::from_utf8` gives for bytes that are
/// not UTF-8.
pub uninterp spec fn utf8_fault(bytes: Seq<u8>) -> Seq<char>;

/// `std::str::from_utf8`: the text that the bytes encode, and an error where
/// they are not UTF-8. How the error is shown is left to the name `utf8_fault`.
pub assume_specification[ std::str::from_utf8 ](v: &[u8]) -> (r: Result<
    &str,
    std::str::Utf8Error,
>)
    ensures
        match r {
            Ok(text) => valid_utf8(v@) && text@ == decode_utf8(v@),
            Err(error) => !valid_utf8(v@) && is_shown_as(error, utf8_fault(v@)),
        },
;

/// The text that the bytes encode, or what is wrong with them where they are
/// not UTF-8.
pub fn utf8_text(bytes: &[u8]) -> (r: Result<String, String>)
    ensures
        match r {
            Ok(text) => valid_utf8(bytes@) && text@ == decode_utf8(bytes@),
            Err(fault) => !valid_utf8(bytes@) && fault@ == utf8_fault(bytes@),
        },
{
    match std::str::from_utf8(bytes) {
        Ok(text) => Ok(text.to_string()),
        Err(error) => Err(error.to_string()),
    }
}

/// Bytes as a list of numbers.
pub open spec fn listed_bytes(bytes: Seq<u8>) -> Seq<char> {
    "["@ + joined(bytes.map_values(|b: u8| decimal(b as nat)), ", "@) + "]"@
}

/// Bytes as a list of numbers, in brackets.
pub fn bytes_list(bytes: &[u8]) -> (r: String)
    ensures
        r@ == listed_bytes(bytes@),
{
    let mut numbers: Vec<String> = Vec::new();
    let mut i: usize = 0;
    while i < bytes.len()
        invariant
            i <= bytes@.len(),
            numbers@.len() == i,
            forall|j: int| 0 <= j < i ==> (#[trigger] numbers@[j])@ == decimal(bytes@[j] as nat),
        decreases bytes@.len() - i,
    {
        numbers.push(decimal_text(bytes[i] as u64));
        i += 1;
    }
    assert(texts(numbers@) =~= bytes@.map_values(|b: u8| decimal(b as nat)));
    "[".to_string().concat(join_texts(numbers.as_slice(), ", ").as_str()).concat("]")
}

/// What is shown of the bytes that a command wrote to its standard error: the
/// text, or a list of numbers where they are not UTF-8.
pub open spec fn shown_bytes(bytes: Seq<u8>) -> Seq<char> {
    if valid_utf8(bytes) {
        decode_utf8(bytes)
    } else {
        listed_bytes(bytes)
    }
}

/// What is shown of the bytes that a command wrote to its standard error.
pub fn bytes_text(bytes: &[u8]) -> (r: String)
    ensures
        r@ == shown_bytes(bytes@),
{
    match std::str::from_utf8(bytes) {
        Ok(text) => text.to_string(),
        Err(_) => bytes_list(bytes),
    }
}

/// What a command wrote as errors is shown as the text that it is, and otherwise byte by
/// byte.
pub proof fn law_errors_are_shown_as_text(bytes: &[u8], r: String, text: Result<String, String>)
    requires
        call_ensures(bytes_text, (bytes,), r),
        call_ensures(utf8_text, (bytes,), text),
    ensures
        text is Ok <==> valid_utf8(bytes@),
        text is Ok ==> r@ == text->Ok_0@ && r@ == decode_utf8(bytes@),
        text is Err ==> {
            &&& "["@.is_prefix_of(r@)
            &&& "]"@.is_suffix_of(r@)
        },
        text is Err && bytes@.len() == 1 ==> r@ == "["@ + decimal(bytes@[0] as nat) + "]"@,
{
    reveal_strlit("[");
    reveal_strlit("]");
    if text is Err {
        assert(r@.subrange(0, 1) =~= "["@);
        assert(r@.subrange(r@.len() - 1, r@.len() as int) =~= "]"@);
    }
}

/// Bytes are listed in their order, each by its digits, with a comma and a space between
/// two of them.
pub proof fn law_bytes_are_listed_in_order(bytes: Seq<u8>, last: u8)
    ensures
        listed_bytes(Seq::empty()) == "[]"@,
        listed_bytes(seq![last]) == "["@ + decimal(last as nat) + "]"@,
        bytes.len() > 0 ==> listed_bytes(bytes.push(last)) == listed_bytes(bytes).drop_last()
            + ", "@ + decimal(last as nat) + "]"@,
{
    reveal_strlit("[");
    reveal_strlit("]");
    reveal_strlit("[]");
    let number = |b: u8| decimal(b as nat);
    assert(Seq::<u8>::empty().map_values(number) =~= Seq::empty());
    assert(listed_bytes(Seq::empty()) =~= "[]"@);
    assert(seq![last].map_values(number) =~= seq![decimal(last as nat)]);
    let one = seq![decimal(last as nat)];
    assert(joined(one, ", "@) =~= decimal(last as nat));
    if bytes.len() > 0 {
        let before = bytes.map_values(number);
        let after = bytes.push(last).map_values(number);
        assert(after.drop_last() =~= before);
        assert(after.last() == decimal(last as nat));
        assert(joined(after, ", "@) =~= joined(before, ", "@) + ", "@ + decimal(last as nat));
        assert(listed_bytes(bytes).drop_last() =~= "["@ + joined(before, ", "@));
        assert(listed_bytes(bytes.push(last)) =~= listed_bytes(bytes).drop_last() + ", "@
            + decimal(last as nat) + "]"@);
    }
}

} // verus!
