//! Counts with the word for what is counted, as in "3 days".

use crate::text::{push_signed_decimal, signed_decimal};
use vstd::prelude::*;

verus! {

/// Calls `pluralizer::pluralize` for the word alone, without the count.
/// The form it gives depends on the rules that the process has registered
/// with the crate, so nothing is stated of it.
#[verifier::external_body]
fn inflect(word: &str, count: i64) -> String {
    pluralizer::pluralize(word, count as isize, false)
}

/// A count, a space and the word for what is counted.
pub open spec fn counted(count: int, word: Seq<char>) -> Seq<char> {
    signed_decimal(count) + seq![' '] + word
}

/// Whether a text is the count, a space and some word.
pub open spec fn counts(phrase: Seq<char>, count: int) -> bool {
    exists|word: Seq<char>| phrase == counted(count, word)
}

/// The count with a word behind it.
pub fn count_with(count: i64, word: &str) -> (phrase: String)
    ensures
        phrase@ == counted(count as int, word@),
{
    let mut phrase = String::new();
    push_signed_decimal(&mut phrase, count);
    phrase.push(' ');
    phrase.append(word);
    assert(phrase@ =~= counted(count as int, word@));
    phrase
}

/// The count with `word` behind it in the singular or the plural, as the
/// count asks: the count is written here, the form of the word is the
/// pluralizer's.
pub fn count_phrase(count: i64, word: &str) -> (phrase: String)
    ensures
        counts(phrase@, count as int),
{
    let form = inflect(word, count);
    count_with(count, form.as_str())
}

} // verus!
