use vstd::prelude::*;
use crate::create::assigned;
use crate::text::{is_white_space, tokens};
use crate::value::Datum;

verus! {

/// Assigning a number binds the key to that same number.
pub proof fn number_assignment_binds_the_number(
    m: Map<Seq<char>, Datum>,
    key: Seq<char>,
    bits: u64,
    literal: Option<u64>,
)
    ensures
        assigned(m, key, Datum::Number(bits), literal) matches Ok(after)
            && after.contains_key(key) && after[key] == Datum::Number(bits),
{
}

/// Assigning the name of a bound variable binds the key to a value equal to
/// that variable's value.
pub proof fn name_assignment_copies_the_value(
    m: Map<Seq<char>, Datum>,
    key: Seq<char>,
    name: Seq<char>,
    literal: Option<u64>,
)
    requires
        m.contains_key(name),
    ensures
        assigned(m, key, Datum::Text(name), literal) matches Ok(after)
            && after.contains_key(key) && after[key] == m[name],
{
}

/// A text without white space is one token, or none where it is empty.
proof fn lemma_tokens_of_word(s: Seq<char>)
    requires
        forall|i: int| 0 <= i < s.len() ==> !is_white_space(#[trigger] s[i]),
    ensures
        s.len() == 0 ==> tokens(s).len() == 0,
        s.len() > 0 ==> tokens(s) == seq![s],
    decreases s.len(),
{
    if s.len() > 0 {
        let p = s.drop_last();
        lemma_tokens_of_word(p);
        if s.len() == 1 {
            assert(seq![s.last()] =~= s);
        } else {
            assert(!is_white_space(s[s.len() - 2]));
            assert(p.push(s.last()) =~= s);
        }
    }
}

/// Assigning a text without white space that names no bound variable binds
/// the key to that text itself.
pub proof fn unbound_word_assignment_keeps_the_text(
    m: Map<Seq<char>, Datum>,
    key: Seq<char>,
    s: Seq<char>,
    literal: Option<u64>,
)
    requires
        forall|i: int| 0 <= i < s.len() ==> !is_white_space(#[trigger] s[i]),
        !m.contains_key(s),
    ensures
        assigned(m, key, Datum::Text(s), literal) matches Ok(after)
            && after.contains_key(key) && after[key] == Datum::Text(s),
{
    lemma_tokens_of_word(s);
}

/// Assigning a list binds the key to an empty list, whatever the list held.
pub proof fn list_assignment_binds_empty_list(
    m: Map<Seq<char>, Datum>,
    key: Seq<char>,
    items: Seq<Datum>,
    literal: Option<u64>,
)
    ensures
        assigned(m, key, Datum::List(items), literal) == Ok::<Map<Seq<char>, Datum>, ()>(
            m.insert(key, Datum::List(Seq::empty())),
        ),
{
}

} // verus!
