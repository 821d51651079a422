use vstd::prelude::*;
use vstd::string::StringExecFns;
use crate::number::{Number, index_of};
use crate::store::Bindings;
use crate::text::{char_at, parse_char, split_tokens, tokens};
use crate::value::{Datum, ValueType};

verus! {

/// What an operation of the interpreter hands back when it succeeds.
#[derive(PartialEq, Eq, Structural, Clone, Copy, Debug)]
pub enum OpCodeResultType {
    Empty,
}

/// A list was indexed past its end.
#[derive(PartialEq, Eq, Structural, Clone, Copy, Debug)]
pub struct IndexOutOfRange {
    pub index: usize,
    pub len: usize,
}

/// How an expression resolves against the bindings.
pub enum Resolution {
    /// It denotes this value.
    Found(Datum),
    /// It denotes no bound value and stands for its own text.
    Literal,
    /// It indexes a list past its end.
    OutOfRange,
}

/// The index that the second token of an expression denotes: the token read as a
/// number literal (`literal`) where it is one, else the number bound to the token.
pub open spec fn index_from(m: Map<Seq<char>, Datum>, tok: Seq<char>, literal: Option<u64>) -> Option<int> {
    match literal {
        Some(bits) => Some(index_of(bits)),
        None => if m.contains_key(tok) {
            match m[tok] {
                Datum::Number(bits) => Some(index_of(bits)),
                _ => None,
            }
        } else {
            None
        },
    }
}

/// The two-token form `base index`.
pub open spec fn resolve_pair(
    m: Map<Seq<char>, Datum>,
    base: Seq<char>,
    tok: Seq<char>,
    literal: Option<u64>,
) -> Resolution {
    match index_from(m, tok, literal) {
        None => Resolution::Literal,
        Some(i) => if !m.contains_key(base) {
            Resolution::Literal
        } else {
            match m[base] {
                Datum::Number(_) => Resolution::Literal,
                Datum::Text(t) => Resolution::Found(Datum::Text(char_at(t, i))),
                Datum::List(l) => if i < l.len() {
                    Resolution::Found(l[i])
                } else {
                    Resolution::OutOfRange
                },
            }
        },
    }
}

/// How an expression resolves by its tokens: one token names a variable, two
/// tokens index one; any other count stands for the text itself.
pub open spec fn resolve_expr(m: Map<Seq<char>, Datum>, e: Seq<char>, literal: Option<u64>) -> Resolution {
    let ts = tokens(e);
    if ts.len() == 1 {
        if m.contains_key(ts[0]) {
            Resolution::Found(m[ts[0]])
        } else {
            Resolution::Literal
        }
    } else if ts.len() == 2 {
        resolve_pair(m, ts[0], ts[1], literal)
    } else {
        Resolution::Literal
    }
}

/// The bindings after `key` is assigned `v`, or `Err` where the assignment
/// indexes a list past its end.
pub open spec fn assigned(
    m: Map<Seq<char>, Datum>,
    key: Seq<char>,
    v: Datum,
    literal: Option<u64>,
) -> Result<Map<Seq<char>, Datum>, ()> {
    match v {
        Datum::Number(bits) => Ok(m.insert(key, Datum::Number(bits))),
        Datum::List(_) => Ok(m.insert(key, Datum::List(Seq::empty()))),
        Datum::Text(e) => if m.contains_key(e) {
            Ok(m.insert(key, m[e]))
        } else {
            match resolve_expr(m, e, literal) {
                Resolution::Found(d) => Ok(m.insert(key, d)),
                Resolution::Literal => Ok(m.insert(key, Datum::Text(e))),
                Resolution::OutOfRange => Err(()),
            }
        },
    }
}

pub open spec fn literal_bits(literal: Option<Number>) -> Option<u64> {
    match literal {
        Some(n) => Some(n.bits),
        None => None,
    }
}

/// The element at `index` of `vec`, copied; `None` past its end.
pub fn parse_elem(vec: &Vec<ValueType>, index: usize) -> (r: Option<ValueType>)
    ensures
        match r {
            Some(v) => index < vec.len() && v@ == vec@[index as int]@,
            None => index >= vec.len(),
        },
{
    if index < vec.len() {
        Some(vec[index].duplicate())
    } else {
        None
    }
}

/// The one-token form: a copy of the value bound to the token.
pub fn one_value(values: &Vec<String>, target: &Bindings) -> (r: Option<ValueType>)
    requires
        target.wf(),
        values.len() == 1,
    ensures
        match r {
            Some(v) => target@.contains_key(values@[0]@) && v@ == target@[values@[0]@],
            None => !target@.contains_key(values@[0]@),
        },
{
    target.get(&values[0])
}

/// The two-token form: the first token names a text or a list, the second gives
/// the index, as a number literal (`literal`, its reading where it is one) or
/// as the name of a number.
pub fn multiple_values(
    values: &Vec<String>,
    target: &Bindings,
    literal: Option<Number>,
) -> (r: Result<Option<ValueType>, IndexOutOfRange>)
    requires
        target.wf(),
        values.len() == 2,
    ensures
        match resolve_pair(target@, values@[0]@, values@[1]@, literal_bits(literal)) {
            Resolution::Found(d) => r matches Ok(Some(v)) && v@ == d,
            Resolution::Literal => r matches Ok(None),
            Resolution::OutOfRange => r is Err,
        },
{
    let index: usize = match literal {
        Some(n) => n.to_index(),
        None => match target.lookup(&values[1]) {
            Some(ValueType::Int(n)) => n.to_index(),
            _ => return Ok(None),
        },
    };
    match target.lookup(&values[0]) {
        Some(ValueType::Line(l)) => Ok(Some(ValueType::Line(parse_char(l, index)))),
        Some(ValueType::Arr(arr)) => match parse_elem(arr, index) {
            Some(v) => Ok(Some(v)),
            None => Err(IndexOutOfRange { index, len: arr.len() }),
        },
        _ => Ok(None),
    }
}

/// Resolves an expression by its tokens (see `resolve_expr`).
pub fn complex_assignments_value(
    expression: &String,
    target: &Bindings,
    literal: Option<Number>,
) -> (r: Result<Option<ValueType>, IndexOutOfRange>)
    requires
        target.wf(),
    ensures
        match resolve_expr(target@, expression@, literal_bits(literal)) {
            Resolution::Found(d) => r matches Ok(Some(v)) && v@ == d,
            Resolution::Literal => r matches Ok(None),
            Resolution::OutOfRange => r is Err,
        },
{
    let values = split_tokens(expression);
    proof {
        assert(values@.map_values(|t: String| t@).len() == values.len());
        if values.len() >= 1 {
            assert(values@.map_values(|t: String| t@)[0] == values@[0]@);
        }
        if values.len() >= 2 {
            assert(values@.map_values(|t: String| t@)[1] == values@[1]@);
        }
    }
    if values.len() == 2 {
        multiple_values(&values, target, literal)
    } else if values.len() == 1 {
        Ok(one_value(&values, target))
    } else {
        Ok(None)
    }
}

/// The token of a two-token expression that may be a number literal: its second.
pub fn index_token(expression: &String) -> (r: Option<String>)
    ensures
        match r {
            Some(t) => tokens(expression@).len() == 2 && t@ == tokens(expression@)[1],
            None => tokens(expression@).len() != 2,
        },
{
    let mut values = split_tokens(expression);
    proof {
        assert(values@.map_values(|t: String| t@).len() == values.len());
        if values.len() >= 2 {
            assert(values@.map_values(|t: String| t@)[1] == values@[1]@);
        }
    }
    if values.len() == 2 {
        values.pop()
    } else {
        None
    }
}

/// Assigns `value` to `key`. A number is stored as it is and a list as an empty
/// list. A text is an expression: the name of a bound variable gives a copy of
/// its value, else the expression is resolved by its tokens, and one that
/// denotes no value is stored as its own text. `literal` is the reading of the
/// expression's second token as a number literal, `None` where it is not one.
/// Indexing a list past its end is an error that leaves the bindings unchanged.
pub fn create(
    key: &String,
    value: &ValueType,
    target: &mut Bindings,
    literal: Option<Number>,
) -> (r: Result<OpCodeResultType, String>)
    requires
        old(target).wf(),
    ensures
        final(target).wf(),
        match assigned(old(target)@, key@, value@, literal_bits(literal)) {
            Ok(m) => r == Ok::<OpCodeResultType, String>(OpCodeResultType::Empty) && final(target)@ == m,
            Err(_) => r is Err && final(target)@ == old(target)@,
        },
{
    match value {
        ValueType::Int(n) => target.set(key, ValueType::Int(*n)),
        ValueType::Line(s) => match target.get(s) {
            Some(v) => target.set(key, v),
            None => match complex_assignments_value(s, target, literal) {
                Ok(Some(v)) => target.set(key, v),
                Ok(None) => target.set(key, ValueType::Line(s.clone())),
                Err(_) => return Err(String::from_str("index out of range")),
            },
        },
        ValueType::Arr(_) => {
            let empty = ValueType::Arr(Vec::new());
            assert(empty@ == Datum::List(Seq::empty())) by {
                if let Datum::List(x) = empty@ {
                    assert(x =~= Seq::<Datum>::empty());
                }
            }
            target.set(key, empty);
        },
    }
    Ok(OpCodeResultType::Empty)
}

} // verus!
