use vstd::prelude::*;
use crate::number::Number;

verus! {

/// A value of the interpreter: a number, a text, or a list of values.
#[derive(PartialEq, Debug)]
pub enum ValueType {
    Int(Number),
    Line(String),
    Arr(Vec<ValueType>),
}

/// The mathematical content of a value: numbers by their bit pattern,
/// texts by their characters, lists by their elements' contents.
pub enum Datum {
    Number(u64),
    Text(Seq<char>),
    List(Seq<Datum>),
}

/// The content of a value.
pub open spec fn datum_of(v: &ValueType) -> Datum
    decreases v,
{
    match v {
        ValueType::Int(n) => Datum::Number(n.bits),
        ValueType::Line(s) => Datum::Text(s@),
        ValueType::Arr(a) => Datum::List(
            Seq::new(a.len() as nat, |i: int| if 0 <= i < a.len() { datum_of(&a[i]) } else { Datum::Number(0) }),
        ),
    }
}

impl View for ValueType {
    type V = Datum;

    open spec fn view(&self) -> Datum {
        datum_of(self)
    }
}

impl ValueType {
    /// An independent copy of the value: texts and lists are copied in depth.
    pub fn duplicate(&self) -> (r: ValueType)
        ensures
            r@ == self@,
        decreases self,
    {
        match self {
            ValueType::Int(n) => ValueType::Int(*n),
            ValueType::Line(s) => ValueType::Line(s.clone()),
            ValueType::Arr(a) => {
                let mut out: Vec<ValueType> = Vec::new();
                let mut i: usize = 0;
                while i < a.len()
                    invariant
                        i <= a.len(),
                        *self == ValueType::Arr(*a),
                        out.len() == i,
                        forall|j: int| 0 <= j < i ==> datum_of(&out[j]) == datum_of(&a[j]),
                    decreases a.len() - i,
                {
                    proof {
                        assert(decreases_to!(*self => self->Arr_0));
                        vstd::std_specs::vec::axiom_vec_index_decreases(*a, i as int);
                        assert(decreases_to!(*self => a[i as int]));
                    }
                    out.push(a[i].duplicate());
                    i = i + 1;
                }
                let r = ValueType::Arr(out);
                assert(datum_of(&r) == datum_of(self)) by {
                    if let Datum::List(x) = datum_of(&r) {
                        if let Datum::List(y) = datum_of(self) {
                            assert(x =~= y);
                        }
                    }
                }
                r
            }
        }
    }
}

} // verus!
