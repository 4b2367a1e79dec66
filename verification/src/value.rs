use vstd::prelude::*;

verus! {

/// Mathematical model of a runtime value: an unbounded integer, a character
/// sequence, or the empty stream.
pub enum DataV {
    Int(int),
    Text(Seq<char>),
    Empty,
}

/// The runtime value ("stream") threaded through evaluation: a 64-bit signed
/// integer, a text, or the empty stream. Empty is both "no value yet" and the
/// unit a whole program must reduce to for success.
#[derive(Debug)]
pub enum Data {
    Int(i64),
    Text(String),
    Empty,
}

impl View for Data {
    type V = DataV;

    open spec fn view(&self) -> DataV {
        match self {
            Data::Int(i) => DataV::Int(*i as int),
            Data::Text(s) => DataV::Text(s@),
            Data::Empty => DataV::Empty,
        }
    }
}

impl Clone for Data {
    fn clone(&self) -> (r: Self)
        ensures
            r@ == self@,
    {
        match self {
            Data::Int(i) => Data::Int(*i),
            Data::Text(s) => Data::Text(s.clone()),
            Data::Empty => Data::Empty,
        }
    }
}

impl PartialEq for Data {
    fn eq(&self, other: &Data) -> (r: bool) {
        match (self, other) {
            (Data::Int(a), Data::Int(b)) => *a == *b,
            (Data::Text(a), Data::Text(b)) => *a == *b,
            (Data::Empty, Data::Empty) => true,
            _ => false,
        }
    }
}

impl vstd::std_specs::cmp::PartialEqSpecImpl for Data {
    open spec fn obeys_eq_spec() -> bool {
        true
    }

    open spec fn eq_spec(&self, other: &Data) -> bool {
        self@ == other@
    }
}

/// Mathematical model of an evaluation outcome: a produced value, a
/// recoverable soft control-failure, or an unrecoverable fatal fault.
pub enum Flow {
    Value(DataV),
    Soft,
    Fault,
}

/// Result of running the evaluator: one of the three semantic outcomes, or
/// `OutOfFuel` when the step budget given to the evaluator was exhausted
/// before evaluation completed.
#[derive(Debug)]
pub enum Outcome {
    Value(Data),
    Soft,
    Fault,
    OutOfFuel,
}

impl PartialEq for Outcome {
    fn eq(&self, other: &Outcome) -> (r: bool) {
        match (self, other) {
            (Outcome::Value(a), Outcome::Value(b)) => a == b,
            (Outcome::Soft, Outcome::Soft) => true,
            (Outcome::Fault, Outcome::Fault) => true,
            (Outcome::OutOfFuel, Outcome::OutOfFuel) => true,
            _ => false,
        }
    }
}

impl vstd::std_specs::cmp::PartialEqSpecImpl for Outcome {
    open spec fn obeys_eq_spec() -> bool {
        true
    }

    open spec fn eq_spec(&self, other: &Outcome) -> bool {
        match (self, other) {
            (Outcome::Value(a), Outcome::Value(b)) => a@ == b@,
            (Outcome::Soft, Outcome::Soft) => true,
            (Outcome::Fault, Outcome::Fault) => true,
            (Outcome::OutOfFuel, Outcome::OutOfFuel) => true,
            _ => false,
        }
    }
}

} // verus!
