//! The keystrokes that confirm input in the window.
use vstd::prelude::*;

verus! {

#[derive(Clone, Copy, Debug, PartialEq, Eq, Structural)]
pub enum KeyStep {
    ShiftDown,
    ReturnClick,
    ShiftUp,
}

pub open spec fn enter_sequence(with_shift: bool) -> Seq<KeyStep> {
    if with_shift {
        seq![KeyStep::ShiftDown, KeyStep::ReturnClick, KeyStep::ShiftUp]
    } else {
        seq![KeyStep::ReturnClick]
    }
}

/// Return, held with Shift where asked.
pub fn enter_keys(with_shift: bool) -> (r: Vec<KeyStep>)
    ensures
        r@ == enter_sequence(with_shift),
{
    let mut r: Vec<KeyStep> = Vec::new();
    if with_shift {
        r.push(KeyStep::ShiftDown);
    }
    r.push(KeyStep::ReturnClick);
    if with_shift {
        r.push(KeyStep::ShiftUp);
    }
    assert(r@ =~= enter_sequence(with_shift));
    r
}

} // verus!
