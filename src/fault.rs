use vstd::prelude::*;

verus! {

/// The two ways an operation on a vector or a matrix can be refused.
#[derive(Clone, Copy, Debug, PartialEq, Eq, Structural)]
pub enum Fault {
    /// An index at or past the extent it addresses.
    OutOfBounds,
    /// Two operands whose lengths, or a length and a column count, differ.
    DimensionMismatch,
}

impl Fault {
    /// A fixed message that tells the two kinds apart.
    pub fn message(&self) -> (r: &'static str)
        ensures
            r@ == fault_message(*self),
    {
        match self {
            Fault::OutOfBounds => "Index out of bounds.",
            Fault::DimensionMismatch => "Cannot combine operands with mismatched dimensions.",
        }
    }
}

pub open spec fn fault_message(f: Fault) -> Seq<char> {
    match f {
        Fault::OutOfBounds => "Index out of bounds."@,
        Fault::DimensionMismatch => "Cannot combine operands with mismatched dimensions."@,
    }
}

/// Checks an index against an extent.
pub fn check_index(i: usize, extent: usize) -> (r: Result<(), Fault>)
    ensures
        r == (if i < extent { Ok::<(), Fault>(()) } else { Err(Fault::OutOfBounds) }),
{
    if i < extent {
        Ok(())
    } else {
        Err(Fault::OutOfBounds)
    }
}

/// Checks that two lengths agree.
pub fn check_dimensions(a: usize, b: usize) -> (r: Result<(), Fault>)
    ensures
        r == (if a == b { Ok::<(), Fault>(()) } else { Err(Fault::DimensionMismatch) }),
{
    if a == b {
        Ok(())
    } else {
        Err(Fault::DimensionMismatch)
    }
}

} // verus!
