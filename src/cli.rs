use vstd::prelude::*;

verus! {

/// What the program is asked to do.
#[derive(Clone, Debug)]
pub enum Operation {
    /// Record a shift; the break, in whole minutes, comes off its end.
    Add { start: String, end: String, break_duration: Option<i64> },
    /// Remove the shift with this id.
    Remove { id: u32 },
    /// List shifts: all of them or this period's, optionally latest first.
    List { all: bool, sort: bool, offset: Option<u32> },
    /// Compute the earnings of a period, `offset` periods back.
    Calculate { offset: Option<u32> },
    /// Delete every recorded shift.
    DropDatabase,
    /// Change the start and/or end of a recorded shift.
    EditShift { id: u32, start: Option<String>, end: Option<String> },
}

/// The command line: at most one operation.
#[derive(Clone, Debug)]
pub struct Cli {
    pub operation: Option<Operation>,
}

impl Cli {
    pub fn operation(&self) -> (r: Option<&Operation>)
        ensures
            r matches Some(op) ==> self.operation == Some(*op),
            r is None <==> self.operation is None,
    {
        match &self.operation {
            Some(op) => Some(op),
            None => None,
        }
    }
}

} // verus!
