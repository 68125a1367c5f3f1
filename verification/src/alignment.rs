use vstd::prelude::*;

verus! {

/// Vertical alignment of a multi progress.
///
/// The alignment controls how the multi progress is aligned if some of its
/// progress bars get removed. With `Top` (the default), the remaining bars
/// move up to fill the gap; with `Bottom`, they stay anchored to the last line.
#[derive(Debug, Clone, Copy, PartialEq, Eq, Structural)]
pub enum MultiProgressAlignment {
    Top,
    Bottom,
}

impl Default for MultiProgressAlignment {
    fn default() -> (a: Self)
        ensures
            a == MultiProgressAlignment::Top,
    {
        MultiProgressAlignment::Top
    }
}

} // verus!
