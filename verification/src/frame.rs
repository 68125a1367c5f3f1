use vstd::prelude::*;

use crate::alignment::MultiProgressAlignment;

verus! {

/// The lines that one draw puts on the terminal, with the flags that say how.
///
/// `orphan_lines` counts the leading lines that belong to bars which are gone:
/// they are drawn once and then forgotten.
#[derive(Debug)]
pub struct ProgressDrawState {
    pub lines: Vec<String>,
    pub orphan_lines: usize,
    pub force_draw: bool,
    pub move_cursor: bool,
    pub alignment: MultiProgressAlignment,
}

} // verus!
