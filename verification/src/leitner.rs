use vstd::prelude::*;

use std::collections::HashMap;

verus! {

/// A spaced-repetition record of the trainee's history, keyed by the text
/// form of a chart cell. An extension point: no operation is defined yet.
#[derive(Debug, Default)]
pub struct LeitnerState {
    #[allow(dead_code)]
    cells: HashMap<String, CellData>,
}

/// What is remembered about one chart cell; nothing yet.
#[derive(Debug, Default, Clone, Eq, PartialEq)]
pub struct CellData {}

} // verus!
