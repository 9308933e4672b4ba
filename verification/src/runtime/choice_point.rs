//! Choice points: the compiled definition of one offerable choice.

use crate::path::Path;
use vstd::prelude::*;

verus! {

/// The definition of a choice: where picking it resumes, and the display
/// flags the compiler packed for it.
#[derive(Debug, Clone)]
pub struct ChoicePoint {
    pub path_on_choice: Path,
    pub has_condition: bool,
    pub has_start_content: bool,
    pub has_choice_only_content: bool,
    pub once_only: bool,
    pub is_invisible_default: bool,
}

impl ChoicePoint {
    /// A choice point that resumes at `path_on_choice`, with no condition
    /// and no display flags set.
    pub fn new(path_on_choice: Path) -> (r: ChoicePoint)
        ensures
            r.path_on_choice == path_on_choice,
            !r.has_condition,
            !r.has_start_content,
            !r.has_choice_only_content,
            !r.once_only,
            !r.is_invisible_default,
    {
        ChoicePoint {
            path_on_choice,
            has_condition: false,
            has_start_content: false,
            has_choice_only_content: false,
            once_only: false,
            is_invisible_default: false,
        }
    }
}

} // verus!
