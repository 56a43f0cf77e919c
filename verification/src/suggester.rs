//! Inline suggestions: completing the line being typed from history.

use vstd::prelude::*;

use crate::completion::str_starts_with;

verus! {

/// Offers a full command for the line being typed.
pub trait Suggester {
    fn suggest(&self, history: &Vec<String>, current: &String) -> Option<String>;
}

/// The default suggester: the first history entry that the current
/// line is a prefix of; an empty line suggests nothing.
pub struct DefaultSuggester;

impl DefaultSuggester {
    /// The first history entry extending the current line; nothing for
    /// an empty line.
    pub fn suggest_first(history: &Vec<String>, current: &String) -> (r: Option<String>)
        ensures
            match r {
                Option::Some(s) => current@.len() > 0 && (exists|k: int|
                    0 <= k < history@.len() && s@ == #[trigger] history@[k]@ && current@.is_prefix_of(
                        history@[k]@,
                    ) && (forall|j: int|
                        0 <= j < k ==> !current@.is_prefix_of(#[trigger] history@[j]@))),
                Option::None => current@.len() == 0 || (forall|j: int|
                    0 <= j < history@.len() ==> !current@.is_prefix_of(#[trigger] history@[j]@)),
            },
    {
        if current.as_str().unicode_len() == 0 {
            return Option::None;
        }
        let mut k: usize = 0;
        while k < history.len()
            invariant
                k <= history@.len(),
                current@.len() > 0,
                forall|j: int| 0 <= j < k ==> !current@.is_prefix_of(#[trigger] history@[j]@),
            decreases history@.len() - k,
        {
            if str_starts_with(&history[k], current) {
                return Option::Some(history[k].clone());
            }
            k += 1;
        }
        Option::None
    }
}

impl Suggester for DefaultSuggester {
    fn suggest(&self, history: &Vec<String>, current: &String) -> Option<String> {
        DefaultSuggester::suggest_first(history, current)
    }
}

} // verus!
