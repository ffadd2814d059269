//! The prompt shown before each line is read.

use vstd::prelude::*;
use vstd::string::*;

verus! {

/// The prompt text: the working directory followed by the prompt decoration.
pub fn build_prompt(path: &str, prompt: &str) -> (full_prompt: String)
    ensures
        full_prompt@ == path@ + prompt@,
{
    let mut full_prompt = String::from_str(path);
    full_prompt.append(prompt);
    full_prompt
}

} // verus!
