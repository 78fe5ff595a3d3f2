//! Start-up settings: where the data lives and which UI language is used.
use vstd::prelude::*;

use crate::text::str_eq;

verus! {

/// The value of the first `--data-dir` option that has one: the argument
/// following it. The program name (`args[0]`) is never read as an option.
pub fn data_dir_arg(args: &[String]) -> (r: Option<String>)
    ensures
        r matches Some(v) ==> exists|i: int|
            1 <= i && i + 1 < args@.len() && (#[trigger] args@[i])@ == "--data-dir"@ && v@
                == args@[i + 1]@ && forall|j: int| 1 <= j < i ==> (#[trigger] args@[j])@ != "--data-dir"@,
        r is None ==> forall|j: int| 1 <= j < args@.len() - 1 ==> (#[trigger] args@[j])@ != "--data-dir"@,
{
    let mut i: usize = 1;
    while i < args.len()
        invariant
            1 <= i,
            forall|j: int| 1 <= j < i && j < args@.len() - 1 ==> (#[trigger] args@[j])@ != "--data-dir"@,
        decreases args@.len() - i,
    {
        if str_eq(args[i].as_str(), "--data-dir") && i + 1 < args.len() {
            return Some(args[i + 1].clone());
        }
        i = i + 1;
    }
    None
}

/// The UI language: the stored setting, or English when none is stored.
pub fn ui_locale(stored: Option<String>) -> (l: String)
    ensures
        l@ == (match stored {
            Some(s) => s@,
            None => "en"@,
        }),
{
    match stored {
        Some(s) => s,
        None => String::from_str("en"),
    }
}

} // verus!
