//! Where the static files of the service lie.

use vstd::prelude::*;
use vstd::string::StringExecFns;

verus! {

/// The path of the icon that browsers ask for.
pub fn favicon() -> (r: String)
    ensures
        r@ == "static/favicon.ico"@,
{
    String::from_str("static/favicon.ico")
}

/// The path of a file, below the directory of static files. `file` is a
/// relative path without `..`: the boundary hands on no other.
pub fn all_resources(file: &str) -> (r: String)
    ensures
        r@ == "static/"@ + file@,
{
    String::from_str("static/").concat(file)
}

/// The path of a resource of the pages, below the directory of static
/// files.
pub fn resources(file: &str) -> (r: String)
    ensures
        r@ == "static/resource/"@ + file@,
{
    String::from_str("static/resource/").concat(file)
}

/// The path of a generated file of the pages, below the directory of
/// static files.
pub fn svelte_gen(file: &str) -> (r: String)
    ensures
        r@ == "static/_app/"@ + file@,
{
    String::from_str("static/_app/").concat(file)
}

} // verus!
