//! The one computation behind the externally-compiled package mapping: the
//! path under which a package's precompiled copy is shipped.

use vstd::prelude::*;
use crate::strings::append_str;

verus! {

/// The import path of the precompiled copy of `package_name`.
pub fn next_compiled_package_path(package_name: &str) -> (r: String)
    ensures
        r@ == "next/dist/compiled/"@ + package_name@,
{
    let mut path = String::new();
    append_str(&mut path, "next/dist/compiled/");
    append_str(&mut path, package_name);
    proof {
        assert(path@ =~= "next/dist/compiled/"@ + package_name@);
    }
    path
}

} // verus!
