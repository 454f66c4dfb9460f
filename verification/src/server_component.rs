//! The text of a server component's chunk item: a re-export of the
//! underlying module under its chunk-item id, with the id embedded as a
//! quoted literal.

use vstd::prelude::*;
use crate::escape::{append_js_string, js_string_spec};
use crate::strings::append_str;

verus! {

/// The chunk text re-exporting the module registered under `module_id`.
pub fn server_component_chunk_code(module_id: &str) -> (r: String)
    ensures
        r@ == "__turbopack_export_namespace__(__turbopack_import__("@ + js_string_spec(module_id@)
            + "));\n"@,
{
    let mut code = String::new();
    append_str(&mut code, "__turbopack_export_namespace__(__turbopack_import__(");
    append_js_string(&mut code, module_id);
    append_str(&mut code, "));\n");
    proof {
        assert(code@ =~= "__turbopack_export_namespace__(__turbopack_import__("@ + js_string_spec(
            module_id@,
        ) + "));\n"@);
    }
    code
}

} // verus!
