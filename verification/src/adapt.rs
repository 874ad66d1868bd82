//! The import-renaming rule of module adaptation: every import of a core
//! module that is not already bound to the compatibility adapter's
//! namespace is renamed to a `module#name` composite and rebound under
//! that fixed namespace; adapter-namespace imports pass through
//! unchanged.

use vstd::prelude::*;
use vstd::string::StringExecFns;

use crate::order::bytes_eq;

verus! {

/// The fixed namespace every import is rebound under.
pub fn adapter_namespace() -> (r: &'static str)
    ensures
        r@ == "wasi_snapshot_preview1"@,
{
    "wasi_snapshot_preview1"
}

/// Is this import already bound to the adapter's namespace?
pub fn is_adapter_module(module: &str) -> (r: bool)
    ensures
        r == (module@ == "wasi_snapshot_preview1"@),
{
    let eq = bytes_eq(module.as_bytes(), "wasi_snapshot_preview1".as_bytes());
    proof {
        vstd::utf8::encode_utf8_decode_utf8(module@);
        vstd::utf8::encode_utf8_decode_utf8("wasi_snapshot_preview1"@);
    }
    eq
}

/// The namespace and name an import is rebound to: adapter-namespace
/// imports keep their module and name; every other import moves under
/// the adapter namespace as the composite `module#name`.
pub fn mangled_import(module: &str, name: &str) -> (r: (String, String))
    ensures
        module@ == "wasi_snapshot_preview1"@ ==> r.0@ == module@ && r.1@ == name@,
        module@ != "wasi_snapshot_preview1"@ ==> r.0@ == "wasi_snapshot_preview1"@ && r.1@
            == module@ + "#"@ + name@,
{
    if is_adapter_module(module) {
        (module.to_owned(), name.to_owned())
    } else {
        let mut composite = module.to_owned();
        composite.append("#");
        composite.append(name);
        (adapter_namespace().to_owned(), composite)
    }
}

} // verus!
