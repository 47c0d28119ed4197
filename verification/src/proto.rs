//! Messages that keep a cached string form of themselves.
use vstd::prelude::*;

verus! {

/// A message type with a cached string form, which its implementor keeps.
pub trait ProtoExt {
    /// Replaces the cached string form.
    fn _set_string_cache(&mut self, s: &str);

    /// The cached string form.
    fn _get_string_cache(&self) -> &str;
}

} // verus!
