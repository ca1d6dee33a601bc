//! The surface between the effects engine and a hosted plugin's editor.
use vstd::prelude::*;
use crate::text::{strip_prefix, strip_prefix_of};

verus! {

/// The native window a plugin editor is embedded in.
#[derive(Debug, Clone, Copy, PartialEq, Eq, Structural)]
pub struct ParentWindow {
    pub x11_window: u32,
}

/// A plugin's open editor.
pub trait PluginUi {
    /// Lets the editor do its periodic work.
    fn idle(&mut self);

    /// Tells the editor its window's new size.
    fn resize(&mut self, width: u32, height: u32);

    /// The window of the embedded editor widget, where the editor has one.
    fn widget_window_id(&self) -> (r: Option<u32>)
        default_ensures
            r is None,
    {
        None
    }
}

/// The local path that a `file://` URI names; any other text is kept as it is.
pub open spec fn uri_path(uri: Seq<char>) -> Seq<char> {
    match strip_prefix(uri, "file://"@) {
        Some(rest) => rest,
        None => uri,
    }
}

/// The path behind a bundle or UI binary URI, for loading it from disk.
pub fn file_uri_to_path(uri: &str) -> (r: String)
    ensures
        r@ == uri_path(uri@),
{
    match strip_prefix_of(uri, "file://") {
        Some(rest) => rest,
        None => uri.to_owned(),
    }
}

} // verus!
