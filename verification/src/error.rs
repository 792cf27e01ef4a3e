//! Errors surfaced by emulator adapters.
use vstd::prelude::*;

verus! {

/// Adapters are fallible and capability-reporting; a misbehaving emulator
/// surfaces an `AdapterError` rather than panicking the engine.
#[derive(Debug)]
pub enum AdapterError {
    /// No adapter registered for this id.
    UnknownAdapter(String),
    /// Emulator executable not found.
    ExecutableMissing(String),
    /// Capability not supported by this adapter.
    Unsupported(String),
    /// Launch failed.
    Launch(String),
    /// An I/O failure, described.
    Io(String),
}

impl AdapterError {
    /// The error's message, as its `Display` would render it.
    pub fn message(&self) -> (r: String)
        ensures
            r@ == adapter_error_message(*self),
    {
        let (head, tail): (&str, &String) = match self {
            AdapterError::UnknownAdapter(s) => ("no adapter registered for id `", s),
            AdapterError::ExecutableMissing(s) => ("emulator executable not found: ", s),
            AdapterError::Unsupported(s) => ("capability `", s),
            AdapterError::Launch(s) => ("launch failed: ", s),
            AdapterError::Io(s) => ("i/o error: ", s),
        };
        let mut v: Vec<char> = crate::text::chars_of(head);
        let t = crate::text::chars_of(tail.as_str());
        crate::text::push_all(&mut v, &t);
        match self {
            AdapterError::UnknownAdapter(_) => crate::text::push_str(&mut v, "`"),
            AdapterError::Unsupported(_) => {
                crate::text::push_str(&mut v, "` not supported by this adapter")
            },
            _ => {},
        }
        crate::text::string_of(&v)
    }
}

pub open spec fn adapter_error_message(e: AdapterError) -> Seq<char> {
    match e {
        AdapterError::UnknownAdapter(s) => "no adapter registered for id `"@ + s@ + "`"@,
        AdapterError::ExecutableMissing(s) => "emulator executable not found: "@ + s@,
        AdapterError::Unsupported(s) => "capability `"@ + s@ + "` not supported by this adapter"@,
        AdapterError::Launch(s) => "launch failed: "@ + s@,
        AdapterError::Io(s) => "i/o error: "@ + s@,
    }
}

} // verus!
