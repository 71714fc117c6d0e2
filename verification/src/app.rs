//! The application root: the open editors.
//!
//! The surrounding program wires the terminal, the analysis process and the
//! event queue together; the library holds the editors they act on.

use vstd::prelude::*;

use crate::editor::Editor;

verus! {

/// The running application: its open editors.
pub struct App {
    /// The editors, one per open file.
    pub editors: Vec<Editor>,
}

impl App {
    /// An application with no editors open yet.
    pub fn new() -> (r: App)
        ensures
            r.editors@.len() == 0,
    {
        App { editors: Vec::new() }
    }
}

} // verus!
