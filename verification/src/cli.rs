//! Command-line choices of the renderer.
use vstd::prelude::*;

verus! {

/// What the command line asks for.
pub struct Cli {
    /// The subcommand; rendering when there is none.
    pub command: Option<Commands>,
    /// Overrides the collision mode the description declares.
    pub collision: Option<CollisionMode>,
}

/// Subcommands.
#[derive(Debug, Clone, Copy, PartialEq, Eq, Structural)]
pub enum Commands {
    /// List objects in a diagram (stdin)
    List,
    /// Lint DSL input for errors and warnings (stdin)
    Lint,
    /// Show comprehensive usage guide with examples
    Guide,
}

/// A collision mode chosen on the command line.
#[derive(Debug, Clone, Copy, PartialEq, Eq, Structural)]
pub enum CollisionMode {
    On,
    Off,
}

} // verus!
