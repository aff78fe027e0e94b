use vstd::prelude::*;
use vstd::string::*;

verus! {

/// Failure of the physics engine.
#[derive(Debug, Clone)]
pub enum PhysicsError {
    /// The request does not describe a consistent system.
    InvalidSystem(String),
    /// The integrator reached an inconsistent state.
    IntegrationError(String),
    /// The force field reached an inconsistent state.
    ForceFieldError(String),
}

/// Human-readable text of an error.
pub open spec fn error_text(e: PhysicsError) -> Seq<char> {
    match e {
        PhysicsError::InvalidSystem(m) => "Invalid system configuration: "@ + m@,
        PhysicsError::IntegrationError(m) => "Integration failed: "@ + m@,
        PhysicsError::ForceFieldError(m) => "Force field error: "@ + m@,
    }
}

impl PhysicsError {
    /// Human-readable text of the error.
    pub fn message(&self) -> (r: String)
        ensures
            r@ == error_text(*self),
    {
        match self {
            PhysicsError::InvalidSystem(m) => {
                String::from_str("Invalid system configuration: ").concat(m.as_str())
            },
            PhysicsError::IntegrationError(m) => {
                String::from_str("Integration failed: ").concat(m.as_str())
            },
            PhysicsError::ForceFieldError(m) => {
                String::from_str("Force field error: ").concat(m.as_str())
            },
        }
    }
}

} // verus!
