//! Circuit simulation kernels: modified nodal analysis, Newton iteration, implicit
//! integration.
//!
//! A circuit is described by a [`netlist`], laid out in a matrix as [`compiled`]
//! says, and simulated by [`transient`] steps from the operating point that [`dc`]
//! finds.  [`simulator`] puts the three behind one type.
//!
//! The layers below:
//!
//! - [`number`] is what the solver asks of a number type; [`fixed`] is one.
//! - [`equations`] is the linear system and the stamps that elements make in it;
//!   [`companion`] stamps what stays fixed during a step, [`relays`] the relays.
//! - [`newton`] refines an estimate, [`commit`] writes it into the [`state`].
//! - [`kernel`] is what the solver calls out for: netlist compilation, device
//!   models and factorisation.  Nothing is assumed of its answers.
//! - [`laws`] states what holds of all of it together.
pub mod commit;
pub mod companion;
pub mod compiled;
pub mod dc;
pub mod elimination;
pub mod equations;
pub mod fixed;
pub mod kernel;
pub mod laws;
pub mod netlist;
pub mod newton;
pub mod number;
pub mod relays;
pub mod simulator;
pub mod state;
pub mod transient;
pub mod types;
