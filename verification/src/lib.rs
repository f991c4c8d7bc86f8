//! Thermal-aware CPU affinity control for sustained on-device inference.
//!
//! The frequency files of a chip are read ([`probe`]) and its cores ordered
//! ([`sorting`]) and grouped by their maximum clock frequency
//! ([`topology`]). The chip is put into a capability tier ([`soc`]) with a
//! fixed thermal policy ([`policy`]). A mode machine ([`mode`], [`manager`])
//! driven by buffer and speed telemetry ([`window`]) names the cores to run
//! on ([`selection`]); it reads the time from its caller or from its own
//! clock ([`clock`]). What holds of the machine over whole runs is proved in
//! [`laws`].

pub mod clock;
pub mod laws;
pub mod manager;
pub mod mode;
pub mod policy;
pub mod probe;
pub mod selection;
pub mod soc;
pub mod sorting;
pub mod topology;
pub mod window;

pub use crate::manager::{UnifiedThermalManager, UpdateOutcome};
pub use crate::mode::ThermalMode;
pub use crate::policy::{CoreSelection, ThermalConfig};
pub use crate::soc::SocClass;
pub use crate::topology::CpuTopology;
