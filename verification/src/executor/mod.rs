//! Running a teardown: what is sent to the cluster, and what its answers mean.

pub mod answers;
pub mod checks;
pub mod cleaning;
pub mod cleanup;
pub mod conduct;
pub mod defer;
pub mod deletion;
pub mod gates;
pub mod phases;
pub mod recovery;
pub mod redelete;
pub mod residual;
pub mod result;
pub mod stripping;
pub mod verdicts;
pub mod waves;
