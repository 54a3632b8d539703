//! Configured background inputs and their dispatch.
//!
//! An [`Input`] names one configured background collector. Running an input
//! is split in two: [`Input::run`] decides, from the configuration alone,
//! which collector is to be started and with what switches — that decision
//! is verified here — and the surrounding application starts the collector
//! it names, since the collector itself only loops, samples the host and
//! prints.

use vstd::prelude::*;

verus! {

/// One configured background input.
#[derive(Debug, Clone, Copy, PartialEq, Eq)]
pub enum Input {
    /// The processor-load collector, with its two reporting switches.
    Cpu {
        /// Report each processor on its own.
        per_cpu: bool,
        /// Report the total over all processors.
        total_cpu: bool,
    },
}

/// The collector an input stands for, ready to be started.
#[derive(Debug, Clone, Copy, PartialEq, Eq)]
pub enum CollectorPlan {
    /// Sample processor load on a timer and print it.
    Cpu {
        /// Report each processor on its own.
        per_cpu: bool,
        /// Report the total over all processors.
        total_cpu: bool,
    },
}

/// The collector that [`Input::run`] names for a given input.
pub open spec fn spec_plan_of(input: Input) -> CollectorPlan {
    match input {
        Input::Cpu { per_cpu, total_cpu } => CollectorPlan::Cpu { per_cpu, total_cpu },
    }
}

impl Input {
    /// Dispatches this input to the collector it configures. The dispatch
    /// itself cannot fail; the error side carries a message only so that a
    /// collector that cannot start has somewhere to report it.
    pub fn run(self) -> (r: Result<CollectorPlan, String>)
        ensures
            r == Ok::<CollectorPlan, String>(spec_plan_of(self)),
    {
        match self {
            Input::Cpu { per_cpu, total_cpu } => Ok(CollectorPlan::Cpu { per_cpu, total_cpu }),
        }
    }
}

/// The exporter's configuration: the background inputs to start.
#[derive(Debug, Clone, PartialEq, Eq)]
pub struct Settings {
    /// The configured background inputs.
    pub inputs: Vec<Input>,
}

} // verus!
