//! What the engine reports of the hardware it runs on.
//!
//! The report is advisory: rendering is the same whatever it says.

use vstd::prelude::*;
use vstd::string::*;

verus! {

/// The rendering mode, `cpu` or `gpu`, and a description of the device.
#[derive(Clone, Debug)]
pub struct HardwareInfo {
    pub mode: String,
    pub device: String,
}

/// What a look at the host found.
pub enum Probe {
    /// The host offers no access to a GPU.
    Headless,
    /// The host offers access, but no adapter answered.
    NoAdapter,
    /// An adapter answered, with its backend and its name.
    Adapter { backend: String, name: String },
}

impl Probe {
    /// The mode that the probe's outcome leads to.
    pub open spec fn mode(&self) -> Seq<char> {
        match self {
            Probe::Adapter { .. } => "gpu"@,
            _ => "cpu"@,
        }
    }

    /// The device description that the probe's outcome leads to.
    pub open spec fn device(&self) -> Seq<char> {
        match self {
            Probe::Headless => "TinySkia / Software (Headless)"@,
            Probe::NoAdapter => "TinySkia / Software (No GPU Adapter Found)"@,
            Probe::Adapter { backend, name } => backend@ + " - "@ + name@,
        }
    }
}

impl HardwareInfo {
    /// The report for a probe's outcome: the GPU where an adapter answered,
    /// software rendering otherwise.
    pub fn from_probe(probe: Probe) -> (info: HardwareInfo)
        ensures
            info.mode@ == probe.mode(),
            info.device@ == probe.device(),
    {
        match probe {
            Probe::Headless => HardwareInfo {
                mode: "cpu".to_owned(),
                device: "TinySkia / Software (Headless)".to_owned(),
            },
            Probe::NoAdapter => HardwareInfo {
                mode: "cpu".to_owned(),
                device: "TinySkia / Software (No GPU Adapter Found)".to_owned(),
            },
            Probe::Adapter { backend, name } => {
                let mut device = backend;
                device.append(" - ");
                device.append(name.as_str());
                HardwareInfo { mode: "gpu".to_owned(), device }
            },
        }
    }
}

} // verus!
