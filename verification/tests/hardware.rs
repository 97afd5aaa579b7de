use ube_core::hardware::{HardwareInfo, Probe};

#[test]
fn a_headless_host_renders_in_software() {
    let info = HardwareInfo::from_probe(Probe::Headless);
    assert_eq!(info.mode, "cpu");
    assert_eq!(info.device, "TinySkia / Software (Headless)");
}

#[test]
fn a_host_without_adapter_renders_in_software() {
    let info = HardwareInfo::from_probe(Probe::NoAdapter);
    assert_eq!(info.mode, "cpu");
    assert_eq!(info.device, "TinySkia / Software (No GPU Adapter Found)");
}

#[test]
fn an_adapter_is_named_with_its_backend() {
    let probe = Probe::Adapter { backend: "Vulkan".to_string(), name: "Radeon RX 580".to_string() };
    let info = HardwareInfo::from_probe(probe);
    assert_eq!(info.mode, "gpu");
    assert_eq!(info.device, "Vulkan - Radeon RX 580");
}
