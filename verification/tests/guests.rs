//! Bringing up guests.

use axvisor_x86::error::VmError;
use axvisor_x86::guest::{
    begin_guest_init, host_filesystem_release_required, init_guest_vm, init_guest_vms, GuestInit,
    HostFilesystem, InitStage,
};
use axvisor_x86::vmcfg::{default_static_vm_configs, filesystem_vm_configs, keep_valid_configs};
use axvm_types::PassThroughPortConfig;
use axvmconfig::AxVMCrateConfig;

const SMALL: &str = r#"
[base]
id = 1
name = "small"
vm_type = 1
cpu_num = 1

[kernel]
entry_point = 0x1000
kernel_path = "kernel.bin"
kernel_load_addr = 0x1000
memory_regions = []

[devices]
emu_devices = []
passthrough_devices = []
"#;

fn guest(release: bool) -> GuestInit {
    let mut config = AxVMCrateConfig::default();
    if release {
        config.kernel.image_location = Some("fs".to_string());
        config.devices.passthrough_ports.push(PassThroughPortConfig {
            base: 1,
            length: 1,
        });
    }
    begin_guest_init(Ok(config)).ok().unwrap()
}

fn run(release: bool, outcomes: &[Result<usize, VmError>]) -> (GuestInit, bool) {
    let mut init = guest(release);
    let mut host = HostFilesystem::new();
    for outcome in outcomes {
        let stage = init.advance(*outcome, &mut host);
        assert_eq!(stage, init.stage());
    }
    let released = host_filesystem_release_required(&host);
    (init, released)
}

#[test]
fn guests_are_brought_up_step_by_step() {
    let mut init = guest(true);
    let mut host = HostFilesystem::new();
    let steps = [
        InitStage::CreateVm,
        InitStage::PrepareMemoryLayout,
        InitStage::RegisterIrqRoutes,
        InitStage::LoadImages,
        InitStage::PrepareVm,
        InitStage::RegisterVm,
        InitStage::RegisterHostFsRoute,
    ];
    for step in steps {
        assert_eq!(init.stage(), step);
        assert_eq!(init.outcome(), None);
        assert!(!host_filesystem_release_required(&host));
        init.advance(Ok(5), &mut host);
    }
    assert_eq!(init.stage(), InitStage::Done);
    assert_eq!(init.outcome(), Some(Ok(5)));
    assert!(host_filesystem_release_required(&host));
}

#[test]
fn the_number_is_that_of_the_created_vm() {
    let outcomes = [Ok(42), Ok(1), Ok(2), Ok(3), Ok(4), Ok(5)];
    let (init, released) = run(false, &outcomes);
    assert_eq!(init.outcome(), Some(Ok(42)));
    assert!(!released);
}

#[test]
fn each_failure_has_its_error() {
    let host_error = VmError::Host { code: -12 };
    let expected = [
        Some(VmError::InvalidData),
        Some(host_error),
        None,
        Some(host_error),
        Some(VmError::InvalidData),
        Some(VmError::AlreadyExists),
        None,
    ];
    for (position, error) in expected.iter().enumerate() {
        let mut outcomes = [Ok(9); 7];
        outcomes[position] = Err(host_error);
        let (init, released) = run(true, &outcomes);
        match error {
            Some(error) => {
                assert_eq!(init.stage(), InitStage::Failed { error: *error });
                assert_eq!(init.outcome(), Some(Err(*error)));
                assert!(!released);
            }
            None => {
                assert_eq!(init.outcome(), Some(Ok(9)));
                assert!(released);
            }
        }
    }
}

#[test]
fn nothing_follows_the_end() {
    let mut outcomes = [Ok(9); 9];
    let (init, _) = run(false, &outcomes);
    assert_eq!(init.outcome(), Some(Ok(9)));
    outcomes[1] = Err(VmError::Unsupported);
    outcomes[4] = Err(VmError::InvalidInput);
    let (init, _) = run(false, &outcomes);
    assert_eq!(init.outcome(), Some(Err(VmError::Unsupported)));
}

#[test]
fn a_released_filesystem_stays_released() {
    let mut host = HostFilesystem::new();
    let mut first = guest(true);
    for _ in 0..7 {
        first.advance(Ok(1), &mut host);
    }
    let mut second = guest(false);
    second.advance(Err(VmError::InvalidInput), &mut host);
    assert!(host_filesystem_release_required(&host));
}

#[test]
fn a_host_without_a_filesystem_has_none_to_release() {
    let mut init = guest(true);
    let mut host = HostFilesystem::absent();
    for _ in 0..6 {
        assert_eq!(init.outcome(), None);
        assert_ne!(init.advance(Ok(8), &mut host), InitStage::RegisterHostFsRoute);
    }
    assert_eq!(init.outcome(), Some(Ok(8)));
    assert!(!host_filesystem_release_required(&host));
}

#[test]
fn there_are_no_built_in_configurations() {
    assert!(default_static_vm_configs().is_empty());
}

#[test]
fn only_configurations_are_taken_from_the_filesystem() {
    assert!(filesystem_vm_configs(None).is_empty());
    let second = SMALL.replace("id = 1", "id = 2");
    let contents = vec![
        "not a configuration".to_string(),
        SMALL.to_string(),
        String::new(),
        second.clone(),
    ];
    assert_eq!(
        filesystem_vm_configs(Some(contents)),
        vec![SMALL.to_string(), second]
    );
}

#[test]
fn verdicts_decide_what_is_kept() {
    let contents: Vec<String> = ["a", "b", "c"].iter().map(|text| text.to_string()).collect();
    assert_eq!(keep_valid_configs(&contents, &vec![true, false, true]), vec!["a", "c"]);
    assert!(keep_valid_configs(&contents, &vec![false, false, false]).is_empty());
}

#[test]
fn static_configurations_are_the_fallback() {
    let fixed = vec!["one", "two"];
    assert_eq!(
        init_guest_vms(vec!["file".to_string()], &fixed),
        vec!["file".to_string()]
    );
    assert_eq!(init_guest_vms(vec![], &fixed), vec!["one".to_string(), "two".to_string()]);
    assert!(init_guest_vms(vec![], &default_static_vm_configs()).is_empty());
}

#[test]
fn a_small_configuration_starts_a_guest() {
    let init = init_guest_vm(SMALL).ok().unwrap();
    assert_eq!(init.stage(), InitStage::CreateVm);
    assert_eq!(init.vm_config(false).id, 1);
    assert_eq!(init.vm_config(false).name, "small");
    assert_eq!(init.vm_config(false).image_config.bios_load_gpa, None);
    assert!(init.irq_routes().is_empty());
}
