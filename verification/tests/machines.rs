//! Configuration, command line and life cycle of virtual machines.
use realm_virt::virtmgr::common::{
    add_preserved_fd, try_into_non_zero_u32, AudioConfig, AudioConfigParcelable, CommonVmConfig,
    ConfigError, DebugConfig, DebugLevel, DiskFile, DiskRole, DisplayConfig,
    DisplayConfigParcelable, GpuConfig, GpuConfigParcelable, NonZeroU32, Rss, UsbConfig,
    UsbConfigParcelable, VmMetric,
};
use realm_virt::virtmgr::exit_monitor::{ExitAction, ExitEvent, ExitMonitor};
use realm_virt::virtmgr::instance::{
    boot_hangup_timeout, exit_signal, get_guest_time, ramdump_to_send, CommonVmInstance,
    GuestTimeError, PayloadState, VmBackend, VmError, VmState,
};
use realm_virt::virtmgr::kvmtool::{
    annotate_arg, find_fd_paths, format_serial_out_arg, DeathReason, ExitStatus, KvmIpcCmd,
    KvmToolVmBackend, RssError, RunEnvironment, RunVmError,
};
use realm_virt::virtmgr::properties::{use_kvmtool, use_realm};

fn positive(n: u32) -> NonZeroU32 {
    NonZeroU32::new(n).unwrap()
}

fn plain_config() -> CommonVmConfig {
    CommonVmConfig {
        cid: 42,
        name: "vm".to_string(),
        bootloader: None,
        kernel: None,
        initrd: None,
        metadata: None,
        disks: vec![],
        params: None,
        protected: false,
        debug_config: DebugConfig {
            debug_level: DebugLevel::FullyDebuggable,
            prepare_console_output: true,
        },
        memory_mib: positive(256),
        cpus: None,
        host_cpu_topology: false,
        console_out_fd: None,
        console_in_fd: None,
        log_fd: None,
        ramdump: None,
        indirect_files: vec![],
        platform_version: "~1".to_string(),
        detect_hangup: false,
        gdb_port: None,
        dtbo: None,
        device_tree_overlay: None,
        display_config: None,
        input_device_options: vec![],
        hugepages: false,
        tap: None,
        console_input_device: None,
        boost_uclamp: false,
        gpu_config: None,
        audio_config: None,
        no_balloon: true,
        usb_config: UsbConfig { controller: false },
        instance_id: [0xab; 64],
    }
}

fn backend() -> KvmToolVmBackend {
    KvmToolVmBackend::new("/tmp/dir", "vm").unwrap()
}

const BARE: RunEnvironment =
    RunEnvironment { memory_reclaim_supported: false, use_realm: false, network: false };

#[test]
fn plain_command_line() {
    let command = backend().run_vm(&plain_config(), 9, &BARE).unwrap();
    let id = "ab".repeat(64);
    assert_eq!(
        command.args,
        vec![
            "run", "--name", "vm", "--vsock", "42", "--mem", "256",
            "--term-file", "n=0,out=/dev/null,in=/dev/null",
            "--term-file", "n=1,out=/proc/self/fd/9",
            "--term-file", "n=4,out=/dev/null,in=/dev/null",
            "--ipc-dir", "/tmp/dir", "--network", "mode=none", "--debug",
            "--realm-pv-hex", id.as_str(),
        ]
    );
    assert_eq!(command.preserved_fds, vec![9]);
}

#[test]
fn full_command_line() {
    let mut config = plain_config();
    config.no_balloon = false;
    config.ramdump = Some(20);
    config.debug_config.debug_level = DebugLevel::NotDebuggable;
    config.memory_mib = positive(2048);
    config.cpus = Some(positive(3));
    config.indirect_files = vec![10, 11];
    config.console_out_fd = Some(12);
    config.console_in_fd = Some(13);
    config.log_fd = Some(14);
    config.bootloader = Some(15);
    config.initrd = Some(16);
    config.params = Some("quiet".to_string());
    config.disks = vec![
        DiskFile { image: 21, writable: false, role: DiskRole::Undefined },
        DiskFile { image: 22, writable: true, role: DiskRole::EncryptedStore },
        DiskFile { image: 23, writable: true, role: DiskRole::VmInstance },
    ];
    config.kernel = Some(17);
    config.metadata = Some(18);
    config.tap = Some(19);
    let env = RunEnvironment { memory_reclaim_supported: true, use_realm: true, network: true };
    let command = backend().run_vm(&config, 9, &env).unwrap();
    let id = "ab".repeat(64);
    assert_eq!(
        command.args,
        vec![
            "run", "--name", "vm", "--vsock", "42", "--balloon",
            "--params", "crashkernel=17M",
            "--params", "printk.devkmsg=on", "--params", "console=hvc0",
            "--mem", "2048", "--cpus", "3",
            "--term-file", "n=0,out=/proc/self/fd/12,in=/dev/null",
            "--term-file", "n=1,out=/proc/self/fd/9",
            "--term-file", "n=4,out=/proc/self/fd/12,in=/proc/self/fd/13",
            "--firmware", "/proc/self/fd/15", "--initrd", "/proc/self/fd/16",
            "--params", "quiet",
            "--disk", "/proc/self/fd/21",
            "--disk", "/proc/self/fd/22,encryptedstore",
            "--disk", "/proc/self/fd/23,vm-instance",
            "--kernel", "/proc/self/fd/17", "--metadata", "/proc/self/fd/18",
            "--ipc-dir", "/tmp/dir", "--network", "fd=19,nosetip=1", "--debug",
            "--realm", "--restricted_mem", "--realm-pv-hex", id.as_str(),
        ]
    );
    assert_eq!(
        command.preserved_fds,
        vec![10, 11, 12, 13, 14, 9, 20, 15, 16, 21, 22, 23, 17, 18, 19]
    );
}

#[test]
fn console_input_goes_to_the_chosen_device() {
    let mut config = plain_config();
    config.console_in_fd = Some(5);
    config.console_input_device = Some("ttyS0".to_string());
    let command = backend().run_vm(&config, 9, &BARE).unwrap();
    assert!(command.args.contains(&"n=0,out=/dev/null,in=/proc/self/fd/5".to_string()));
    assert!(command.args.contains(&"n=4,out=/dev/null,in=/dev/null".to_string()));
    config.console_input_device = Some("ttyS1".to_string());
    assert_eq!(
        backend().run_vm(&config, 9, &BARE).unwrap_err(),
        RunVmError::UnsupportedSerialDevice("ttyS1".to_string())
    );
}

#[test]
fn options_that_depend_on_more_than_one_setting() {
    let mut config = plain_config();
    config.protected = true;
    config.ramdump = Some(3);
    config.metadata = Some(4);
    config.tap = Some(5);
    let env = RunEnvironment { memory_reclaim_supported: true, use_realm: true, network: false };
    let command = backend().run_vm(&config, 9, &env).unwrap();
    for absent in ["--balloon", "--params", "--metadata"] {
        assert!(!command.args.contains(&absent.to_string()));
    }
    assert!(command.args.contains(&"mode=none".to_string()));
    assert_eq!(command.preserved_fds, vec![9, 3]);
}

#[test]
fn descriptors_are_preserved_under_their_paths() {
    let mut fds = vec![1];
    assert_eq!(add_preserved_fd(&mut fds, 77), "/proc/self/fd/77");
    assert_eq!(format_serial_out_arg(&mut fds, Some(8)), "/proc/self/fd/8");
    assert_eq!(format_serial_out_arg(&mut fds, None), "/dev/null");
    assert_eq!(fds, vec![1, 77, 8]);
}

#[test]
fn control_messages_are_little_endian() {
    let b = backend();
    assert_eq!(b.write_ipc_command(KvmIpcCmd::Stat, None), vec![3, 0, 0, 0, 0, 0, 0, 0]);
    assert_eq!(
        b.write_ipc_command(KvmIpcCmd::Balloon, Some(&[7, 8])),
        vec![1, 0, 0, 0, 2, 0, 0, 0, 7, 8]
    );
    let pause = b.suspend();
    assert_eq!(pause.socket, "/tmp/dir/vm.sock");
    assert_eq!(pause.request, vec![4, 0, 0, 0, 0, 0, 0, 0]);
    assert_eq!(pause.response_size, 0);
    assert_eq!(b.resume().request[0], 5);
    assert_eq!(b.transaction(KvmIpcCmd::Pid, None, 4).response_size, 4);
    assert_eq!(b.get_memory_balloon(), Ok(0));
    assert_eq!(b.set_memory_balloon(1 << 20), Ok(()));
    assert_eq!(b.get_memory_balloon(), Ok(0));
}

#[test]
fn control_commands_are_numbered() {
    let all = [
        KvmIpcCmd::Balloon, KvmIpcCmd::Debug, KvmIpcCmd::Stat, KvmIpcCmd::Pause,
        KvmIpcCmd::Resume, KvmIpcCmd::Stop, KvmIpcCmd::Pid, KvmIpcCmd::VmState,
    ];
    for (i, c) in all.iter().enumerate() {
        assert_eq!(c.code() as usize, i + 1);
    }
}

#[test]
fn resident_set_sizes_are_summed() {
    let b = backend();
    let rss = b.get_rss("Size: 4 kB\nRss:   12 kB\nPss: 1 kB\nRss: 30 kB\n").unwrap();
    assert_eq!((rss.vm, rss.crosvm), (42, 42));
    assert_eq!(b.get_rss("").unwrap().vm, 0);
    assert_eq!(b.get_rss("Rss: 1\nRss:\nRss: x").unwrap_err(), RssError::MissingValue);
    assert_eq!(b.get_rss("Rss: 1 kB\nRss: x").unwrap_err(), RssError::InvalidNumber);
    assert_eq!(
        b.get_rss("Rss: 9223372036854775807\nRss: 1").unwrap_err(),
        RssError::Overflow
    );
}

#[test]
fn deaths_have_reasons() {
    let b = backend();
    let exit = |code| Some(ExitStatus { code: Some(code), signal: None });
    let killed = Some(ExitStatus { code: None, signal: Some(9) });
    assert_eq!(b.translate_death_reason(&None, "HANGUP"), DeathReason::InfrastructureError);
    assert_eq!(b.translate_death_reason(&exit(0), ""), DeathReason::Shutdown);
    assert_eq!(b.translate_death_reason(&exit(7), ""), DeathReason::Unknown);
    assert_eq!(b.translate_death_reason(&killed, ""), DeathReason::Killed);
    for (name, reason) in [
        ("PVM_FIRMWARE_PUBLIC_KEY_MISMATCH", DeathReason::PvmFirmwarePublicKeyMismatch),
        ("PVM_FIRMWARE_INSTANCE_IMAGE_CHANGED", DeathReason::PvmFirmwareInstanceImageChanged),
        (
            "MICRODROID_FAILED_TO_CONNECT_TO_VIRTUALIZATION_SERVICE",
            DeathReason::MicrodroidFailedToConnectToVirtualizationService,
        ),
        ("MICRODROID_PAYLOAD_HAS_CHANGED", DeathReason::MicrodroidPayloadHasChanged),
        (
            "MICRODROID_PAYLOAD_VERIFICATION_FAILED",
            DeathReason::MicrodroidPayloadVerificationFailed,
        ),
        ("MICRODROID_INVALID_PAYLOAD_CONFIG", DeathReason::MicrodroidInvalidPayloadConfig),
        ("MICRODROID_UNKNOWN_RUNTIME_ERROR", DeathReason::MicrodroidUnknownRuntimeError),
        ("HANGUP", DeathReason::Hangup),
    ] {
        assert_eq!(b.translate_death_reason(&killed, name), reason);
        assert_eq!(b.translate_death_reason(&exit(0), &format!("{}|more|info", name)), reason);
    }
    assert_eq!(b.translate_death_reason(&exit(0), "|HANGUP"), DeathReason::Shutdown);
    assert_eq!(b.translate_death_reason(&exit(1), "hangup"), DeathReason::Unknown);
}

#[test]
fn arguments_are_shown_with_real_paths() {
    let parts = find_fd_paths("out=/proc/self/fd/12,in=/proc/self/fd/3").unwrap();
    assert_eq!(parts.paths, vec!["/proc/self/fd/12", "/proc/self/fd/3"]);
    assert_eq!(parts.gaps, vec!["out=", ",in=", ""]);
    let shown = annotate_arg(&parts, &vec![Some("/dev/pts/0".to_string()), None]);
    assert_eq!(shown, "out=/proc/self/fd/12 (/dev/pts/0),in=/proc/self/fd/3");
    let parts = find_fd_paths("--debug").unwrap();
    assert!(parts.paths.is_empty());
    assert_eq!(annotate_arg(&parts, &vec![]), "--debug");
}

#[test]
fn switches_are_read() {
    for switch in [use_kvmtool, use_realm] {
        assert!(switch(Some(true), None));
        assert!(switch(Some(false), Some(true)));
        assert!(switch(None, Some(true)));
        assert!(!switch(None, None));
        assert!(!switch(Some(false), Some(false)));
    }
}

#[test]
fn positive_numbers_are_required() {
    assert_eq!(try_into_non_zero_u32(5).unwrap().get(), 5);
    assert_eq!(try_into_non_zero_u32(0).unwrap_err(), ConfigError::NotPositive);
    assert_eq!(try_into_non_zero_u32(-1).unwrap_err(), ConfigError::OutOfRange);
    assert!(NonZeroU32::new(0).is_none());
}

#[test]
fn device_settings_are_taken_over() {
    let audio =
        AudioConfig::new(&AudioConfigParcelable { use_microphone: true, use_speaker: false });
    assert!(audio.use_microphone && !audio.use_speaker);
    assert!(UsbConfig::new(&UsbConfigParcelable { controller: true }).unwrap().controller);
    let mut raw = DisplayConfigParcelable {
        width: 1,
        height: 2,
        horizontal_dpi: 3,
        vertical_dpi: 4,
        refresh_rate: 5,
    };
    let display = DisplayConfig::new(&raw).unwrap();
    assert_eq!((display.width.get(), display.refresh_rate.get()), (1, 5));
    raw.height = 0;
    raw.refresh_rate = -1;
    assert_eq!(DisplayConfig::new(&raw).unwrap_err(), ConfigError::NotPositive);
    raw.width = -7;
    assert_eq!(DisplayConfig::new(&raw).unwrap_err(), ConfigError::OutOfRange);
    let gpu = GpuConfig::new(&GpuConfigParcelable {
        backend: Some("virglrenderer".to_string()),
        context_types: Some(vec![Some("a".to_string()), None, Some("b".to_string())]),
        pci_address: None,
        renderer_features: None,
        renderer_use_egl: true,
        renderer_use_gles: false,
        renderer_use_glx: false,
        renderer_use_surfaceless: true,
        renderer_use_vulkan: false,
    })
    .unwrap();
    assert_eq!(gpu.backend.as_deref(), Some("virglrenderer"));
    assert_eq!(gpu.context_types, Some(vec!["a".to_string(), "b".to_string()]));
    assert_eq!(gpu.renderer_use_egl, Some(true));
    assert_eq!(gpu.renderer_use_vulkan, Some(false));
}

fn instance() -> CommonVmInstance {
    CommonVmInstance::new(plain_config(), "/tmp/dir".to_string(), 1000, 77, None, true).unwrap()
}

#[test]
fn machines_are_described() {
    let vm = instance();
    assert_eq!(vm.describe(), "Non-protected virtual machine \"vm\" (owner: 1000, cid: 42)");
    let mut config = plain_config();
    config.protected = true;
    let vm = CommonVmInstance::new(config, "/d".to_string(), 0, 1, Some("root".to_string()), false)
        .unwrap();
    assert_eq!(vm.describe(), "Protected virtual machine \"vm\" (owner: root, cid: 42)");
    assert!(matches!(vm.backend(), VmBackend::CrosVm));
    assert_eq!(vm.ramdump_path(), "/d/ramdump");
}

#[test]
fn machines_start_once() {
    let mut vm = instance();
    assert_eq!(vm.kill().unwrap_err(), VmError::NotRunning);
    let config = vm.start(5).unwrap();
    assert_eq!(config.cid, 42);
    assert!(matches!(vm.vm_state, VmState::Failed));
    vm.started(123);
    assert_eq!(vm.start(6).unwrap_err(), VmError::AlreadyStartedOrFailed);
    assert_eq!(vm.vm_metric.start_timestamp, Some(6));
    assert_eq!(vm.kill().unwrap(), 123);
    assert!(vm.killed());
    assert!(!vm.killed());
    vm.exited();
    assert!(matches!(vm.vm_state, VmState::Dead));
    assert_eq!(vm.kill().unwrap_err(), VmError::NotRunning);
    assert_eq!(vm.start(7).unwrap_err(), VmError::AlreadyStartedOrFailed);
}

#[test]
fn payloads_only_go_forward() {
    let mut vm = instance();
    assert_eq!(vm.payload_state(), PayloadState::Starting);
    assert!(vm.awaits_payload());
    vm.update_payload_state(PayloadState::Ready).unwrap();
    assert!(!vm.awaits_payload());
    assert_eq!(
        vm.update_payload_state(PayloadState::Started).unwrap_err(),
        VmError::InvalidPayloadTransition { from: PayloadState::Ready, to: PayloadState::Started }
    );
    assert_eq!(
        vm.update_payload_state(PayloadState::Ready).unwrap_err(),
        VmError::InvalidPayloadTransition { from: PayloadState::Ready, to: PayloadState::Ready }
    );
    vm.update_payload_state(PayloadState::Finished).unwrap();
    assert_eq!(vm.payload_state(), PayloadState::Finished);
    assert!(PayloadState::Finished < PayloadState::Hangup);
}

#[test]
fn metrics_keep_the_largest_sizes() {
    let mut vm = instance();
    assert!(vm.monitor_vm_status(Some(10), Some(Rss { vm: 5, crosvm: 1 })));
    assert!(vm.monitor_vm_status(None, Some(Rss { vm: 3, crosvm: 4 })));
    let rss = vm.vm_metric.rss.unwrap();
    assert_eq!((rss.vm, rss.crosvm, vm.vm_metric.cpu_guest_time), (5, 4, Some(10)));
    vm.exited();
    assert!(!vm.monitor_vm_status(Some(11), None));
    assert_eq!(vm.vm_metric.cpu_guest_time, Some(10));
    let max = Rss::extract_max(&Rss { vm: 1, crosvm: 9 }, &Rss { vm: 2, crosvm: -1 });
    assert_eq!((max.vm, max.crosvm), (2, 9));
    assert_eq!(Rss::default().vm, 0);
    assert!(VmMetric::default().rss.is_none());
}

#[test]
fn hung_machines_are_killed_and_reported() {
    let mut vm = instance();
    assert!(!vm.monitor_payload_hangup(true, false));
    assert!(!vm.monitor_payload_hangup(false, true));
    assert!(vm.monitor_payload_hangup(true, true));
    assert_eq!(vm.payload_state(), PayloadState::Hangup);
    let killed = Some(ExitStatus { code: None, signal: Some(9) });
    let failure = vm.failure(String::new());
    assert_eq!(failure, "HANGUP");
    let report = vm.exit_report(&backend(), &killed, &failure);
    assert_eq!(report.death_reason, DeathReason::Hangup);
    assert_eq!(report.exit_signal, Some(9));
    assert_eq!((report.cid, report.uid, report.name.as_str()), (42, 1000, "vm"));
    let failure = vm.failure("MICRODROID_PAYLOAD_HAS_CHANGED".to_string());
    let report = vm.exit_report(&backend(), &killed, &failure);
    assert_eq!(report.death_reason, DeathReason::MicrodroidPayloadHasChanged);
    vm.requester_uid = u32::MAX;
    let report = vm.exit_report(&backend(), &None, "");
    assert_eq!((report.uid, report.exit_signal), (-1, None));
    assert_eq!(report.death_reason, DeathReason::InfrastructureError);
    assert_eq!(exit_signal(&None), None);
}

#[test]
fn exits_are_handled_step_by_step() {
    let mut vm = instance();
    vm.start(1).unwrap();
    vm.started(5);
    let b = backend();
    let mut monitor = ExitMonitor::new(true);
    let status = Some(ExitStatus { code: Some(0), signal: None });
    let a = monitor.monitor_vm_exit(&mut vm, &b, ExitEvent::Process(status));
    assert!(matches!(a, ExitAction::ReadFailure { check_stall: true }));
    assert!(matches!(vm.vm_state, VmState::Dead));
    let reason = "MICRODROID_UNKNOWN_RUNTIME_ERROR|details".to_string();
    let a = monitor.monitor_vm_exit(&mut vm, &b, ExitEvent::Failure(reason));
    assert!(matches!(a, ExitAction::HandleRamdump));
    match monitor.monitor_vm_exit(&mut vm, &b, ExitEvent::Ramdump) {
        ExitAction::Report(report) => {
            assert_eq!(report.death_reason, DeathReason::MicrodroidUnknownRuntimeError);
            assert_eq!(report.vm_metric.start_timestamp, Some(1));
        }
        _ => panic!("nothing is reported"),
    }
    let a = monitor.monitor_vm_exit(&mut vm, &b, ExitEvent::Reported);
    assert!(matches!(a, ExitAction::RemoveFiles));
    let a = monitor.monitor_vm_exit(&mut vm, &b, ExitEvent::FilesRemoved);
    assert!(matches!(a, ExitAction::DeleteTap));
    let a = monitor.monitor_vm_exit(&mut vm, &b, ExitEvent::TapDeleted);
    assert!(matches!(a, ExitAction::End));

    let mut monitor = ExitMonitor::new(false);
    let a = monitor.monitor_vm_exit(&mut vm, &b, ExitEvent::Process(None));
    assert!(matches!(a, ExitAction::ReadFailure { check_stall: false }));
    monitor.monitor_vm_exit(&mut vm, &b, ExitEvent::Failure(String::new()));
    monitor.monitor_vm_exit(&mut vm, &b, ExitEvent::Ramdump);
    monitor.monitor_vm_exit(&mut vm, &b, ExitEvent::Reported);
    let a = monitor.monitor_vm_exit(&mut vm, &b, ExitEvent::FilesRemoved);
    assert!(matches!(a, ExitAction::End));
}

#[test]
fn machines_are_paused_by_their_backend() {
    assert_eq!(instance().suspend().unwrap().request[0], 4);
    assert_eq!(instance().resume().unwrap().request[0], 5);
    let vm = CommonVmInstance::new(plain_config(), "/d".to_string(), 0, 1, None, false).unwrap();
    assert!(vm.suspend().is_none() && vm.resume().is_none());
}

#[test]
fn memory_balloons_are_set_through_the_backend() {
    assert_eq!(instance().set_memory_balloon(4096), Some(Ok(())));
    assert_eq!(instance().get_memory_balloon(), Some(Ok(0)));
    let vm = CommonVmInstance::new(plain_config(), "/d".to_string(), 0, 1, None, false).unwrap();
    assert_eq!(vm.set_memory_balloon(4096), None);
    assert_eq!(vm.get_memory_balloon(), None);
}

#[test]
fn timeouts_and_dumps() {
    assert_eq!(boot_hangup_timeout(false), 30);
    assert_eq!(boot_hangup_timeout(true), 3000);
    assert!(ramdump_to_send(true, 1));
    assert!(!ramdump_to_send(true, 0));
    assert!(!ramdump_to_send(false, 1));
}

#[test]
fn guest_time_is_the_forty_third_field() {
    let stat = |field: &str| format!("{}{} 0 0\n", "1 ".repeat(42), field);
    assert_eq!(get_guest_time(&stat("250"), 100).unwrap(), 2500);
    assert_eq!(get_guest_time(&stat("-7"), 3).unwrap(), -2333);
    assert_eq!(get_guest_time("1 2 3", 100).unwrap_err(), GuestTimeError::TooFewFields);
    assert_eq!(get_guest_time(&stat("x"), 100).unwrap_err(), GuestTimeError::InvalidNumber);
    assert_eq!(
        get_guest_time(&stat("9223372036854775807"), 100).unwrap_err(),
        GuestTimeError::Overflow
    );
}
