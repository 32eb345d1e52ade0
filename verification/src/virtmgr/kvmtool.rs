//! Running virtual machines with kvmtool (`lkvm`): its command line, its control socket and the
//! measurements taken of its process.
use crate::bytes::{hex_encode, hex_text, le32, push_le32};
use crate::path::{join, joined};
use crate::text::{
    before_first, concat, contains, contains_text, cut_before_first, decimal, i32_to_text,
    lemma_first_index, lines, parse_i64, parse_signed, signed_decimal, split_lines,
    split_whitespace, str_eq, texts, u64_to_text, words,
};
use crate::virtmgr::common::{
    add_preserved_fd, fd_path, CommonVmConfig, DebugConfig, DebugLevel, DiskFile, DiskRole, Fd, Rss,
};
use vstd::prelude::*;

verus! {

/// Where the program is installed.
pub const KVMTOOL_PATH: &'static str = "/apex/com.android.virt/bin/lkvm";

/// Serial device for console input: the virtio console.
pub const CONSOLE_HVC0: &'static str = "hvc0";

/// Serial device for console input: the emulated UART.
pub const CONSOLE_TTYS0: &'static str = "ttyS0";

/// The memory (in MiB) reserved for a ram dump.
pub const RAMDUMP_RESERVED_MIB: u32 = 17;

/// The memory (in MiB) of a realm that hosts the confidential computing services.
pub const CC_SERVICE_VM_DEFAULT_MEM_SIZE: u32 = 2048;

/// Where output goes that nobody reads.
pub const NULL_SINK: &'static str = "/dev/null";

/// Why kvmtool cannot do what is asked of it.
#[derive(Debug, PartialEq, Eq)]
pub enum RunVmError {
    /// The console input device, given here, is neither of the two that exist.
    UnsupportedSerialDevice(String),
}

/// What the command line depends on besides the configuration.
#[derive(Debug, Clone, Copy)]
pub struct RunEnvironment {
    /// The hypervisor supports reclaiming memory.
    pub memory_reclaim_supported: bool,
    /// Virtual machines run as realms.
    pub use_realm: bool,
    /// Networking is built in.
    pub network: bool,
}

/// A command line and the descriptors that the process inherits.
#[derive(Debug)]
pub struct KvmtoolCommand {
    pub args: Vec<String>,
    pub preserved_fds: Vec<Fd>,
}

// ---------------------------------------------------------------------------
// What the command line is
// ---------------------------------------------------------------------------

/// `args` where `on` holds, nothing otherwise.
pub open spec fn only_if(on: bool, args: Seq<Seq<char>>) -> Seq<Seq<char>> {
    if on {
        args
    } else {
        Seq::empty()
    }
}

/// The descriptor, where there is one.
pub open spec fn fd_if(fd: Option<Fd>) -> Seq<Fd> {
    match fd {
        Some(f) => seq![f],
        None => Seq::empty(),
    }
}

/// An option whose value is the path of a descriptor, where there is one.
pub open spec fn fd_option(name: Seq<char>, fd: Option<Fd>) -> Seq<Seq<char>> {
    match fd {
        Some(f) => seq![name, fd_path(f)],
        None => Seq::empty(),
    }
}

/// Where a serial device writes to or reads from.
pub open spec fn serial_path(fd: Option<Fd>) -> Seq<char> {
    match fd {
        Some(f) => fd_path(f),
        None => NULL_SINK@,
    }
}

/// The serial device that console input goes to.
pub open spec fn console_input_device(config: CommonVmConfig) -> Seq<char> {
    match config.console_input_device {
        Some(d) => d@,
        None => CONSOLE_HVC0@,
    }
}

/// Where the given serial device takes its input from.
pub open spec fn console_in_path(config: CommonVmConfig, device: Seq<char>) -> Seq<char> {
    if console_input_device(config) == device {
        serial_path(config.console_in_fd)
    } else {
        NULL_SINK@
    }
}

/// Name, identity, memory and processors.
pub open spec fn machine_args(config: CommonVmConfig, env: RunEnvironment) -> Seq<Seq<char>> {
    seq!["run"@, "--name"@, config.name@, "--vsock"@, decimal(config.cid as nat)] + only_if(
        env.memory_reclaim_supported && !config.no_balloon,
        seq!["--balloon"@],
    ) + only_if(
        !config.protected && config.ramdump is Some,
        seq!["--params"@, "crashkernel="@ + decimal(RAMDUMP_RESERVED_MIB as nat) + "M"@],
    ) + only_if(
        config.debug_config.debug_level == DebugLevel::NotDebuggable
            && config.debug_config.prepare_console_output,
        seq!["--params"@, "printk.devkmsg=on"@, "--params"@, "console=hvc0"@],
    ) + seq!["--mem"@, decimal(config.memory_mib@ as nat)] + match config.cpus {
        Some(n) => seq!["--cpus"@, decimal(n@ as nat)],
        None => Seq::empty(),
    }
}

/// The serial devices: the emulated UART, the failure report and the virtio console.
pub open spec fn serial_args(config: CommonVmConfig, failure_pipe: Fd) -> Seq<Seq<char>> {
    seq![
        "--term-file"@,
        "n=0,out="@ + serial_path(config.console_out_fd) + ",in="@ + console_in_path(
            config,
            CONSOLE_TTYS0@,
        ),
        "--term-file"@,
        "n=1,out="@ + fd_path(failure_pipe),
        "--term-file"@,
        "n=4,out="@ + serial_path(config.console_out_fd) + ",in="@ + console_in_path(
            config,
            CONSOLE_HVC0@,
        ),
    ]
}

/// How a disk is marked by its role.
pub open spec fn role_suffix(role: DiskRole) -> Seq<char> {
    match role {
        DiskRole::Undefined => Seq::empty(),
        DiskRole::EncryptedStore => ",encryptedstore"@,
        DiskRole::VmInstance => ",vm-instance"@,
    }
}

/// The disks, in order.
pub open spec fn disk_args(disks: Seq<DiskFile>) -> Seq<Seq<char>>
    decreases disks.len(),
{
    if disks.len() == 0 {
        Seq::empty()
    } else {
        disk_args(disks.drop_last()) + seq![
            "--disk"@,
            fd_path(disks.last().image) + role_suffix(disks.last().role),
        ]
    }
}

/// The realm metadata that is handed on: only realms with the memory size of the confidential
/// computing services get any.
pub open spec fn used_metadata(config: CommonVmConfig, env: RunEnvironment) -> Option<Fd> {
    if env.use_realm && config.memory_mib@ == CC_SERVICE_VM_DEFAULT_MEM_SIZE {
        config.metadata
    } else {
        None
    }
}

/// The network device that is handed on.
pub open spec fn used_tap(config: CommonVmConfig, env: RunEnvironment) -> Option<Fd> {
    if env.network {
        config.tap
    } else {
        None
    }
}

/// What the virtual machine boots from, and its disks.
pub open spec fn boot_args(config: CommonVmConfig, env: RunEnvironment) -> Seq<Seq<char>> {
    fd_option("--firmware"@, config.bootloader) + fd_option("--initrd"@, config.initrd) + (
    match config.params {
        Some(p) => seq!["--params"@, p@],
        None => Seq::empty(),
    }) + disk_args(config.disks@) + fd_option("--kernel"@, config.kernel) + fd_option(
        "--metadata"@,
        used_metadata(config, env),
    )
}

/// The control directory, the network and the realm.
pub open spec fn system_args(config: CommonVmConfig, dir: Seq<char>, env: RunEnvironment) -> Seq<
    Seq<char>,
> {
    seq!["--ipc-dir"@, dir, "--network"@] + match used_tap(config, env) {
        Some(tap) => seq![
            "fd="@ + signed_decimal(tap as int) + ",nosetip=1"@,
            "--debug"@,
        ],
        None => seq!["mode=none"@, "--debug"@],
    } + only_if(env.use_realm, seq!["--realm"@, "--restricted_mem"@]) + seq![
        "--realm-pv-hex"@,
        hex_text(config.instance_id@),
    ]
}

/// The whole command line.
#[verifier::opaque]
pub open spec fn command_args(
    config: CommonVmConfig,
    failure_pipe: Fd,
    dir: Seq<char>,
    env: RunEnvironment,
) -> Seq<Seq<char>> {
    machine_args(config, env) + serial_args(config, failure_pipe) + boot_args(config, env)
        + system_args(config, dir, env)
}

/// The descriptors of the disks, in order.
pub open spec fn disk_fds(disks: Seq<DiskFile>) -> Seq<Fd> {
    disks.map_values(|d: DiskFile| d.image)
}

/// The descriptors that the process inherits.
#[verifier::opaque]
pub open spec fn command_fds(config: CommonVmConfig, failure_pipe: Fd, env: RunEnvironment) -> Seq<
    Fd,
> {
    config.indirect_files@ + fd_if(config.console_out_fd) + fd_if(config.console_in_fd) + fd_if(
        config.log_fd,
    ) + seq![failure_pipe] + fd_if(config.ramdump) + fd_if(config.bootloader) + fd_if(config.initrd)
        + disk_fds(config.disks@) + fd_if(config.kernel) + fd_if(used_metadata(config, env))
        + fd_if(used_tap(config, env))
}

// ---------------------------------------------------------------------------
// Building it
// ---------------------------------------------------------------------------

impl KvmtoolCommand {
    /// The contents of the arguments.
    pub open spec fn args_view(self) -> Seq<Seq<char>> {
        texts(self.args@)
    }

    fn arg(&mut self, value: &str)
        ensures
            final(self).args_view() == old(self).args_view().push(value@),
            final(self).preserved_fds@ == old(self).preserved_fds@,
    {
        let s: String = value.to_owned();
        proof {
            crate::text::lemma_texts_push(self.args@, s);
        }
        self.args.push(s);
    }

    fn option(&mut self, name: &str, value: &str)
        ensures
            final(self).args_view() == old(self).args_view() + seq![name@, value@],
            final(self).preserved_fds@ == old(self).preserved_fds@,
    {
        self.arg(name);
        self.arg(value);
        assert(self.args_view() =~= old(self).args_view() + seq![name@, value@]);
    }

    fn fd_option(&mut self, name: &str, fd: Option<Fd>)
        ensures
            final(self).args_view() == old(self).args_view() + fd_option(name@, fd),
            final(self).preserved_fds@ == old(self).preserved_fds@ + fd_if(fd),
    {
        match fd {
            Some(f) => {
                let path: String = add_preserved_fd(&mut self.preserved_fds, f);
                self.option(name, path.as_str());
            },
            None => {},
        }
        assert(self.args_view() =~= old(self).args_view() + fd_option(name@, fd));
        assert(self.preserved_fds@ =~= old(self).preserved_fds@ + fd_if(fd));
    }

    fn machine(&mut self, config: &CommonVmConfig, env: &RunEnvironment)
        ensures
            final(self).args_view() == old(self).args_view() + machine_args(*config, *env),
            final(self).preserved_fds@ == old(self).preserved_fds@,
    {
        self.arg("run");
        self.option("--name", config.name.as_str());
        let cid: String = u64_to_text(config.cid as u64);
        self.option("--vsock", cid.as_str());
        if env.memory_reclaim_supported && !config.no_balloon {
            self.arg("--balloon");
        }
        if !config.protected && config.ramdump.is_some() {
            let size: String = u64_to_text(RAMDUMP_RESERVED_MIB as u64);
            let param: String = concat("crashkernel=", size.as_str());
            let param: String = concat(param.as_str(), "M");
            self.option("--params", param.as_str());
        }
        if config.debug_config.debug_level == DebugLevel::NotDebuggable
            && config.debug_config.prepare_console_output {
            self.option("--params", "printk.devkmsg=on");
            self.option("--params", "console=hvc0");
        }
        let memory: String = u64_to_text(config.memory_mib.get() as u64);
        self.option("--mem", memory.as_str());
        match &config.cpus {
            Some(n) => {
                let cpus: String = u64_to_text(n.get() as u64);
                self.option("--cpus", cpus.as_str());
            },
            None => {},
        }
        assert(self.args_view() =~= old(self).args_view() + machine_args(*config, *env));
    }

    fn serial(&mut self, config: &CommonVmConfig, failure_pipe: Fd) -> (r: Result<(), RunVmError>)
        ensures
            r is Ok <==> console_input_device(*config) == CONSOLE_HVC0@ || console_input_device(
                *config,
            ) == CONSOLE_TTYS0@,
            r matches Err(RunVmError::UnsupportedSerialDevice(d)) ==> d@ == console_input_device(
                *config,
            ),
            r is Ok ==> final(self).args_view() == old(self).args_view() + serial_args(
                *config,
                failure_pipe,
            ),
            r is Ok ==> final(self).preserved_fds@ == old(self).preserved_fds@ + fd_if(
                config.console_out_fd,
            ) + fd_if(config.console_in_fd) + fd_if(config.log_fd) + seq![failure_pipe] + fd_if(
                config.ramdump,
            ),
    {
        let console_out: String = format_serial_out_arg(
            &mut self.preserved_fds,
            config.console_out_fd,
        );
        let console_in: String = format_serial_out_arg(
            &mut self.preserved_fds,
            config.console_in_fd,
        );
        let _log: String = format_serial_out_arg(&mut self.preserved_fds, config.log_fd);
        let failure: String = add_preserved_fd(&mut self.preserved_fds, failure_pipe);
        let _ramdump: String = format_serial_out_arg(&mut self.preserved_fds, config.ramdump);
        assert(self.preserved_fds@ =~= old(self).preserved_fds@ + fd_if(config.console_out_fd)
            + fd_if(config.console_in_fd) + fd_if(config.log_fd) + seq![failure_pipe] + fd_if(
            config.ramdump,
        ));
        let device: &str = match &config.console_input_device {
            Some(d) => d.as_str(),
            None => CONSOLE_HVC0,
        };
        let hvc0: bool = str_eq(device, CONSOLE_HVC0);
        let ttys0: bool = str_eq(device, CONSOLE_TTYS0);
        if !hvc0 && !ttys0 {
            return Err(RunVmError::UnsupportedSerialDevice(device.to_owned()));
        }
        let uart: String = term_file(
            "n=0,out=",
            console_out.as_str(),
            if ttys0 {
                console_in.as_str()
            } else {
                NULL_SINK
            },
        );
        self.option("--term-file", uart.as_str());
        let report: String = concat("n=1,out=", failure.as_str());
        self.option("--term-file", report.as_str());
        let console: String = term_file(
            "n=4,out=",
            console_out.as_str(),
            if hvc0 {
                console_in.as_str()
            } else {
                NULL_SINK
            },
        );
        self.option("--term-file", console.as_str());
        assert(self.args_view() =~= old(self).args_view() + serial_args(*config, failure_pipe));
        Ok(())
    }

    fn disks(&mut self, disks: &Vec<DiskFile>)
        ensures
            final(self).args_view() == old(self).args_view() + disk_args(disks@),
            final(self).preserved_fds@ == old(self).preserved_fds@ + disk_fds(disks@),
    {
        let mut i: usize = 0;
        assert(self.args_view() =~= old(self).args_view() + disk_args(disks@.take(0)));
        assert(self.preserved_fds@ =~= old(self).preserved_fds@ + disk_fds(disks@.take(0)));
        while i < disks.len()
            invariant
                i <= disks@.len(),
                self.args_view() == old(self).args_view() + disk_args(disks@.take(i as int)),
                self.preserved_fds@ == old(self).preserved_fds@ + disk_fds(disks@.take(i as int)),
            decreases disks@.len() - i,
        {
            let ghost next = disks@.take(i + 1);
            assert(next.drop_last() =~= disks@.take(i as int));
            let disk: DiskFile = disks[i];
            let mut param: String = add_preserved_fd(&mut self.preserved_fds, disk.image);
            match disk.role {
                DiskRole::EncryptedStore => {
                    param.append(",encryptedstore");
                },
                DiskRole::VmInstance => {
                    param.append(",vm-instance");
                },
                DiskRole::Undefined => {},
            }
            assert(param@ =~= fd_path(disk.image) + role_suffix(disk.role));
            self.option("--disk", param.as_str());
            assert(self.args_view() =~= old(self).args_view() + disk_args(next));
            assert(self.preserved_fds@ =~= old(self).preserved_fds@ + disk_fds(next));
            i = i + 1;
        }
        assert(disks@.take(disks@.len() as int) =~= disks@);
    }

    fn boot(&mut self, config: &CommonVmConfig, env: &RunEnvironment)
        ensures
            final(self).args_view() == old(self).args_view() + boot_args(*config, *env),
            final(self).preserved_fds@ == old(self).preserved_fds@ + fd_if(config.bootloader)
                + fd_if(config.initrd) + disk_fds(config.disks@) + fd_if(config.kernel) + fd_if(
                used_metadata(*config, *env),
            ),
    {
        self.fd_option("--firmware", config.bootloader);
        self.fd_option("--initrd", config.initrd);
        match &config.params {
            Some(p) => {
                self.option("--params", p.as_str());
            },
            None => {},
        }
        self.disks(&config.disks);
        self.fd_option("--kernel", config.kernel);
        let metadata: Option<Fd> = if env.use_realm && config.memory_mib.get()
            == CC_SERVICE_VM_DEFAULT_MEM_SIZE {
            config.metadata
        } else {
            None
        };
        self.fd_option("--metadata", metadata);
        assert(self.args_view() =~= old(self).args_view() + boot_args(*config, *env));
    }

    fn system(&mut self, config: &CommonVmConfig, dir: &str, env: &RunEnvironment)
        ensures
            final(self).args_view() == old(self).args_view() + system_args(*config, dir@, *env),
            final(self).preserved_fds@ == old(self).preserved_fds@ + fd_if(used_tap(*config, *env)),
    {
        self.option("--ipc-dir", dir);
        self.arg("--network");
        let tap: Option<Fd> = if env.network {
            config.tap
        } else {
            None
        };
        match tap {
            Some(f) => {
                let _path: String = add_preserved_fd(&mut self.preserved_fds, f);
                let number: String = i32_to_text(f);
                let device: String = concat("fd=", number.as_str());
                let device: String = concat(device.as_str(), ",nosetip=1");
                self.arg(device.as_str());
            },
            None => {
                self.arg("mode=none");
            },
        }
        self.arg("--debug");
        if env.use_realm {
            self.arg("--realm");
            self.arg("--restricted_mem");
        }
        let personalization: String = hex_encode(config.instance_id.as_slice());
        self.option("--realm-pv-hex", personalization.as_str());
        assert(self.args_view() =~= old(self).args_view() + system_args(*config, dir@, *env));
        assert(self.preserved_fds@ =~= old(self).preserved_fds@ + fd_if(used_tap(*config, *env)));
    }
}

/// Where a serial device writes to: a descriptor that is then preserved, or nowhere.
pub fn format_serial_out_arg(preserved_fds: &mut Vec<Fd>, file: Option<Fd>) -> (r: String)
    ensures
        final(preserved_fds)@ == old(preserved_fds)@ + fd_if(file),
        r@ == serial_path(file),
{
    let r: String = match file {
        Some(f) => add_preserved_fd(preserved_fds, f),
        None => NULL_SINK.to_owned(),
    };
    assert(preserved_fds@ =~= old(preserved_fds)@ + fd_if(file));
    r
}

fn term_file(head: &str, output: &str, input: &str) -> (r: String)
    ensures
        r@ == head@ + output@ + ",in="@ + input@,
{
    let s: String = concat(head, output);
    let s: String = concat(s.as_str(), ",in=");
    concat(s.as_str(), input)
}

/// A virtual machine that kvmtool runs, as far as its control files are concerned.
#[derive(Debug)]
pub struct KvmToolVmBackend {
    kvmtool_sock: String,
    temporary_dir: String,
}

impl KvmToolVmBackend {
    /// The path of the control socket.
    pub closed spec fn socket(&self) -> Seq<char> {
        self.kvmtool_sock@
    }

    /// The directory of the control files.
    pub closed spec fn directory(&self) -> Seq<char> {
        self.temporary_dir@
    }

    /// The backend of the virtual machine `name`, whose control socket is `name` with the
    /// extension `.sock` in the given directory.
    pub fn new(temporary_dir: &str, name: &str) -> (r: Result<KvmToolVmBackend, RunVmError>)
        ensures
            r matches Ok(b) && b.socket() == joined(temporary_dir@, name@ + ".sock"@)
                && b.directory() == temporary_dir@,
    {
        let file: String = concat(name, ".sock");
        Ok(
            KvmToolVmBackend {
                kvmtool_sock: join(temporary_dir, file.as_str()),
                temporary_dir: temporary_dir.to_owned(),
            },
        )
    }

    /// The command that runs a virtual machine.
    pub fn run_vm(
        &self,
        config: &CommonVmConfig,
        failure_pipe_write: Fd,
        env: &RunEnvironment,
    ) -> (r: Result<KvmtoolCommand, RunVmError>)
        ensures
            match r {
                Ok(c) => {
                    &&& console_input_device(*config) == CONSOLE_HVC0@ || console_input_device(
                        *config,
                    ) == CONSOLE_TTYS0@
                    &&& c.args_view() == command_args(
                        *config,
                        failure_pipe_write,
                        self.directory(),
                        *env,
                    )
                    &&& c.preserved_fds@ == command_fds(*config, failure_pipe_write, *env)
                },
                Err(e) => {
                    &&& console_input_device(*config) != CONSOLE_HVC0@
                    &&& console_input_device(*config) != CONSOLE_TTYS0@
                    &&& e matches RunVmError::UnsupportedSerialDevice(d)
                    &&& d@ == console_input_device(*config)
                },
            },
            r is Err <==> (config.console_input_device matches Some(d) && d@ != "hvc0"@ && d@
                != "ttyS0"@),
            r matches Err(RunVmError::UnsupportedSerialDevice(d)) ==> config.console_input_device
                == Some(d) || (config.console_input_device matches Some(c) && c@ == d@),
    {
        let mut fds: Vec<Fd> = Vec::new();
        let mut i: usize = 0;
        while i < config.indirect_files.len()
            invariant
                i <= config.indirect_files@.len(),
                fds@ == config.indirect_files@.take(i as int),
            decreases config.indirect_files@.len() - i,
        {
            fds.push(config.indirect_files[i]);
            i = i + 1;
            assert(fds@ =~= config.indirect_files@.take(i as int));
        }
        assert(fds@ =~= config.indirect_files@);
        let mut command: KvmtoolCommand = KvmtoolCommand { args: Vec::new(), preserved_fds: fds };
        assert(command.args_view() =~= Seq::<Seq<char>>::empty());
        command.machine(config, env);
        assert(command.args_view() =~= machine_args(*config, *env));
        match command.serial(config, failure_pipe_write) {
            Ok(()) => {},
            Err(e) => {
                return Err(e);
            },
        }
        command.boot(config, env);
        command.system(config, self.temporary_dir.as_str(), env);
        proof {
            reveal(command_args);
            reveal(command_fds);
        }
        assert(command.preserved_fds@ =~= command_fds(*config, failure_pipe_write, *env));
        Ok(command)
    }
}

// ---------------------------------------------------------------------------
// The control socket
// ---------------------------------------------------------------------------

/// Statistics slots of the memory balloon.
pub const VIRTIO_BALLOON_S_SWAP_IN: usize = 0;

pub const VIRTIO_BALLOON_S_SWAP_OUT: usize = 1;

pub const VIRTIO_BALLOON_S_MAJFLT: usize = 2;

pub const VIRTIO_BALLOON_S_MINFLT: usize = 3;

pub const VIRTIO_BALLOON_S_MEMFREE: usize = 4;

pub const VIRTIO_BALLOON_S_MEMTOT: usize = 5;

pub const VIRTIO_BALLOON_S_AVAIL: usize = 6;

pub const VIRTIO_BALLOON_S_CACHES: usize = 7;

pub const VIRTIO_BALLOON_S_HTLB_PGALLOC: usize = 8;

pub const VIRTIO_BALLOON_S_HTLB_PGFAIL: usize = 9;

pub const VIRTIO_BALLOON_S_NR: usize = 10;

/// A command on the control socket.
#[derive(Debug, Clone, Copy, PartialEq, Eq, Structural)]
pub enum KvmIpcCmd {
    Balloon,
    Debug,
    Stat,
    Pause,
    Resume,
    Stop,
    Pid,
    VmState,
}

impl KvmIpcCmd {
    /// The number of the command.
    pub open spec fn number(self) -> u32 {
        match self {
            KvmIpcCmd::Balloon => 1,
            KvmIpcCmd::Debug => 2,
            KvmIpcCmd::Stat => 3,
            KvmIpcCmd::Pause => 4,
            KvmIpcCmd::Resume => 5,
            KvmIpcCmd::Stop => 6,
            KvmIpcCmd::Pid => 7,
            KvmIpcCmd::VmState => 8,
        }
    }

    /// The number of the command.
    pub fn code(self) -> (r: u32)
        ensures
            r == self.number(),
    {
        match self {
            KvmIpcCmd::Balloon => 1,
            KvmIpcCmd::Debug => 2,
            KvmIpcCmd::Stat => 3,
            KvmIpcCmd::Pause => 4,
            KvmIpcCmd::Resume => 5,
            KvmIpcCmd::Stop => 6,
            KvmIpcCmd::Pid => 7,
            KvmIpcCmd::VmState => 8,
        }
    }
}

/// The bytes of a command: its number, the length of its argument (modulo two to the power of 32)
/// and the argument.
pub open spec fn ipc_message(ty: KvmIpcCmd, arg: Seq<u8>) -> Seq<u8> {
    le32(ty.number()) + le32((arg.len() % 0x1_0000_0000) as u32) + arg
}

/// One exchange on the control socket: the request is written, and as many bytes as the response
/// has are read.
#[derive(Debug)]
pub struct IpcTransaction {
    pub socket: String,
    pub request: Vec<u8>,
    pub response_size: usize,
}

impl KvmToolVmBackend {
    /// The bytes of a command, with its argument where it has one.
    pub fn write_ipc_command(&self, ty: KvmIpcCmd, arg: Option<&[u8]>) -> (r: Vec<u8>)
        ensures
            r@ == ipc_message(
                ty,
                match arg {
                    Some(a) => a@,
                    None => Seq::empty(),
                },
            ),
    {
        let mut data: Vec<u8> = Vec::new();
        push_le32(&mut data, ty.code());
        match arg {
            Some(a) => {
                let len: u32 = (a.len() as u64 % 0x1_0000_0000) as u32;
                push_le32(&mut data, len);
                data.extend_from_slice(a);
                assert(data@ =~= ipc_message(ty, a@));
            },
            None => {
                push_le32(&mut data, 0);
                assert(data@ =~= ipc_message(ty, Seq::empty()));
            },
        }
        data
    }

    /// The exchange that a command with a response of the given size makes.
    pub fn transaction(&self, ty: KvmIpcCmd, arg: Option<&[u8]>, response_size: usize) -> (r:
        IpcTransaction)
        ensures
            r.socket@ == self.socket(),
            r.request@ == ipc_message(
                ty,
                match arg {
                    Some(a) => a@,
                    None => Seq::empty(),
                },
            ),
            r.response_size == response_size,
    {
        let request: Vec<u8> = self.write_ipc_command(ty, arg);
        IpcTransaction { socket: self.kvmtool_sock.clone(), request, response_size }
    }

    /// Pauses the virtual machine: a command without argument and without response.
    pub fn suspend(&self) -> (r: IpcTransaction)
        ensures
            r.socket@ == self.socket(),
            r.request@ == ipc_message(KvmIpcCmd::Pause, Seq::empty()),
            r.response_size == 0,
    {
        self.transaction(KvmIpcCmd::Pause, None, 0)
    }

    /// Resumes the virtual machine: a command without argument and without response.
    pub fn resume(&self) -> (r: IpcTransaction)
        ensures
            r.socket@ == self.socket(),
            r.request@ == ipc_message(KvmIpcCmd::Resume, Seq::empty()),
            r.response_size == 0,
    {
        self.transaction(KvmIpcCmd::Resume, None, 0)
    }

    /// Sets the size of the memory balloon: this succeeds and changes nothing, so the size stays
    /// zero.
    pub fn set_memory_balloon(&self, _num_bytes: u64) -> (r: Result<(), RunVmError>)
        ensures
            r == Ok::<(), RunVmError>(()),
    {
        Ok(())
    }

    /// The size of the memory balloon, which is always zero.
    pub fn get_memory_balloon(&self) -> (r: Result<u64, RunVmError>)
        ensures
            r == Ok::<u64, RunVmError>(0),
    {
        Ok(0)
    }
}

// ---------------------------------------------------------------------------
// Resident set size
// ---------------------------------------------------------------------------

/// Why no resident set size can be read out of a memory map.
#[derive(Debug, Clone, Copy, PartialEq, Eq, Structural)]
pub enum RssError {
    /// A line of sizes has no value.
    MissingValue,
    /// A value is not a number.
    InvalidNumber,
    /// The sum of the values is not representable.
    Overflow,
}

/// What one line of a memory map contributes: nothing where it is no line of resident set sizes.
pub open spec fn rss_of_line(line: Seq<char>) -> Result<Option<int>, RssError> {
    if !contains_text(line, "Rss:"@) {
        Ok(None)
    } else if words(line).len() < 2 {
        Err(RssError::MissingValue)
    } else {
        match parse_signed(words(line)[1], i64::MIN as int, i64::MAX as int) {
            Some(v) => Ok(Some(v)),
            None => Err(RssError::InvalidNumber),
        }
    }
}

/// The sum over the lines of a memory map, or what is wrong with the first line that is wrong.
pub open spec fn rss_of_lines(all: Seq<Seq<char>>) -> Result<int, RssError>
    decreases all.len(),
{
    if all.len() == 0 {
        Ok(0)
    } else {
        match rss_of_lines(all.drop_last()) {
            Err(e) => Err(e),
            Ok(total) => match rss_of_line(all.last()) {
                Err(e) => Err(e),
                Ok(None) => Ok(total),
                Ok(Some(v)) => if i64::MIN <= total + v <= i64::MAX {
                    Ok(total + v)
                } else {
                    Err(RssError::Overflow)
                },
            },
        }
    }
}

proof fn lemma_rss_error_stays(all: Seq<Seq<char>>, k: int)
    requires
        0 <= k <= all.len(),
        rss_of_lines(all.take(k)) is Err,
    ensures
        rss_of_lines(all) == rss_of_lines(all.take(k)),
    decreases all.len(),
{
    if k == all.len() {
        assert(all.take(k) =~= all);
    } else {
        assert(all.drop_last().take(k) =~= all.take(k));
        lemma_rss_error_stays(all.drop_last(), k);
    }
}

fn read_rss_line(line: &str) -> (r: Result<Option<i64>, RssError>)
    ensures
        match r {
            Ok(None) => rss_of_line(line@) == Ok::<Option<int>, RssError>(None),
            Ok(Some(v)) => rss_of_line(line@) == Ok::<Option<int>, RssError>(Some(v as int)),
            Err(e) => rss_of_line(line@) == Err::<Option<int>, RssError>(e),
        },
{
    if !contains(line, "Rss:") {
        return Ok(None);
    }
    let data: Vec<String> = split_whitespace(line);
    assert(texts(data@).len() == data@.len());
    if data.len() < 2 {
        return Err(RssError::MissingValue);
    }
    assert(texts(data@)[1] == data@[1]@);
    match parse_i64(data[1].as_str()) {
        Some(v) => Ok(Some(v)),
        None => Err(RssError::InvalidNumber),
    }
}

impl KvmToolVmBackend {
    /// The resident set size that a memory map (`/proc/<pid>/smaps`) sums up to.
    pub fn get_rss(&self, smaps: &str) -> (r: Result<Rss, RssError>)
        ensures
            match r {
                Ok(rss) => rss_of_lines(lines(smaps@)) == Ok::<int, RssError>(rss.vm as int)
                    && rss.crosvm == rss.vm,
                Err(e) => rss_of_lines(lines(smaps@)) == Err::<int, RssError>(e),
            },
    {
        let all: Vec<String> = split_lines(smaps);
        let ghost view = texts(all@);
        let mut total: i64 = 0;
        let mut i: usize = 0;
        assert(view.take(0) =~= Seq::<Seq<char>>::empty());
        while i < all.len()
            invariant
                i <= all@.len(),
                view == texts(all@),
                view == lines(smaps@),
                rss_of_lines(view.take(i as int)) == Ok::<int, RssError>(total as int),
            decreases all@.len() - i,
        {
            let ghost next = view.take(i + 1);
            assert(next.drop_last() =~= view.take(i as int));
            assert(next.last() == all@[i as int]@);
            let rss: i64 = match read_rss_line(all[i].as_str()) {
                Ok(None) => 0,
                Ok(Some(v)) => v,
                Err(e) => {
                    proof {
                        lemma_rss_error_stays(view, i + 1);
                    }
                    return Err(e);
                },
            };
            total = match total.checked_add(rss) {
                Some(t) => t,
                None => {
                    proof {
                        lemma_rss_error_stays(view, i + 1);
                    }
                    return Err(RssError::Overflow);
                },
            };
            i = i + 1;
        }
        assert(view.take(view.len() as int) =~= view);
        Ok(Rss { vm: total, crosvm: total })
    }
}

// ---------------------------------------------------------------------------
// Why a virtual machine died
// ---------------------------------------------------------------------------

/// Why a virtual machine died.
#[derive(Debug, Clone, Copy, PartialEq, Eq, Structural)]
pub enum DeathReason {
    InfrastructureError,
    Killed,
    Unknown,
    Shutdown,
    PvmFirmwarePublicKeyMismatch,
    PvmFirmwareInstanceImageChanged,
    MicrodroidFailedToConnectToVirtualizationService,
    MicrodroidPayloadHasChanged,
    MicrodroidPayloadVerificationFailed,
    MicrodroidInvalidPayloadConfig,
    MicrodroidUnknownRuntimeError,
    Hangup,
}

/// How a process ended: its exit code, or the signal that ended it.
#[derive(Debug, Clone, Copy, PartialEq, Eq, Structural)]
pub struct ExitStatus {
    pub code: Option<i32>,
    pub signal: Option<i32>,
}

/// The reason that a failure name stands for.
pub open spec fn named_reason(name: Seq<char>) -> Option<DeathReason> {
    if name == "PVM_FIRMWARE_PUBLIC_KEY_MISMATCH"@ {
        Some(DeathReason::PvmFirmwarePublicKeyMismatch)
    } else if name == "PVM_FIRMWARE_INSTANCE_IMAGE_CHANGED"@ {
        Some(DeathReason::PvmFirmwareInstanceImageChanged)
    } else if name == "MICRODROID_FAILED_TO_CONNECT_TO_VIRTUALIZATION_SERVICE"@ {
        Some(DeathReason::MicrodroidFailedToConnectToVirtualizationService)
    } else if name == "MICRODROID_PAYLOAD_HAS_CHANGED"@ {
        Some(DeathReason::MicrodroidPayloadHasChanged)
    } else if name == "MICRODROID_PAYLOAD_VERIFICATION_FAILED"@ {
        Some(DeathReason::MicrodroidPayloadVerificationFailed)
    } else if name == "MICRODROID_INVALID_PAYLOAD_CONFIG"@ {
        Some(DeathReason::MicrodroidInvalidPayloadConfig)
    } else if name == "MICRODROID_UNKNOWN_RUNTIME_ERROR"@ {
        Some(DeathReason::MicrodroidUnknownRuntimeError)
    } else if name == "HANGUP"@ {
        Some(DeathReason::Hangup)
    } else {
        None
    }
}

/// The reason of a death: what the virtual machine reported before the first `|`, else what the
/// exit code says. Nothing is known where the process could not be waited for.
pub open spec fn death_reason(status: Option<ExitStatus>, failure_reason: Seq<char>) -> DeathReason {
    match status {
        None => DeathReason::InfrastructureError,
        Some(s) => match named_reason(before_first(failure_reason, '|')) {
            Some(reason) => reason,
            None => match s.code {
                None => DeathReason::Killed,
                Some(c) => if c == 0 {
                    DeathReason::Shutdown
                } else {
                    DeathReason::Unknown
                },
            },
        },
    }
}

fn find_named_reason(name: &str) -> (r: Option<DeathReason>)
    ensures
        r == named_reason(name@),
{
    if str_eq(name, "PVM_FIRMWARE_PUBLIC_KEY_MISMATCH") {
        Some(DeathReason::PvmFirmwarePublicKeyMismatch)
    } else if str_eq(name, "PVM_FIRMWARE_INSTANCE_IMAGE_CHANGED") {
        Some(DeathReason::PvmFirmwareInstanceImageChanged)
    } else if str_eq(name, "MICRODROID_FAILED_TO_CONNECT_TO_VIRTUALIZATION_SERVICE") {
        Some(DeathReason::MicrodroidFailedToConnectToVirtualizationService)
    } else if str_eq(name, "MICRODROID_PAYLOAD_HAS_CHANGED") {
        Some(DeathReason::MicrodroidPayloadHasChanged)
    } else if str_eq(name, "MICRODROID_PAYLOAD_VERIFICATION_FAILED") {
        Some(DeathReason::MicrodroidPayloadVerificationFailed)
    } else if str_eq(name, "MICRODROID_INVALID_PAYLOAD_CONFIG") {
        Some(DeathReason::MicrodroidInvalidPayloadConfig)
    } else if str_eq(name, "MICRODROID_UNKNOWN_RUNTIME_ERROR") {
        Some(DeathReason::MicrodroidUnknownRuntimeError)
    } else if str_eq(name, "HANGUP") {
        Some(DeathReason::Hangup)
    } else {
        None
    }
}

impl KvmToolVmBackend {
    /// The reason of a death, from how the process ended (`None` where it could not be waited
    /// for) and what the virtual machine reported.
    pub fn translate_death_reason(
        &self,
        status: &Option<ExitStatus>,
        failure_reason: &str,
    ) -> (r: DeathReason)
        ensures
            r == death_reason(*status, failure_reason@),
    {
        let name: String = cut_before_first(failure_reason, '|');
        match status {
            None => DeathReason::InfrastructureError,
            Some(s) => match find_named_reason(name.as_str()) {
                Some(reason) => reason,
                None => match s.code {
                    None => DeathReason::Killed,
                    Some(c) => if c == 0 {
                        DeathReason::Shutdown
                    } else {
                        DeathReason::Unknown
                    },
                },
            },
        }
    }
}

// ---------------------------------------------------------------------------
// Showing the command line
// ---------------------------------------------------------------------------

/// The paths of descriptors within an argument, as a regular expression.
pub const FD_PATH_PATTERN: &'static str = "/proc/self/fd/[\\d]+";

/// The substrings of `text` that a regular expression matches, one after the other, as
/// `regex::Regex::find_iter` finds them; `None` where the expression is malformed.
pub uninterp spec fn regex_matches(pattern: Seq<char>, text: Seq<char>) -> Option<Seq<Seq<char>>>;

/// Gaps and matches in turn, from the first gap to the last.
pub open spec fn interleaved(gaps: Seq<Seq<char>>, matched: Seq<Seq<char>>) -> Seq<char>
    recommends
        gaps.len() == matched.len() + 1,
    decreases matched.len(),
{
    if matched.len() == 0 {
        gaps[0]
    } else {
        interleaved(gaps.drop_last(), matched.drop_last()) + matched.last() + gaps.last()
    }
}

/// `regex::Regex::new` and `regex::Regex::find_iter`: the successive matches of an expression in
/// a text, or `None` where the expression does not compile.
#[verifier::external_body]
fn regex_find(pattern: &str, text: &str) -> (r: Option<Vec<String>>)
    ensures
        match r {
            Some(v) => regex_matches(pattern@, text@) == Some(texts(v@)),
            None => regex_matches(pattern@, text@) is None,
        },
{
    match regex::Regex::new(pattern) {
        Ok(re) => Some(re.find_iter(text).map(|m| m.as_str().to_owned()).collect()),
        Err(_) => None,
    }
}

/// `regex::Regex::new` and `regex::Regex::split`: the parts of a text between the successive
/// matches of an expression, or `None` where the expression does not compile. There is one part
/// more than there are matches, and parts and matches in turn make up the text.
#[verifier::external_body]
fn regex_split(pattern: &str, text: &str) -> (r: Option<Vec<String>>)
    ensures
        match r {
            Some(v) => regex_matches(pattern@, text@) matches Some(m) && v@.len() == m.len() + 1
                && interleaved(texts(v@), m) == text@,
            None => regex_matches(pattern@, text@) is None,
        },
{
    match regex::Regex::new(pattern) {
        Ok(re) => Some(re.split(text).map(|s| s.to_owned()).collect()),
        Err(_) => None,
    }
}

/// An argument cut at the paths of descriptors that it holds.
#[derive(Debug)]
pub struct ArgParts {
    pub gaps: Vec<String>,
    pub paths: Vec<String>,
}

impl ArgParts {
    pub open spec fn wf(self) -> bool {
        self.gaps@.len() == self.paths@.len() + 1
    }
}

/// Cuts an argument at the paths of descriptors that it holds; `None` where the pattern of such
/// paths does not compile.
pub fn find_fd_paths(arg: &str) -> (r: Option<ArgParts>)
    ensures
        match r {
            Some(p) => {
                &&& p.wf()
                &&& regex_matches(FD_PATH_PATTERN@, arg@) == Some(texts(p.paths@))
                &&& regex_matches("/proc/self/fd/[\\d]+"@, arg@) == Some(texts(p.paths@))
                &&& interleaved(texts(p.gaps@), texts(p.paths@)) == arg@
            },
            None => regex_matches(FD_PATH_PATTERN@, arg@) is None,
        },
{
    match regex_find(FD_PATH_PATTERN, arg) {
        Some(paths) => match regex_split(FD_PATH_PATTERN, arg) {
            Some(gaps) => {
                assert(texts(paths@).len() == paths@.len());
                Some(ArgParts { gaps, paths })
            },
            None => None,
        },
        None => None,
    }
}

/// A path as it is shown: with the real path behind it where that is known.
pub open spec fn shown_path(path: Seq<char>, target: Option<String>) -> Seq<char> {
    match target {
        Some(r) => path + " ("@ + r@ + ")"@,
        None => path,
    }
}

/// The paths of an argument as they are shown.
pub open spec fn shown_paths(paths: Seq<Seq<char>>, targets: Seq<Option<String>>) -> Seq<Seq<char>> {
    Seq::new(paths.len(), |i: int| shown_path(paths[i], targets[i]))
}

/// An argument with the real path behind each path of a descriptor, where that is known.
pub fn annotate_arg(parts: &ArgParts, targets: &Vec<Option<String>>) -> (r: String)
    requires
        parts.wf(),
        targets@.len() == parts.paths@.len(),
    ensures
        r@ == interleaved(texts(parts.gaps@), shown_paths(texts(parts.paths@), targets@)),
{
    let ghost gaps = texts(parts.gaps@);
    let ghost shown = shown_paths(texts(parts.paths@), targets@);
    let mut out: String = parts.gaps[0].clone();
    let mut i: usize = 0;
    assert(out@ == interleaved(gaps.take(1), shown.take(0)));
    while i < parts.paths.len()
        invariant
            parts.wf(),
            targets@.len() == parts.paths@.len(),
            gaps == texts(parts.gaps@),
            shown == shown_paths(texts(parts.paths@), targets@),
            i <= parts.paths@.len(),
            out@ == interleaved(gaps.take(i + 1), shown.take(i as int)),
        decreases parts.paths@.len() - i,
    {
        assert(gaps.take(i + 2).drop_last() =~= gaps.take(i + 1));
        assert(shown.take(i + 1).drop_last() =~= shown.take(i as int));
        let ghost before = out@;
        out.append(parts.paths[i].as_str());
        match &targets[i] {
            Some(p) => {
                out.append(" (");
                out.append(p.as_str());
                out.append(")");
            },
            None => {},
        }
        assert(out@ =~= before + shown[i as int]);
        out.append(parts.gaps[i + 1].as_str());
        i = i + 1;
    }
    assert(gaps.take(gaps.len() as int) =~= gaps);
    assert(shown.take(shown.len() as int) =~= shown);
    out
}

// ---------------------------------------------------------------------------
// Laws
// ---------------------------------------------------------------------------

/// Every descriptor that the command line names is inherited by the process.
pub proof fn named_descriptors_are_preserved(
    config: CommonVmConfig,
    failure_pipe: Fd,
    env: RunEnvironment,
)
    ensures
        ({
            let fds = command_fds(config, failure_pipe, env);
            &&& fds.contains(failure_pipe)
            &&& config.console_out_fd matches Some(f) ==> fds.contains(f)
            &&& config.console_in_fd matches Some(f) ==> fds.contains(f)
            &&& config.bootloader matches Some(f) ==> fds.contains(f)
            &&& config.initrd matches Some(f) ==> fds.contains(f)
            &&& config.kernel matches Some(f) ==> fds.contains(f)
            &&& used_metadata(config, env) matches Some(f) ==> fds.contains(f)
            &&& used_tap(config, env) matches Some(f) ==> fds.contains(f)
            &&& forall|i: int|
                0 <= i < config.disks@.len() ==> fds.contains(#[trigger] config.disks@[i].image)
        }),
{
    broadcast use vstd::seq_lib::group_seq_properties;

    reveal(command_fds);
    assert forall|i: int| 0 <= i < config.disks@.len() implies command_fds(
        config,
        failure_pipe,
        env,
    ).contains(#[trigger] config.disks@[i].image) by {
        assert(disk_fds(config.disks@)[i] == config.disks@[i].image);
        assert(disk_fds(config.disks@).contains(config.disks@[i].image));
    }
    if config.console_out_fd is Some {
        assert(fd_if(config.console_out_fd)[0] == config.console_out_fd->0);
    }
    if config.console_in_fd is Some {
        assert(fd_if(config.console_in_fd)[0] == config.console_in_fd->0);
    }
    if config.bootloader is Some {
        assert(fd_if(config.bootloader)[0] == config.bootloader->0);
    }
    if config.initrd is Some {
        assert(fd_if(config.initrd)[0] == config.initrd->0);
    }
    if config.kernel is Some {
        assert(fd_if(config.kernel)[0] == config.kernel->0);
    }
    if used_metadata(config, env) is Some {
        assert(fd_if(used_metadata(config, env))[0] == used_metadata(config, env)->0);
    }
    if used_tap(config, env) is Some {
        assert(fd_if(used_tap(config, env))[0] == used_tap(config, env)->0);
    }
    assert(seq![failure_pipe][0] == failure_pipe);
}

/// The command line ends with the realm's personalization value, which is 128 digits long, and
/// asks for a realm exactly where virtual machines run as realms.
pub proof fn command_ends_with_personalization(
    config: CommonVmConfig,
    failure_pipe: Fd,
    dir: Seq<char>,
    env: RunEnvironment,
)
    ensures
        ({
            let args = command_args(config, failure_pipe, dir, env);
            &&& args.len() >= 3
            &&& args.last() == hex_text(config.instance_id@)
            &&& args.last().len() == 128
            &&& args[args.len() - 2] == "--realm-pv-hex"@
            &&& args[args.len() - 3] == if env.use_realm {
                "--restricted_mem"@
            } else {
                "--debug"@
            }
        }),
{
    reveal(command_args);
}

/// The reason that a virtual machine reports does not depend on what follows the first `|`.
pub proof fn death_reason_ignores_context(
    status: Option<ExitStatus>,
    name: Seq<char>,
    context: Seq<char>,
)
    requires
        !name.contains('|'),
    ensures
        death_reason(status, name.push('|') + context) == death_reason(status, name),
{
    let long = name.push('|') + context;
    assert forall|k: int| 0 <= k < name.len() implies name[k] != '|' by {
        assert(name.contains(name[k]));
    }
    lemma_first_index(long, '|', name.len() as int);
    lemma_first_index(name, '|', name.len() as int);
    assert(before_first(long, '|') =~= name);
    assert(before_first(name, '|') =~= name);
}

/// An argument of which no real path is known is shown as it is.
pub proof fn unresolved_argument_is_unchanged(
    gaps: Seq<Seq<char>>,
    paths: Seq<Seq<char>>,
    targets: Seq<Option<String>>,
)
    requires
        targets.len() == paths.len(),
        forall|i: int| 0 <= i < targets.len() ==> targets[i] is None,
    ensures
        interleaved(gaps, shown_paths(paths, targets)) == interleaved(gaps, paths),
{
    assert(shown_paths(paths, targets) =~= paths);
}

/// Whether a name is one of the eight that a failure is reported by.
pub open spec fn is_failure_name(name: Seq<char>) -> bool {
    ||| name == "PVM_FIRMWARE_PUBLIC_KEY_MISMATCH"@
    ||| name == "PVM_FIRMWARE_INSTANCE_IMAGE_CHANGED"@
    ||| name == "MICRODROID_FAILED_TO_CONNECT_TO_VIRTUALIZATION_SERVICE"@
    ||| name == "MICRODROID_PAYLOAD_HAS_CHANGED"@
    ||| name == "MICRODROID_PAYLOAD_VERIFICATION_FAILED"@
    ||| name == "MICRODROID_INVALID_PAYLOAD_CONFIG"@
    ||| name == "MICRODROID_UNKNOWN_RUNTIME_ERROR"@
    ||| name == "HANGUP"@
}

proof fn failure_names_are_told_apart()
    ensures
        "PVM_FIRMWARE_PUBLIC_KEY_MISMATCH"@.len() == 32,
        "PVM_FIRMWARE_INSTANCE_IMAGE_CHANGED"@.len() == 35,
        "MICRODROID_FAILED_TO_CONNECT_TO_VIRTUALIZATION_SERVICE"@.len() == 54,
        "MICRODROID_PAYLOAD_HAS_CHANGED"@.len() == 30,
        "MICRODROID_PAYLOAD_VERIFICATION_FAILED"@.len() == 38,
        "MICRODROID_INVALID_PAYLOAD_CONFIG"@.len() == 33,
        "MICRODROID_UNKNOWN_RUNTIME_ERROR"@.len() == 32,
        "HANGUP"@.len() == 6,
        "PVM_FIRMWARE_PUBLIC_KEY_MISMATCH"@ != "MICRODROID_UNKNOWN_RUNTIME_ERROR"@,
{
    reveal_strlit("PVM_FIRMWARE_PUBLIC_KEY_MISMATCH");
    reveal_strlit("PVM_FIRMWARE_INSTANCE_IMAGE_CHANGED");
    reveal_strlit("MICRODROID_FAILED_TO_CONNECT_TO_VIRTUALIZATION_SERVICE");
    reveal_strlit("MICRODROID_PAYLOAD_HAS_CHANGED");
    reveal_strlit("MICRODROID_PAYLOAD_VERIFICATION_FAILED");
    reveal_strlit("MICRODROID_INVALID_PAYLOAD_CONFIG");
    reveal_strlit("MICRODROID_UNKNOWN_RUNTIME_ERROR");
    reveal_strlit("HANGUP");
    assert("PVM_FIRMWARE_PUBLIC_KEY_MISMATCH"@[0] == 'P');
    assert("MICRODROID_UNKNOWN_RUNTIME_ERROR"@[0] == 'M');
}

/// A failure that the virtual machine reports by one of the eight names is the reason, whatever the
/// exit code or the signal of its process was and whatever context follows the name.
pub proof fn reported_failures_decide(status: ExitStatus, name: Seq<char>, context: Seq<char>)
    requires
        !name.contains('|'),
    ensures
        ({
            let plain = death_reason(Some(status), name);
            let explained = death_reason(Some(status), name.push('|') + context);
            &&& name == "PVM_FIRMWARE_PUBLIC_KEY_MISMATCH"@ ==> plain
                == DeathReason::PvmFirmwarePublicKeyMismatch && explained == plain
            &&& name == "PVM_FIRMWARE_INSTANCE_IMAGE_CHANGED"@ ==> plain
                == DeathReason::PvmFirmwareInstanceImageChanged && explained == plain
            &&& name == "MICRODROID_FAILED_TO_CONNECT_TO_VIRTUALIZATION_SERVICE"@ ==> plain
                == DeathReason::MicrodroidFailedToConnectToVirtualizationService && explained
                == plain
            &&& name == "MICRODROID_PAYLOAD_HAS_CHANGED"@ ==> plain
                == DeathReason::MicrodroidPayloadHasChanged && explained == plain
            &&& name == "MICRODROID_PAYLOAD_VERIFICATION_FAILED"@ ==> plain
                == DeathReason::MicrodroidPayloadVerificationFailed && explained == plain
            &&& name == "MICRODROID_INVALID_PAYLOAD_CONFIG"@ ==> plain
                == DeathReason::MicrodroidInvalidPayloadConfig && explained == plain
            &&& name == "MICRODROID_UNKNOWN_RUNTIME_ERROR"@ ==> plain
                == DeathReason::MicrodroidUnknownRuntimeError && explained == plain
            &&& name == "HANGUP"@ ==> plain == DeathReason::Hangup && explained == plain
        }),
{
    death_reason_ignores_context(Some(status), name, context);
    assert forall|k: int| 0 <= k < name.len() implies name[k] != '|' by {
        assert(name.contains(name[k]));
    }
    lemma_first_index(name, '|', name.len() as int);
    assert(before_first(name, '|') =~= name);
    failure_names_are_told_apart();
}

/// Where no known name was reported, how the process ended decides: killed where there is no exit
/// code, shut down where it is zero, unknown otherwise. Of a process that could not be waited for
/// nothing is known, whatever was reported.
pub proof fn exit_codes_decide_where_nothing_is_reported(
    status: ExitStatus,
    name: Seq<char>,
    context: Seq<char>,
)
    requires
        !name.contains('|'),
    ensures
        death_reason(None, name) == DeathReason::InfrastructureError,
        death_reason(None, name.push('|') + context) == DeathReason::InfrastructureError,
        !is_failure_name(name) ==> ({
            let plain = death_reason(Some(status), name);
            &&& death_reason(Some(status), name.push('|') + context) == plain
            &&& status.code is None ==> plain == DeathReason::Killed
            &&& status.code == Some(0i32) ==> plain == DeathReason::Shutdown
            &&& status.code is Some && status.code != Some(0i32) ==> plain == DeathReason::Unknown
        }),
{
    death_reason_ignores_context(Some(status), name, context);
    assert forall|k: int| 0 <= k < name.len() implies name[k] != '|' by {
        assert(name.contains(name[k]));
    }
    lemma_first_index(name, '|', name.len() as int);
    assert(before_first(name, '|') =~= name);
}

/// A sequence with a part inserted before the given position.
pub open spec fn with_inserted<A>(s: Seq<A>, at: int, part: Seq<A>) -> Seq<A> {
    s.take(at) + part + s.skip(at)
}

/// Parts, one after the other.
spec fn all_of<A>(parts: Seq<Seq<A>>) -> Seq<A>
    decreases parts.len(),
{
    if parts.len() == 0 {
        Seq::empty()
    } else {
        all_of(parts.drop_last()) + parts.last()
    }
}

/// The length of the parts before one of them.
spec fn length_before<A>(parts: Seq<Seq<A>>, j: int) -> int
    decreases j,
{
    if j <= 0 {
        0
    } else {
        length_before(parts, j - 1) + parts[j - 1].len()
    }
}

proof fn lemma_length_before<A>(parts: Seq<Seq<A>>, j: int)
    requires
        0 <= j <= parts.len(),
    ensures
        all_of(parts.take(j)).len() == length_before(parts, j),
    decreases j,
{
    if j > 0 {
        lemma_length_before(parts, j - 1);
        assert(parts.take(j).drop_last() =~= parts.take(j - 1));
    }
}

proof fn lemma_all_of_split<A>(parts: Seq<Seq<A>>, j: int)
    requires
        0 <= j <= parts.len(),
    ensures
        all_of(parts) == all_of(parts.take(j)) + all_of(parts.skip(j)),
    decreases parts.len(),
{
    if j == parts.len() {
        assert(parts.take(j) =~= parts);
        assert(parts.skip(j) =~= Seq::<Seq<A>>::empty());
        assert(all_of(parts) =~= all_of(parts.take(j)) + all_of(parts.skip(j)));
    } else {
        let shorter = parts.drop_last();
        lemma_all_of_split(shorter, j);
        assert(shorter.take(j) =~= parts.take(j));
        assert(shorter.skip(j) =~= parts.skip(j).drop_last());
        assert(parts.skip(j).last() == parts.last());
        assert(all_of(parts) =~= all_of(parts.take(j)) + all_of(parts.skip(j)));
    }
}

proof fn lemma_all_of_joined<A>(a: Seq<Seq<A>>, b: Seq<Seq<A>>)
    ensures
        all_of(a + b) == all_of(a) + all_of(b),
{
    lemma_all_of_split(a + b, a.len() as int);
    assert((a + b).take(a.len() as int) =~= a);
    assert((a + b).skip(a.len() as int) =~= b);
}

proof fn lemma_all_of_one<A>(a: Seq<A>)
    ensures
        all_of(seq![a]) == a,
{
    reveal_with_fuel(all_of, 2);
    assert(all_of(seq![a]) =~= a);
}

proof fn lemma_all_of_around<A>(parts: Seq<Seq<A>>, j: int)
    requires
        0 <= j < parts.len(),
    ensures
        all_of(parts) == all_of(parts.take(j)) + parts[j] + all_of(parts.skip(j + 1)),
{
    lemma_all_of_split(parts, j);
    lemma_all_of_split(parts.skip(j), 1);
    lemma_all_of_one(parts[j]);
    assert(parts.skip(j).take(1) =~= seq![parts[j]]);
    assert(parts.skip(j).skip(1) =~= parts.skip(j + 1));
    assert(all_of(parts) =~= all_of(parts.take(j)) + parts[j] + all_of(parts.skip(j + 1)));
}

/// Where two lists of parts differ in one part that is empty in the one list, the other list is
/// longer by just that part.
proof fn lemma_one_part_more<A>(without: Seq<Seq<A>>, with: Seq<Seq<A>>, j: int)
    requires
        0 <= j < with.len(),
        with.len() == without.len(),
        forall|k: int| 0 <= k < with.len() && k != j ==> with[k] == without[k],
        without[j].len() == 0,
    ensures
        all_of(with) == with_inserted(all_of(without), length_before(with, j), with[j]),
{
    lemma_all_of_around(with, j);
    lemma_all_of_around(without, j);
    lemma_length_before(with, j);
    assert(with.take(j) =~= without.take(j));
    assert(with.skip(j + 1) =~= without.skip(j + 1));
    let left = all_of(with.take(j));
    let right = all_of(with.skip(j + 1));
    assert(all_of(without) =~= left + right);
    assert((left + right).take(left.len() as int) =~= left);
    assert((left + right).skip(left.len() as int) =~= right);
}

spec fn machine_parts(config: CommonVmConfig, env: RunEnvironment) -> Seq<Seq<Seq<char>>> {
    seq![
        seq!["run"@, "--name"@, config.name@, "--vsock"@, decimal(config.cid as nat)],
        only_if(env.memory_reclaim_supported && !config.no_balloon, seq!["--balloon"@]),
        only_if(
            !config.protected && config.ramdump is Some,
            seq!["--params"@, "crashkernel="@ + decimal(RAMDUMP_RESERVED_MIB as nat) + "M"@],
        ),
        only_if(
            config.debug_config.debug_level == DebugLevel::NotDebuggable
                && config.debug_config.prepare_console_output,
            seq!["--params"@, "printk.devkmsg=on"@, "--params"@, "console=hvc0"@],
        ),
        seq!["--mem"@, decimal(config.memory_mib@ as nat)],
        match config.cpus {
            Some(n) => seq!["--cpus"@, decimal(n@ as nat)],
            None => Seq::empty(),
        },
    ]
}

spec fn boot_parts(config: CommonVmConfig, env: RunEnvironment) -> Seq<Seq<Seq<char>>> {
    seq![
        fd_option("--firmware"@, config.bootloader),
        fd_option("--initrd"@, config.initrd),
        match config.params {
            Some(p) => seq!["--params"@, p@],
            None => Seq::empty(),
        },
        disk_args(config.disks@),
        fd_option("--kernel"@, config.kernel),
        fd_option("--metadata"@, used_metadata(config, env)),
    ]
}

spec fn system_parts(config: CommonVmConfig, dir: Seq<char>, env: RunEnvironment) -> Seq<
    Seq<Seq<char>>,
> {
    seq![
        seq!["--ipc-dir"@, dir, "--network"@],
        match used_tap(config, env) {
            Some(tap) => seq!["fd="@ + signed_decimal(tap as int) + ",nosetip=1"@, "--debug"@],
            None => seq!["mode=none"@, "--debug"@],
        },
        only_if(env.use_realm, seq!["--realm"@, "--restricted_mem"@]),
        seq!["--realm-pv-hex"@, hex_text(config.instance_id@)],
    ]
}

#[verifier::opaque]
spec fn arg_parts(config: CommonVmConfig, pipe: Fd, dir: Seq<char>, env: RunEnvironment) -> Seq<
    Seq<Seq<char>>,
> {
    machine_parts(config, env) + seq![serial_args(config, pipe)] + boot_parts(config, env)
        + system_parts(config, dir, env)
}

proof fn lemma_all_of_six<A>(a: Seq<A>, b: Seq<A>, c: Seq<A>, d: Seq<A>, e: Seq<A>, f: Seq<A>)
    ensures
        all_of(seq![a, b, c, d, e, f]) == a + b + c + d + e + f,
{
    reveal_with_fuel(all_of, 7);
    assert(seq![a, b, c, d, e, f].drop_last() =~= seq![a, b, c, d, e]);
    assert(seq![a, b, c, d, e].drop_last() =~= seq![a, b, c, d]);
    assert(seq![a, b, c, d].drop_last() =~= seq![a, b, c]);
    assert(seq![a, b, c].drop_last() =~= seq![a, b]);
    assert(seq![a, b].drop_last() =~= seq![a]);
    lemma_all_of_one(a);
}

proof fn lemma_all_of_four<A>(a: Seq<A>, b: Seq<A>, c: Seq<A>, d: Seq<A>)
    ensures
        all_of(seq![a, b, c, d]) == a + b + c + d,
{
    reveal_with_fuel(all_of, 5);
    assert(seq![a, b, c, d].drop_last() =~= seq![a, b, c]);
    assert(seq![a, b, c].drop_last() =~= seq![a, b]);
    assert(seq![a, b].drop_last() =~= seq![a]);
    lemma_all_of_one(a);
}

proof fn lemma_arg_parts(config: CommonVmConfig, pipe: Fd, dir: Seq<char>, env: RunEnvironment)
    ensures
        command_args(config, pipe, dir, env) == all_of(arg_parts(config, pipe, dir, env)),
{
    reveal(command_args);
    reveal(arg_parts);
    let m = machine_parts(config, env);
    let b = boot_parts(config, env);
    let y = system_parts(config, dir, env);
    lemma_all_of_six(m[0], m[1], m[2], m[3], m[4], m[5]);
    assert(m =~= seq![m[0], m[1], m[2], m[3], m[4], m[5]]);
    assert(machine_args(config, env) == all_of(m));
    lemma_all_of_six(b[0], b[1], b[2], b[3], b[4], b[5]);
    assert(b =~= seq![b[0], b[1], b[2], b[3], b[4], b[5]]);
    assert(boot_args(config, env) == all_of(b));
    lemma_all_of_four(y[0], y[1], y[2], y[3]);
    assert(y =~= seq![y[0], y[1], y[2], y[3]]);
    assert(system_args(config, dir, env) == all_of(y));
    let s = seq![serial_args(config, pipe)];
    lemma_all_of_one(serial_args(config, pipe));
    lemma_all_of_joined(m, s);
    lemma_all_of_joined(m + s, b);
    lemma_all_of_joined(m + s + b, y);
}

#[verifier::opaque]
spec fn fd_parts(config: CommonVmConfig, pipe: Fd, env: RunEnvironment) -> Seq<Seq<Fd>> {
    seq![
        config.indirect_files@,
        fd_if(config.console_out_fd),
        fd_if(config.console_in_fd),
        fd_if(config.log_fd),
        seq![pipe],
        fd_if(config.ramdump),
    ] + seq![
        fd_if(config.bootloader),
        fd_if(config.initrd),
        disk_fds(config.disks@),
        fd_if(config.kernel),
        fd_if(used_metadata(config, env)),
        fd_if(used_tap(config, env)),
    ]
}

proof fn lemma_regrouped<A>(
    h: Seq<A>,
    a: Seq<A>,
    b: Seq<A>,
    c: Seq<A>,
    d: Seq<A>,
    e: Seq<A>,
    f: Seq<A>,
)
    ensures
        h + (a + b + c + d + e + f) == h + a + b + c + d + e + f,
{
    assert(h + (a + b + c + d + e + f) =~= h + a + b + c + d + e + f);
}

proof fn lemma_fd_parts(config: CommonVmConfig, pipe: Fd, env: RunEnvironment)
    ensures
        command_fds(config, pipe, env) == all_of(fd_parts(config, pipe, env)),
{
    reveal(command_fds);
    reveal(fd_parts);
    let p = fd_parts(config, pipe, env);
    lemma_all_of_six(p[0], p[1], p[2], p[3], p[4], p[5]);
    lemma_all_of_six(p[6], p[7], p[8], p[9], p[10], p[11]);
    let a = seq![p[0], p[1], p[2], p[3], p[4], p[5]];
    let b = seq![p[6], p[7], p[8], p[9], p[10], p[11]];
    assert(p =~= a + b);
    lemma_all_of_joined(a, b);
    lemma_regrouped(
        p[0] + p[1] + p[2] + p[3] + p[4] + p[5],
        p[6],
        p[7],
        p[8],
        p[9],
        p[10],
        p[11],
    );
}

proof fn lemma_arg_entries(config: CommonVmConfig, pipe: Fd, dir: Seq<char>, env: RunEnvironment)
    ensures
        ({
            let parts = arg_parts(config, pipe, dir, env);
            &&& parts.len() == 17
            &&& parts[0] == seq![
                "run"@,
                "--name"@,
                config.name@,
                "--vsock"@,
                decimal(config.cid as nat),
            ]
            &&& parts[1] == only_if(
                env.memory_reclaim_supported && !config.no_balloon,
                seq!["--balloon"@],
            )
            &&& parts[2] == only_if(
                !config.protected && config.ramdump is Some,
                seq!["--params"@, "crashkernel="@ + decimal(RAMDUMP_RESERVED_MIB as nat) + "M"@],
            )
            &&& parts[3] == only_if(
                config.debug_config.debug_level == DebugLevel::NotDebuggable
                    && config.debug_config.prepare_console_output,
                seq!["--params"@, "printk.devkmsg=on"@, "--params"@, "console=hvc0"@],
            )
            &&& parts[4] == seq!["--mem"@, decimal(config.memory_mib@ as nat)]
            &&& parts[5] == (match config.cpus {
                Some(n) => seq!["--cpus"@, decimal(n@ as nat)],
                None => Seq::empty(),
            })
            &&& parts[6] == serial_args(config, pipe)
            &&& parts[7] == fd_option("--firmware"@, config.bootloader)
            &&& parts[8] == fd_option("--initrd"@, config.initrd)
            &&& parts[9] == (match config.params {
                Some(p) => seq!["--params"@, p@],
                None => Seq::empty(),
            })
            &&& parts[10] == disk_args(config.disks@)
            &&& parts[11] == fd_option("--kernel"@, config.kernel)
            &&& parts[12] == fd_option("--metadata"@, used_metadata(config, env))
            &&& parts[13] == seq!["--ipc-dir"@, dir, "--network"@]
            &&& parts[14] == (match used_tap(config, env) {
                Some(tap) => seq!["fd="@ + signed_decimal(tap as int) + ",nosetip=1"@, "--debug"@],
                None => seq!["mode=none"@, "--debug"@],
            })
            &&& parts[15] == only_if(env.use_realm, seq!["--realm"@, "--restricted_mem"@])
            &&& parts[16] == seq!["--realm-pv-hex"@, hex_text(config.instance_id@)]
        }),
{
    reveal(arg_parts);
}

proof fn lemma_fd_entries(config: CommonVmConfig, pipe: Fd, env: RunEnvironment)
    ensures
        ({
            let parts = fd_parts(config, pipe, env);
            &&& parts.len() == 12
            &&& parts[0] == config.indirect_files@
            &&& parts[1] == fd_if(config.console_out_fd)
            &&& parts[2] == fd_if(config.console_in_fd)
            &&& parts[3] == fd_if(config.log_fd)
            &&& parts[4] == seq![pipe]
            &&& parts[5] == fd_if(config.ramdump)
            &&& parts[6] == fd_if(config.bootloader)
            &&& parts[7] == fd_if(config.initrd)
            &&& parts[8] == disk_fds(config.disks@)
            &&& parts[9] == fd_if(config.kernel)
            &&& parts[10] == fd_if(used_metadata(config, env))
            &&& parts[11] == fd_if(used_tap(config, env))
        }),
{
    reveal(fd_parts);
}

/// Two lists of parts that agree at each place but one.
proof fn lemma_agree_but_at<A>(a: Seq<Seq<A>>, b: Seq<Seq<A>>, j: int)
    requires
        a.len() == b.len() <= 17,
        0 < a.len() && j != 0 ==> a[0] == b[0],
        1 < a.len() && j != 1 ==> a[1] == b[1],
        2 < a.len() && j != 2 ==> a[2] == b[2],
        3 < a.len() && j != 3 ==> a[3] == b[3],
        4 < a.len() && j != 4 ==> a[4] == b[4],
        5 < a.len() && j != 5 ==> a[5] == b[5],
        6 < a.len() && j != 6 ==> a[6] == b[6],
        7 < a.len() && j != 7 ==> a[7] == b[7],
        8 < a.len() && j != 8 ==> a[8] == b[8],
        9 < a.len() && j != 9 ==> a[9] == b[9],
        10 < a.len() && j != 10 ==> a[10] == b[10],
        11 < a.len() && j != 11 ==> a[11] == b[11],
        12 < a.len() && j != 12 ==> a[12] == b[12],
        13 < a.len() && j != 13 ==> a[13] == b[13],
        14 < a.len() && j != 14 ==> a[14] == b[14],
        15 < a.len() && j != 15 ==> a[15] == b[15],
        16 < a.len() && j != 16 ==> a[16] == b[16],
    ensures
        forall|k: int| 0 <= k < a.len() && k != j ==> a[k] == b[k],
{
    assert forall|k: int| 0 <= k < a.len() && k != j implies a[k] == b[k] by {
        if k < 4 {
            assert(k == 0 || k == 1 || k == 2 || k == 3);
        } else if k < 8 {
            assert(k == 4 || k == 5 || k == 6 || k == 7);
        } else if k < 12 {
            assert(k == 8 || k == 9 || k == 10 || k == 11);
        } else {
            assert(k == 12 || k == 13 || k == 14 || k == 15 || k == 16);
        }
    }
}

proof fn lemma_disk_args_len(disks: Seq<DiskFile>)
    ensures
        disk_args(disks).len() == 2 * disks.len(),
    decreases disks.len(),
{
    if disks.len() > 0 {
        lemma_disk_args_len(disks.drop_last());
    }
}

/// How many arguments an option with a value takes, where it is given.
pub open spec fn option_room(given: bool) -> int {
    if given {
        2
    } else {
        0
    }
}

/// How many descriptors there are, where one may be.
pub open spec fn fd_room(fd: Option<Fd>) -> int {
    if fd is Some {
        1
    } else {
        0
    }
}

/// How many arguments come before those of a ram dump.
pub open spec fn room_before_ramdump(config: CommonVmConfig, env: RunEnvironment) -> int {
    if env.memory_reclaim_supported && !config.no_balloon {
        6
    } else {
        5
    }
}

/// How many arguments come before those of the memory.
pub open spec fn room_before_memory(config: CommonVmConfig, env: RunEnvironment) -> int {
    room_before_ramdump(config, env) + option_room(!config.protected && config.ramdump is Some) + 2
        * option_room(
        config.debug_config.debug_level == DebugLevel::NotDebuggable
            && config.debug_config.prepare_console_output,
    )
}

/// How many arguments come before those of the serial devices.
pub open spec fn room_before_serial(config: CommonVmConfig, env: RunEnvironment) -> int {
    room_before_memory(config, env) + 2 + option_room(config.cpus is Some)
}

/// How many arguments come before the disks.
pub open spec fn room_before_disks(config: CommonVmConfig, env: RunEnvironment) -> int {
    room_before_serial(config, env) + 6 + option_room(config.bootloader is Some) + option_room(
        config.initrd is Some,
    ) + option_room(config.params is Some)
}

/// How many descriptors come before those of the boot files.
pub open spec fn fds_before_boot(config: CommonVmConfig) -> int {
    config.indirect_files@.len() + fd_room(config.console_out_fd) + fd_room(config.console_in_fd)
        + fd_room(config.log_fd) + 1 + fd_room(config.ramdump)
}

proof fn lemma_positions(config: CommonVmConfig, pipe: Fd, dir: Seq<char>, env: RunEnvironment)
    ensures
        ({
            let p = arg_parts(config, pipe, dir, env);
            let boot = room_before_serial(config, env) + 6;
            let disks = room_before_disks(config, env);
            &&& p.len() == 17
            &&& length_before(p, 1) == 5
            &&& length_before(p, 2) == room_before_ramdump(config, env)
            &&& length_before(p, 3) == room_before_ramdump(config, env) + option_room(
                !config.protected && config.ramdump is Some,
            )
            &&& length_before(p, 4) == room_before_memory(config, env)
            &&& length_before(p, 5) == room_before_memory(config, env) + 2
            &&& length_before(p, 6) == room_before_serial(config, env)
            &&& length_before(p, 7) == boot
            &&& length_before(p, 8) == boot + option_room(config.bootloader is Some)
            &&& length_before(p, 9) == boot + option_room(config.bootloader is Some) + option_room(
                config.initrd is Some,
            )
            &&& length_before(p, 10) == disks
            &&& length_before(p, 11) == disks + 2 * config.disks@.len()
            &&& length_before(p, 12) == disks + 2 * config.disks@.len() + option_room(
                config.kernel is Some,
            )
        }),
{
    lemma_disk_args_len(config.disks@);
    lemma_arg_entries(config, pipe, dir, env);
    reveal_with_fuel(length_before, 13);
}

proof fn lemma_fd_positions(config: CommonVmConfig, pipe: Fd, env: RunEnvironment)
    ensures
        ({
            let p = fd_parts(config, pipe, env);
            let n = config.indirect_files@.len() as int;
            let boot = fds_before_boot(config);
            let disks = boot + fd_room(config.bootloader) + fd_room(config.initrd);
            &&& p.len() == 12
            &&& length_before(p, 1) == n
            &&& length_before(p, 2) == n + fd_room(config.console_out_fd)
            &&& length_before(p, 3) == n + fd_room(config.console_out_fd) + fd_room(
                config.console_in_fd,
            )
            &&& length_before(p, 5) == boot - fd_room(config.ramdump)
            &&& length_before(p, 6) == boot
            &&& length_before(p, 7) == boot + fd_room(config.bootloader)
            &&& length_before(p, 8) == disks
            &&& length_before(p, 9) == disks + config.disks@.len()
            &&& length_before(p, 10) == disks + config.disks@.len() + fd_room(config.kernel)
            &&& length_before(p, 11) == disks + config.disks@.len() + fd_room(config.kernel)
                + fd_room(used_metadata(config, env))
        }),
{
    lemma_fd_entries(config, pipe, env);
    reveal_with_fuel(length_before, 12);
}

/// A kernel is named by the option `--kernel` and inherited, whatever else is configured; without
/// one both are missing and nothing else changes.
pub proof fn kernels_are_named(
    config: CommonVmConfig,
    pipe: Fd,
    dir: Seq<char>,
    env: RunEnvironment,
    kernel: Fd,
)
    requires
        config.kernel == Some(kernel),
    ensures
        ({
            let without = CommonVmConfig { kernel: None, ..config };
            &&& command_args(config, pipe, dir, env) == with_inserted(
                command_args(without, pipe, dir, env),
                room_before_disks(config, env) + 2 * config.disks@.len(),
                seq!["--kernel"@, fd_path(kernel)],
            )
            &&& command_fds(config, pipe, env) == with_inserted(
                command_fds(without, pipe, env),
                fds_before_boot(config) + fd_room(config.bootloader) + fd_room(config.initrd)
                    + config.disks@.len(),
                seq![kernel],
            )
        }),
{
    let without = CommonVmConfig { kernel: None, ..config };
    assert(command_args(config, pipe, dir, env) == with_inserted(
        command_args(without, pipe, dir, env),
        room_before_disks(config, env) + 2 * config.disks@.len(),
        seq!["--kernel"@, fd_path(kernel)],
    )) by {
        lemma_arg_parts(config, pipe, dir, env);
        lemma_arg_parts(without, pipe, dir, env);
        lemma_positions(config, pipe, dir, env);
        lemma_arg_entries(without, pipe, dir, env);
        lemma_arg_entries(config, pipe, dir, env);
        lemma_agree_but_at(
            arg_parts(without, pipe, dir, env),
            arg_parts(config, pipe, dir, env),
            11,
        );
        lemma_one_part_more(
            arg_parts(without, pipe, dir, env),
            arg_parts(config, pipe, dir, env),
            11,
        );
    }
    assert(command_fds(config, pipe, env) == with_inserted(
        command_fds(without, pipe, env),
        fds_before_boot(config) + fd_room(config.bootloader) + fd_room(config.initrd)
            + config.disks@.len(),
        seq![kernel],
    )) by {
        lemma_fd_parts(config, pipe, env);
        lemma_fd_parts(without, pipe, env);
        lemma_fd_positions(config, pipe, env);
        lemma_fd_entries(without, pipe, env);
        lemma_fd_entries(config, pipe, env);
        lemma_agree_but_at(fd_parts(without, pipe, env), fd_parts(config, pipe, env), 9);
        lemma_one_part_more(fd_parts(without, pipe, env), fd_parts(config, pipe, env), 9);
    }
}

/// A boot loader is named by the option `--firmware` and inherited, whatever else is configured.
pub proof fn bootloaders_are_named(
    config: CommonVmConfig,
    pipe: Fd,
    dir: Seq<char>,
    env: RunEnvironment,
    bootloader: Fd,
)
    requires
        config.bootloader == Some(bootloader),
    ensures
        ({
            let without = CommonVmConfig { bootloader: None, ..config };
            &&& command_args(config, pipe, dir, env) == with_inserted(
                command_args(without, pipe, dir, env),
                room_before_serial(config, env) + 6,
                seq!["--firmware"@, fd_path(bootloader)],
            )
            &&& command_fds(config, pipe, env) == with_inserted(
                command_fds(without, pipe, env),
                fds_before_boot(config),
                seq![bootloader],
            )
        }),
{
    let without = CommonVmConfig { bootloader: None, ..config };
    assert(command_args(config, pipe, dir, env) == with_inserted(
        command_args(without, pipe, dir, env),
        room_before_serial(config, env) + 6,
        seq!["--firmware"@, fd_path(bootloader)],
    )) by {
        lemma_arg_parts(config, pipe, dir, env);
        lemma_arg_parts(without, pipe, dir, env);
        lemma_positions(config, pipe, dir, env);
        lemma_arg_entries(without, pipe, dir, env);
        lemma_arg_entries(config, pipe, dir, env);
        lemma_agree_but_at(
            arg_parts(without, pipe, dir, env),
            arg_parts(config, pipe, dir, env),
            7,
        );
        lemma_one_part_more(
            arg_parts(without, pipe, dir, env),
            arg_parts(config, pipe, dir, env),
            7,
        );
    }
    assert(command_fds(config, pipe, env) == with_inserted(
        command_fds(without, pipe, env),
        fds_before_boot(config),
        seq![bootloader],
    )) by {
        lemma_fd_parts(config, pipe, env);
        lemma_fd_parts(without, pipe, env);
        lemma_fd_positions(config, pipe, env);
        lemma_fd_entries(without, pipe, env);
        lemma_fd_entries(config, pipe, env);
        lemma_agree_but_at(fd_parts(without, pipe, env), fd_parts(config, pipe, env), 6);
        lemma_one_part_more(fd_parts(without, pipe, env), fd_parts(config, pipe, env), 6);
    }
}

/// An initial ram disk is named by the option `--initrd` and inherited, whatever else is configured.
pub proof fn initrds_are_named(
    config: CommonVmConfig,
    pipe: Fd,
    dir: Seq<char>,
    env: RunEnvironment,
    initrd: Fd,
)
    requires
        config.initrd == Some(initrd),
    ensures
        ({
            let without = CommonVmConfig { initrd: None, ..config };
            &&& command_args(config, pipe, dir, env) == with_inserted(
                command_args(without, pipe, dir, env),
                room_before_serial(config, env) + 6 + option_room(config.bootloader is Some),
                seq!["--initrd"@, fd_path(initrd)],
            )
            &&& command_fds(config, pipe, env) == with_inserted(
                command_fds(without, pipe, env),
                fds_before_boot(config) + fd_room(config.bootloader),
                seq![initrd],
            )
        }),
{
    let without = CommonVmConfig { initrd: None, ..config };
    assert(command_args(config, pipe, dir, env) == with_inserted(
        command_args(without, pipe, dir, env),
        room_before_serial(config, env) + 6 + option_room(config.bootloader is Some),
        seq!["--initrd"@, fd_path(initrd)],
    )) by {
        lemma_arg_parts(config, pipe, dir, env);
        lemma_arg_parts(without, pipe, dir, env);
        lemma_positions(config, pipe, dir, env);
        lemma_arg_entries(without, pipe, dir, env);
        lemma_arg_entries(config, pipe, dir, env);
        lemma_agree_but_at(
            arg_parts(without, pipe, dir, env),
            arg_parts(config, pipe, dir, env),
            8,
        );
        lemma_one_part_more(
            arg_parts(without, pipe, dir, env),
            arg_parts(config, pipe, dir, env),
            8,
        );
    }
    assert(command_fds(config, pipe, env) == with_inserted(
        command_fds(without, pipe, env),
        fds_before_boot(config) + fd_room(config.bootloader),
        seq![initrd],
    )) by {
        lemma_fd_parts(config, pipe, env);
        lemma_fd_parts(without, pipe, env);
        lemma_fd_positions(config, pipe, env);
        lemma_fd_entries(without, pipe, env);
        lemma_fd_entries(config, pipe, env);
        lemma_agree_but_at(fd_parts(without, pipe, env), fd_parts(config, pipe, env), 7);
        lemma_one_part_more(fd_parts(without, pipe, env), fd_parts(config, pipe, env), 7);
    }
}

/// Kernel parameters are handed on as they are by an option `--params` of their own.
pub proof fn kernel_parameters_are_handed_on(
    config: CommonVmConfig,
    pipe: Fd,
    dir: Seq<char>,
    env: RunEnvironment,
    params: String,
)
    requires
        config.params == Some(params),
    ensures
        ({
            let without = CommonVmConfig { params: None, ..config };
            &&& command_args(config, pipe, dir, env) == with_inserted(
                command_args(without, pipe, dir, env),
                room_before_disks(without, env),
                seq!["--params"@, params@],
            )
            &&& command_fds(config, pipe, env) == command_fds(without, pipe, env)
        }),
{
    let without = CommonVmConfig { params: None, ..config };
    lemma_fd_parts(config, pipe, env);
    lemma_fd_parts(without, pipe, env);
    lemma_fd_entries(config, pipe, env);
    lemma_fd_entries(without, pipe, env);
    lemma_agree_but_at(fd_parts(config, pipe, env), fd_parts(without, pipe, env), -1);
    assert(fd_parts(config, pipe, env) =~= fd_parts(without, pipe, env));
    lemma_arg_parts(config, pipe, dir, env);
    lemma_arg_parts(without, pipe, dir, env);
    lemma_positions(config, pipe, dir, env);
    lemma_arg_entries(without, pipe, dir, env);
    lemma_arg_entries(config, pipe, dir, env);
    lemma_agree_but_at(arg_parts(without, pipe, dir, env), arg_parts(config, pipe, dir, env), 9);
    lemma_one_part_more(
        arg_parts(without, pipe, dir, env),
        arg_parts(config, pipe, dir, env),
        9,
    );
}

/// One more disk adds one more option `--disk` behind those of the disks before it, with the disk's
/// own file, marked where it has a role, and that file is inherited.
pub proof fn every_disk_is_named(
    config: CommonVmConfig,
    more: CommonVmConfig,
    pipe: Fd,
    dir: Seq<char>,
    env: RunEnvironment,
    disk: DiskFile,
)
    requires
        more == (CommonVmConfig { disks: more.disks, ..config }),
        more.disks@ == config.disks@.push(disk),
    ensures
        ({
            let file = match disk.role {
                DiskRole::Undefined => fd_path(disk.image),
                DiskRole::EncryptedStore => fd_path(disk.image) + ",encryptedstore"@,
                DiskRole::VmInstance => fd_path(disk.image) + ",vm-instance"@,
            };
            &&& command_args(more, pipe, dir, env) == with_inserted(
                command_args(config, pipe, dir, env),
                room_before_disks(config, env) + 2 * config.disks@.len(),
                seq!["--disk"@, file],
            )
            &&& command_fds(more, pipe, env) == with_inserted(
                command_fds(config, pipe, env),
                fds_before_boot(config) + fd_room(config.bootloader) + fd_room(config.initrd)
                    + config.disks@.len(),
                seq![disk.image],
            )
        }),
{
    let file = match disk.role {
        DiskRole::Undefined => fd_path(disk.image),
        DiskRole::EncryptedStore => fd_path(disk.image) + ",encryptedstore"@,
        DiskRole::VmInstance => fd_path(disk.image) + ",vm-instance"@,
    };
    assert(file =~= fd_path(disk.image) + role_suffix(disk.role));
    assert(more.disks@.drop_last() =~= config.disks@);
    let added = seq!["--disk"@, file];
    assert(disk_args(more.disks@) == disk_args(config.disks@) + added);
    assert(disk_fds(more.disks@) =~= disk_fds(config.disks@) + seq![disk.image]);
    assert(command_args(more, pipe, dir, env) == with_inserted(
        command_args(config, pipe, dir, env),
        room_before_disks(config, env) + 2 * config.disks@.len(),
        added,
    )) by {
        lemma_arg_parts(config, pipe, dir, env);
        lemma_arg_parts(more, pipe, dir, env);
        lemma_positions(config, pipe, dir, env);
        lemma_arg_entries(config, pipe, dir, env);
        lemma_arg_entries(more, pipe, dir, env);
        lemma_agree_but_at(arg_parts(config, pipe, dir, env), arg_parts(more, pipe, dir, env), 10);
        lemma_part_grows(
            arg_parts(config, pipe, dir, env),
            arg_parts(more, pipe, dir, env),
            10,
            added,
        );
    }
    assert(command_fds(more, pipe, env) == with_inserted(
        command_fds(config, pipe, env),
        fds_before_boot(config) + fd_room(config.bootloader) + fd_room(config.initrd)
            + config.disks@.len(),
        seq![disk.image],
    )) by {
        lemma_fd_parts(config, pipe, env);
        lemma_fd_parts(more, pipe, env);
        lemma_fd_positions(config, pipe, env);
        lemma_fd_entries(config, pipe, env);
        lemma_fd_entries(more, pipe, env);
        lemma_agree_but_at(fd_parts(config, pipe, env), fd_parts(more, pipe, env), 8);
        lemma_part_grows(
            fd_parts(config, pipe, env),
            fd_parts(more, pipe, env),
            8,
            seq![disk.image],
        );
    }
}

/// Where one part of a list grows at its end, so do all the parts together at that place.
proof fn lemma_part_grows<A>(before: Seq<Seq<A>>, after: Seq<Seq<A>>, j: int, added: Seq<A>)
    requires
        0 <= j < before.len(),
        after.len() == before.len(),
        forall|k: int| 0 <= k < after.len() && k != j ==> after[k] == before[k],
        after[j] == before[j] + added,
    ensures
        all_of(after) == with_inserted(all_of(before), length_before(before, j + 1), added),
{
    lemma_all_of_around(after, j);
    lemma_all_of_around(before, j);
    lemma_length_before(before, j);
    assert(after.take(j) =~= before.take(j));
    assert(after.skip(j + 1) =~= before.skip(j + 1));
    let left = all_of(before.take(j)) + before[j];
    let right = all_of(before.skip(j + 1));
    assert(all_of(before) =~= left + right);
    assert(all_of(after) =~= left + added + right);
    assert((left + right).take(left.len() as int) =~= left);
    assert((left + right).skip(left.len() as int) =~= right);
}

/// Metadata is named by the option `--metadata` and inherited exactly in a realm of 2048 MiB; in any
/// other virtual machine it is as if there were none.
pub proof fn metadata_is_for_realms_of_one_size(
    config: CommonVmConfig,
    pipe: Fd,
    dir: Seq<char>,
    env: RunEnvironment,
    metadata: Fd,
)
    requires
        config.metadata == Some(metadata),
    ensures
        ({
            let without = CommonVmConfig { metadata: None, ..config };
            let used = env.use_realm && config.memory_mib@ == 2048;
            let args = command_args(without, pipe, dir, env);
            let fds = command_fds(without, pipe, env);
            &&& !used ==> command_args(config, pipe, dir, env) == args && command_fds(
                config,
                pipe,
                env,
            ) == fds
            &&& used ==> command_args(config, pipe, dir, env) == with_inserted(
                args,
                room_before_disks(config, env) + 2 * config.disks@.len() + option_room(
                    config.kernel is Some,
                ),
                seq!["--metadata"@, fd_path(metadata)],
            ) && command_fds(config, pipe, env) == with_inserted(
                fds,
                fds_before_boot(config) + fd_room(config.bootloader) + fd_room(config.initrd)
                    + config.disks@.len() + fd_room(config.kernel),
                seq![metadata],
            )
        }),
{
    let without = CommonVmConfig { metadata: None, ..config };
    lemma_arg_parts(config, pipe, dir, env);
    lemma_arg_parts(without, pipe, dir, env);
    lemma_fd_parts(config, pipe, env);
    lemma_fd_parts(without, pipe, env);
    if env.use_realm && config.memory_mib@ == 2048 {
        lemma_positions(config, pipe, dir, env);
        lemma_arg_entries(without, pipe, dir, env);
        lemma_arg_entries(config, pipe, dir, env);
        lemma_agree_but_at(
            arg_parts(without, pipe, dir, env),
            arg_parts(config, pipe, dir, env),
            12,
        );
        lemma_one_part_more(
            arg_parts(without, pipe, dir, env),
            arg_parts(config, pipe, dir, env),
            12,
        );
        lemma_fd_positions(config, pipe, env);
        lemma_fd_entries(without, pipe, env);
        lemma_fd_entries(config, pipe, env);
        lemma_agree_but_at(fd_parts(without, pipe, env), fd_parts(config, pipe, env), 10);
        lemma_one_part_more(fd_parts(without, pipe, env), fd_parts(config, pipe, env), 10);
    } else {
        lemma_arg_entries(config, pipe, dir, env);
        lemma_arg_entries(without, pipe, dir, env);
        lemma_agree_but_at(
            arg_parts(config, pipe, dir, env),
            arg_parts(without, pipe, dir, env),
            -1,
        );
        assert(arg_parts(config, pipe, dir, env) =~= arg_parts(without, pipe, dir, env));
        lemma_fd_entries(config, pipe, env);
        lemma_fd_entries(without, pipe, env);
        lemma_agree_but_at(fd_parts(config, pipe, env), fd_parts(without, pipe, env), -1);
        assert(fd_parts(config, pipe, env) =~= fd_parts(without, pipe, env));
    }
}

/// A number of processors is handed on by the option `--cpus`, behind the memory.
pub proof fn processors_are_counted(
    config: CommonVmConfig,
    pipe: Fd,
    dir: Seq<char>,
    env: RunEnvironment,
)
    requires
        config.cpus is Some,
    ensures
        ({
            let without = CommonVmConfig { cpus: None, ..config };
            &&& command_args(config, pipe, dir, env) == with_inserted(
                command_args(without, pipe, dir, env),
                room_before_memory(config, env) + 2,
                seq!["--cpus"@, decimal((config.cpus->0)@ as nat)],
            )
            &&& command_fds(config, pipe, env) == command_fds(without, pipe, env)
        }),
{
    let without = CommonVmConfig { cpus: None, ..config };
    lemma_arg_parts(config, pipe, dir, env);
    lemma_arg_parts(without, pipe, dir, env);
    lemma_positions(config, pipe, dir, env);
    lemma_arg_entries(without, pipe, dir, env);
    lemma_arg_entries(config, pipe, dir, env);
    lemma_agree_but_at(arg_parts(without, pipe, dir, env), arg_parts(config, pipe, dir, env), 5);
    lemma_one_part_more(
        arg_parts(without, pipe, dir, env),
        arg_parts(config, pipe, dir, env),
        5,
    );
    lemma_fd_parts(config, pipe, env);
    lemma_fd_parts(without, pipe, env);
    lemma_fd_entries(config, pipe, env);
    lemma_fd_entries(without, pipe, env);
    lemma_agree_but_at(fd_parts(config, pipe, env), fd_parts(without, pipe, env), -1);
    assert(fd_parts(config, pipe, env) =~= fd_parts(without, pipe, env));
}

/// A memory balloon is asked for where the hypervisor supports it, unless it is turned off.
pub proof fn balloons_can_be_turned_off(
    config: CommonVmConfig,
    pipe: Fd,
    dir: Seq<char>,
    env: RunEnvironment,
)
    requires
        !config.no_balloon,
    ensures
        ({
            let without = CommonVmConfig { no_balloon: true, ..config };
            let args = command_args(without, pipe, dir, env);
            &&& env.memory_reclaim_supported ==> command_args(config, pipe, dir, env)
                == with_inserted(args, 5, seq!["--balloon"@])
            &&& !env.memory_reclaim_supported ==> command_args(config, pipe, dir, env) == args
            &&& command_args(without, pipe, dir, env) == command_args(
                without,
                pipe,
                dir,
                RunEnvironment { memory_reclaim_supported: false, ..env },
            )
            &&& command_fds(config, pipe, env) == command_fds(without, pipe, env)
        }),
{
    let without = CommonVmConfig { no_balloon: true, ..config };
    let unsupported = RunEnvironment { memory_reclaim_supported: false, ..env };
    lemma_arg_parts(config, pipe, dir, env);
    lemma_arg_parts(without, pipe, dir, env);
    lemma_arg_parts(without, pipe, dir, unsupported);
    lemma_arg_entries(without, pipe, dir, env);
    lemma_arg_entries(without, pipe, dir, unsupported);
    lemma_agree_but_at(
        arg_parts(without, pipe, dir, env),
        arg_parts(without, pipe, dir, unsupported),
        -1,
    );
    assert(arg_parts(without, pipe, dir, env) =~= arg_parts(without, pipe, dir, unsupported));
    if env.memory_reclaim_supported {
        lemma_positions(config, pipe, dir, env);
        lemma_arg_entries(without, pipe, dir, env);
        lemma_arg_entries(config, pipe, dir, env);
        lemma_agree_but_at(
            arg_parts(without, pipe, dir, env),
            arg_parts(config, pipe, dir, env),
            1,
        );
        lemma_one_part_more(
            arg_parts(without, pipe, dir, env),
            arg_parts(config, pipe, dir, env),
            1,
        );
    } else {
        lemma_arg_entries(config, pipe, dir, env);
        lemma_arg_entries(without, pipe, dir, env);
        lemma_agree_but_at(
            arg_parts(config, pipe, dir, env),
            arg_parts(without, pipe, dir, env),
            -1,
        );
        assert(arg_parts(config, pipe, dir, env) =~= arg_parts(without, pipe, dir, env));
    }
    lemma_fd_parts(config, pipe, env);
    lemma_fd_parts(without, pipe, env);
    lemma_fd_entries(config, pipe, env);
    lemma_fd_entries(without, pipe, env);
    lemma_agree_but_at(fd_parts(config, pipe, env), fd_parts(without, pipe, env), -1);
    assert(fd_parts(config, pipe, env) =~= fd_parts(without, pipe, env));
}

/// Where there is a file for a ram dump it is inherited, and 17 MiB are reserved for a crash kernel
/// unless the virtual machine is protected.
pub proof fn ramdumps_reserve_memory(
    config: CommonVmConfig,
    pipe: Fd,
    dir: Seq<char>,
    env: RunEnvironment,
    ramdump: Fd,
)
    requires
        config.ramdump == Some(ramdump),
    ensures
        ({
            let without = CommonVmConfig { ramdump: None, ..config };
            let args = command_args(without, pipe, dir, env);
            &&& config.protected ==> command_args(config, pipe, dir, env) == args
            &&& !config.protected ==> command_args(config, pipe, dir, env) == with_inserted(
                args,
                room_before_ramdump(config, env),
                seq!["--params"@, "crashkernel="@ + decimal(17) + "M"@],
            )
            &&& command_fds(config, pipe, env) == with_inserted(
                command_fds(without, pipe, env),
                fds_before_boot(without),
                seq![ramdump],
            )
        }),
{
    let without = CommonVmConfig { ramdump: None, ..config };
    lemma_arg_parts(config, pipe, dir, env);
    lemma_arg_parts(without, pipe, dir, env);
    if config.protected {
        lemma_arg_entries(config, pipe, dir, env);
        lemma_arg_entries(without, pipe, dir, env);
        lemma_agree_but_at(
            arg_parts(config, pipe, dir, env),
            arg_parts(without, pipe, dir, env),
            -1,
        );
        assert(arg_parts(config, pipe, dir, env) =~= arg_parts(without, pipe, dir, env));
    } else {
        lemma_positions(config, pipe, dir, env);
        lemma_arg_entries(without, pipe, dir, env);
        lemma_arg_entries(config, pipe, dir, env);
        lemma_agree_but_at(
            arg_parts(without, pipe, dir, env),
            arg_parts(config, pipe, dir, env),
            2,
        );
        lemma_one_part_more(
            arg_parts(without, pipe, dir, env),
            arg_parts(config, pipe, dir, env),
            2,
        );
    }
    lemma_fd_parts(config, pipe, env);
    lemma_fd_parts(without, pipe, env);
    lemma_fd_positions(config, pipe, env);
    lemma_fd_entries(without, pipe, env);
    lemma_fd_entries(config, pipe, env);
    lemma_agree_but_at(fd_parts(without, pipe, env), fd_parts(config, pipe, env), 5);
    lemma_one_part_more(fd_parts(without, pipe, env), fd_parts(config, pipe, env), 5);
}

/// The kernel's log goes to the console exactly where a virtual machine that is not debuggable has
/// its console output prepared.
pub proof fn logs_go_to_prepared_consoles(
    config: CommonVmConfig,
    pipe: Fd,
    dir: Seq<char>,
    env: RunEnvironment,
)
    requires
        config.debug_config.prepare_console_output,
    ensures
        ({
            let unprepared = DebugConfig { prepare_console_output: false, ..config.debug_config };
            let without = CommonVmConfig { debug_config: unprepared, ..config };
            let args = command_args(without, pipe, dir, env);
            &&& config.debug_config.debug_level == DebugLevel::NotDebuggable ==> command_args(
                config,
                pipe,
                dir,
                env,
            ) == with_inserted(
                args,
                room_before_ramdump(config, env) + option_room(
                    !config.protected && config.ramdump is Some,
                ),
                seq!["--params"@, "printk.devkmsg=on"@, "--params"@, "console=hvc0"@],
            )
            &&& config.debug_config.debug_level != DebugLevel::NotDebuggable ==> command_args(
                config,
                pipe,
                dir,
                env,
            ) == args
            &&& command_fds(config, pipe, env) == command_fds(without, pipe, env)
        }),
{
    let unprepared = DebugConfig { prepare_console_output: false, ..config.debug_config };
    let without = CommonVmConfig { debug_config: unprepared, ..config };
    lemma_arg_parts(config, pipe, dir, env);
    lemma_arg_parts(without, pipe, dir, env);
    if config.debug_config.debug_level == DebugLevel::NotDebuggable {
        lemma_positions(config, pipe, dir, env);
        lemma_arg_entries(without, pipe, dir, env);
        lemma_arg_entries(config, pipe, dir, env);
        lemma_agree_but_at(
            arg_parts(without, pipe, dir, env),
            arg_parts(config, pipe, dir, env),
            3,
        );
        lemma_one_part_more(
            arg_parts(without, pipe, dir, env),
            arg_parts(config, pipe, dir, env),
            3,
        );
    } else {
        lemma_arg_entries(config, pipe, dir, env);
        lemma_arg_entries(without, pipe, dir, env);
        lemma_agree_but_at(
            arg_parts(config, pipe, dir, env),
            arg_parts(without, pipe, dir, env),
            -1,
        );
        assert(arg_parts(config, pipe, dir, env) =~= arg_parts(without, pipe, dir, env));
    }
    lemma_fd_parts(config, pipe, env);
    lemma_fd_parts(without, pipe, env);
    lemma_fd_entries(config, pipe, env);
    lemma_fd_entries(without, pipe, env);
    lemma_agree_but_at(fd_parts(config, pipe, env), fd_parts(without, pipe, env), -1);
    assert(fd_parts(config, pipe, env) =~= fd_parts(without, pipe, env));
}

/// A network device is used and inherited where networking is built in; otherwise it is as if there
/// were none, and then networking is turned off.
pub proof fn network_devices_need_networking(
    config: CommonVmConfig,
    pipe: Fd,
    dir: Seq<char>,
    env: RunEnvironment,
    tap: Fd,
)
    requires
        config.tap == Some(tap),
    ensures
        ({
            let without = CommonVmConfig { tap: None, ..config };
            let args = command_args(without, pipe, dir, env);
            let fds = command_fds(without, pipe, env);
            let at = args.len() - 4 - option_room(env.use_realm);
            &&& args[at - 1] == "--network"@ && args[at] == "mode=none"@
            &&& !env.network ==> command_args(config, pipe, dir, env) == args && command_fds(
                config,
                pipe,
                env,
            ) == fds
            &&& env.network ==> command_args(config, pipe, dir, env) == args.update(
                at,
                "fd="@ + signed_decimal(tap as int) + ",nosetip=1"@,
            ) && command_fds(config, pipe, env) == fds.push(tap)
        }),
{
    let without = CommonVmConfig { tap: None, ..config };
    reveal(command_args);
    let args = command_args(without, pipe, dir, env);
    let at = args.len() - 4 - option_room(env.use_realm);
    let head = machine_args(config, env) + serial_args(config, pipe) + boot_args(config, env);
    assert(machine_args(without, env) == machine_args(config, env));
    assert(serial_args(without, pipe) == serial_args(config, pipe));
    assert(boot_args(without, env) == boot_args(config, env));
    lemma_network(head, config, dir, env);
    reveal(command_fds);
    if env.network {
        let fds = command_fds(without, pipe, env);
        let held = fd_if(used_tap(config, env));
        assert(fd_if(used_tap(without, env)) =~= Seq::<Fd>::empty());
        assert(held =~= seq![tap]);
        assert(command_fds(config, pipe, env) =~= fds + held);
        assert(fds + held =~= fds.push(tap));
    }
}

proof fn lemma_network(
    head: Seq<Seq<char>>,
    config: CommonVmConfig,
    dir: Seq<char>,
    env: RunEnvironment,
)
    requires
        config.tap is Some,
    ensures
        ({
            let without = CommonVmConfig { tap: None, ..config };
            let args = head + system_args(without, dir, env);
            let at = args.len() - 4 - option_room(env.use_realm);
            &&& args[at - 1] == "--network"@ && args[at] == "mode=none"@
            &&& !env.network ==> head + system_args(config, dir, env) == args
            &&& env.network ==> head + system_args(config, dir, env) == args.update(
                at,
                "fd="@ + signed_decimal(config.tap->0 as int) + ",nosetip=1"@,
            )
        }),
{
    let without = CommonVmConfig { tap: None, ..config };
    let args = head + system_args(without, dir, env);
    let at = args.len() - 4 - option_room(env.use_realm);
    if env.network {
        assert(head + system_args(config, dir, env) =~= args.update(
            at,
            "fd="@ + signed_decimal(config.tap->0 as int) + ",nosetip=1"@,
        ));
    }
}

/// Running as a realm adds the options `--realm` and `--restricted_mem` before the personalization
/// value and, but for the metadata, changes nothing else.
pub proof fn realms_are_asked_for(
    config: CommonVmConfig,
    pipe: Fd,
    dir: Seq<char>,
    env: RunEnvironment,
)
    requires
        env.use_realm,
        config.metadata is None,
    ensures
        ({
            let without = RunEnvironment { use_realm: false, ..env };
            let args = command_args(config, pipe, dir, without);
            &&& command_args(config, pipe, dir, env) == with_inserted(
                args,
                args.len() - 2,
                seq!["--realm"@, "--restricted_mem"@],
            )
            &&& command_fds(config, pipe, env) == command_fds(config, pipe, without)
        }),
{
    let without = RunEnvironment { use_realm: false, ..env };
    lemma_arg_parts(config, pipe, dir, env);
    lemma_arg_parts(config, pipe, dir, without);
    let parts = arg_parts(config, pipe, dir, env);
    let plain = arg_parts(config, pipe, dir, without);
    lemma_arg_entries(config, pipe, dir, env);
    lemma_arg_entries(config, pipe, dir, without);
    lemma_agree_but_at(plain, parts, 15);
    lemma_one_part_more(plain, parts, 15);
    lemma_length_before(parts, 15);
    lemma_all_of_split(plain, 15);
    lemma_all_of_around(plain, 15);
    assert(plain.skip(16) =~= seq![plain[16]]);
    lemma_all_of_one(plain[16]);
    assert(plain.take(15) =~= parts.take(15));
    lemma_fd_parts(config, pipe, env);
    lemma_fd_parts(config, pipe, without);
    lemma_fd_entries(config, pipe, env);
    lemma_fd_entries(config, pipe, without);
    lemma_agree_but_at(fd_parts(config, pipe, env), fd_parts(config, pipe, without), -1);
    assert(fd_parts(config, pipe, env) =~= fd_parts(config, pipe, without));
}

/// Three serial devices follow the memory and the processors: the emulated UART, the failure report,
/// which goes into the pipe, and the virtio console. Both consoles write to the console output, and
/// the chosen one reads the console input; without a choice that is the virtio console. Output that
/// nobody takes and input that nobody gives is `/dev/null`.
pub proof fn serial_devices_are_connected(
    config: CommonVmConfig,
    pipe: Fd,
    dir: Seq<char>,
    env: RunEnvironment,
)
    ensures
        ({
            let args = command_args(config, pipe, dir, env);
            let at = room_before_serial(config, env);
            let output = match config.console_out_fd {
                Some(f) => fd_path(f),
                None => "/dev/null"@,
            };
            let input = match config.console_in_fd {
                Some(f) => fd_path(f),
                None => "/dev/null"@,
            };
            let chosen = match config.console_input_device {
                Some(d) => d@,
                None => "hvc0"@,
            };
            let uart = if chosen == "ttyS0"@ {
                input
            } else {
                "/dev/null"@
            };
            let console = if chosen == "hvc0"@ {
                input
            } else {
                "/dev/null"@
            };
            &&& args.len() >= at + 6
            &&& args.subrange(at, at + 6) == seq![
                "--term-file"@,
                "n=0,out="@ + output + ",in="@ + uart,
                "--term-file"@,
                "n=1,out="@ + fd_path(pipe),
                "--term-file"@,
                "n=4,out="@ + output + ",in="@ + console,
            ]
        }),
{
    lemma_arg_parts(config, pipe, dir, env);
    let parts = arg_parts(config, pipe, dir, env);
    lemma_arg_entries(config, pipe, dir, env);
    lemma_positions(config, pipe, dir, env);
    lemma_all_of_around(parts, 6);
    lemma_length_before(parts, 6);
    let at = room_before_serial(config, env);
    assert(all_of(parts).subrange(at, at + 6) =~= parts[6]);
}

/// What is always there: the virtual machine's name, its context identifier and its memory at the
/// start, the directory of the control files, the network, debugging and the personalization value
/// at the end; and where nothing more is configured, there is nothing more than that and the serial
/// devices.
pub proof fn bare_command_lines_have_twenty_arguments(
    config: CommonVmConfig,
    pipe: Fd,
    dir: Seq<char>,
    env: RunEnvironment,
)
    requires
        config.no_balloon,
        config.ramdump is None,
        !config.debug_config.prepare_console_output,
        config.cpus is None,
        config.bootloader is None,
        config.initrd is None,
        config.params is None,
        config.disks@.len() == 0,
        config.kernel is None,
        config.metadata is None,
        config.tap is None,
        !env.use_realm,
    ensures
        ({
            let args = command_args(config, pipe, dir, env);
            &&& args.len() == 20
            &&& args.take(7) == seq![
                "run"@,
                "--name"@,
                config.name@,
                "--vsock"@,
                decimal(config.cid as nat),
                "--mem"@,
                decimal(config.memory_mib@ as nat),
            ]
            &&& args.skip(13) == seq![
                "--ipc-dir"@,
                dir,
                "--network"@,
                "mode=none"@,
                "--debug"@,
                "--realm-pv-hex"@,
                hex_text(config.instance_id@),
            ]
        }),
{
    reveal(command_args);
    let args = command_args(config, pipe, dir, env);
    assert(machine_args(config, env) =~= seq![
        "run"@,
        "--name"@,
        config.name@,
        "--vsock"@,
        decimal(config.cid as nat),
        "--mem"@,
        decimal(config.memory_mib@ as nat),
    ]);
    assert(boot_args(config, env) =~= Seq::<Seq<char>>::empty());
    assert(args.take(7) =~= machine_args(config, env));
    assert(args.skip(13) =~= system_args(config, dir, env));
    assert(system_args(config, dir, env) =~= seq![
        "--ipc-dir"@,
        dir,
        "--network"@,
        "mode=none"@,
        "--debug"@,
        "--realm-pv-hex"@,
        hex_text(config.instance_id@),
    ]);
}

/// Where no other file is configured, the process inherits the indirect files, in order, and the
/// pipe for the failure report.
pub proof fn indirect_files_are_inherited(config: CommonVmConfig, pipe: Fd, env: RunEnvironment)
    requires
        config.console_out_fd is None,
        config.console_in_fd is None,
        config.log_fd is None,
        config.ramdump is None,
        config.bootloader is None,
        config.initrd is None,
        config.disks@.len() == 0,
        config.kernel is None,
        config.metadata is None,
        config.tap is None,
    ensures
        command_fds(config, pipe, env) == config.indirect_files@.push(pipe),
{
    reveal(command_fds);
    assert(command_fds(config, pipe, env) =~= config.indirect_files@.push(pipe));
}

/// The files of the console and of the log are inherited, each one where it is configured, between
/// the indirect files and the pipe for the failure report; the log is not named on the command line.
pub proof fn console_files_are_inherited(
    config: CommonVmConfig,
    pipe: Fd,
    dir: Seq<char>,
    env: RunEnvironment,
    f: Fd,
)
    ensures
        ({
            let n = config.indirect_files@.len() as int;
            let fds = command_fds(config, pipe, env);
            let mute = CommonVmConfig { console_out_fd: None, ..config };
            let deaf = CommonVmConfig { console_in_fd: None, ..config };
            let unlogged = CommonVmConfig { log_fd: None, ..config };
            &&& config.console_out_fd == Some(f) ==> fds == with_inserted(
                command_fds(mute, pipe, env),
                n,
                seq![f],
            )
            &&& config.console_in_fd == Some(f) ==> fds == with_inserted(
                command_fds(deaf, pipe, env),
                n + fd_room(config.console_out_fd),
                seq![f],
            )
            &&& config.log_fd == Some(f) ==> fds == with_inserted(
                command_fds(unlogged, pipe, env),
                n + fd_room(config.console_out_fd) + fd_room(config.console_in_fd),
                seq![f],
            )
            &&& command_args(config, pipe, dir, env) == command_args(unlogged, pipe, dir, env)
        }),
{
    let mute = CommonVmConfig { console_out_fd: None, ..config };
    let deaf = CommonVmConfig { console_in_fd: None, ..config };
    let unlogged = CommonVmConfig { log_fd: None, ..config };
    lemma_fd_parts(config, pipe, env);
    lemma_fd_positions(config, pipe, env);
    let parts = fd_parts(config, pipe, env);
    lemma_fd_entries(config, pipe, env);
    if config.console_out_fd == Some(f) {
        lemma_fd_parts(mute, pipe, env);
        lemma_fd_entries(mute, pipe, env);
        lemma_agree_but_at(fd_parts(mute, pipe, env), parts, 1);
        lemma_one_part_more(fd_parts(mute, pipe, env), parts, 1);
    }
    if config.console_in_fd == Some(f) {
        lemma_fd_parts(deaf, pipe, env);
        lemma_fd_entries(deaf, pipe, env);
        lemma_agree_but_at(fd_parts(deaf, pipe, env), parts, 2);
        lemma_one_part_more(fd_parts(deaf, pipe, env), parts, 2);
    }
    if config.log_fd == Some(f) {
        lemma_fd_parts(unlogged, pipe, env);
        lemma_fd_entries(unlogged, pipe, env);
        lemma_agree_but_at(fd_parts(unlogged, pipe, env), parts, 3);
        lemma_one_part_more(fd_parts(unlogged, pipe, env), parts, 3);
    }
    lemma_arg_parts(config, pipe, dir, env);
    lemma_arg_parts(unlogged, pipe, dir, env);
    lemma_arg_entries(config, pipe, dir, env);
    lemma_arg_entries(unlogged, pipe, dir, env);
    lemma_agree_but_at(arg_parts(config, pipe, dir, env), arg_parts(unlogged, pipe, dir, env), -1);
    assert(arg_parts(config, pipe, dir, env) =~= arg_parts(unlogged, pipe, dir, env));
}

/// A message on the control socket is the number of its command and the length of its argument, each
/// in four bytes of which the least significant comes first, and then the whole argument.
pub proof fn control_messages_are_framed(ty: KvmIpcCmd, arg: Seq<u8>)
    requires
        arg.len() < 0x1_0000_0000,
    ensures
        ({
            let m = ipc_message(ty, arg);
            &&& m.len() == 8 + arg.len()
            &&& m[3] * 0x100_0000 + m[2] * 0x1_0000 + m[1] * 0x100 + m[0] == ty.number()
            &&& m[7] * 0x100_0000 + m[6] * 0x1_0000 + m[5] * 0x100 + m[4] == arg.len()
            &&& m.skip(8) == arg
        }),
        ty.number() == match ty {
            KvmIpcCmd::Balloon => 1u32,
            KvmIpcCmd::Debug => 2u32,
            KvmIpcCmd::Stat => 3u32,
            KvmIpcCmd::Pause => 4u32,
            KvmIpcCmd::Resume => 5u32,
            KvmIpcCmd::Stop => 6u32,
            KvmIpcCmd::Pid => 7u32,
            KvmIpcCmd::VmState => 8u32,
        },
{
    let m = ipc_message(ty, arg);
    assert(m.skip(8) =~= arg);
    crate::bytes::bytes_are_ordered(0, ty.number());
    crate::bytes::bytes_are_ordered(0, arg.len() as u32);
    assert(m[0] == le32(ty.number())[0] && m[1] == le32(ty.number())[1] && m[2] == le32(
        ty.number(),
    )[2] && m[3] == le32(ty.number())[3]);
    let n = arg.len() as u32;
    assert(m[4] == le32(n)[0] && m[5] == le32(n)[1] && m[6] == le32(n)[2] && m[7] == le32(n)[3]);
}

/// A shown argument differs from the argument only by what is known of its paths: each path whose
/// target is known is followed by that target in parentheses, and each gap stays as it is.
pub proof fn targets_follow_their_paths(
    gaps: Seq<Seq<char>>,
    paths: Seq<Seq<char>>,
    targets: Seq<Option<String>>,
    gap: Seq<char>,
    path: Seq<char>,
    target: Option<String>,
)
    requires
        gaps.len() == paths.len() + 1,
        targets.len() == paths.len(),
    ensures
        paths.len() == 0 ==> interleaved(gaps, shown_paths(paths, targets)) == gaps[0],
        interleaved(gaps.push(gap), shown_paths(paths.push(path), targets.push(target)))
            == interleaved(gaps, shown_paths(paths, targets)) + path + (match target {
            Some(t) => " ("@ + t@ + ")"@,
            None => Seq::empty(),
        }) + gap,
{
    let shown = shown_paths(paths.push(path), targets.push(target));
    assert(shown.drop_last() =~= shown_paths(paths, targets));
    assert(gaps.push(gap).drop_last() =~= gaps);
    assert(shown.last() == shown_path(path, target));
    let note = match target {
        Some(t) => " ("@ + t@ + ")"@,
        None => Seq::empty(),
    };
    assert(shown_path(path, target) =~= path + note);
    let before = interleaved(gaps, shown_paths(paths, targets));
    assert(before + (path + note) + gap =~= before + path + note + gap);
}

/// Resident set sizes add up line by line: a line without `Rss:` adds nothing, any other adds the
/// number that is its second word. What is wrong with a line is wrong with all, unless something was
/// wrong before it; so is a sum that does not fit in 64 bits.
pub proof fn resident_sizes_add_up(all: Seq<Seq<char>>, line: Seq<char>)
    ensures
        rss_of_lines(Seq::empty()) == Ok::<int, RssError>(0),
        rss_of_lines(all) is Err ==> rss_of_lines(all.push(line)) == rss_of_lines(all),
        rss_of_lines(all) matches Ok(total) ==> {
            let after = rss_of_lines(all.push(line));
            let second = parse_signed(words(line)[1], i64::MIN as int, i64::MAX as int);
            if forall|at: int|
                0 <= at && at + 4 <= line.len() ==> #[trigger] line.subrange(at, at + 4)
                    != "Rss:"@ {
                after == Ok::<int, RssError>(total)
            } else if words(line).len() < 2 {
                after == Err::<int, _>(RssError::MissingValue)
            } else if second is None {
                after == Err::<int, _>(RssError::InvalidNumber)
            } else if i64::MIN <= total + second->0 <= i64::MAX {
                after == Ok::<int, RssError>(total + second->0)
            } else {
                after == Err::<int, _>(RssError::Overflow)
            }
        },
{
    assert(all.push(line).drop_last() =~= all);
    reveal_strlit("Rss:");
    let pattern = "Rss:"@;
    assert(pattern.len() == 4);
    if contains_text(line, pattern) {
        let at = choose|at: int| crate::text::occurs_at(line, pattern, at);
        assert(crate::text::occurs_at(line, pattern, at));
        assert(line.subrange(at, at + 4) == pattern);
    } else {
        assert forall|at: int| 0 <= at && at + 4 <= line.len() implies #[trigger] line.subrange(
            at,
            at + 4,
        ) != pattern by {
            assert(!crate::text::occurs_at(line, pattern, at));
        }
    }
}

} // verus!
