//! Configuration and metrics of a virtual machine.
use crate::text::{concat, i32_to_text, signed_decimal, texts};
use vstd::prelude::*;

verus! {

/// The number of an open file descriptor.
pub type Fd = i32;

/// Context identifier of a virtual machine for vsock communication.
pub type Cid = u32;

/// A number that is not zero.
#[derive(Debug, Clone, Copy, PartialEq, Eq)]
pub struct NonZeroU32 {
    value: u32,
}

impl NonZeroU32 {
    #[verifier::type_invariant]
    pub closed spec fn inv(self) -> bool {
        self.value != 0
    }

    pub closed spec fn view(&self) -> u32 {
        self.value
    }

    /// The number, where it is not zero.
    pub fn new(value: u32) -> (r: Option<NonZeroU32>)
        ensures
            r is Some <==> value != 0,
            r matches Some(n) ==> n@ == value,
    {
        if value == 0 {
            None
        } else {
            Some(NonZeroU32 { value })
        }
    }

    /// The number as a plain integer.
    pub fn get(&self) -> (r: u32)
        ensures
            r == self@,
            r != 0,
    {
        proof {
            use_type_invariant(self);
        }
        self.value
    }
}

/// Why a configuration value was refused.
#[derive(Debug, Clone, Copy, PartialEq, Eq, Structural)]
pub enum ConfigError {
    /// The value is negative.
    OutOfRange,
    /// The value is zero but should be greater than zero.
    NotPositive,
}

/// Why a value cannot be a positive number; `None` where it can.
pub open spec fn positive_error(value: i32) -> Option<ConfigError> {
    if value < 0 {
        Some(ConfigError::OutOfRange)
    } else if value == 0 {
        Some(ConfigError::NotPositive)
    } else {
        None
    }
}

/// Converts a positive value.
pub fn try_into_non_zero_u32(value: i32) -> (r: Result<NonZeroU32, ConfigError>)
    ensures
        match r {
            Ok(n) => positive_error(value) is None && n@ == value,
            Err(e) => positive_error(value) == Some(e),
        },
{
    if value < 0 {
        return Err(ConfigError::OutOfRange);
    }
    match NonZeroU32::new(value as u32) {
        Some(n) => Ok(n),
        None => Err(ConfigError::NotPositive),
    }
}

/// Resident set sizes of a virtual machine and of the process that runs it.
#[derive(Copy, Clone, Debug)]
pub struct Rss {
    pub vm: i64,
    pub crosvm: i64,
}

impl Default for Rss {
    fn default() -> (r: Self)
        ensures
            r == (Rss { vm: 0, crosvm: 0 }),
    {
        Rss { vm: 0, crosvm: 0 }
    }
}

pub open spec fn max_i64(a: i64, b: i64) -> i64 {
    if a >= b {
        a
    } else {
        b
    }
}

impl Rss {
    /// The larger of two samples, field by field.
    pub open spec fn max(x: Rss, y: Rss) -> Rss {
        Rss { vm: max_i64(x.vm, y.vm), crosvm: max_i64(x.crosvm, y.crosvm) }
    }

    /// The larger of two samples, field by field.
    pub fn extract_max(x: &Rss, y: &Rss) -> (r: Rss)
        ensures
            r == Rss::max(*x, *y),
    {
        let vm: i64 = if x.vm >= y.vm {
            x.vm
        } else {
            y.vm
        };
        let crosvm: i64 = if x.crosvm >= y.crosvm {
            x.crosvm
        } else {
            y.crosvm
        };
        Rss { vm, crosvm }
    }
}

/// The maximum of samples depends neither on their order nor on their grouping nor on
/// repetitions, and it is never below a sample.
pub proof fn rss_max_is_a_join(x: Rss, y: Rss, z: Rss)
    ensures
        Rss::max(x, y) == Rss::max(y, x),
        Rss::max(Rss::max(x, y), z) == Rss::max(x, Rss::max(y, z)),
        Rss::max(x, x) == x,
        Rss::max(x, y).vm >= x.vm,
        Rss::max(x, y).crosvm >= x.crosvm,
{
}

/// Metrics of a virtual machine.
#[derive(Debug, Clone, Copy)]
pub struct VmMetric {
    /// When the virtual machine was started, in milliseconds since the Unix epoch.
    pub start_timestamp: Option<u64>,
    /// The most recent guest time of the process that runs the virtual machine, in milliseconds.
    pub cpu_guest_time: Option<i64>,
    /// The largest resident set sizes seen so far.
    pub rss: Option<Rss>,
}

impl VmMetric {
    /// Metrics of a virtual machine of which nothing is known yet.
    pub open spec fn empty() -> VmMetric {
        VmMetric { start_timestamp: None, cpu_guest_time: None, rss: None }
    }
}

impl Default for VmMetric {
    fn default() -> (r: Self)
        ensures
            r == VmMetric::empty(),
    {
        VmMetric { start_timestamp: None, cpu_guest_time: None, rss: None }
    }
}

/// Meaning of a disk for the program that runs the virtual machine.
#[derive(Copy, Clone, Debug, Eq, PartialEq, Structural)]
pub enum DiskRole {
    /// A disk without special meaning.
    Undefined,
    /// The encrypted store.
    EncryptedStore,
    /// The instance image.
    VmInstance,
}

/// A disk image of a virtual machine.
#[derive(Debug, Clone, Copy)]
pub struct DiskFile {
    pub image: Fd,
    pub writable: bool,
    pub role: DiskRole,
}

/// Audio settings as a client requests them.
#[derive(Debug, Clone, Copy)]
pub struct AudioConfigParcelable {
    pub use_microphone: bool,
    pub use_speaker: bool,
}

/// Audio settings.
#[derive(Debug, Clone, Copy)]
pub struct AudioConfig {
    pub use_microphone: bool,
    pub use_speaker: bool,
}

impl AudioConfig {
    /// Takes the settings over.
    pub fn new(raw_config: &AudioConfigParcelable) -> (r: Self)
        ensures
            r.use_microphone == raw_config.use_microphone,
            r.use_speaker == raw_config.use_speaker,
    {
        AudioConfig {
            use_microphone: raw_config.use_microphone,
            use_speaker: raw_config.use_speaker,
        }
    }
}

/// USB settings as a client requests them.
#[derive(Debug, Clone, Copy)]
pub struct UsbConfigParcelable {
    pub controller: bool,
}

/// USB settings.
#[derive(Debug, Clone, Copy)]
pub struct UsbConfig {
    pub controller: bool,
}

impl UsbConfig {
    /// Takes the settings over; this never fails.
    pub fn new(raw_config: &UsbConfigParcelable) -> (r: Result<UsbConfig, ConfigError>)
        ensures
            r == Ok::<UsbConfig, ConfigError>(UsbConfig { controller: raw_config.controller }),
    {
        Ok(UsbConfig { controller: raw_config.controller })
    }
}

/// Display settings as a client requests them.
#[derive(Debug, Clone, Copy)]
pub struct DisplayConfigParcelable {
    pub width: i32,
    pub height: i32,
    pub horizontal_dpi: i32,
    pub vertical_dpi: i32,
    pub refresh_rate: i32,
}

/// Display settings.
#[derive(Debug, Clone, Copy)]
pub struct DisplayConfig {
    pub width: NonZeroU32,
    pub height: NonZeroU32,
    pub horizontal_dpi: NonZeroU32,
    pub vertical_dpi: NonZeroU32,
    pub refresh_rate: NonZeroU32,
}

impl DisplayConfigParcelable {
    /// The first reason, in the order of the fields, to refuse the settings.
    pub open spec fn first_error(self) -> Option<ConfigError> {
        if positive_error(self.width) is Some {
            positive_error(self.width)
        } else if positive_error(self.height) is Some {
            positive_error(self.height)
        } else if positive_error(self.horizontal_dpi) is Some {
            positive_error(self.horizontal_dpi)
        } else if positive_error(self.vertical_dpi) is Some {
            positive_error(self.vertical_dpi)
        } else {
            positive_error(self.refresh_rate)
        }
    }
}

impl DisplayConfig {
    /// Accepts settings whose values are all positive.
    pub fn new(raw_config: &DisplayConfigParcelable) -> (r: Result<DisplayConfig, ConfigError>)
        ensures
            match r {
                Ok(c) => {
                    &&& raw_config.first_error() is None
                    &&& c.width@ == raw_config.width
                    &&& c.height@ == raw_config.height
                    &&& c.horizontal_dpi@ == raw_config.horizontal_dpi
                    &&& c.vertical_dpi@ == raw_config.vertical_dpi
                    &&& c.refresh_rate@ == raw_config.refresh_rate
                },
                Err(e) => raw_config.first_error() == Some(e),
            },
    {
        let width = try_into_non_zero_u32(raw_config.width)?;
        let height = try_into_non_zero_u32(raw_config.height)?;
        let horizontal_dpi = try_into_non_zero_u32(raw_config.horizontal_dpi)?;
        let vertical_dpi = try_into_non_zero_u32(raw_config.vertical_dpi)?;
        let refresh_rate = try_into_non_zero_u32(raw_config.refresh_rate)?;
        Ok(DisplayConfig { width, height, horizontal_dpi, vertical_dpi, refresh_rate })
    }
}

/// Graphics settings as a client requests them.
#[derive(Debug)]
pub struct GpuConfigParcelable {
    pub backend: Option<String>,
    pub context_types: Option<Vec<Option<String>>>,
    pub pci_address: Option<String>,
    pub renderer_features: Option<String>,
    pub renderer_use_egl: bool,
    pub renderer_use_gles: bool,
    pub renderer_use_glx: bool,
    pub renderer_use_surfaceless: bool,
    pub renderer_use_vulkan: bool,
}

/// Graphics settings.
#[derive(Debug)]
pub struct GpuConfig {
    pub backend: Option<String>,
    pub context_types: Option<Vec<String>>,
    pub pci_address: Option<String>,
    pub renderer_features: Option<String>,
    pub renderer_use_egl: Option<bool>,
    pub renderer_use_gles: Option<bool>,
    pub renderer_use_glx: Option<bool>,
    pub renderer_use_surfaceless: Option<bool>,
    pub renderer_use_vulkan: Option<bool>,
}

/// The contents of an optional string.
pub open spec fn opt_text(s: Option<String>) -> Option<Seq<char>> {
    match s {
        Some(t) => Some(t@),
        None => None,
    }
}

/// The contents of those entries of a list that are present, in order.
pub open spec fn present(v: Seq<Option<String>>) -> Seq<Seq<char>>
    decreases v.len(),
{
    if v.len() == 0 {
        Seq::empty()
    } else {
        let before = present(v.drop_last());
        match v.last() {
            Some(s) => before.push(s@),
            None => before,
        }
    }
}

fn clone_opt(s: &Option<String>) -> (r: Option<String>)
    ensures
        opt_text(r) == opt_text(*s),
{
    match s {
        Some(t) => Some(t.clone()),
        None => None,
    }
}

fn clone_present(v: &Vec<Option<String>>) -> (r: Vec<String>)
    ensures
        texts(r@) == present(v@),
{
    let mut out: Vec<String> = Vec::new();
    let mut i: usize = 0;
    assert(texts(out@) =~= present(v@.take(0)));
    while i < v.len()
        invariant
            i <= v@.len(),
            texts(out@) == present(v@.take(i as int)),
        decreases v@.len() - i,
    {
        let ghost next = v@.take(i + 1);
        assert(next.drop_last() =~= v@.take(i as int));
        match &v[i] {
            Some(s) => {
                let t: String = s.clone();
                proof {
                    crate::text::lemma_texts_push(out@, t);
                }
                out.push(t);
            },
            None => {},
        }
        i = i + 1;
    }
    assert(v@.take(v@.len() as int) =~= v@);
    out
}

impl GpuConfig {
    /// Takes the settings over, dropping absent context types; this never fails.
    pub fn new(raw_config: &GpuConfigParcelable) -> (r: Result<GpuConfig, ConfigError>)
        ensures
            r matches Ok(c) && {
                &&& opt_text(c.backend) == opt_text(raw_config.backend)
                &&& match raw_config.context_types {
                    Some(v) => c.context_types matches Some(w) && texts(w@) == present(v@),
                    None => c.context_types is None,
                }
                &&& opt_text(c.pci_address) == opt_text(raw_config.pci_address)
                &&& opt_text(c.renderer_features) == opt_text(raw_config.renderer_features)
                &&& c.renderer_use_egl == Some(raw_config.renderer_use_egl)
                &&& c.renderer_use_gles == Some(raw_config.renderer_use_gles)
                &&& c.renderer_use_glx == Some(raw_config.renderer_use_glx)
                &&& c.renderer_use_surfaceless == Some(raw_config.renderer_use_surfaceless)
                &&& c.renderer_use_vulkan == Some(raw_config.renderer_use_vulkan)
            },
    {
        let context_types: Option<Vec<String>> = match &raw_config.context_types {
            Some(v) => Some(clone_present(v)),
            None => None,
        };
        Ok(
            GpuConfig {
                backend: clone_opt(&raw_config.backend),
                context_types,
                pci_address: clone_opt(&raw_config.pci_address),
                renderer_features: clone_opt(&raw_config.renderer_features),
                renderer_use_egl: Some(raw_config.renderer_use_egl),
                renderer_use_gles: Some(raw_config.renderer_use_gles),
                renderer_use_glx: Some(raw_config.renderer_use_glx),
                renderer_use_surfaceless: Some(raw_config.renderer_use_surfaceless),
                renderer_use_vulkan: Some(raw_config.renderer_use_vulkan),
            },
        )
    }
}

/// A virtual input device.
#[derive(Debug)]
pub enum InputDeviceOption {
    EvDev(Fd),
    SingleTouch { file: Fd, width: u32, height: u32, name: Option<String> },
    Keyboard(Fd),
    Mouse(Fd),
    Switches(Fd),
    MultiTouchTrackpad { file: Fd, width: u32, height: u32, name: Option<String> },
    MultiTouch { file: Fd, width: u32, height: u32, name: Option<String> },
}

/// How much debugging a virtual machine allows.
#[derive(Copy, Clone, Debug, Eq, PartialEq, Structural)]
pub enum DebugLevel {
    NotDebuggable,
    FullyDebuggable,
}

/// Debugging settings of a virtual machine.
#[derive(Copy, Clone, Debug)]
pub struct DebugConfig {
    pub debug_level: DebugLevel,
    /// Whether console output is to be prepared.
    pub prepare_console_output: bool,
}

/// Configuration of a virtual machine. Files are given by their descriptors.
#[derive(Debug)]
pub struct CommonVmConfig {
    pub cid: Cid,
    pub name: String,
    pub bootloader: Option<Fd>,
    pub kernel: Option<Fd>,
    pub initrd: Option<Fd>,
    pub metadata: Option<Fd>,
    pub disks: Vec<DiskFile>,
    pub params: Option<String>,
    pub protected: bool,
    pub debug_config: DebugConfig,
    pub memory_mib: NonZeroU32,
    pub cpus: Option<NonZeroU32>,
    pub host_cpu_topology: bool,
    pub console_out_fd: Option<Fd>,
    pub console_in_fd: Option<Fd>,
    pub log_fd: Option<Fd>,
    pub ramdump: Option<Fd>,
    pub indirect_files: Vec<Fd>,
    pub platform_version: String,
    pub detect_hangup: bool,
    pub gdb_port: Option<u16>,
    pub dtbo: Option<Fd>,
    pub device_tree_overlay: Option<Fd>,
    pub display_config: Option<DisplayConfig>,
    pub input_device_options: Vec<InputDeviceOption>,
    pub hugepages: bool,
    pub tap: Option<Fd>,
    pub console_input_device: Option<String>,
    pub boost_uclamp: bool,
    pub gpu_config: Option<GpuConfig>,
    pub audio_config: Option<AudioConfig>,
    pub no_balloon: bool,
    pub usb_config: UsbConfig,
    pub instance_id: [u8; 64],
}

/// The path under which a process reaches one of its own descriptors.
pub open spec fn fd_path(fd: Fd) -> Seq<char> {
    "/proc/self/fd/"@ + signed_decimal(fd as int)
}

/// Adds a descriptor to those that a child process inherits, and returns the path under which the
/// child reaches it.
pub fn add_preserved_fd(preserved_fds: &mut Vec<Fd>, file: Fd) -> (r: String)
    ensures
        final(preserved_fds)@ == old(preserved_fds)@.push(file),
        r@ == fd_path(file),
{
    preserved_fds.push(file);
    let number: String = i32_to_text(file);
    concat("/proc/self/fd/", number.as_str())
}

// ---------------------------------------------------------------------------
// Laws
// ---------------------------------------------------------------------------

/// A value is accepted exactly where it is positive; zero and negative values are told apart.
pub proof fn only_positive_values_are_accepted(value: i32)
    ensures
        positive_error(value) is None <==> value > 0,
        positive_error(value) == Some(ConfigError::NotPositive) <==> value == 0,
        positive_error(value) == Some(ConfigError::OutOfRange) <==> value < 0,
{
}

/// Display settings are accepted exactly where all five values are positive; otherwise the first one
/// that is not tells why they are refused.
pub proof fn display_settings_are_all_positive(raw: DisplayConfigParcelable)
    ensures
        raw.first_error() is None <==> raw.width > 0 && raw.height > 0 && raw.horizontal_dpi > 0
            && raw.vertical_dpi > 0 && raw.refresh_rate > 0,
        raw.width <= 0 ==> raw.first_error() == positive_error(raw.width),
        raw.width > 0 && raw.height <= 0 ==> raw.first_error() == positive_error(raw.height),
        raw.width > 0 && raw.height > 0 && raw.horizontal_dpi <= 0 ==> raw.first_error()
            == positive_error(raw.horizontal_dpi),
        raw.width > 0 && raw.height > 0 && raw.horizontal_dpi > 0 && raw.vertical_dpi <= 0
            ==> raw.first_error() == positive_error(raw.vertical_dpi),
        raw.width > 0 && raw.height > 0 && raw.horizontal_dpi > 0 && raw.vertical_dpi > 0
            && raw.refresh_rate <= 0 ==> raw.first_error() == positive_error(raw.refresh_rate),
{
}

/// Each field of a maximum is that of one of the two samples and not below that of the other.
pub proof fn maxima_are_attained(x: Rss, y: Rss)
    ensures
        ({
            let m = Rss::max(x, y);
            &&& m.vm == x.vm || m.vm == y.vm
            &&& m.vm >= x.vm && m.vm >= y.vm
            &&& m.crosvm == x.crosvm || m.crosvm == y.crosvm
            &&& m.crosvm >= x.crosvm && m.crosvm >= y.crosvm
        }),
{
}

/// Of a list, every entry that is present is kept, in order, and nothing else.
pub proof fn present_entries_are_kept(v: Seq<Option<String>>, s: String)
    ensures
        present(Seq::empty()) == Seq::<Seq<char>>::empty(),
        present(v.push(Some(s))) == present(v).push(s@),
        present(v.push(None)) == present(v),
        opt_text(Some(s)) == Some(s@),
        opt_text(None) is None,
{
    assert(v.push(Some(s)).drop_last() =~= v);
    assert(v.push(None).drop_last() =~= v);
}

/// The path of a descriptor is its number in the directory of the process's own descriptors.
pub proof fn descriptors_are_found_by_number(fd: Fd)
    ensures
        fd >= 0 ==> fd_path(fd) == "/proc/self/fd/"@ + crate::text::decimal(fd as nat),
        fd < 0 ==> fd_path(fd) == "/proc/self/fd/-"@ + crate::text::decimal((-fd) as nat),
{
    reveal_strlit("/proc/self/fd/");
    reveal_strlit("/proc/self/fd/-");
    if fd < 0 {
        assert(fd_path(fd) =~= "/proc/self/fd/-"@ + crate::text::decimal((-fd) as nat));
    }
}

/// Of a virtual machine that nobody has tried to start nothing is measured.
pub proof fn nothing_is_measured_at_first()
    ensures
        VmMetric::empty().start_timestamp is None,
        VmMetric::empty().cpu_guest_time is None,
        VmMetric::empty().rss is None,
{
}

} // verus!
