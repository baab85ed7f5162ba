//! Layering of a stress run's settings: a value given on the command line
//! wins; otherwise a value from the config file (or built-in profile)
//! replaces the built-in default.
use vstd::prelude::*;

use crate::verify::{default_verify_config, VerifyConfig};
use crate::text::{
    chars_of, decimal, decimal_chars, join, join_chars, pieces_view, string_from_chars,
    strings_view,
};

verus! {

/// Run settings for the GEMM workload and its validation cadence.
pub struct WorkloadSettings<F> {
    pub duration: F,
    pub matrix_sizes: String,
    pub fp64_matrix_sizes: String,
    pub precisions: String,
    pub warmup_iters: u32,
    pub burst_iters: u32,
    pub validate_interval: F,
    pub validate_size: usize,
    pub gemm_full_check_max_size: usize,
    pub transpose_prob: F,
    pub minor_mixture_rate: F,
    pub seed: u64,
}

/// Run settings for which kernel paths run, their mixture and the stream layout.
pub struct KernelSettings {
    pub kernel_types: String,
    pub kernel_mixture: String,
    pub stream_mode: String,
    pub disable_fp8: bool,
}

/// Run settings for the Vulkan render load.
pub struct RenderSettings {
    pub legacy_vulkan: bool,
    pub vulkan: bool,
    pub vulkan_window: bool,
    pub vulkan_width: u32,
    pub vulkan_height: u32,
    pub vulkan_msaa: u32,
    pub vulkan_iters: u32,
    pub vulkan_shells: u32,
    pub vulkan_rotate: bool,
    pub vulkan_particles: u32,
    pub vulkan_only: bool,
}

/// Run settings for the legacy Vulkan image load.
pub struct LegacyImageSettings<F> {
    pub legacy_vulkan_image_width: u32,
    pub legacy_vulkan_image_height: u32,
    pub legacy_vulkan_image_count: u32,
    pub legacy_vulkan_image_depth: u32,
    pub legacy_vulkan_image_msaa: u32,
    pub legacy_vulkan_minor_mixture_rate: F,
}

/// Run settings for the choice of GPU.
pub struct DeviceSelectionSettings {
    pub gpu_index: Option<u32>,
    pub pci_bus: Option<String>,
    pub gpu_uuid: Option<String>,
    pub list_gpus: bool,
}

/// The run settings that a config file may supply. `F` is the type of the
/// fractional settings (seconds, probabilities and rates), which this
/// library carries without reading.
pub struct StressSettings<F> {
    pub workload: WorkloadSettings<F>,
    pub kernels: KernelSettings,
    pub render: RenderSettings,
    pub legacy_image: LegacyImageSettings<F>,
    pub selection: DeviceSelectionSettings,
}

/// Config-file values for the GEMM workload and its validation cadence; each may be absent.
pub struct FileWorkload<F> {
    pub duration: Option<F>,
    pub matrix_sizes: Option<Vec<usize>>,
    pub fp64_matrix_sizes: Option<Vec<usize>>,
    pub precisions: Option<Vec<String>>,
    pub warmup_iters: Option<u32>,
    pub burst_iters: Option<u32>,
    pub validate_interval: Option<F>,
    pub validate_size: Option<usize>,
    pub gemm_full_check_max_size: Option<usize>,
    pub transpose_prob: Option<F>,
    pub minor_mixture_rate: Option<F>,
    pub seed: Option<u64>,
}

/// Config-file values for which kernel paths run, their mixture and the stream layout; each may be absent.
pub struct FileKernel {
    pub kernel_types: Option<Vec<String>>,
    pub kernel_mixture: Option<String>,
    pub stream_mode: Option<String>,
    pub disable_fp8: Option<bool>,
}

/// Config-file values for the Vulkan render load; each may be absent.
pub struct FileRender {
    pub legacy_vulkan: Option<bool>,
    pub vulkan: Option<bool>,
    pub vulkan_window: Option<bool>,
    pub vulkan_width: Option<u32>,
    pub vulkan_height: Option<u32>,
    pub vulkan_msaa: Option<u32>,
    pub vulkan_iters: Option<u32>,
    pub vulkan_shells: Option<u32>,
    pub vulkan_rotate: Option<bool>,
    pub vulkan_particles: Option<u32>,
    pub vulkan_only: Option<bool>,
}

/// Config-file values for the legacy Vulkan image load; each may be absent.
pub struct FileLegacyImage<F> {
    pub legacy_vulkan_image_width: Option<u32>,
    pub legacy_vulkan_image_height: Option<u32>,
    pub legacy_vulkan_image_count: Option<u32>,
    pub legacy_vulkan_image_depth: Option<u32>,
    pub legacy_vulkan_image_msaa: Option<u32>,
    pub legacy_vulkan_minor_mixture_rate: Option<F>,
}

/// Config-file values for the choice of GPU; each may be absent.
pub struct FileDeviceSelection {
    pub gpu_index: Option<u32>,
    pub pci_bus: Option<String>,
    pub gpu_uuid: Option<String>,
    pub list_gpus: Option<bool>,
}

/// The settings as a config file holds them: list settings are lists, and
/// a kernel mixture table has already been written out as `type:weight`
/// text.
pub struct FileSettings<F> {
    pub workload: FileWorkload<F>,
    pub kernels: FileKernel,
    pub render: FileRender,
    pub legacy_image: FileLegacyImage<F>,
    pub selection: FileDeviceSelection,
}

/// Which settings were given explicitly on the command line.
#[derive(Clone, Copy)]
pub struct CliGiven {
    pub duration: bool,
    pub matrix_sizes: bool,
    pub fp64_matrix_sizes: bool,
    pub precisions: bool,
    pub warmup_iters: bool,
    pub burst_iters: bool,
    pub validate_interval: bool,
    pub validate_size: bool,
    pub gemm_full_check_max_size: bool,
    pub transpose_prob: bool,
    pub minor_mixture_rate: bool,
    pub seed: bool,
    pub kernel_types: bool,
    pub kernel_mixture: bool,
    pub stream_mode: bool,
    pub disable_fp8: bool,
    pub legacy_vulkan: bool,
    pub vulkan: bool,
    pub vulkan_window: bool,
    pub vulkan_width: bool,
    pub vulkan_height: bool,
    pub vulkan_msaa: bool,
    pub vulkan_iters: bool,
    pub vulkan_shells: bool,
    pub vulkan_rotate: bool,
    pub vulkan_particles: bool,
    pub vulkan_only: bool,
    pub legacy_vulkan_image_width: bool,
    pub legacy_vulkan_image_height: bool,
    pub legacy_vulkan_image_count: bool,
    pub legacy_vulkan_image_depth: bool,
    pub legacy_vulkan_image_msaa: bool,
    pub legacy_vulkan_minor_mixture_rate: bool,
    pub gpu_index: bool,
    pub pci_bus: bool,
    pub gpu_uuid: bool,
    pub list_gpus: bool,
}

/// A size list as the command line writes it: decimal numbers joined by `,`.
pub open spec fn sizes_text(v: Seq<usize>) -> Seq<char> {
    join(Seq::new(v.len(), |i: int| decimal(v[i] as nat)), ","@)
}

/// A name list as the command line writes it: the names joined by `,`.
pub open spec fn names_text(v: Seq<String>) -> Seq<char> {
    join(strings_view(v), ","@)
}

/// A setting after layering: the file's value unless the command line gave
/// one or the file has none.
pub open spec fn layered<T>(given: bool, from_file: Option<T>, current: T) -> T {
    if !given && from_file is Some {
        from_file->0
    } else {
        current
    }
}

/// The command line always wins: a setting given there keeps its value
/// whatever the file says; one not given takes the file's value when the
/// file has one, and otherwise keeps its value.
pub proof fn lemma_command_line_wins<T>(from_file: Option<T>, current: T, v: T)
    ensures
        layered(true, from_file, current) == current,
        layered(false, Some(v), current) == v,
        layered(false, None::<T>, current) == current,
{
}

pub open spec fn opt_sizes_text(v: Option<Vec<usize>>) -> Option<Seq<char>> {
    match v {
        Some(l) => Some(sizes_text(l@)),
        None => None,
    }
}

pub open spec fn opt_names_text(v: Option<Vec<String>>) -> Option<Seq<char>> {
    match v {
        Some(l) => Some(names_text(l@)),
        None => None,
    }
}

pub open spec fn opt_text(v: Option<String>) -> Option<Seq<char>> {
    match v {
        Some(s) => Some(s@),
        None => None,
    }
}

pub open spec fn opt_some<T>(v: Option<T>) -> Option<Option<T>> {
    match v {
        Some(x) => Some(Some(x)),
        None => None,
    }
}

/// `new` is `old` with the file's settings for the GEMM workload and its validation cadence layered over it.
pub open spec fn workload_layered<F>(old: WorkloadSettings<F>, new: WorkloadSettings<F>, given: CliGiven, file: FileWorkload<F>) -> bool {
    &&& new.duration == layered(given.duration, file.duration, old.duration)
    &&& new.matrix_sizes@ == layered(given.matrix_sizes, opt_sizes_text(file.matrix_sizes), old.matrix_sizes@)
    &&& new.fp64_matrix_sizes@ == layered(given.fp64_matrix_sizes, opt_sizes_text(file.fp64_matrix_sizes), old.fp64_matrix_sizes@)
    &&& new.precisions@ == layered(given.precisions, opt_names_text(file.precisions), old.precisions@)
    &&& new.warmup_iters == layered(given.warmup_iters, file.warmup_iters, old.warmup_iters)
    &&& new.burst_iters == layered(given.burst_iters, file.burst_iters, old.burst_iters)
    &&& new.validate_interval == layered(given.validate_interval, file.validate_interval, old.validate_interval)
    &&& new.validate_size == layered(given.validate_size, file.validate_size, old.validate_size)
    &&& new.gemm_full_check_max_size == layered(given.gemm_full_check_max_size, file.gemm_full_check_max_size, old.gemm_full_check_max_size)
    &&& new.transpose_prob == layered(given.transpose_prob, file.transpose_prob, old.transpose_prob)
    &&& new.minor_mixture_rate == layered(given.minor_mixture_rate, file.minor_mixture_rate, old.minor_mixture_rate)
    &&& new.seed == layered(given.seed, file.seed, old.seed)
}

/// `new` is `old` with the file's settings for which kernel paths run, their mixture and the stream layout layered over it.
pub open spec fn kernels_layered(old: KernelSettings, new: KernelSettings, given: CliGiven, file: FileKernel) -> bool {
    &&& new.kernel_types@ == layered(given.kernel_types, opt_names_text(file.kernel_types), old.kernel_types@)
    &&& new.kernel_mixture@ == layered(given.kernel_mixture, opt_text(file.kernel_mixture), old.kernel_mixture@)
    &&& new.stream_mode@ == layered(given.stream_mode, opt_text(file.stream_mode), old.stream_mode@)
    &&& new.disable_fp8 == layered(given.disable_fp8, file.disable_fp8, old.disable_fp8)
}

/// `new` is `old` with the file's settings for the Vulkan render load layered over it.
pub open spec fn render_layered(old: RenderSettings, new: RenderSettings, given: CliGiven, file: FileRender) -> bool {
    &&& new.legacy_vulkan == layered(given.legacy_vulkan, file.legacy_vulkan, old.legacy_vulkan)
    &&& new.vulkan == layered(given.vulkan, file.vulkan, old.vulkan)
    &&& new.vulkan_window == layered(given.vulkan_window, file.vulkan_window, old.vulkan_window)
    &&& new.vulkan_width == layered(given.vulkan_width, file.vulkan_width, old.vulkan_width)
    &&& new.vulkan_height == layered(given.vulkan_height, file.vulkan_height, old.vulkan_height)
    &&& new.vulkan_msaa == layered(given.vulkan_msaa, file.vulkan_msaa, old.vulkan_msaa)
    &&& new.vulkan_iters == layered(given.vulkan_iters, file.vulkan_iters, old.vulkan_iters)
    &&& new.vulkan_shells == layered(given.vulkan_shells, file.vulkan_shells, old.vulkan_shells)
    &&& new.vulkan_rotate == layered(given.vulkan_rotate, file.vulkan_rotate, old.vulkan_rotate)
    &&& new.vulkan_particles == layered(given.vulkan_particles, file.vulkan_particles, old.vulkan_particles)
    &&& new.vulkan_only == layered(given.vulkan_only, file.vulkan_only, old.vulkan_only)
}

/// `new` is `old` with the file's settings for the legacy Vulkan image load layered over it.
pub open spec fn legacy_image_layered<F>(old: LegacyImageSettings<F>, new: LegacyImageSettings<F>, given: CliGiven, file: FileLegacyImage<F>) -> bool {
    &&& new.legacy_vulkan_image_width == layered(given.legacy_vulkan_image_width, file.legacy_vulkan_image_width, old.legacy_vulkan_image_width)
    &&& new.legacy_vulkan_image_height == layered(given.legacy_vulkan_image_height, file.legacy_vulkan_image_height, old.legacy_vulkan_image_height)
    &&& new.legacy_vulkan_image_count == layered(given.legacy_vulkan_image_count, file.legacy_vulkan_image_count, old.legacy_vulkan_image_count)
    &&& new.legacy_vulkan_image_depth == layered(given.legacy_vulkan_image_depth, file.legacy_vulkan_image_depth, old.legacy_vulkan_image_depth)
    &&& new.legacy_vulkan_image_msaa == layered(given.legacy_vulkan_image_msaa, file.legacy_vulkan_image_msaa, old.legacy_vulkan_image_msaa)
    &&& new.legacy_vulkan_minor_mixture_rate == layered(given.legacy_vulkan_minor_mixture_rate, file.legacy_vulkan_minor_mixture_rate, old.legacy_vulkan_minor_mixture_rate)
}

/// `new` is `old` with the file's settings for the choice of GPU layered over it.
pub open spec fn selection_layered(old: DeviceSelectionSettings, new: DeviceSelectionSettings, given: CliGiven, file: FileDeviceSelection) -> bool {
    &&& new.gpu_index == layered(given.gpu_index, opt_some(file.gpu_index), old.gpu_index)
    &&& new.pci_bus == layered(given.pci_bus, opt_some(file.pci_bus), old.pci_bus)
    &&& new.gpu_uuid == layered(given.gpu_uuid, opt_some(file.gpu_uuid), old.gpu_uuid)
    &&& new.list_gpus == layered(given.list_gpus, file.list_gpus, old.list_gpus)
}

/// `new` is `old` with every setting of `file` layered over it.
pub open spec fn file_layered<F>(
    old: StressSettings<F>,
    new: StressSettings<F>,
    given: CliGiven,
    file: FileSettings<F>,
) -> bool {
    &&& workload_layered(old.workload, new.workload, given, file.workload)
    &&& kernels_layered(old.kernels, new.kernels, given, file.kernels)
    &&& render_layered(old.render, new.render, given, file.render)
    &&& legacy_image_layered(old.legacy_image, new.legacy_image, given, file.legacy_image)
    &&& selection_layered(old.selection, new.selection, given, file.selection)
}

/// Writes a size list as decimal numbers joined by `,`.
fn sizes_string(v: &Vec<usize>) -> (s: String)
    ensures
        s@ == sizes_text(v@),
{
    let mut parts: Vec<Vec<char>> = Vec::new();
    let mut i: usize = 0;
    while i < v.len()
        invariant
            i <= v@.len(),
            parts@.len() == i,
            forall|j: int| 0 <= j < i ==> #[trigger] parts@[j]@ == decimal(v@[j] as nat),
        decreases v@.len() - i,
    {
        parts.push(decimal_chars(v[i] as u64));
        i = i + 1;
    }
    let joined = join_chars(&parts, ",");
    assert(pieces_view(parts@) =~= Seq::new(v@.len(), |j: int| decimal(v@[j] as nat)));
    string_from_chars(joined.as_slice())
}

/// Joins names with `,`.
fn names_string(v: &Vec<String>) -> (s: String)
    ensures
        s@ == names_text(v@),
{
    let mut parts: Vec<Vec<char>> = Vec::new();
    let mut i: usize = 0;
    while i < v.len()
        invariant
            i <= v@.len(),
            parts@.len() == i,
            forall|j: int| 0 <= j < i ==> #[trigger] parts@[j]@ == v@[j]@,
        decreases v@.len() - i,
    {
        parts.push(chars_of(v[i].as_str()));
        i = i + 1;
    }
    let joined = join_chars(&parts, ",");
    assert(pieces_view(parts@) =~= strings_view(v@));
    string_from_chars(joined.as_slice())
}

fn opt_sizes_string(v: &Option<Vec<usize>>) -> (r: Option<String>)
    ensures
        opt_text(r) == opt_sizes_text(*v),
{
    match v {
        Some(l) => Some(sizes_string(l)),
        None => None,
    }
}

fn opt_names_string(v: &Option<Vec<String>>) -> (r: Option<String>)
    ensures
        opt_text(r) == opt_names_text(*v),
{
    match v {
        Some(l) => Some(names_string(l)),
        None => None,
    }
}

/// Puts `from_file` in `slot` unless the command line gave the setting.
fn layer<T>(given: bool, from_file: Option<T>, slot: &mut T)
    ensures
        *final(slot) == layered(given, from_file, *old(slot)),
{
    if !given {
        if let Some(v) = from_file {
            *slot = v;
        }
    }
}

fn layer_workload<F>(s: &mut WorkloadSettings<F>, given: &CliGiven, file: FileWorkload<F>)
    ensures
        workload_layered(*old(s), *final(s), *given, file),
{
    layer(given.duration, file.duration, &mut s.duration);
    layer(given.matrix_sizes, opt_sizes_string(&file.matrix_sizes), &mut s.matrix_sizes);
    layer(given.fp64_matrix_sizes, opt_sizes_string(&file.fp64_matrix_sizes), &mut s.fp64_matrix_sizes);
    layer(given.precisions, opt_names_string(&file.precisions), &mut s.precisions);
    layer(given.warmup_iters, file.warmup_iters, &mut s.warmup_iters);
    layer(given.burst_iters, file.burst_iters, &mut s.burst_iters);
    layer(given.validate_interval, file.validate_interval, &mut s.validate_interval);
    layer(given.validate_size, file.validate_size, &mut s.validate_size);
    layer(given.gemm_full_check_max_size, file.gemm_full_check_max_size, &mut s.gemm_full_check_max_size);
    layer(given.transpose_prob, file.transpose_prob, &mut s.transpose_prob);
    layer(given.minor_mixture_rate, file.minor_mixture_rate, &mut s.minor_mixture_rate);
    layer(given.seed, file.seed, &mut s.seed);
}

fn layer_kernels(s: &mut KernelSettings, given: &CliGiven, file: FileKernel)
    ensures
        kernels_layered(*old(s), *final(s), *given, file),
{
    layer(given.kernel_types, opt_names_string(&file.kernel_types), &mut s.kernel_types);
    layer(given.kernel_mixture, file.kernel_mixture, &mut s.kernel_mixture);
    layer(given.stream_mode, file.stream_mode, &mut s.stream_mode);
    layer(given.disable_fp8, file.disable_fp8, &mut s.disable_fp8);
}

fn layer_render(s: &mut RenderSettings, given: &CliGiven, file: FileRender)
    ensures
        render_layered(*old(s), *final(s), *given, file),
{
    layer(given.legacy_vulkan, file.legacy_vulkan, &mut s.legacy_vulkan);
    layer(given.vulkan, file.vulkan, &mut s.vulkan);
    layer(given.vulkan_window, file.vulkan_window, &mut s.vulkan_window);
    layer(given.vulkan_width, file.vulkan_width, &mut s.vulkan_width);
    layer(given.vulkan_height, file.vulkan_height, &mut s.vulkan_height);
    layer(given.vulkan_msaa, file.vulkan_msaa, &mut s.vulkan_msaa);
    layer(given.vulkan_iters, file.vulkan_iters, &mut s.vulkan_iters);
    layer(given.vulkan_shells, file.vulkan_shells, &mut s.vulkan_shells);
    layer(given.vulkan_rotate, file.vulkan_rotate, &mut s.vulkan_rotate);
    layer(given.vulkan_particles, file.vulkan_particles, &mut s.vulkan_particles);
    layer(given.vulkan_only, file.vulkan_only, &mut s.vulkan_only);
}

fn layer_legacy_image<F>(s: &mut LegacyImageSettings<F>, given: &CliGiven, file: FileLegacyImage<F>)
    ensures
        legacy_image_layered(*old(s), *final(s), *given, file),
{
    layer(given.legacy_vulkan_image_width, file.legacy_vulkan_image_width, &mut s.legacy_vulkan_image_width);
    layer(given.legacy_vulkan_image_height, file.legacy_vulkan_image_height, &mut s.legacy_vulkan_image_height);
    layer(given.legacy_vulkan_image_count, file.legacy_vulkan_image_count, &mut s.legacy_vulkan_image_count);
    layer(given.legacy_vulkan_image_depth, file.legacy_vulkan_image_depth, &mut s.legacy_vulkan_image_depth);
    layer(given.legacy_vulkan_image_msaa, file.legacy_vulkan_image_msaa, &mut s.legacy_vulkan_image_msaa);
    layer(given.legacy_vulkan_minor_mixture_rate, file.legacy_vulkan_minor_mixture_rate, &mut s.legacy_vulkan_minor_mixture_rate);
}

fn layer_selection(s: &mut DeviceSelectionSettings, given: &CliGiven, file: FileDeviceSelection)
    ensures
        selection_layered(*old(s), *final(s), *given, file),
{
    layer(given.gpu_index, match file.gpu_index { Some(v) => Some(Some(v)), None => None }, &mut s.gpu_index);
    layer(given.pci_bus, match file.pci_bus { Some(v) => Some(Some(v)), None => None }, &mut s.pci_bus);
    layer(given.gpu_uuid, match file.gpu_uuid { Some(v) => Some(Some(v)), None => None }, &mut s.gpu_uuid);
    layer(given.list_gpus, file.list_gpus, &mut s.list_gpus);
}

/// Layers the settings of a config file over `settings`, leaving alone every
/// setting that was given on the command line. Without a file nothing
/// changes.
pub fn apply_file_config_to_args<F>(
    settings: &mut StressSettings<F>,
    given: &CliGiven,
    parsed: Option<FileSettings<F>>,
)
    ensures
        parsed is None ==> *final(settings) == *old(settings),
        parsed is Some ==> file_layered(*old(settings), *final(settings), *given, parsed->0),
{
    let file = match parsed {
        Some(f) => f,
        None => return,
    };
    layer_workload(&mut settings.workload, given, file.workload);
    layer_kernels(&mut settings.kernels, given, file.kernels);
    layer_render(&mut settings.render, given, file.render);
    layer_legacy_image(&mut settings.legacy_image, given, file.legacy_image);
    layer_selection(&mut settings.selection, given, file.selection);
}


/// Whether any Vulkan graphics load runs: the render load or the legacy
/// image load (the render load wins when both are asked for).
pub fn vulkan_stress_enabled(render: &RenderSettings) -> (b: bool)
    ensures
        b == (render.vulkan || render.legacy_vulkan),
{
    render.vulkan || render.legacy_vulkan
}

/// Parameters of the Vulkan render load.
#[derive(Debug, Clone, Copy, PartialEq, Eq, Structural)]
pub struct VulkanRenderConfig {
    pub width: u32,
    pub height: u32,
    pub msaa: u32,
    pub iters: u32,
    pub shells: u32,
    pub offscreen: bool,
    pub rotate: bool,
    pub particles: u32,
}

/// Parameters of the Vulkan engine: the legacy image load, and the render
/// load that replaces it when present.
#[derive(Debug, Clone, Copy)]
pub struct VulkanImageConfig<F> {
    pub width: u32,
    pub height: u32,
    pub depth: u32,
    pub image_count: u32,
    pub msaa: u32,
    pub minor_mixture_rate: F,
    pub render: Option<VulkanRenderConfig>,
}

/// Assembles the Vulkan engine's parameters: the render load only with
/// `--vulkan`, drawn offscreen unless a window was asked for; the image load
/// from the legacy settings.
pub fn build_vulkan_image_config<F: Copy>(
    render: &RenderSettings,
    legacy: &LegacyImageSettings<F>,
) -> (c: VulkanImageConfig<F>)
    ensures
        c.width == legacy.legacy_vulkan_image_width,
        c.height == legacy.legacy_vulkan_image_height,
        c.depth == legacy.legacy_vulkan_image_depth,
        c.image_count == legacy.legacy_vulkan_image_count,
        c.msaa == legacy.legacy_vulkan_image_msaa,
        c.minor_mixture_rate == legacy.legacy_vulkan_minor_mixture_rate,
        c.render == (if render.vulkan {
            Some(
                VulkanRenderConfig {
                    width: render.vulkan_width,
                    height: render.vulkan_height,
                    msaa: render.vulkan_msaa,
                    iters: render.vulkan_iters,
                    shells: render.vulkan_shells,
                    offscreen: !render.vulkan_window,
                    rotate: render.vulkan_rotate,
                    particles: render.vulkan_particles,
                },
            )
        } else {
            None
        }),
{
    let r = if render.vulkan {
        Some(
            VulkanRenderConfig {
                width: render.vulkan_width,
                height: render.vulkan_height,
                msaa: render.vulkan_msaa,
                iters: render.vulkan_iters,
                shells: render.vulkan_shells,
                offscreen: !render.vulkan_window,
                rotate: render.vulkan_rotate,
                particles: render.vulkan_particles,
            },
        )
    } else {
        None
    };
    VulkanImageConfig {
        width: legacy.legacy_vulkan_image_width,
        height: legacy.legacy_vulkan_image_height,
        depth: legacy.legacy_vulkan_image_depth,
        image_count: legacy.legacy_vulkan_image_count,
        msaa: legacy.legacy_vulkan_image_msaa,
        minor_mixture_rate: legacy.legacy_vulkan_minor_mixture_rate,
        render: r,
    }
}


/// The `[verify]` section of a config file; each setting may be absent.
pub struct FileVerifySettings<F> {
    pub enabled: Option<bool>,
    pub self_test: Option<bool>,
    pub full_check_max_size: Option<usize>,
    pub continue_on_error: Option<bool>,
    pub resident_interval_s: Option<F>,
    pub memcpy_every: Option<u32>,
    pub memset_every: Option<u32>,
    pub gemm_every: Option<u32>,
    pub gemm_samples: Option<u32>,
    pub intalu_samples: Option<u32>,
    pub int8_validate_size: Option<usize>,
}

/// The verification settings of a run: the detector tunables, whether to
/// go on after a detected error, and the resident check interval.
pub struct VerifyRunSettings<F> {
    pub config: VerifyConfig,
    pub continue_on_error: bool,
    pub resident_interval_s: F,
}

/// A value from the `[verify]` section, or `default`.
pub open spec fn or_default<T>(v: Option<T>, default: T) -> T {
    match v {
        Some(x) => x,
        None => default,
    }
}

/// The verification settings: the `[verify]` section fills the defaults,
/// then the command line overrides: `--no-verify` turns verification off,
/// `--verify-continue-on-error` turns continuing on, `--skip-self-test`
/// turns the self-test off, and the resident interval is the command line's.
pub open spec fn verify_settings_spec<F>(
    file: Option<FileVerifySettings<F>>,
    verification_off: bool,
    continue_on_error: bool,
    resident_interval_s: F,
    skip_self_test: bool,
) -> VerifyRunSettings<F> {
    let d = default_verify_config();
    let (base, cont) = match file {
        Some(f) => (
            VerifyConfig {
                enabled: or_default(f.enabled, d.enabled),
                self_test: or_default(f.self_test, d.self_test),
                memcpy_every: or_default(f.memcpy_every, d.memcpy_every),
                memset_every: or_default(f.memset_every, d.memset_every),
                gemm_every: or_default(f.gemm_every, d.gemm_every),
                gemm_samples: or_default(f.gemm_samples, d.gemm_samples),
                full_check_max_size: or_default(f.full_check_max_size, d.full_check_max_size),
                intalu_samples: or_default(f.intalu_samples, d.intalu_samples),
                int8_validate_size: or_default(f.int8_validate_size, d.int8_validate_size),
            },
            or_default(f.continue_on_error, false),
        ),
        None => (d, false),
    };
    VerifyRunSettings {
        config: VerifyConfig {
            enabled: base.enabled && !verification_off,
            self_test: base.self_test && !skip_self_test,
            ..base
        },
        continue_on_error: cont || continue_on_error,
        resident_interval_s,
    }
}

fn pick<T>(v: Option<T>, default: T) -> (r: T)
    ensures
        r == or_default(v, default),
{
    match v {
        Some(x) => x,
        None => default,
    }
}

/// Resolves the verification settings (see [`verify_settings_spec`]).
pub fn resolve_verify_settings<F>(
    file: Option<FileVerifySettings<F>>,
    verification_off: bool,
    continue_on_error: bool,
    resident_interval_s: F,
    skip_self_test: bool,
) -> (r: VerifyRunSettings<F>)
    ensures
        r == verify_settings_spec(file, verification_off, continue_on_error, resident_interval_s, skip_self_test),
{
    let d = VerifyConfig::default();
    let mut config = d;
    let mut cont = false;
    if let Some(f) = file {
        config = VerifyConfig {
            enabled: pick(f.enabled, d.enabled),
            self_test: pick(f.self_test, d.self_test),
            memcpy_every: pick(f.memcpy_every, d.memcpy_every),
            memset_every: pick(f.memset_every, d.memset_every),
            gemm_every: pick(f.gemm_every, d.gemm_every),
            gemm_samples: pick(f.gemm_samples, d.gemm_samples),
            full_check_max_size: pick(f.full_check_max_size, d.full_check_max_size),
            intalu_samples: pick(f.intalu_samples, d.intalu_samples),
            int8_validate_size: pick(f.int8_validate_size, d.int8_validate_size),
        };
        cont = pick(f.continue_on_error, false);
    }
    if verification_off {
        config.enabled = false;
    }
    if continue_on_error {
        cont = true;
    }
    if skip_self_test {
        config.self_test = false;
    }
    VerifyRunSettings { config, continue_on_error: cont, resident_interval_s }
}

} // verus!
