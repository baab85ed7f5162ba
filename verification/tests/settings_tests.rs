use nvoc::settings::{
    CliGiven, DeviceSelectionSettings, FileDeviceSelection, FileKernel, FileLegacyImage,
    FileRender, FileSettings, FileWorkload, KernelSettings, LegacyImageSettings, RenderSettings,
    StressSettings, VulkanRenderConfig, WorkloadSettings, apply_file_config_to_args,
    build_vulkan_image_config, vulkan_stress_enabled,
};

fn defaults() -> StressSettings<f64> {
    StressSettings {
        workload: WorkloadSettings {
            duration: 60.0,
            matrix_sizes: "4096".to_string(),
            fp64_matrix_sizes: String::new(),
            precisions: "fp32".to_string(),
            warmup_iters: 0,
            burst_iters: 0,
            validate_interval: 1.0,
            validate_size: 0,
            gemm_full_check_max_size: 0,
            transpose_prob: 1.0,
            minor_mixture_rate: 1.0,
            seed: 7,
        },
        kernels: KernelSettings {
            kernel_types: String::new(),
            kernel_mixture: String::new(),
            stream_mode: "single".to_string(),
            disable_fp8: false,
        },
        render: RenderSettings {
            legacy_vulkan: false,
            vulkan: false,
            vulkan_window: false,
            vulkan_width: 1280,
            vulkan_height: 0,
            vulkan_msaa: 0,
            vulkan_iters: 0,
            vulkan_shells: 0,
            vulkan_rotate: false,
            vulkan_particles: 0,
            vulkan_only: false,
        },
        legacy_image: LegacyImageSettings {
            legacy_vulkan_image_width: 0,
            legacy_vulkan_image_height: 0,
            legacy_vulkan_image_count: 0,
            legacy_vulkan_image_depth: 0,
            legacy_vulkan_image_msaa: 0,
            legacy_vulkan_minor_mixture_rate: 1.0,
        },
        selection: DeviceSelectionSettings {
            gpu_index: None,
            pci_bus: None,
            gpu_uuid: None,
            list_gpus: false,
        },
    }
}

fn empty_file() -> FileSettings<f64> {
    FileSettings {
        workload: FileWorkload {
            duration: None,
            matrix_sizes: None,
            fp64_matrix_sizes: None,
            precisions: None,
            warmup_iters: None,
            burst_iters: None,
            validate_interval: None,
            validate_size: None,
            gemm_full_check_max_size: None,
            transpose_prob: None,
            minor_mixture_rate: None,
            seed: None,
        },
        kernels: FileKernel {
            kernel_types: None,
            kernel_mixture: None,
            stream_mode: None,
            disable_fp8: None,
        },
        render: FileRender {
            legacy_vulkan: None,
            vulkan: None,
            vulkan_window: None,
            vulkan_width: None,
            vulkan_height: None,
            vulkan_msaa: None,
            vulkan_iters: None,
            vulkan_shells: None,
            vulkan_rotate: None,
            vulkan_particles: None,
            vulkan_only: None,
        },
        legacy_image: FileLegacyImage {
            legacy_vulkan_image_width: None,
            legacy_vulkan_image_height: None,
            legacy_vulkan_image_count: None,
            legacy_vulkan_image_depth: None,
            legacy_vulkan_image_msaa: None,
            legacy_vulkan_minor_mixture_rate: None,
        },
        selection: FileDeviceSelection {
            gpu_index: None,
            pci_bus: None,
            gpu_uuid: None,
            list_gpus: None,
        },
    }
}

fn nothing_given() -> CliGiven {
    CliGiven {
        duration: false,
        matrix_sizes: false,
        fp64_matrix_sizes: false,
        precisions: false,
        warmup_iters: false,
        burst_iters: false,
        validate_interval: false,
        validate_size: false,
        gemm_full_check_max_size: false,
        transpose_prob: false,
        minor_mixture_rate: false,
        seed: false,
        kernel_types: false,
        kernel_mixture: false,
        stream_mode: false,
        disable_fp8: false,
        legacy_vulkan: false,
        vulkan: false,
        vulkan_window: false,
        vulkan_width: false,
        vulkan_height: false,
        vulkan_msaa: false,
        vulkan_iters: false,
        vulkan_shells: false,
        vulkan_rotate: false,
        vulkan_particles: false,
        vulkan_only: false,
        legacy_vulkan_image_width: false,
        legacy_vulkan_image_height: false,
        legacy_vulkan_image_count: false,
        legacy_vulkan_image_depth: false,
        legacy_vulkan_image_msaa: false,
        legacy_vulkan_minor_mixture_rate: false,
        gpu_index: false,
        pci_bus: false,
        gpu_uuid: false,
        list_gpus: false,
    }
}

#[test]
fn config_file_fills_settings_not_given_on_command_line() {
    let mut settings = defaults();
    let mut file = empty_file();
    file.workload.duration = Some(30.0);
    file.workload.matrix_sizes = Some(vec![1024, 2048, 8192]);
    file.workload.precisions = Some(vec!["fp16".to_string(), "int8".to_string()]);
    file.workload.seed = Some(99);
    file.kernels.kernel_mixture = Some("gemm:3,memcpy:1".to_string());
    file.render.vulkan_width = Some(640);
    file.selection.pci_bus = Some("0000:65:00.0".to_string());
    file.legacy_image.legacy_vulkan_minor_mixture_rate = Some(0.25);
    let mut given = nothing_given();
    given.seed = true;
    apply_file_config_to_args(&mut settings, &given, Some(file));
    assert_eq!(settings.workload.duration, 30.0);
    assert_eq!(settings.workload.matrix_sizes, "1024,2048,8192");
    assert_eq!(settings.workload.precisions, "fp16,int8");
    assert_eq!(settings.workload.seed, 7, "a flag given on the command line wins");
    assert_eq!(settings.kernels.kernel_mixture, "gemm:3,memcpy:1");
    assert_eq!(settings.kernels.stream_mode, "single", "absent from the file: unchanged");
    assert_eq!(settings.render.vulkan_width, 640);
    assert_eq!(settings.selection.pci_bus.as_deref(), Some("0000:65:00.0"));
    assert_eq!(settings.selection.gpu_index, None);
    assert_eq!(settings.legacy_image.legacy_vulkan_minor_mixture_rate, 0.25);
}

#[test]
fn command_line_values_survive_a_full_config_file() {
    let mut settings = defaults();
    let mut file = empty_file();
    file.workload.matrix_sizes = Some(vec![512]);
    file.kernels.kernel_types = Some(vec!["gemm".to_string(), "atomic".to_string()]);
    let mut given = nothing_given();
    given.matrix_sizes = true;
    apply_file_config_to_args(&mut settings, &given, Some(file));
    assert_eq!(settings.workload.matrix_sizes, "4096");
    assert_eq!(settings.kernels.kernel_types, "gemm,atomic");
}

#[test]
fn no_config_file_changes_nothing() {
    let mut settings = defaults();
    apply_file_config_to_args(&mut settings, &nothing_given(), None);
    assert_eq!(settings.workload.duration, 60.0);
    assert_eq!(settings.workload.matrix_sizes, "4096");
    assert_eq!(settings.render.vulkan_width, 1280);
}

#[test]
fn vulkan_render_load_only_with_vulkan_flag() {
    let mut settings = defaults();
    settings.legacy_image.legacy_vulkan_image_count = 3;
    settings.legacy_image.legacy_vulkan_minor_mixture_rate = 0.5;
    assert!(!vulkan_stress_enabled(&settings.render));
    let config = build_vulkan_image_config(&settings.render, &settings.legacy_image);
    assert!(config.render.is_none());
    assert_eq!(config.image_count, 3);
    assert_eq!(config.minor_mixture_rate, 0.5);

    settings.render.vulkan = true;
    settings.render.vulkan_height = 720;
    settings.render.vulkan_window = false;
    assert!(vulkan_stress_enabled(&settings.render));
    let config = build_vulkan_image_config(&settings.render, &settings.legacy_image);
    assert_eq!(
        config.render,
        Some(VulkanRenderConfig {
            width: 1280,
            height: 720,
            msaa: 0,
            iters: 0,
            shells: 0,
            offscreen: true,
            rotate: false,
            particles: 0,
        })
    );

    settings.render.vulkan = false;
    settings.render.legacy_vulkan = true;
    assert!(vulkan_stress_enabled(&settings.render));
}
