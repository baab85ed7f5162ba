use nvoc::cli::{
    command_hint_from_argv, command_list, discovery_backend_set, option_one,
    option_takes_value, parse_command, parse_output_format, target_supports, validate_invocation, BackendAdapter, BackendChoice, BackendSet,
    Command, Invocation, OutputFormat,
};

fn inv(command: Command, backend: BackendChoice, positionals: &[&str]) -> Invocation {
    Invocation {
        backend,
        output: OutputFormat::Human,
        no_color: false,
        gpu_specs: Vec::new(),
        command: Some(command),
        positionals: positionals.iter().map(|s| s.to_string()).collect(),
        options: Vec::new(),
    }
}

#[test]
fn command_backend_support_is_explicit() {
    assert!(Command::SetThermalLimitC
        .adapters()
        .contains(&BackendAdapter::Nvapi));
    assert!(Command::SetThermalLimitC
        .adapters()
        .contains(&BackendAdapter::Nvml));
    let nvml_only: &[BackendAdapter] = &[BackendAdapter::Nvml];
    let nvapi_only: &[BackendAdapter] = &[BackendAdapter::Nvapi];
    assert_eq!(Command::SetPowerWatt.adapters(), nvml_only);
    assert_eq!(Command::SetPowerPercent.adapters(), nvapi_only);
    assert_eq!(Command::ListDisplays.adapters(), nvapi_only);
    assert_eq!(Command::GetAutoBoost.adapters(), nvml_only);
    assert_eq!(Command::GetApiRestriction.adapters(), nvml_only);
    assert_eq!(Command::GetEdid.adapters(), nvapi_only);
    assert_eq!(Command::SetEdid.adapters(), nvapi_only);
    assert_eq!(Command::ClearEdid.adapters(), nvapi_only);
}


#[test]
fn command_names_round_trip() {
    for c in command_list() {
        assert_eq!(parse_command(c.name()).unwrap(), c);
    }
    assert_eq!(parse_command("get-vfp").unwrap(), Command::GetVfp);
    assert_eq!(
        parse_command("bogus").unwrap_err(),
        "unknown function \"bogus\""
    );
}

#[test]
fn output_format_parsing() {
    assert_eq!(parse_output_format(" JSON ").unwrap(), OutputFormat::Json);
    assert_eq!(parse_output_format("human").unwrap(), OutputFormat::Human);
    assert_eq!(
        parse_output_format("Yaml").unwrap_err(),
        "invalid output format \"yaml\"; expected human or json"
    );
}

#[test]
fn command_hint_skips_option_values() {
    let argv: Vec<String> = ["--fan", "1", "set-fan-percent", "65"]
        .iter()
        .map(|s| s.to_string())
        .collect();
    assert_eq!(command_hint_from_argv(&argv), Some(Command::SetFanPercent));
    let argv: Vec<String> = ["--gpu", "get-info"].iter().map(|s| s.to_string()).collect();
    assert_eq!(command_hint_from_argv(&argv), None);
    let argv: Vec<String> = ["--", "get-info"].iter().map(|s| s.to_string()).collect();
    assert_eq!(command_hint_from_argv(&argv), None);
    let t: Vec<char> = "--domain".chars().collect();
    assert!(option_takes_value(&t));
    let t: Vec<char> = "--indexed".chars().collect();
    assert!(!option_takes_value(&t));
}

#[test]
fn validation_rejects_unsupported_backend_and_arity() {
    let err = validate_invocation(&inv(Command::SetPowerWatt, BackendChoice::Nvapi, &["350"]))
        .unwrap_err();
    assert_eq!(err, "set-power-watt does not support --nvapi");
    let err = validate_invocation(&inv(Command::SetPowerPercent, BackendChoice::Nvml, &["90"]))
        .unwrap_err();
    assert_eq!(err, "set-power-percent does not support --nvml");
    let err = validate_invocation(&inv(Command::SetLockedClocksMhz, BackendChoice::Auto, &["1"]))
        .unwrap_err();
    assert_eq!(err, "set-locked-clocks-mhz expects 2 positional args, got 1");
    let err = validate_invocation(&inv(Command::SetPstateLock, BackendChoice::Auto, &[]))
        .unwrap_err();
    assert_eq!(err, "set-pstate-lock expects 1..=2 positional args, got 0");
    assert!(validate_invocation(&inv(Command::ListGpus, BackendChoice::Auto, &[])).is_ok());
}

#[test]
fn validation_rejects_foreign_options_and_reset_fan_target() {
    let mut i = inv(Command::GetPowerWatt, BackendChoice::Auto, &[]);
    i.options = vec![("domain".to_string(), vec!["memory".to_string()])];
    assert_eq!(
        validate_invocation(&i).unwrap_err(),
        "--domain is not valid for get-power-watt"
    );
    let mut r = inv(Command::ResetFan, BackendChoice::Auto, &[]);
    r.options = vec![("fan".to_string(), vec!["1".to_string()])];
    assert!(validate_invocation(&r)
        .unwrap_err()
        .contains("requires --nvml"));
    r.backend = BackendChoice::Nvml;
    assert!(validate_invocation(&r).is_ok());
    assert_eq!(option_one(&r, "fan"), Some("1"));
    let mut a = inv(Command::ResetFan, BackendChoice::Auto, &[]);
    a.options = vec![("fan".to_string(), vec!["ALL".to_string()])];
    assert!(validate_invocation(&a).is_ok());
    let mut none = inv(Command::ListGpus, BackendChoice::Auto, &[]);
    none.command = None;
    assert_eq!(validate_invocation(&none).unwrap_err(), "missing function name");
}

#[test]
fn option_one_takes_last_value() {
    let mut i = inv(Command::GetVfp, BackendChoice::Auto, &[]);
    i.options = vec![(
        "domain".to_string(),
        vec!["core".to_string(), "memory".to_string()],
    )];
    assert_eq!(option_one(&i, "domain"), Some("memory"));
    assert_eq!(option_one(&i, "pstate"), None);
}

#[test]
fn backend_discovery_and_support() {
    assert_eq!(
        discovery_backend_set(Command::GetInfo, BackendAdapter::Nvapi),
        BackendSet::Both
    );
    assert_eq!(
        discovery_backend_set(Command::GetVfp, BackendAdapter::Nvapi),
        BackendSet::Nvapi
    );
    assert_eq!(
        discovery_backend_set(Command::GetInfo, BackendAdapter::Nvml),
        BackendSet::Nvml
    );
    assert!(!target_supports(true, false, Command::SetPstateLock, BackendAdapter::Nvapi));
    assert!(target_supports(true, true, Command::SetPstateLock, BackendAdapter::Nvapi));
    assert!(target_supports(false, true, Command::ListGpus, BackendAdapter::Nvml));
}

#[test]
fn arity_and_positionals_agree() {
    for c in command_list() {
        let (min, max) = c.arity();
        assert!(min <= max);
        assert!(c.positional_args().len() >= max);
    }
    assert_eq!(Command::SetApiRestriction.arity(), (2, 2));
    assert_eq!(Command::SetApiRestriction.positional_args()[0].value_name, "API");
}

#[test]
fn command_names_are_distinct_lower_case_hyphen_runs() {
    let names: Vec<&str> = command_list().into_iter().map(|c| c.name()).collect();
    for (i, n) in names.iter().enumerate() {
        assert!(!n.starts_with('-') && !n.ends_with('-') && !n.contains("--"), "{n}");
        assert!(n.chars().all(|c| c.is_ascii_lowercase() || c.is_ascii_digit() || c == '-'), "{n}");
        assert!(!names[..i].contains(n), "{n} listed twice");
    }
    assert_eq!(Command::SetCoreOffsetMhz.name(), "set-core-offset-mhz");
    assert_eq!(Command::ClearEdid.name(), "clear-edid");
}

#[test]
fn command_tables_agree_with_arity_and_known_options() {
    let known = [
        "domain",
        "pstate",
        "fan",
        "policy",
        "infer-missing-default",
        "indexed",
        "no-infer-missing-default",
        "feedback",
        "all",
    ];
    for c in command_list() {
        let (min, max) = c.arity();
        let args = c.positional_args();
        assert!(min <= max, "{}", c.name());
        assert_eq!(args.len(), max, "{}", c.name());
        for (i, a) in args.iter().enumerate() {
            assert!(!args[..i].iter().any(|b| b.id == a.id), "{}", c.name());
        }
        let options = c.allowed_options();
        for (i, o) in options.iter().enumerate() {
            assert!(known.contains(o), "{o}");
            assert!(!options[..i].contains(o), "{o}");
        }
    }
    assert_eq!(Command::SetFanPercent.allowed_options(), &["fan", "policy"]);
    assert_eq!(Command::ResetFan.allowed_options(), &["fan"]);
    assert!(Command::GetInfo.allowed_options().is_empty());
    assert!(Command::SetVfpRangeDeltaMhz.positional_args()[2].allow_hyphen_values);
    assert!(!Command::SetVfpRangeDeltaMhz.positional_args()[1].allow_hyphen_values);
}
