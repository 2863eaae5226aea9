use container_segment::config::ContainerConfig;
use container_segment::container::{build, module};
use container_segment::context::{Context, FileState, Marker};
use container_segment::detect::container_name;
use container_segment::error::FormatError;
use container_segment::segment::{Module, StyleValue};

/// The text of a module in runs of one style each.
fn runs(module: &Module) -> Vec<(Option<String>, String)> {
    let mut out: Vec<(Option<String>, String)> = Vec::new();
    for segment in &module.segments {
        let style = segment.style.as_ref().map(|s| s.description.clone());
        match out.last_mut() {
            Some((last, text)) if *last == style => text.push_str(&segment.text),
            _ => out.push((style, segment.text.clone())),
        }
    }
    out
}

fn collect(context: &Context, config: &ContainerConfig) -> Option<Vec<(Option<String>, String)>> {
    module(context, config).map(|m| runs(&m))
}

fn painted(name: &str) -> Vec<(Option<String>, String)> {
    vec![
        (Some("red bold dimmed".to_string()), format!("⬢ [{}]", name)),
        (None, " ".to_string()),
    ]
}

fn config(disabled: bool, use_container_name: bool) -> ContainerConfig {
    let mut config = ContainerConfig::default();
    config.disabled = disabled;
    config.use_container_name = use_container_name;
    config
}

fn text(content: &str) -> FileState {
    FileState::Text(content.to_string())
}

#[test]
fn test_none_if_disabled() {
    let expected = None;
    let actual = collect(&Context::new(), &config(true, false));

    assert_eq!(expected, actual);
}

fn containerenv(
    container_name: Option<&str>,
    image_name: Option<&str>,
    use_con_name: bool,
) -> (Option<Vec<(Option<String>, String)>>, Option<Vec<(Option<String>, String)>>) {
    let config = config(false, use_con_name);
    let mut context = Context::new();

    // the file found on ubuntu images, to see that the containerenv file is preferred
    context.set(Marker::SystemdContainer, text("docker\n"));

    let image_line = match image_name {
        Some(image_name) => format!("image=\"registry.fedoraproject.org/{image_name}\"\n"),
        None => String::new(),
    };
    let name_line = match container_name {
        Some(container_name) => format!("name=\"{container_name}\"\n"),
        None => String::new(),
    };
    let contents = format!("{image_line}{name_line}");
    context.set(Marker::ContainerEnv, FileState::Text(contents));

    let display_name = match use_con_name {
        true => container_name,
        false => image_name,
    };

    let actual = collect(&context, &config);
    let expected = Some(painted(display_name.unwrap_or("podman")));

    (actual, expected)
}

#[test]
fn test_containerenv() {
    let (actual, expected) = containerenv(None, None, false);

    assert_eq!(actual, expected);
}

#[test]
fn container_test_containerenv() {
    // a host that shows none of the markers renders no segment
    let (_, expected) = containerenv(None, None, false);
    let actual = collect(&Context::new(), &config(false, false));

    assert_ne!(actual, expected);
    assert_eq!(actual, None);
}

#[test]
fn test_containerenv_with_name() {
    // the image's name
    let (actual, expected) = containerenv(None, Some("fedora-toolbox:35"), false);
    assert_eq!(actual, expected);

    // the container's own name
    let (actual, expected) = containerenv(Some("container-name"), Some("fedora-toolbox:35"), true);
    assert_eq!(actual, expected);

    let (actual, expected) = containerenv(Some("container-name"), Some("fedora-toolbox:35"), false);
    assert_eq!(actual, expected);

    let (actual, expected) = containerenv(Some("container-name"), None, true);
    assert_eq!(actual, expected);
}

fn containerenv_systemd(
    name: Option<&str>,
    display: Option<&str>,
) -> (Option<Vec<(Option<String>, String)>>, Option<Vec<(Option<String>, String)>>) {
    let config = config(false, false);
    let mut context = Context::new();

    let contents = match name {
        Some(name) => format!("{name}\n"),
        None => "systemd-nspawn\n".to_string(),
    };
    context.set(Marker::SystemdContainer, FileState::Text(contents));

    let actual = collect(&context, &config);
    let expected = display.map(|_| painted(display.unwrap_or("Systemd")));

    (actual, expected)
}

#[test]
fn test_containerenv_systemd() {
    let (actual, expected) = containerenv_systemd(None, Some("Systemd"));

    assert_eq!(actual, expected);
}

#[test]
fn test_containerenv_docker_in_systemd() {
    let (actual, expected) = containerenv_systemd(Some("docker"), Some("Docker"));

    assert_eq!(actual, expected);
}

#[test]
fn test_containerenv_wsl_in_systemd() {
    let (actual, expected) = containerenv_systemd(Some("wsl"), None);

    assert_eq!(actual, expected);
}

#[test]
fn default_config_values() {
    let config = ContainerConfig::default();
    assert!(!config.disabled);
    assert!(!config.use_container_name);
    assert_eq!(config.template, "[${symbol} \\[$name\\]]($style) ");
    assert_eq!(config.symbol, "⬢");
    assert_eq!(config.style.description, "red bold dimmed");
}

#[test]
fn default_template_gives_five_segments() {
    let mut context = Context::new();
    context.set(Marker::DockerEnv, FileState::Unreadable);
    let module = module(&context, &ContainerConfig::default()).unwrap();
    let got: Vec<(String, Option<String>)> = module
        .segments
        .iter()
        .map(|s| (s.text.clone(), s.style.as_ref().map(|y| y.description.clone())))
        .collect();
    let style = Some("red bold dimmed".to_string());
    assert_eq!(
        got,
        vec![
            ("⬢".to_string(), style.clone()),
            (" [".to_string(), style.clone()),
            ("Docker".to_string(), style.clone()),
            ("]".to_string(), style.clone()),
            (" ".to_string(), None),
        ]
    );
    assert_eq!(module.text(), "⬢ [Docker] ");
}

#[test]
fn disabled_wins_over_every_marker() {
    let mut context = Context::new();
    for marker in Marker::all() {
        context.set(marker, text("docker"));
    }
    assert!(module(&context, &config(true, false)).is_none());
    assert!(module(&context, &config(true, true)).is_none());
    assert!(matches!(build(&context, &config(true, true)), Ok(None)));
    assert!(module(&context, &config(false, false)).is_some());
}

#[test]
fn custom_symbol_and_style_are_used() {
    let mut context = Context::new();
    context.set(Marker::ContainerManager, FileState::Unreadable);
    let mut config = ContainerConfig::default();
    config.symbol = "box".to_string();
    config.style = StyleValue::new("blue");
    config.template = "${symbol}:[$name]($style)".to_string();
    let got = collect(&context, &config).unwrap();
    assert_eq!(
        got,
        vec![(None, "box:".to_string()), (Some("blue".to_string()), "OCI".to_string())]
    );
}

#[test]
fn unknown_names_leave_the_segment_out() {
    let mut context = Context::new();
    context.set(Marker::DockerEnv, FileState::Unreadable);
    let mut config = ContainerConfig::default();

    // `symbol` is a meta-variable, not a variable
    config.template = "$symbol".to_string();
    assert!(module(&context, &config).is_none());
    match build(&context, &config) {
        Err(FormatError::UnknownVariable(name)) => assert_eq!(name, "symbol"),
        other => panic!("unexpected: {:?}", other),
    }

    // `name` is a variable, not a meta-variable
    config.template = "${name}".to_string();
    assert!(module(&context, &config).is_none());
    match build(&context, &config) {
        Err(FormatError::UnresolvedMeta(name)) => assert_eq!(name, "name"),
        other => panic!("unexpected: {:?}", other),
    }

    config.template = "[$name]($colour)".to_string();
    assert!(module(&context, &config).is_none());
    match build(&context, &config) {
        Err(FormatError::UnknownStyle(name)) => assert_eq!(name, "colour"),
        other => panic!("unexpected: {:?}", other),
    }

    config.template = "[$name($style)".to_string();
    assert!(module(&context, &config).is_none());
    match build(&context, &config) {
        Err(FormatError::Syntax(at)) => assert_eq!(at, 6),
        other => panic!("unexpected: {:?}", other),
    }
}

#[test]
fn malformed_template_is_not_looked_at_without_a_sandbox() {
    let mut config = ContainerConfig::default();
    config.template = "[[[".to_string();
    assert!(matches!(build(&Context::new(), &config), Ok(None)));
}

#[test]
fn same_inputs_same_output() {
    let (first, _) = containerenv(Some("my-box"), Some("fedora-toolbox:35"), true);
    let (second, _) = containerenv(Some("my-box"), Some("fedora-toolbox:35"), true);
    assert_eq!(first, second);
    assert_eq!(first, Some(painted("my-box")));

    let mut context = Context::new();
    context.set(Marker::SystemdContainer, text("lxc\n"));
    let config = config(false, false);
    let a = collect(&context, &config);
    let b = collect(&context, &config);
    assert_eq!(a, b);
    assert_eq!(container_name(&context, &config), container_name(&context, &config));
}

#[test]
fn build_tells_why_nothing_is_shown() {
    let mut context = Context::new();
    let config = ContainerConfig::default();
    assert_eq!(build(&context, &config), Ok(None));

    context.set(Marker::ProcVz, FileState::Unreadable);
    let shown = build(&context, &config).unwrap().unwrap();
    assert_eq!(shown.text(), "⬢ [OpenVZ] ");
    assert_eq!(Some(shown), module(&context, &config));

    let mut broken = ContainerConfig::default();
    broken.template = "$name)".to_string();
    assert_eq!(build(&context, &broken), Err(FormatError::Syntax(5)));
    assert_eq!(module(&context, &broken), None);
}
