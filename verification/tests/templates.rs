use robopages::book::runtime::{ExecutionContext, ExecutionFlavor};
use robopages::book::templates::{find_asset_reference, Template};
use robopages::book::{default_force, default_preserve_app, default_required, is_false};
use robopages::book::{Container, Function};
use robopages::failure::Failure;
use robopages::runtime::ContainerSource;
use robopages::strmap::StrMap;

fn files(items: &[(&str, &str)]) -> StrMap<String> {
    let mut map = StrMap::new();
    for (k, v) in items {
        map.insert(k.to_string(), v.to_string());
    }
    map
}

#[test]
fn template_names() {
    assert_eq!(Template::Basic.to_string(), "basic");
    assert_eq!(Template::DockerImage.to_string(), "docker_image");
    assert_eq!(Template::DockerBuild.to_string(), "docker_build");
}

#[test]
fn asset_references() {
    assert_eq!(find_asset_reference("nothing here"), None);
    assert_eq!(
        find_asset_reference("build:\n  path: ${cwd}/Dockerfile\n  name: x"),
        Some("Dockerfile".to_string())
    );
    assert_eq!(
        find_asset_reference("${cwd}/\n${cwd}/second one"),
        Some("second one".to_string())
    );
    assert_eq!(find_asset_reference("${cwd}/"), None);
    assert_eq!(find_asset_reference("${cwd}"), None);
    assert_eq!(
        find_asset_reference("a ${cwd}/x ${cwd}/y"),
        Some("x ${cwd}/y".to_string())
    );
}

#[test]
fn template_data() {
    let store = files(&[
        ("basic.yml", "description: basic\n"),
        ("docker_build.yml", "path: ${cwd}/docker_build.Dockerfile\n"),
        ("docker_build.Dockerfile", "FROM alpine\n"),
        ("docker_image.yml", "path: ${cwd}/missing\n"),
    ]);
    let parts = Template::Basic.get_data(&store).unwrap();
    assert_eq!(parts.len(), 1);
    assert_eq!(parts[0].name, None);
    assert_eq!(parts[0].data, "description: basic\n");

    let parts = Template::DockerBuild.get_data(&store).unwrap();
    assert_eq!(parts.len(), 2);
    assert_eq!(parts[0].name, None);
    assert_eq!(parts[0].data, "path: ${cwd}/docker_build.Dockerfile\n");
    assert_eq!(parts[1].name, Some("docker_build.Dockerfile".to_string()));
    assert_eq!(parts[1].data, "FROM alpine\n");

    assert_eq!(
        Template::DockerImage.get_data(&store).unwrap_err(),
        Failure::TemplateNotFound {
            name: "missing".to_string()
        }
    );
    assert_eq!(
        Template::Basic.get_data(&StrMap::new()).unwrap_err(),
        Failure::TemplateNotFound {
            name: "basic.yml".to_string()
        }
    );
    assert_eq!(
        Template::Basic
            .get_data(&StrMap::new())
            .unwrap_err()
            .to_string(),
        "template not found: basic.yml"
    );
}

#[test]
fn defaults_of_the_page_format() {
    assert!(default_required());
    assert!(!default_force());
    assert!(!default_preserve_app());
    assert!(is_false(&false));
    assert!(!is_false(&true));
}

fn function(argv: &[&str], container: Option<Container>) -> Function {
    Function {
        description: "".to_string(),
        parameters: StrMap::new(),
        execution: ExecutionContext::CommandLine(argv.iter().map(|s| s.to_string()).collect()),
        container,
    }
}

fn image(force: bool) -> Container {
    Container {
        source: ContainerSource::Image("img".to_string()),
        args: None,
        volumes: None,
        force,
        preserve_app: false,
        platform: None,
    }
}

#[test]
fn execution_flavors() {
    assert_eq!(ExecutionFlavor::shell("zsh".to_string()).to_string(), "zsh");
    assert_eq!(ExecutionFlavor::sudo().to_string(), "sudo");
    assert_eq!(
        ExecutionFlavor::docker("img".to_string()).to_string(),
        "docker img"
    );
    assert_eq!(ExecutionFlavor::error("why".to_string()).to_string(), "why");

    assert_eq!(ExecutionFlavor::get_shell_name(Some("/bin/zsh")), "zsh");
    assert_eq!(ExecutionFlavor::get_shell_name(Some("fish")), "fish");
    assert_eq!(ExecutionFlavor::get_shell_name(Some("/bin/")), "");
    assert_eq!(ExecutionFlavor::get_shell_name(None), "unknown");

    let plain = function(&["echo"], None);
    let offered = function(&["echo"], Some(image(false)));
    let forced = function(&["echo"], Some(image(true)));
    let shown = |f: &Function, sudo: bool, found: bool| {
        ExecutionFlavor::for_command(f, sudo, found, "/bin/sh".to_string()).to_string()
    };
    assert_eq!(shown(&plain, false, true), "/bin/sh");
    assert_eq!(shown(&plain, true, true), "sudo");
    assert_eq!(shown(&plain, true, false), "sudo");
    assert_eq!(shown(&plain, false, false), "app not in $PATH");
    assert_eq!(shown(&offered, false, true), "/bin/sh");
    assert_eq!(shown(&offered, true, true), "docker img");
    assert_eq!(shown(&offered, false, false), "docker img");
    assert_eq!(shown(&forced, false, true), "docker img");

    let flavor = |f: &Function, sudo: bool, found: bool| {
        ExecutionFlavor::for_command(f, sudo, found, "/bin/sh".to_string())
    };
    assert!(matches!(flavor(&plain, false, true), ExecutionFlavor::Shell(s) if s == "/bin/sh"));
    assert!(matches!(flavor(&plain, true, true), ExecutionFlavor::Sudo));
    assert!(matches!(flavor(&plain, true, false), ExecutionFlavor::Sudo));
    assert!(matches!(
        flavor(&plain, false, false),
        ExecutionFlavor::Error(m) if m == "app not in $PATH"
    ));
    assert!(matches!(flavor(&offered, false, true), ExecutionFlavor::Shell(_)));
    assert!(matches!(flavor(&offered, true, true), ExecutionFlavor::Docker(i) if i == "img"));
    assert!(matches!(flavor(&offered, false, false), ExecutionFlavor::Docker(i) if i == "img"));
    assert!(matches!(flavor(&forced, false, true), ExecutionFlavor::Docker(i) if i == "img"));
}

#[test]
fn execution_flavor_of_a_function() {
    let flavor = ExecutionFlavor::for_function(
        &function(&["doesnotexist42"], Some(image(true))),
        "linux",
        Some("/bin/sh"),
    )
    .unwrap();
    assert_eq!(flavor.to_string(), "docker img");
    // a forced container wins although the application could run on the host
    let flavor =
        ExecutionFlavor::for_function(&function(&["echo"], Some(image(true))), "linux", None)
            .unwrap();
    assert!(matches!(flavor, ExecutionFlavor::Docker(i) if i == "img"));
    // and whatever its command line is
    let flavor =
        ExecutionFlavor::for_function(&function(&[], Some(image(true))), "linux", None).unwrap();
    assert!(matches!(flavor, ExecutionFlavor::Docker(i) if i == "img"));
    let flavor =
        ExecutionFlavor::for_function(&function(&["echo", "x"], None), "linux", Some("/bin/sh"))
            .unwrap();
    assert!(matches!(&flavor, ExecutionFlavor::Shell(_)));
    assert!(flavor.to_string().ends_with("/sh"));
    let flavor =
        ExecutionFlavor::for_function(&function(&["sudo", "echo"], None), "linux", None).unwrap();
    assert!(matches!(&flavor, ExecutionFlavor::Sudo));
    assert_eq!(flavor.to_string(), "sudo");
    let flavor =
        ExecutionFlavor::for_function(&function(&["doesnotexist42"], None), "linux", None)
            .unwrap();
    assert!(matches!(&flavor, ExecutionFlavor::Error(_)));
    assert_eq!(flavor.to_string(), "app not in $PATH");
    assert_eq!(
        ExecutionFlavor::for_function(&function(&[], None), "linux", None).unwrap_err(),
        Failure::EmptyArgv
    );
    let mut platforms = StrMap::new();
    platforms.insert("macos".to_string(), vec!["echo".to_string()]);
    let only_mac = Function {
        description: "".to_string(),
        parameters: StrMap::new(),
        execution: ExecutionContext::PlatformSpecific(platforms),
        container: None,
    };
    assert_eq!(
        ExecutionFlavor::for_function(&only_mac, "linux", None).unwrap_err(),
        Failure::PlatformUnsupported {
            os: "linux".to_string()
        }
    );
}
