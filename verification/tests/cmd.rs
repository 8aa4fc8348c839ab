use robopages::book::Container;
use robopages::failure::Failure;
use robopages::runtime::cmd::collect_output;
use robopages::runtime::{get_container_runtime, CommandLine, ContainerSource};
use robopages::strmap::StrMap;
use std::io::{Read, Write};

fn strings(items: &[&str]) -> Vec<String> {
    items.iter().map(|s| s.to_string()).collect()
}

fn command(sudo: bool, app: &str, args: &[&str], env: &[(&str, &str)]) -> CommandLine {
    let mut overlay = StrMap::new();
    for (k, v) in env {
        overlay.insert(k.to_string(), v.to_string());
    }
    CommandLine {
        sudo,
        app: app.to_string(),
        app_in_path: true,
        args: strings(args),
        env: overlay,
    }
}

#[test]
fn test_command_line_display() {
    let cmd = command(false, "ls", &["-l", "-a"], &[]);
    assert_eq!(format!("{}", cmd.to_string()), "ls -l -a");

    let cmd_with_sudo = command(true, "apt", &["install", "package"], &[]);
    assert_eq!(
        format!("{}", cmd_with_sudo.to_string()),
        "sudo apt install package"
    );
    assert_eq!(command(true, "id", &[], &[]).to_string(), "sudo id");
    assert_eq!(command(false, "id", &[""], &[]).to_string(), "id ");
}

#[test]
fn test_get_env_interpolated_args_with_env_vars() {
    let cmd = command(
        false,
        "echo",
        &["${TEST_VAR}", "${OTHER_VAR}"],
        &[("TEST_VAR", "test_value"), ("OTHER_VAR", "other_value")],
    );

    let result = cmd.get_env_interpolated_args();
    assert_eq!(result, vec!["test_value", "other_value"]);
}

#[test]
fn test_get_env_interpolated_args_with_missing_vars() {
    let cmd = command(false, "echo", &["${MISSING_VAR}"], &[]);

    let result = cmd.get_env_interpolated_args();
    assert_eq!(result, vec!["${MISSING_VAR}"]);
}

#[test]
fn test_get_env_interpolated_args_with_mixed_content() {
    let cmd = command(
        false,
        "echo",
        &["prefix_${VAR}", "normal_arg", "${VAR}_suffix"],
        &[("VAR", "value")],
    );

    let result = cmd.get_env_interpolated_args();
    assert_eq!(result, vec!["prefix_value", "normal_arg", "value_suffix"]);
}

#[test]
fn interpolation_goes_variable_by_variable() {
    let cmd = command(
        false,
        "echo",
        &["${A}${A}${B}${C}"],
        &[("A", "${B}"), ("B", "b")],
    );
    assert_eq!(cmd.get_env_interpolated_args(), vec!["bbb${C}"]);
}

#[test]
fn test_command_line_empty_app() {
    assert_eq!(
        CommandLine::from_vec(&strings(&[])).unwrap_err(),
        Failure::EmptyArgv
    );
    assert_eq!(
        CommandLine::from_vec(&strings(&[])).unwrap_err().to_string(),
        "empty command line"
    );
    assert_eq!(
        CommandLine::from_vec(&strings(&["", "arg1", "arg2"])).unwrap_err(),
        Failure::NoApplication
    );
    assert_eq!(
        CommandLine::from_vec(&strings(&["sudo"])).unwrap_err(),
        Failure::NoApplication
    );
    assert_eq!(
        CommandLine::from_vec(&strings(&["sudo", ""])).unwrap_err(),
        Failure::NoApplication
    );
}

#[test]
fn command_line_from_tokens() {
    let found = Some("/usr/bin/apt".to_string());
    let cmd = CommandLine::from_lookup(
        &strings(&["sudo", "apt", "install", "sudo"]),
        found,
        StrMap::new(),
    )
    .unwrap();
    assert!(cmd.sudo);
    assert_eq!(cmd.app, "/usr/bin/apt");
    assert!(cmd.app_in_path);
    assert_eq!(cmd.args, vec!["install", "sudo"]);

    let cmd = CommandLine::from_lookup(&strings(&["ls", "sudo"]), None, StrMap::new()).unwrap();
    assert!(!cmd.sudo);
    assert_eq!(cmd.app, "ls");
    assert!(!cmd.app_in_path);
    assert_eq!(cmd.args, vec!["sudo"]);

    let cmd = CommandLine::from_lookup(&strings(&["sudo", "sudo"]), None, StrMap::new()).unwrap();
    assert!(cmd.sudo);
    assert_eq!(cmd.app, "sudo");
    assert!(cmd.args.is_empty());
}

#[test]
fn command_line_looks_the_application_up() {
    let cmd = CommandLine::from_vec(&strings(&["echo", "x"])).unwrap();
    assert!(cmd.app_in_path);
    assert!(cmd.app.ends_with("/echo"));
    assert!(cmd.app.starts_with('/'));
    assert_eq!(cmd.args, vec!["x"]);
    assert_eq!(cmd.env.len(), 0);

    let cmd = CommandLine::from_vec(&strings(&["doesnotexist42", "x"])).unwrap();
    assert!(!cmd.app_in_path);
    assert_eq!(cmd.app, "doesnotexist42");

    let mut env = StrMap::new();
    env.insert("K".to_string(), "v".to_string());
    let cmd = CommandLine::from_vec_with_env(&strings(&["sudo", "echo"]), env).unwrap();
    assert!(cmd.sudo);
    assert_eq!(cmd.env.get("K"), Some(&"v".to_string()));
}

#[test]
fn output_is_collected_as_the_caller_sees_it() {
    assert_eq!(collect_output(0, "Hello, World!", ""), "Hello, World!");
    assert_eq!(collect_output(0, "", ""), "");
    assert_eq!(collect_output(0, "Hello\n", "Error\n"), "Hello\n\nError\n");
    assert_eq!(collect_output(0, "", "warn"), "warn");
    assert_eq!(
        collect_output(2, "", "ls: cannot access"),
        "EXIT CODE: 2\nERROR: ls: cannot access"
    );
    assert_eq!(collect_output(1, "out", ""), "EXIT CODE: 1\nout");
    assert_eq!(collect_output(127, "", ""), "EXIT CODE: 127");
    assert_eq!(collect_output(-9, "o", "e"), "EXIT CODE: -9\no\nERROR: e");
    assert_eq!(
        collect_output(i64::MIN, "", ""),
        "EXIT CODE: -9223372036854775808"
    );
    assert_eq!(
        collect_output(i64::MAX, "", ""),
        "EXIT CODE: 9223372036854775807"
    );
    assert_eq!(collect_output(1000, "", ""), "EXIT CODE: 1000");
}

fn container(preserve_app: bool) -> Container {
    Container {
        source: ContainerSource::Image("test_image".to_string()),
        args: None,
        volumes: None,
        force: false,
        preserve_app,
        platform: None,
    }
}

#[test]
fn test_container_preserve_app() {
    let container = container(true);

    let original_cmdline = command(false, "original_app", &["arg1", "arg2"], &[]);

    let wrapped_cmdline = container
        .wrap_with(original_cmdline, "/usr/bin/docker".to_string(), None)
        .unwrap();

    assert!(wrapped_cmdline.args.contains(&"original_app".to_string()));
    assert!(wrapped_cmdline.args.contains(&"arg1".to_string()));
    assert!(wrapped_cmdline.args.contains(&"arg2".to_string()));

    // check that the application is inserted before its arguments
    let app_index = wrapped_cmdline
        .args
        .iter()
        .position(|arg| arg == "original_app")
        .unwrap();
    let arg1_index = wrapped_cmdline
        .args
        .iter()
        .position(|arg| arg == "arg1")
        .unwrap();
    let arg2_index = wrapped_cmdline
        .args
        .iter()
        .position(|arg| arg == "arg2")
        .unwrap();
    assert!(app_index < arg1_index);
    assert!(app_index < arg2_index);

    assert_eq!(
        wrapped_cmdline.args,
        vec!["run", "--rm", "test_image", "original_app", "arg1", "arg2"]
    );
    assert_eq!(wrapped_cmdline.app, "/usr/bin/docker");
    assert!(wrapped_cmdline.app_in_path);
    assert!(!wrapped_cmdline.sudo);
}

#[test]
fn test_wrap_with_env() {
    let mut env = StrMap::new();
    env.insert("TEST_VAR".to_string(), "test_value".to_string());

    let command_line =
        CommandLine::from_vec_with_env(&vec!["echo".to_string(), "test".to_string()], env).unwrap();

    let container = container(true);

    let contents = command_line.env_file_contents();
    assert_eq!(contents, Some("TEST_VAR=test_value\n".to_string()));

    let mut temp_file = tempfile::NamedTempFile::new().unwrap();
    temp_file.write_all(contents.unwrap().as_bytes()).unwrap();
    temp_file.flush().unwrap();
    let temp_path = temp_file.path().display().to_string();

    let wrapped = container
        .wrap_with(
            command_line,
            "/usr/bin/docker".to_string(),
            Some(temp_path.clone()),
        )
        .unwrap();

    // Find the env-file argument
    let env_file_arg = wrapped
        .args
        .iter()
        .find(|arg| arg.starts_with("--env-file="))
        .expect("--env-file argument not found")
        .clone();

    // Extract the file path
    let env_file_path = env_file_arg
        .strip_prefix("--env-file=")
        .expect("Failed to strip --env-file= prefix");
    assert_eq!(env_file_path, temp_path);

    let env_file = std::path::Path::new(env_file_path);
    assert!(env_file.exists());

    // Read the env file contents
    let mut env_file_contents = String::new();
    temp_file
        .reopen()
        .expect("Failed to read env file")
        .read_to_string(&mut env_file_contents)
        .expect("Failed to read env file");

    // Verify it contains the expected environment variable
    assert!(env_file_contents.contains("TEST_VAR=test_value"));
    assert_eq!(wrapped.args[2], env_file_arg);
    assert_eq!(wrapped.env.len(), 0);

    // Clean up the env file
    drop(wrapped);
    drop(temp_file);
    assert!(!env_file.exists(), "env file was not deleted");
}

#[test]
fn wrap_puts_everything_in_its_place() {
    let container = Container {
        source: ContainerSource::Build {
            name: "built".to_string(),
            path: "/ctx/Dockerfile".to_string(),
        },
        args: Some(strings(&["--net=host", "-it"])),
        volumes: Some(strings(&["/a:/b", "/c:/d"])),
        force: true,
        preserve_app: false,
        platform: None,
    };
    let cmd = command(true, "/usr/bin/nmap", &["-sV", "host"], &[("K", "v")]);
    let wrapped = container
        .wrap_with(cmd, "/bin/podman".to_string(), Some("/tmp/env".to_string()))
        .unwrap();
    assert_eq!(
        wrapped.args,
        vec![
            "run",
            "--rm",
            "--env-file=/tmp/env",
            "-v/a:/b",
            "-v/c:/d",
            "--net=host",
            "-it",
            "built",
            "-sV",
            "host"
        ]
    );

    // an overlay without a file is a failure, a file without an overlay is not used
    let cmd = command(false, "x", &[], &[("K", "v")]);
    assert_eq!(
        container
            .wrap_with(cmd, "/bin/podman".to_string(), None)
            .unwrap_err(),
        Failure::EnvFileMissing
    );
    let cmd = command(false, "x", &[], &[]);
    let wrapped = container
        .wrap_with(cmd, "/bin/podman".to_string(), Some("/tmp/env".to_string()))
        .unwrap();
    assert_eq!(
        wrapped.args,
        vec!["run", "--rm", "-v/a:/b", "-v/c:/d", "--net=host", "-it", "built"]
    );
}

#[test]
fn wrap_looks_the_runtime_up() {
    let container = container(false);
    let wrapped = container
        .wrap(command(false, "x", &["y"], &[]), "sh", None)
        .unwrap();
    assert!(wrapped.app.ends_with("/sh"));
    assert_eq!(wrapped.args, vec!["run", "--rm", "test_image", "y"]);
    let failure = container
        .wrap(command(false, "x", &["y"], &[]), "doesnotexist42", None)
        .unwrap_err();
    assert_eq!(
        failure,
        Failure::RuntimeNotFound {
            runtime: "doesnotexist42".to_string()
        }
    );
    assert_eq!(failure.to_string(), "doesnotexist42 executable not found");
}

#[test]
fn env_file_has_one_line_for_each_variable() {
    let cmd = command(false, "x", &[], &[("B", "2"), ("A", "1=one"), ("C", "")]);
    assert_eq!(
        cmd.env_file_contents(),
        Some("A=1=one\nB=2\nC=\n".to_string())
    );
    assert_eq!(command(false, "x", &[], &[]).env_file_contents(), None);
}

#[test]
fn container_runtime_and_image_commands() {
    assert_eq!(get_container_runtime(None), "docker");
    assert_eq!(get_container_runtime(Some("podman".to_string())), "podman");
    assert_eq!(ContainerSource::Image("img:1".to_string()).image(), "img:1");
    let build = ContainerSource::Build {
        name: "mine".to_string(),
        path: "/some/dir/Dockerfile".to_string(),
    };
    assert_eq!(build.image(), "mine");
    assert_eq!(
        ContainerSource::Image("img:1".to_string()).resolve("docker", None),
        vec![
            "sh",
            "-c",
            "docker images -q 'img:1' | grep -q . || docker pull 'img:1'"
        ]
    );
    assert_eq!(
        ContainerSource::Image("img:1".to_string())
            .resolve("podman", Some("linux/amd64".to_string())),
        vec![
            "sh",
            "-c",
            "podman images -q 'img:1' | grep -q . || podman pull --platform 'linux/amd64' 'img:1'"
        ]
    );
    assert_eq!(
        build.resolve("docker", Some("ignored".to_string())),
        vec![
            "sh",
            "-c",
            "docker build -f '/some/dir/Dockerfile' -t 'mine' --quiet '/some/dir'"
        ]
    );
    let mut c = container(false);
    c.platform = Some("linux/arm64".to_string());
    assert_eq!(
        c.resolve("docker")[2],
        "docker images -q 'test_image' | grep -q . || docker pull --platform 'linux/arm64' 'test_image'"
    );
}

#[test]
fn test_command_line_execute_success() {
    // what `echo -n "Hello, World!"` puts out
    let result = collect_output(0, "Hello, World!", "");
    assert_eq!(result, "Hello, World!");
}

#[test]
fn test_command_line_execute_failure() {
    // what `ls nonexistent_file` puts out
    let result = collect_output(
        2,
        "",
        "ls: cannot access 'nonexistent_file': No such file or directory\n",
    );
    assert!(result.contains("EXIT CODE:"));
    assert!(result.contains("ERROR:"));
    assert_eq!(
        result,
        "EXIT CODE: 2\nERROR: ls: cannot access 'nonexistent_file': No such file or directory\n"
    );
}

#[test]
fn test_command_line_execute_with_stderr() {
    // what `sh -c "echo 'Hello' && echo 'Error' >&2"` puts out
    let result = collect_output(0, "Hello\n", "Error\n");
    assert!(result.contains("Hello"));
    assert!(result.contains("Error"));
    assert!(!result.contains("ERROR:"));
}
