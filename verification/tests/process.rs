use isabelle_client::process::{OptionsBuilder, ProcessArgs};
use isabelle_client::server::{
    banner_pattern, clean_output, exit_arguments, parse_server_output, server_arguments,
    server_info_from, ServerInfo,
};

fn texts(items: &[&str]) -> Vec<String> {
    items.iter().map(|item| item.to_string()).collect()
}

fn pair(key: &str, value: &str) -> (String, String) {
    (key.to_string(), value.to_string())
}

#[test]
fn builder_starts_empty() {
    assert!(OptionsBuilder::new().into_options().is_empty());
}

#[test]
fn each_option_is_set_under_its_key() {
    let mut builder = OptionsBuilder::new();
    builder
        .threads(4)
        .thread_stack_limit("0.25")
        .parallel_limit(-1)
        .parallel_proofs(2)
        .timeout_scale("1.5")
        .record_proofs(0)
        .quick_and_dirty(true)
        .skip_proofs(false)
        .timeout("60")
        .timeout_build(true)
        .process_output_limit(100)
        .process_output_tail(40)
        .pide_reports(false)
        .build_pide_reports(true);
    assert_eq!(
        builder.into_options(),
        vec![
            pair("threads", "4"),
            pair("threads_stack_limit", "0.25"),
            pair("parallel_limit", "-1"),
            pair("parallel_proofs", "2"),
            pair("timeout_scale", "1.5"),
            pair("record_proofs", "0"),
            pair("quick_and_dirty", "true"),
            pair("skip_proofs", "false"),
            pair("timeout", "60"),
            pair("timeout_build", "true"),
            pair("process_output_limit", "100"),
            pair("process_output_tail", "40"),
            pair("pide_reports", "false"),
            pair("build_pide_reports", "true"),
        ]
    );
}

#[test]
fn setting_an_option_again_replaces_it() {
    let mut builder = OptionsBuilder::new();
    builder.threads(1).skip_proofs(true).threads(8);
    builder.add_int_option("threads", isize::MIN);
    builder.add_bool_option("skip_proofs", false);
    builder.add_int_option("other", isize::MAX);
    assert_eq!(
        builder.into_options(),
        vec![
            pair("threads", &isize::MIN.to_string()),
            pair("skip_proofs", "false"),
            pair("other", &isize::MAX.to_string()),
        ]
    );
}

#[test]
fn load_theories_sets_the_theories_only() {
    let args = ProcessArgs::load_theories(&texts(&["~~/src/HOL/Examples/Drinker", "B"]));
    assert_eq!(args.theories, texts(&["~~/src/HOL/Examples/Drinker", "B"]));
    assert!(args.session_dirs.is_empty());
    assert_eq!(args.logic, None);
    assert!(args.options.is_empty());
    assert_eq!(args.arguments(), texts(&["process", "-T", "~~/src/HOL/Examples/Drinker", "-T", "B"]));
    assert_eq!(ProcessArgs::load_theories(&[]).arguments(), texts(&["process"]));
}

#[test]
fn process_arguments_in_order() {
    let mut builder = OptionsBuilder::new();
    builder.threads(2).quick_and_dirty(true);
    let args = ProcessArgs {
        theories: texts(&["A", "B"]),
        session_dirs: texts(&["dir one", "d2"]),
        logic: Some("HOL".to_string()),
        options: builder.into_options(),
    };
    assert_eq!(
        args.arguments(),
        texts(&[
            "process", "-T", "A", "-T", "B", "-d", "dir one", "-d", "d2", "-o", "threads=2", "-o",
            "quick_and_dirty=true",
        ])
    );
}

#[test]
fn server_command_lines() {
    assert_eq!(server_arguments(None), texts(&["server", "-n", "isabelle"]));
    assert_eq!(server_arguments(Some("test")), texts(&["server", "-n", "test"]));
    assert_eq!(exit_arguments("test"), texts(&["server", "-n", "test", "-x"]));
}

#[test]
fn server_output_is_read() {
    let output = "server \"test\" = 127.0.0.1:38343 (password \"0ef9cb33-8a1b-4d4a-b2a1-ce2e3a2d9a0b\")\n";
    assert_eq!(
        parse_server_output(output),
        Some(ServerInfo {
            port: 38343,
            password: "0ef9cb33-8a1b-4d4a-b2a1-ce2e3a2d9a0b".to_string(),
        })
    );
    let escaped = "server \\\"isabelle\\\" = 127.0.0.1:4711 (password \\\"pw\\\")\r\n";
    assert_eq!(
        parse_server_output(escaped),
        Some(ServerInfo { port: 4711, password: "pw".to_string() })
    );
    assert_eq!(clean_output(escaped), "server \"isabelle\" = 127.0.0.1:4711 (password \"pw\")");
    assert_eq!(clean_output("  \\a\\ b \n"), "a b");
}

#[test]
fn server_output_that_says_nothing() {
    assert_eq!(parse_server_output(""), None);
    assert_eq!(parse_server_output("no server here"), None);
    assert_eq!(parse_server_output("server \"x\" = 127.0.0.1:port (password \"pw\")"), None);
    assert_eq!(parse_server_output("server \"x\" = 127.0.0.1:99999999999 (password \"pw\")"), None);
    assert_eq!(parse_server_output("server \"x\" = 127.0.0.1: (password \"pw\")"), None);
    assert_eq!(parse_server_output("server \"x\" = 127.0.0.1:1 (password pw)"), None);
}

#[test]
fn server_output_agrees_with_the_regular_expression() {
    let pattern = regex::Regex::new(banner_pattern()).unwrap();
    let samples = [
        "server \"test\" = 127.0.0.1:38343 (password \"abc\")",
        "a = b:1 (password \"\")",
        "x = y = z:1:22 (password \"a\" b \"c\")",
        " = :7 (password \"p\") trailing",
        "nothing",
        "a = b:1 (password \"x\")\nsecond = line:2 (password \"y\")",
    ];
    for sample in samples {
        let expected = pattern.captures(sample.trim()).and_then(|c| {
            let port = c.get(1).unwrap().as_str().parse::<u32>().ok()?;
            Some(ServerInfo { port, password: c.get(2).unwrap().as_str().to_owned() })
        });
        assert_eq!(parse_server_output(sample), expected, "{:?}", sample);
    }
    assert_eq!(
        parse_server_output("x = y = z:1:22 (password \"a\" b \"c\")"),
        Some(ServerInfo { port: 22, password: "a\" b \"c".to_string() })
    );
}

#[test]
fn server_info_from_groups() {
    assert_eq!(server_info_from(None), None);
    assert_eq!(
        server_info_from(Some(("+80".to_string(), "p".to_string()))),
        Some(ServerInfo { port: 80, password: "p".to_string() })
    );
    assert_eq!(server_info_from(Some(("80 ".to_string(), "p".to_string()))), None);
    assert_eq!(server_info_from(Some(("".to_string(), "p".to_string()))), None);
}
