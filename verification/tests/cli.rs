use fp::arguments::{zsh_completions_fixup, KeyValueArgument, KeyValueError};
use fp::config::{profile_name, profile_path, Config, ConfigError, ProfileNameError};
use fp::create::{Create, CreatePayload, NewNotebook};
use fp::interactive::{bool_default_item, bool_opt, needs_prompt, text_opt, text_req, InteractiveError};
use fp::labels::{format_notebook_labels, print_labels};
use fp::manifest::Manifest;
use fp::models::{Notebook, PointType, Proxy};
use fp::output::GenericKeyValue;
use fp::rows::{
    crop_description, DataSourceAndProxySummaryRow, DataSourceRow, DataSourceStatus,
    NotebookSummaryRow, PagerDutyReceiverRow, ProxySummaryRow, SnippetRow, TemplateRow,
};
use fp::runtime::{CodeSource, LoadError, MediaType, ModuleType, TsModuleLoader};
use fp::shell::{RawGuard, ShellLauncher, ShellSession, ShellSetup, ShellType, ShellTypeError};
use fp::stress_test::{authenticate_message, ExecuteArguments, ReplyWaiters, SessionError};
use fp::timestamps::Timestamp;
use fp::version::{check_version, OutputType, VersionCheck};
use time::OffsetDateTime;

fn s(x: &str) -> String {
    x.to_string()
}

const EPOCH: Timestamp = Timestamp { unix_nanos: 0, offset_seconds: 0 };

#[test]
fn profile_path_appends_toml_once() {
    assert_eq!(profile_path("work"), "work.toml");
    assert_eq!(profile_path("work.toml"), "work.toml");
    assert_eq!(profile_path(""), ".toml");
}

#[test]
fn profile_names_are_lowercased_and_checked() {
    assert_eq!(profile_name("Work"), Ok(s("work")));
    assert_eq!(profile_name("my profile"), Err(ProfileNameError::SpaceOrDot));
    assert_eq!(profile_name("a.b"), Err(ProfileNameError::SpaceOrDot));
}

#[test]
fn config_defaults_and_token() {
    let config = Config::default();
    assert!(config.api_token.is_none());
    assert!(config.endpoint.is_none());
    assert_eq!(config.endpoint_or_default(), "https://studio.fiberplane.com");
    assert_eq!(config.resolve_token(None), Err(ConfigError::NotLoggedIn));
    assert_eq!(config.resolve_token(Some(s("t"))), Ok(s("t")));
    let stored = Config { api_token: Some(s("stored")), endpoint: Some(s("http://localhost")) };
    assert_eq!(stored.resolve_token(None), Ok(s("stored")));
    assert_eq!(stored.resolve_token(Some(s("arg"))), Ok(s("arg")));
    assert_eq!(stored.endpoint_or_default(), "http://localhost");
    assert_eq!(
        ConfigError::NotLoggedIn.message(),
        "Must be logged in to run this command. Please run `fp login` first."
    );
}

#[test]
fn text_values_come_from_argument_answer_or_default() {
    assert_eq!(text_opt(Some(s("arg")), Some(s("d")), Some(s("x"))), Some(s("arg")));
    assert_eq!(text_opt(None, Some(s("d")), Some(s(""))), Some(s("d")));
    assert_eq!(text_opt(None, None, Some(s("typed"))), Some(s("typed")));
    assert_eq!(text_opt(None, Some(s("d")), None), Some(s("d")));
    assert_eq!(text_opt(None, None, Some(s(""))), None);
    assert_eq!(text_req(None, None, Some(s(""))), Err(InteractiveError::NoValueProvided));
    assert_eq!(text_req(None, Some(s("d")), None), Ok(s("d")));
    assert_eq!(InteractiveError::NoValueProvided.message(), "No value provided");
    assert!(needs_prompt::<String>(&None));
    assert!(!needs_prompt(&Some(s("x"))));
}

#[test]
fn yes_no_values() {
    assert_eq!(bool_opt(Some(false), Some(true), Some(0)), Some(false));
    assert_eq!(bool_opt(None, Some(false), Some(0)), Some(true));
    assert_eq!(bool_opt(None, Some(true), Some(1)), Some(false));
    assert_eq!(bool_opt(None, Some(true), Some(5)), Some(true));
    assert_eq!(bool_opt(None, None, None), None);
    assert_eq!(bool_default_item(Some(true)), Some(0));
    assert_eq!(bool_default_item(Some(false)), Some(1));
    assert_eq!(bool_default_item(None), None);
}

#[test]
fn key_value_arguments() {
    let kv = KeyValueArgument::parse("key=value=x").ok().unwrap();
    assert_eq!((kv.key.as_str(), kv.value.as_str()), ("key", "value=x"));
    let kv = KeyValueArgument::parse("key").ok().unwrap();
    assert_eq!((kv.key.as_str(), kv.value.as_str()), ("key", ""));
    let kv = KeyValueArgument::parse("=v").ok().unwrap();
    assert_eq!((kv.key.as_str(), kv.value.as_str()), ("", "v"));
    assert!(matches!(KeyValueArgument::parse(""), Err(KeyValueError::EmptyInput)));
    let kv: KeyValueArgument = "env=prod".parse().ok().unwrap();
    assert_eq!((kv.key.as_str(), kv.value.as_str()), ("env", "prod"));
    assert_eq!(KeyValueError::EmptyInput.message(), "empty input");
}

#[test]
fn zsh_completions_get_a_compdef_header() {
    let script = "#compdef fp\nline a\nline b\ncompdef _fp fp\n";
    assert_eq!(zsh_completions_fixup(script), "#compdef _fp fp\nline a\nline b\n");
    assert_eq!(zsh_completions_fixup("only\n"), "#compdef _fp fp\n");
    assert_eq!(zsh_completions_fixup(""), "#compdef _fp fp\n");
    assert_eq!(
        zsh_completions_fixup(script).lines().next().unwrap(),
        "#compdef _fp fp"
    );
}

#[test]
fn crop_description_keeps_the_first_line() {
    assert_eq!(crop_description("", 24), "");
    assert_eq!(crop_description("short", 24), "short");
    assert_eq!(crop_description("first line\nsecond", 24), "first line");
    assert_eq!(crop_description("\nsecond", 24), "");
    assert_eq!(crop_description("abcdefghijklmnopqrstuvwxyz", 24), "abcdefghijklmnopqrstu...");
    assert_eq!(crop_description("abcdefghijklmnopqrstuvwx", 24), "abcdefghijklmnopqrstuvwx");
    assert_eq!(crop_description("ééééé", 4), "é...");
}

#[test]
fn table_rows() {
    let epoch_rfc3339 = "1970-01-01T00:00:00Z";
    let epoch_display = OffsetDateTime::UNIX_EPOCH.to_string();

    let row = DataSourceRow::new(s("prom"), None, s("prometheus"), EPOCH, EPOCH);
    assert_eq!(row.proxy_name, "");
    assert_eq!(row.updated_at, epoch_rfc3339);
    assert_eq!(row.created_at, epoch_rfc3339);
    let row = DataSourceRow::new(s("prom"), Some(s("fpd")), s("prometheus"), EPOCH, EPOCH);
    assert_eq!(row.proxy_name, "fpd");

    let row = PagerDutyReceiverRow::new(s("pd"), None, EPOCH, EPOCH);
    assert_eq!(row.incident_created_template, "<none>");
    let row = PagerDutyReceiverRow::new(s("pd"), Some(s("tpl")), EPOCH, EPOCH);
    assert_eq!(row.incident_created_template, "tpl");
    assert_eq!(row.updated_at, epoch_rfc3339);

    let row = NotebookSummaryRow::new(s("id"), s("title"), s("private"), EPOCH, EPOCH);
    assert_eq!(row.updated_at, epoch_display);
    assert_eq!(row.created_at, epoch_display);

    let row = SnippetRow::new(s("snip"), s("a\nb"), EPOCH, EPOCH);
    assert_eq!(row.description, "a\nb");
    assert_eq!(row.updated_at, epoch_display);

    let row = TemplateRow::new(s("tpl"), "abcdefghijklmnopqrstuvwxyz\nmore", s("u"), s("c"));
    assert_eq!(row.description, "abcdefghijklmnopqrstu...");

    let row = ProxySummaryRow::new(s("fpd"), s("id"), s("connected"), 2, 5);
    assert_eq!(row.data_sources_connected, "2 / 5");

    let row = DataSourceAndProxySummaryRow::new(
        s("prom"),
        Some(s("fpd")),
        s("prometheus"),
        Some(DataSourceStatus::Connected),
    );
    assert_eq!(row.status, "Connected");
    let row = DataSourceAndProxySummaryRow::new(
        s("prom"),
        None,
        s("prometheus"),
        Some(DataSourceStatus::Error(s("boom"))),
    );
    assert_eq!(row.status, "Error");
    assert_eq!(row.proxy_name, "");
    let row = DataSourceAndProxySummaryRow::new(s("prom"), None, s("prometheus"), None);
    assert_eq!(row.status, "");
}

#[test]
fn manifest_rows_in_order() {
    let m = Manifest {
        build_timestamp: s("ts"),
        build_version: s("1.0.0"),
        commit_date: s("cd"),
        commit_sha: s("sha"),
        commit_branch: s("main"),
        rustc_version: s("1.80"),
        rustc_channel: s("stable"),
        rustc_host_triple: s("host"),
        rustc_commit_sha: s("rsha"),
        cargo_target_triple: s("target"),
        cargo_profile: s("3"),
    };
    let rows = GenericKeyValue::from_manifest(m);
    let pairs: Vec<(String, String)> = rows.into_iter().map(|r| (r.key, r.value)).collect();
    assert_eq!(pairs.len(), 11);
    assert_eq!(pairs[0], (s("Build Timestamp:"), s("ts")));
    assert_eq!(pairs[1], (s("Build Version:"), s("1.0.0")));
    assert_eq!(pairs[10], (s("cargo Opt Level:"), s("3")));
}

#[test]
fn shell_type_from_executable() {
    assert_eq!(ShellType::from_exe_path("/bin/bash").ok(), Some(ShellType::Bash));
    assert_eq!(ShellType::from_exe_path("/usr/bin/ZSH").ok(), Some(ShellType::Zsh));
    assert_eq!(ShellType::from_exe_path("/bin/sh").ok(), Some(ShellType::Sh));
    assert_eq!(ShellType::from_exe_path("/opt/pwsh.exe").ok(), Some(ShellType::PowerShell));
    assert_eq!(ShellType::from_exe_path("powershell").ok(), Some(ShellType::PowerShell));
    assert_eq!(ShellType::from_exe_path("cmd.exe").ok(), Some(ShellType::Cmd));
    match ShellType::from_exe_path("/usr/bin/Fish") {
        Err(ShellTypeError::Unsupported(name)) => assert_eq!(name, "fish"),
        other => panic!("unexpected {:?}", other),
    }
    assert!(matches!(ShellType::from_exe_path("/"), Err(ShellTypeError::NoShellParent)));
}

#[test]
fn shell_launcher_commands() {
    let bash = ShellLauncher::new(s("nb1"), ShellType::Bash, s("/bin/bash"));
    assert_eq!(bash.program(), "/bin/bash");
    assert!(bash.command_args().is_empty());
    assert_eq!(
        bash.command_env(),
        vec![(s("NOTEBOOK_ID"), s("nb1")), (s("__FP_SHELL_SESSION"), s("1"))]
    );
    match bash.initialize_shell() {
        ShellSetup::WriteToShell(t) => assert_eq!(
            t,
            "export PS1=\"$(printf '\\xe2\\x80\\x8b\\xe2\\x80\\x8b\\xe2\\x80\\x8b')${PS1}$(printf '\\xe2\\x80\\x8c\\xe2\\x80\\x8c')\";history -d $(history 1)\n"
        ),
        ShellSetup::ClearScreen => panic!("bash writes its set-up"),
    }

    let cmd = ShellLauncher::new(s("nb1"), ShellType::Cmd, s("cmd.exe"));
    match cmd.initialize_shell() {
        ShellSetup::WriteToShell(t) => assert_eq!(
            t,
            "SET __BP__=\u{200b}\r\nSET __EP__=\u{200c}\r\nprompt %__BP__%%__BP__%%__BP__%$p$g%__EP__%%__EP__%\r\n"
        ),
        ShellSetup::ClearScreen => panic!("cmd writes its set-up"),
    }

    let pwsh = ShellLauncher::new(s("nb1"), ShellType::PowerShell, s("pwsh"));
    assert!(matches!(pwsh.initialize_shell(), ShellSetup::ClearScreen));
    let args = pwsh.command_args();
    assert_eq!(args.len(), 3);
    assert_eq!(args[0], "-NoExit");
    assert_eq!(args[1], "-Command");
    let expected = format!(
        "$function:prompt = & {{
                    $__last_prompt = $function:prompt;
                    $BP = [char]::ConvertFromUtf32({:#x});
                    $EP = [char]::ConvertFromUtf32({:#x});
                    {{
                        Write-Host \"{}\" -NoNewline
                        return \"$(&$script:__last_prompt){}\"
                    }}.GetNewClosure()
                }}",
        '\u{200b}' as u32,
        '\u{200c}' as u32,
        "$BP".repeat(3),
        "$EP".repeat(2)
    );
    assert_eq!(args[2], expected);
}

#[test]
fn raw_guard_restores_what_it_changed() {
    let fresh = RawGuard::new(false);
    assert!(fresh.enables_raw_mode());
    assert!(fresh.disables_on_drop());
    let already = RawGuard::new(true);
    assert!(!already.enables_raw_mode());
    assert!(!already.disables_on_drop());
}

#[test]
fn module_loader_decisions() {
    let loader = TsModuleLoader;
    assert_eq!(loader.code_source("https").ok(), Some(CodeSource::Remote));
    assert_eq!(loader.code_source("http").ok(), Some(CodeSource::Remote));
    assert_eq!(loader.code_source("file").ok(), Some(CodeSource::File));
    match loader.code_source("ftp") {
        Err(LoadError::UnsupportedSchema(s)) => assert_eq!(s, "ftp"),
        other => panic!("unexpected {:?}", other),
    }
    assert_eq!(loader.module_kind(MediaType::Tsx), Some((ModuleType::JavaScript, true)));
    assert_eq!(loader.module_kind(MediaType::Mjs), Some((ModuleType::JavaScript, false)));
    assert_eq!(loader.module_kind(MediaType::Jsx), Some((ModuleType::JavaScript, true)));
    assert_eq!(loader.module_kind(MediaType::Json), Some((ModuleType::Json, false)));
    assert_eq!(loader.module_kind(MediaType::Wasm), None);
}

#[test]
fn labels_are_joined() {
    let labels = vec![(s("a"), Some(s("1"))), (s("b"), None), (s("c"), Some(s("")))];
    assert_eq!(print_labels(&labels), "a=1, b, c=");
    assert_eq!(print_labels(&vec![]), "");
}

#[test]
fn version_check() {
    assert_eq!(check_version("1.2.3", "1.2.3"), VersionCheck::Latest);
    assert_eq!(check_version("1.2.4", "1.2.3"), VersionCheck::NewerAvailable);
    assert_ne!(OutputType::Json, OutputType::Version);
}

#[test]
fn records() {
    let payload = CreatePayload::new(Create::Notebook(NewNotebook::new(s("title"))));
    match payload.get_create() {
        Create::Notebook(n) => assert_eq!(n.get_title(), "title"),
    }
    let nb: Notebook<u8, (i64, i64), ()> =
        Notebook::new(s("id"), 3, s("t"), vec![1, 2], s("c"), (0, 1), s("u"));
    assert!(nb.data_sources.is_none());
    assert_eq!(*nb.time_range, (0, 1));
    assert_eq!(nb.cells, vec![1, 2]);
    let proxy: Proxy<bool, u8> = Proxy::new(s("id"), true, s("fpd"), vec![]);
    assert!(proxy.token.is_none());
    assert_eq!(PointType::F64.to_string(), "f64");
    assert_eq!(PointType::String.to_string(), "string");
    let args = ExecuteArguments::new(s("http://x"), None, s("nb"));
    assert_eq!(args.notebook_id, "nb");
}

#[test]
fn notebook_labels_one_per_line() {
    assert_eq!(format_notebook_labels(&vec![]), "(none)");
    let labels = vec![(s("env"), s("prod")), (s("flag"), s(""))];
    assert_eq!(format_notebook_labels(&labels), "env=prod\nflag");
}

#[test]
fn shell_session_starts_at_the_first_prompt() {
    let mut session = ShellSession::new();
    assert!(!session.accepts(false));
    assert!(session.accepts(true));
    assert!(session.accepts(false));
}

#[test]
fn generating_completions() {
    let mut app = clap::Command::new("fp")
        .subcommand(clap::Command::new("version"))
        .subcommand(clap::Command::new("login"));
    let mut bash = Vec::new();
    clap_complete::generate(clap_complete::Shell::Bash, &mut app, "fp", &mut bash);
    assert!(!bash.is_empty());
    let mut output = Vec::new();
    clap_complete::generate(clap_complete::Shell::Zsh, &mut app, "fp", &mut output);
    let zsh_completions = zsh_completions_fixup(&String::from_utf8(output).unwrap());
    assert_eq!(zsh_completions.lines().next().unwrap(), "#compdef _fp fp");
}

#[test]
fn shells_told_by_their_file_stem() {
    assert_eq!(ShellType::from_file_stem(Some(s("PwSh"))).ok(), Some(ShellType::PowerShell));
    assert!(matches!(ShellType::from_file_stem(None), Err(ShellTypeError::NoShellParent)));
    match ShellType::from_file_stem(Some(s("Fish"))) {
        Err(ShellTypeError::Unsupported(name)) => assert_eq!(name, "fish"),
        _ => panic!("expected an unsupported shell"),
    }
    let l = ShellLauncher::from_exe_path(s("nb"), s("/usr/bin/zsh")).ok().unwrap();
    assert_eq!(l.program(), "/usr/bin/zsh");
    assert!(l.command_args().is_empty());
    assert!(ShellLauncher::from_exe_path(s("nb"), s("/usr/bin/fish")).is_err());
    let l = ShellLauncher::from_exe_path(s("nb"), s("/opt/pwsh")).ok().unwrap();
    assert_eq!(l.command_args()[0], "-NoExit");
}

#[test]
fn realtime_sessions_authenticate_first() {
    let m = authenticate_message(Some(s("tok"))).ok().unwrap();
    assert_eq!(m.op_id, "auth");
    assert_eq!(m.token, "tok");
    assert!(matches!(authenticate_message(None), Err(SessionError::MissingBearerToken)));
}

#[test]
fn replies_reach_their_waiter_once() {
    let mut w: ReplyWaiters<u32> = ReplyWaiters::new();
    w.register(s("op1"), 1);
    w.register(s("op2"), 2);
    w.register(s("op1"), 3);
    assert_eq!(w.take("op1"), Some(3));
    assert_eq!(w.take("op1"), None);
    assert_eq!(w.take("unknown"), None);
    assert_eq!(w.take("op2"), Some(2));
}
