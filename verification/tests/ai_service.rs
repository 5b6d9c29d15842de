use ridgeback::ai::AiRole;
use ridgeback::ai_config::{
    AiBackendType, AiBackends, AiConfig, AutocompleteConfig, ClaudeConfig, CommandQueryConfig,
    LmStudioConfig, LocalModelConfig, OpenAiConfig,
};
use ridgeback::ai_service::{parse_command_suggestions, shell_display_name, AiService};
use ridgeback::profile::ShellType;

fn config(enabled: bool, backend: AiBackendType) -> AiConfig {
    AiConfig {
        enabled,
        default_backend: backend,
        autocomplete: AutocompleteConfig::default(),
        command_query: CommandQueryConfig::default(),
        backends: AiBackends {
            lm_studio: LmStudioConfig::default(),
            openai: OpenAiConfig::default(),
            claude: ClaudeConfig {
                api_key: String::new(),
                model: "model".to_string(),
                max_tokens: 1024,
            },
            local: LocalModelConfig::default(),
        },
    }
}

fn strings(v: &[&str]) -> Vec<String> {
    v.iter().map(|s| s.to_string()).collect()
}

#[test]
fn suggestions_are_cleaned() {
    let answer = "1. ls -la\n2) cd ~\n- pwd\n```\n// comment\nNote: x\nExplanation: y\n`echo hi`\n\n";
    assert_eq!(
        parse_command_suggestions(Some(answer), 5),
        strings(&["ls -la", "cd ~", "pwd", "echo hi"])
    );
    assert_eq!(parse_command_suggestions(Some("10.   make all\r\n12\n``"), 3), strings(&["make all", "12", "``"]));
    assert_eq!(parse_command_suggestions(None, 3), Vec::<String>::new());
    assert_eq!(parse_command_suggestions(Some("   \n\n"), 3), Vec::<String>::new());
}

#[test]
fn extra_lines_are_chained() {
    let answer = "mkdir build\ncd build\ncmake ..";
    assert_eq!(
        parse_command_suggestions(Some(answer), 2),
        strings(&["mkdir build && cd build && cmake .."])
    );
    assert_eq!(
        parse_command_suggestions(Some(answer), 1),
        strings(&["mkdir build && cd build && cmake .."])
    );
    assert_eq!(parse_command_suggestions(Some(answer), 3).len(), 3);
}

#[test]
fn availability_follows_the_default_backend() {
    assert!(AiService::new(&config(true, AiBackendType::LmStudio)).is_available());
    assert!(!AiService::new(&config(false, AiBackendType::LmStudio)).is_available());
    assert!(!AiService::new(&config(true, AiBackendType::OpenAi)).is_available());
    assert!(!AiService::new(&config(true, AiBackendType::Claude)).is_available());
    assert!(!AiService::new(&config(true, AiBackendType::Local)).is_available());
    let mut c = config(true, AiBackendType::OpenAi);
    c.backends.openai.api_key = "key".to_string();
    assert!(AiService::new(&c).is_available());
}

#[test]
fn autocomplete_request() {
    let svc = AiService::new(&config(true, AiBackendType::LmStudio));
    let ctx = strings(&["$ ls", "a b"]);
    let plan = svc.suggest_completion("git st", &ctx, ShellType::Bash, "Linux", "/home").unwrap();
    assert_eq!(plan.messages.len(), 2);
    assert_eq!(plan.messages[0].role, AiRole::System);
    let expected = "You are a terminal command autocomplete engine. Given the user's partial input, suggest ONLY the remaining characters to complete the command. Do not repeat what the user has already typed. Return only the completion text, nothing else. No explanation, no quotes, no markdown.\nShell: Bash. OS: Linux. CWD: /home\nRecent terminal output:\n$ ls\na b\n";
    assert_eq!(plan.messages[0].content, expected);
    assert_eq!(plan.messages[1].role, AiRole::User);
    assert_eq!(plan.messages[1].content, "git st");
    assert_eq!(plan.max_tokens, 64);
    assert_eq!(plan.n, 1);
    assert_eq!(plan.stop, Some(strings(&["\n"])));

    let plain = svc.suggest_completion("x", &[], ShellType::Fish, "macOS", "~").unwrap();
    assert!(plain.messages[0].content.ends_with("Shell: Fish. OS: macOS. CWD: ~"));
    assert!(svc.suggest_completion("", &ctx, ShellType::Bash, "Linux", "/").is_none());

    let mut off = config(true, AiBackendType::LmStudio);
    off.autocomplete.enabled = false;
    assert!(AiService::new(&off).suggest_completion("ls", &[], ShellType::Bash, "Linux", "/").is_none());
}

#[test]
fn command_query_request() {
    let svc = AiService::new(&config(true, AiBackendType::LmStudio));
    let history = strings(&["ls", "  cd src  ", "x", "git status", "", "make"]);
    let plan = svc
        .query_command("build it", ShellType::Powershell, "Windows", "C:\\src", &history)
        .unwrap();
    let sys = &plan.messages[0].content;
    assert!(sys.starts_with("You translate natural language into PowerShell commands for Windows.\nRules:\n"));
    assert!(sys.contains("- Output exactly 3 alternative command(s), each on its own line\n"));
    assert!(sys.contains("User: list files \u{2192} ls -la\n"));
    assert!(sys.ends_with(
        "\n\nCurrent directory: C:\\src\nRecent terminal output:\nmake\ngit status\ncd src\n"
    ));
    assert_eq!(plan.messages[1].content, "build it");
    assert_eq!(plan.max_tokens, 64);
    assert_eq!(plan.n, 1);
    assert_eq!(plan.stop, Some(strings(&["\n\n", "User:", "```"])));

    let mut small = config(true, AiBackendType::LmStudio);
    small.command_query.max_tokens = 20;
    small.command_query.max_suggestions = 12;
    let svc2 = AiService::new(&small);
    let p2 = svc2.query_command("q", ShellType::Cmd, "Windows", "C:\\", &[]).unwrap();
    assert_eq!(p2.max_tokens, 20);
    assert!(p2.messages[0].content.contains("Output exactly 12 alternative"));
    assert!(p2.messages[0].content.ends_with("Current directory: C:\\"));
    assert!(svc2.query_command("", ShellType::Cmd, "Windows", "C:\\", &[]).is_none());
}

#[test]
fn suggestions_use_the_first_choice() {
    let svc = AiService::new(&config(true, AiBackendType::LmStudio));
    let choices = strings(&["1. ls\n2. pwd", "ignored"]);
    assert_eq!(svc.command_suggestions(&choices), strings(&["ls", "pwd"]));
    assert_eq!(svc.command_suggestions(&[]), Vec::<String>::new());
}

#[test]
fn shell_names() {
    assert_eq!(shell_display_name(ShellType::Cmd), "Command Prompt (cmd.exe)");
    assert_eq!(shell_display_name(ShellType::Wsl), "WSL/Bash");
    assert_eq!(shell_display_name(ShellType::Custom), "Terminal");
}
