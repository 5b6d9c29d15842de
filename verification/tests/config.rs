use ridgeback::profile_naming::duplicate_profile_naming;
use ridgeback::ai::{
    best_device_id, detect_devices, AiMessage, AiRole, ClaudeBackend, LmStudioBackend,
    LocalModelBackend, OpenAiBackend,
};
use ridgeback::ai_config::{ClaudeConfig, LmStudioConfig, LocalModelConfig, OpenAiConfig};
use ridgeback::keybindings::{KeyBindings, ShortcutAction};
use ridgeback::profile::ColorScheme;
use ridgeback::rendering::RenderingConfig;

#[test]
fn default_key_bindings() {
    let k = KeyBindings::default();
    assert_eq!(k.new_tab, "Ctrl+T");
    assert_eq!(k.prev_tab, "Ctrl+Shift+Tab");
    assert_eq!(k.ai_command_query, "Ctrl+/");
    assert_eq!(k.move_tab_to_prev_group, "Ctrl+Alt+Shift+Left");
}

#[test]
fn shortcut_actions_and_names() {
    let all = ShortcutAction::all();
    assert_eq!(all.len(), 16);
    assert_eq!(all[0], ShortcutAction::NewTab);
    assert_eq!(all[15], ShortcutAction::MoveTabPrevGroup);
    assert_eq!(ShortcutAction::NewTab.display_name(), "New Terminal");
    assert_eq!(ShortcutAction::FocusPrevGroup.display_name(), "Focus Previous Group");
    for (i, a) in all.iter().enumerate() {
        for b in &all[i + 1..] {
            assert_ne!(a, b);
        }
    }
}

#[test]
fn parse_hex_colors() {
    assert_eq!(ColorScheme::parse_hex("#1E1E2E"), Some((0x1e, 0x1e, 0x2e)));
    assert_eq!(ColorScheme::parse_hex("#ffffff"), Some((255, 255, 255)));
    assert_eq!(ColorScheme::parse_hex("1E1E2E"), None);
    assert_eq!(ColorScheme::parse_hex("#1E1E2"), None);
    assert_eq!(ColorScheme::parse_hex("#1E1E2G"), None);
    assert_eq!(ColorScheme::parse_hex("#+f+f+f"), Some((15, 15, 15)));
    assert_eq!(ColorScheme::parse_hex("#-f0000"), None);
    assert_eq!(ColorScheme::parse_hex("#aé123"), None);
    assert_eq!(ColorScheme::parse_hex("#ff4400"), Some((255, 68, 0)));
}

#[test]
fn color_schemes() {
    let m = ColorScheme::catppuccin_mocha();
    assert_eq!(m.background, "#1E1E2E");
    assert_eq!(m.ansi_color(1), "#F38BA8");
    assert_eq!(m.ansi_color(15), "#A6ADC8");
    assert_eq!(m.ansi_color(16), m.foreground.as_str());
    let d = ColorScheme::default_dark();
    assert_eq!(d.ansi_color(4), "#0037DA");
    assert_eq!(ColorScheme::default(), m);
}

#[test]
fn rendering_fps_is_clamped() {
    let mut r = RenderingConfig::default();
    assert_eq!(r.max_shader_fps, 144);
    assert!(r.update_in_background && r.battery_aware);
    assert_eq!(r.effective_shader_fps(), 144);
    r.max_shader_fps = 0;
    assert_eq!(r.effective_shader_fps(), 1);
    r.max_shader_fps = 1000;
    assert_eq!(r.effective_shader_fps(), 240);
}

#[test]
fn ai_config_defaults() {
    let lm = LmStudioConfig::default();
    assert_eq!(lm.base_url, "http://localhost:1234/v1");
    assert_eq!(lm.api_key, "lm-studio");
    assert_eq!(lm.timeout_secs, 30);
    assert_eq!(OpenAiConfig::default().model, "gpt-4o-mini");
    let local = LocalModelConfig::default();
    assert_eq!(local.quantization, "Q4_K");
    assert_eq!(local.device, "auto");
    assert_eq!(local.context_length, 2048);
}

#[test]
fn backends_from_config() {
    let lm = LmStudioBackend::from_config(&LmStudioConfig::default());
    assert_eq!(lm.name(), "LM Studio");
    assert!(lm.is_available());
    let oa = OpenAiBackend::from_config(&OpenAiConfig::default());
    assert_eq!(oa.name(), "OpenAI");
    assert!(!oa.is_available());
    let keyed = OpenAiBackend::new("k".to_string(), "m".to_string(), 5);
    assert!(keyed.is_available());
    let config = ClaudeConfig { api_key: String::new(), model: "m".to_string(), max_tokens: 1024 };
    let cl = ClaudeBackend::from_config(&config);
    assert!(!cl.is_available());
    assert_eq!(cl.model, "m");
    assert_eq!(cl.request_max_tokens(0), 1024);
    assert_eq!(cl.request_max_tokens(7), 7);
    let local = LocalModelBackend::from_config(&LocalModelConfig::default());
    assert_eq!(local.base_url, "http://localhost:11434/v1");
    assert!(!local.is_available());
    assert_eq!(local.name(), "Local Model");
}

#[test]
fn messages_api_splits_out_the_system_prompt() {
    let msgs = vec![
        AiMessage { role: AiRole::User, content: "hi".to_string() },
        AiMessage { role: AiRole::System, content: "be brief".to_string() },
        AiMessage { role: AiRole::Assistant, content: "ok".to_string() },
        AiMessage { role: AiRole::System, content: "ignored".to_string() },
    ];
    let (system, rest) = ClaudeBackend::api_messages(&msgs);
    assert_eq!(system.as_deref(), Some("be brief"));
    assert_eq!(rest, vec![("user", "hi".to_string()), ("assistant", "ok".to_string())]);
}

#[test]
fn devices_by_build() {
    let plain = detect_devices(false, false);
    assert_eq!(plain.len(), 1);
    assert_eq!(plain[0].id, "cpu");
    assert!(plain[0].recommended);
    let mac = detect_devices(true, false);
    assert_eq!(mac.len(), 2);
    assert!(!mac[0].recommended && mac[1].recommended);
    assert_eq!(mac[1].label, "Metal GPU");
    assert_eq!(best_device_id(false, false), "cpu");
    assert_eq!(best_device_id(true, true), "metal");
    assert_eq!(best_device_id(false, true), "cuda");
}


#[test]
fn duplicated_profile_names() {
    let names = vec!["Bash".to_string(), "Bash (1)".to_string(), "Zsh".to_string()];
    let keys = vec!["bash".to_string(), "bash_1".to_string(), "bash_2".to_string()];
    let (name, key) = duplicate_profile_naming("Bash", "bash", &names, &keys);
    assert_eq!(name, "Bash (2)");
    assert_eq!(key, "bash_3");
    let (name, key) = duplicate_profile_naming("Zsh", "zsh", &names, &keys);
    assert_eq!(name, "Zsh (1)");
    assert_eq!(key, "zsh_1");
}
