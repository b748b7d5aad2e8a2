use loader::activation::{admitted_plugins, connect_target, plan_activation};
use loader::config::Config;
use loader::discovery::{extension, get_plugin_names, is_dynamic_library};
use loader::steamvr::{Manifest, SteamVRConfig};
use loader::version::is_newer_release;

fn names(v: &[&str]) -> Vec<String> {
    v.iter().map(|s| s.to_string()).collect()
}

fn config_with(enabled: &[&str], bind_addr: &str) -> Config {
    Config {
        enabled: names(enabled),
        bind_addr: bind_addr.to_string(),
        send_addr: "127.0.0.1:9000".to_string(),
    }
}

#[test]
fn discovery_keeps_only_dynamic_libraries() {
    let entries = names(&["a.so", "b.txt", "c.dylib", "d"]);
    assert_eq!(get_plugin_names(&entries), names(&["a.so", "c.dylib"]));
}

#[test]
fn discovery_follows_entry_order() {
    let entries = names(&["z.dll", "bin", "a.so", "m.dylib"]);
    assert_eq!(get_plugin_names(&entries), names(&["z.dll", "a.so", "m.dylib"]));
}

#[test]
fn discovery_twice_gives_the_same_names() {
    let entries = names(&["a.so", "b.txt", "c.dylib", "d"]);
    let first = get_plugin_names(&entries);
    let second = get_plugin_names(&entries);
    assert_eq!(first, second);
    assert_eq!(get_plugin_names(&first), first);
}

#[test]
fn discovery_of_empty_directory_is_empty() {
    assert!(get_plugin_names(&Vec::new()).is_empty());
}

#[test]
fn extension_follows_the_last_dot() {
    assert_eq!(extension("a.so"), Some("so"));
    assert_eq!(extension("lib.tar.dylib"), Some("dylib"));
    assert_eq!(extension("a."), Some(""));
    assert_eq!(extension("..so"), Some("so"));
    assert_eq!(extension(".so"), None);
    assert_eq!(extension("d"), None);
    assert_eq!(extension(""), None);
}

#[test]
fn library_names_match_exactly() {
    assert!(is_dynamic_library("plugin.dll"));
    assert!(is_dynamic_library("plugin.dylib"));
    assert!(is_dynamic_library("plugin.so"));
    assert!(!is_dynamic_library("plugin.SO"));
    assert!(!is_dynamic_library("plugin.so.1"));
    assert!(!is_dynamic_library(".so"));
    assert!(!is_dynamic_library("plugin.sox"));
    assert!(!is_dynamic_library("so"));
}

#[test]
fn gate_admits_only_listed_names() {
    let config = config_with(&["a.so"], "0.0.0.0:9001");
    let discovered = names(&["a.so", "c.dylib"]);
    assert_eq!(admitted_plugins(&discovered, &config), names(&["a.so"]));
}

#[test]
fn gate_keeps_candidate_order() {
    let config = config_with(&["b.so", "a.so"], "0.0.0.0:9001");
    let discovered = names(&["a.so", "c.so", "b.so"]);
    assert_eq!(admitted_plugins(&discovered, &config), names(&["a.so", "b.so"]));
}

#[test]
fn gate_matches_names_exactly() {
    let config = config_with(&["A.so", "a"], "0.0.0.0:9001");
    let discovered = names(&["a.so"]);
    assert!(admitted_plugins(&discovered, &config).is_empty());
}

#[test]
fn enabled_lookup() {
    let config = config_with(&["x.so", "y.dll"], "0.0.0.0:9001");
    assert!(config.is_enabled(&"y.dll".to_string()));
    assert!(!config.is_enabled(&"z.dll".to_string()));
    assert!(!Config::default().is_enabled(&"x.so".to_string()));
}

#[test]
fn wildcard_bind_address_connects_to_loopback() {
    assert_eq!(connect_target("0.0.0.0:9001"), "127.0.0.1:9001");
}

#[test]
fn concrete_bind_address_is_kept() {
    assert_eq!(connect_target("127.0.0.1:9001"), "127.0.0.1:9001");
    assert_eq!(connect_target("192.168.0.10:9001"), "192.168.0.10:9001");
    assert_eq!(connect_target(""), "");
}

#[test]
fn only_a_wildcard_host_is_rewritten() {
    assert_eq!(connect_target("10.0.0.0:9001"), "10.0.0.0:9001");
    assert_eq!(connect_target("0.0.0.00:9001"), "0.0.0.00:9001");
    assert_eq!(connect_target("10.0.0.0.0:1"), "10.0.0.0.0:1");
    assert_eq!(connect_target("0.0.0.0"), "0.0.0.0");
    assert_eq!(connect_target("0.0.0.0:0"), "127.0.0.1:0");
}

#[test]
fn discovery_in_every_entry_order() {
    let files = ["a.so", "b.txt", "c.dylib", "d"];
    let mut orders = 0;
    for a in 0..4 {
        for b in 0..4 {
            for c in 0..4 {
                for d in 0..4 {
                    let idx = [a, b, c, d];
                    let mut seen = [false; 4];
                    idx.iter().for_each(|&i| seen[i] = true);
                    if !seen.iter().all(|&s| s) {
                        continue;
                    }
                    orders += 1;
                    let entries: Vec<String> = idx.iter().map(|&i| files[i].to_string()).collect();
                    let expected: Vec<String> =
                        entries.iter().filter(|n| *n == "a.so" || *n == "c.dylib").cloned().collect();
                    let found = get_plugin_names(&entries);
                    assert_eq!(found, expected);
                    assert_eq!(found.len(), 2);
                }
            }
        }
    }
    assert_eq!(orders, 24);
}

#[test]
fn other_files_do_not_change_discovery() {
    let with_others = names(&["b.txt", "a.so", "d", "c.dylib", "e.so.bak", ".so"]);
    let without = names(&["a.so", "c.dylib"]);
    assert_eq!(get_plugin_names(&with_others), get_plugin_names(&without));
}

#[test]
fn end_to_end_in_either_entry_order() {
    let config = config_with(&["plugin_ok.so"], "127.0.0.1:9001");
    let discovered = get_plugin_names(&names(&["plugin_bad.so", "plugin_ok.so"]));
    let plan = plan_activation(&discovered, &config);
    assert_eq!(plan.plugins, names(&["plugin_ok.so"]));
    assert_eq!(plan.connect_addr, "127.0.0.1:9001");
}

#[test]
fn two_plugins_share_one_connect_target() {
    let config = config_with(&["a.so", "b.so"], "0.0.0.0:9001");
    let plan = plan_activation(&names(&["a.so", "b.so"]), &config);
    assert_eq!(plan.plugins, names(&["a.so", "b.so"]));
    assert_eq!(plan.connect_addr, "127.0.0.1:9001");
}

#[test]
fn end_to_end_plans_only_the_enabled_plugin() {
    let config = config_with(&["plugin_ok.so"], "127.0.0.1:9001");
    let discovered = get_plugin_names(&names(&["plugin_ok.so", "plugin_bad.so"]));
    let plan = plan_activation(&discovered, &config);
    assert_eq!(plan.plugins, names(&["plugin_ok.so"]));
    assert_eq!(plan.connect_addr, "127.0.0.1:9001");
}

#[test]
fn default_config_values() {
    let config = Config::default();
    assert!(config.enabled.is_empty());
    assert_eq!(config.bind_addr, "0.0.0.0:9001");
    assert_eq!(config.send_addr, "127.0.0.1:9000");
}

#[test]
fn newer_release_compares_last_segment() {
    assert!(is_newer_release("/owner/repo/releases/tag/0.2.0", "0.1.0"));
    assert!(!is_newer_release("/owner/repo/releases/tag/0.1.0", "0.1.0"));
    assert!(!is_newer_release("/owner/repo/releases/tag/0.0.9", "0.1.0"));
    assert!(is_newer_release("/owner/repo/releases/tag/0.1.0.1", "0.1.0"));
    assert!(!is_newer_release("/owner/repo/releases/tag/0.10.0", "0.9.0"));
    assert!(is_newer_release("0.2.0", "0.1.0"));
    assert!(!is_newer_release("/owner/repo/", "0.1.0"));
}

#[test]
fn steamvr_config_registers_by_default() {
    assert!(SteamVRConfig::default().register);
}

#[test]
fn builtin_manifest() {
    let manifest = Manifest::default();
    assert_eq!(manifest.source, "builtin");
    assert_eq!(manifest.applications.len(), 1);
    let app = &manifest.applications[0];
    assert_eq!(app.app_key, "com.shaybox.vrc-osc");
    assert_eq!(app.launch_type, "binary");
    assert_eq!(app.binary_path_windows, "vrc-osc.exe");
    assert!(app.is_dashboard_overlay);
    assert_eq!(app.strings.len(), 1);
    assert_eq!(app.strings[0].0, "en_us");
    assert_eq!(app.strings[0].1.name, "VRC-OSC");
    assert_eq!(app.strings[0].1.description, "VRChat OSC Overlay");
}
