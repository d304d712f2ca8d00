use rgbw_dashboard::table::StringMap;
use rgbw_dashboard::utils::pio_parser::{
    collect_environments, environment, parse_multiline_list, parse_platformio_ini,
    parse_sections, reference_value, resolve_extends, resolve_interpolation, store_replaced,
    IniSections,
};

fn props(items: &[(&str, &str)]) -> StringMap<String> {
    let mut m = StringMap::new();
    for (k, v) in items {
        m.insert(k.to_string(), v.to_string());
    }
    m
}

fn envs(items: &[(&str, &[(&str, &str)])]) -> StringMap<StringMap<String>> {
    let mut m = StringMap::new();
    for (name, p) in items {
        m.insert(name.to_string(), props(p));
    }
    m
}

fn section(name: &str, keys: &[(&str, Option<&str>)]) -> (String, Vec<(String, Option<String>)>) {
    (
        name.to_string(),
        keys.iter().map(|(k, v)| (k.to_string(), v.map(str::to_string))).collect(),
    )
}

fn listed(m: &StringMap<String>) -> Vec<(String, String)> {
    (0..m.len()).map(|i| (m.key_at(i).clone(), m.value_at(i).clone())).collect()
}

#[test]
fn test_parse_basic_env() {
    let config = parse_platformio_ini(
        "platformio.ini",
        r#"
[env:esp32]
platform = espressif32
board = esp32dev
framework = arduino
"#,
    )
    .unwrap();
    assert_eq!(config.environments.len(), 1);

    let env = &config.environments[0];
    assert_eq!(env.name, "esp32");
    assert_eq!(env.platform, "espressif32");
    assert_eq!(env.board, Some("esp32dev".to_string()));
    assert!(env.is_hardware_target);
    assert!(env.can_upload);
}

#[test]
fn test_parse_native_env() {
    let config = parse_platformio_ini(
        "platformio.ini",
        r#"
[env:native]
platform = native
"#,
    )
    .unwrap();
    let env = &config.environments[0];

    assert_eq!(env.name, "native");
    assert!(!env.is_hardware_target);
    assert!(!env.can_upload);
}

#[test]
fn test_parse_extends() {
    let config = parse_platformio_ini(
        "platformio.ini",
        r#"
[env:base]
platform = espressif32
framework = arduino

[env:esp32]
extends = env:base
board = esp32dev
"#,
    )
    .unwrap();

    let esp32 = config.environments.iter().find(|e| e.name == "esp32").unwrap();

    assert_eq!(esp32.platform, "espressif32");
    assert_eq!(esp32.board, Some("esp32dev".to_string()));
    assert_eq!(esp32.extends, Some("base".to_string()));
}

#[test]
fn test_env_interpolation() {
    let config = parse_platformio_ini(
        "platformio.ini",
        r#"
[env:base]
platform = espressif32
lib_deps = lib1

[env:child]
extends = env:base
framework = ${env.platform}
lib_deps = ${env:base.lib_deps}
"#,
    )
    .unwrap();
    let child = config.environments.iter().find(|e| e.name == "child").unwrap();

    assert_eq!(child.framework, Some("espressif32".to_string()));
    assert_eq!(child.lib_deps, vec!["lib1".to_string()]);
}

#[test]
fn test_circular_extends_errors() {
    let result = parse_platformio_ini(
        "platformio.ini",
        r#"
[env:a]
extends = env:b
platform = espressif32

[env:b]
extends = env:a
platform = espressif32
"#,
    );
    assert!(result.is_err());
}

#[test]
fn test_nested_interpolation_resolves() {
    let config = parse_platformio_ini(
        "platformio.ini",
        r#"
[env:base]
common_flags = -DFOO=1

[env:dev]
build_flags = ${env:base.common_flags} -DBAR=2
extra = ${env.build_flags}
"#,
    )
    .unwrap();
    let env = config.environments.iter().find(|e| e.name == "dev").unwrap();
    // Build flags on one line become one item after parsing
    assert!(!env.build_flags.is_empty());
    let flags_str = env.build_flags.join(" ");
    assert!(flags_str.contains("-DFOO=1"), "Should contain interpolated FOO flag");
    assert!(flags_str.contains("-DBAR=2"), "Should contain BAR flag");
    assert!(env.lib_deps.is_empty());
}

#[test]
fn a_text_that_cannot_be_parsed_says_where_it_was_read() {
    let err = parse_platformio_ini("/repo/apps/x/platformio.ini", "[env:broken\nplatform = x\n")
        .unwrap_err();
    assert!(
        err.starts_with("Failed to load platformio.ini: couldn't read /repo/apps/x/platformio.ini: "),
        "{}",
        err
    );
    assert!(err.contains("closing bracket"), "{}", err);
}

#[test]
fn a_file_without_environments() {
    assert!(parse_platformio_ini("p", "").unwrap().environments.is_empty());
    assert!(parse_platformio_ini("p", "[platformio]\ndefault_envs = a\n")
        .unwrap()
        .environments
        .is_empty());
}

#[test]
fn sections_in_a_given_order() {
    let sections: IniSections = vec![
        section("platformio", &[("default_envs", Some("b"))]),
        section(
            "env:b",
            &[
                ("extends", Some("a")),
                ("board", Some("uno")),
                ("lonely", None),
                ("build_flags", Some("-DX=${env.board}\n  -DY\n\n")),
            ],
        ),
        section("env:a", &[("platform", Some("atmelavr")), ("board", Some("nano"))]),
    ];
    let collected = collect_environments(&sections);
    assert_eq!(collected.keys(), vec!["b".to_string(), "a".to_string()]);
    assert_eq!(
        listed(collected.get("b").unwrap()),
        vec![
            ("extends".to_string(), "a".to_string()),
            ("board".to_string(), "uno".to_string()),
            ("build_flags".to_string(), "-DX=${env.board}\n  -DY\n\n".to_string()),
        ]
    );

    let config = parse_sections(&sections).unwrap();
    assert_eq!(config.environments.len(), 2);
    let b = &config.environments[0];
    assert_eq!(b.name, "b");
    assert_eq!(b.extends.as_deref(), Some("a"));
    assert_eq!(b.platform, "atmelavr");
    assert_eq!(b.board.as_deref(), Some("uno"));
    assert_eq!(b.framework, None);
    assert_eq!(b.build_flags, vec!["-DX=uno".to_string(), "-DY".to_string()]);
    assert!(b.is_hardware_target);
    let a = &config.environments[1];
    assert_eq!(a.name, "a");
    assert_eq!(a.extends, None);
    assert_eq!(a.board.as_deref(), Some("nano"));
}

#[test]
fn inheritance_puts_own_properties_over_inherited_ones() {
    let all = envs(&[
        ("root", &[("platform", "p0"), ("board", "b0"), ("framework", "f0")]),
        ("mid", &[("extends", "env:root"), ("board", "b1"), ("extra", "e1")]),
        ("leaf", &[("extends", "mid"), ("framework", "f2")]),
    ]);
    let leaf = resolve_extends(&all, "leaf").unwrap();
    assert_eq!(
        listed(&leaf),
        vec![
            ("platform".to_string(), "p0".to_string()),
            ("board".to_string(), "b1".to_string()),
            ("framework".to_string(), "f2".to_string()),
            ("extra".to_string(), "e1".to_string()),
        ]
    );
    // An environment that extends nothing has what its section says.
    assert_eq!(listed(&resolve_extends(&all, "root").unwrap()).len(), 3);
}

#[test]
fn inheritance_that_cannot_be_resolved() {
    let all = envs(&[
        ("a", &[("extends", "env:b")]),
        ("b", &[("extends", "c")]),
        ("c", &[("extends", "env:a")]),
        ("orphan", &[("extends", "nobody")]),
        ("selfish", &[("extends", "selfish")]),
    ]);
    assert_eq!(
        resolve_extends(&all, "a").unwrap_err(),
        "Circular extends detected for environment 'a'"
    );
    assert_eq!(
        resolve_extends(&all, "b").unwrap_err(),
        "Circular extends detected for environment 'b'"
    );
    assert_eq!(
        resolve_extends(&all, "selfish").unwrap_err(),
        "Circular extends detected for environment 'selfish'"
    );
    assert_eq!(
        resolve_extends(&all, "orphan").unwrap_err(),
        "Environment 'nobody' not found"
    );
    assert_eq!(
        resolve_extends(&all, "missing").unwrap_err(),
        "Environment 'missing' not found"
    );
}

#[test]
fn what_stands_for_a_reference() {
    let own = props(&[("platform", "espressif32")]);
    let all = envs(&[("base", &[("lib_deps", "lib1")])]);
    let value = |name: Option<&str>, key: Option<&str>| {
        reference_value(name, key, Some("${whole}"), &own, &all)
    };
    assert_eq!(value(None, Some("platform")), "espressif32");
    assert_eq!(value(None, Some("missing")), "");
    assert_eq!(value(Some("base"), Some("lib_deps")), "lib1");
    assert_eq!(value(Some("base"), Some("platform")), "");
    assert_eq!(value(Some("nobody"), Some("lib_deps")), "");
    assert_eq!(value(None, None), "${whole}");
    assert_eq!(value(Some("base"), Some("")), "${whole}");
    assert_eq!(reference_value(None, None, None, &own, &all), "");
}

#[test]
fn references_are_replaced_in_rounds() {
    let all = envs(&[("base", &[("flags", "-DFOO=1")])]);
    let mut own = props(&[
        ("a", "${env.b}!"),
        ("b", "${env:base.flags} ${env.c}"),
        ("c", "x"),
        ("plain", "no references ${here"),
        ("gone", "[${env.nothing}][${env:nobody.flags}]"),
    ]);
    resolve_interpolation(&mut own, &all);
    assert_eq!(
        listed(&own),
        vec![
            ("a".to_string(), "-DFOO=1 x!".to_string()),
            ("b".to_string(), "-DFOO=1 x".to_string()),
            ("c".to_string(), "x".to_string()),
            ("plain".to_string(), "no references ${here".to_string()),
            ("gone".to_string(), "[][]".to_string()),
        ]
    );
}

#[test]
fn references_in_a_circle_stop_after_the_rounds() {
    let all = envs(&[]);
    let mut own = props(&[("a", "<${env.a}>")]);
    resolve_interpolation(&mut own, &all);
    // Each round wraps the value once more around what it was.
    let value = own.get("a").unwrap();
    assert!(value.starts_with("<<<<<<<<<<"));
    assert!(value.ends_with(">>>>>>>>>>"));
    assert!(value.contains("${env.a}"));
}

#[test]
fn a_replaced_value_is_stored_if_it_differs() {
    let mut own = props(&[("a", "1"), ("b", "2")]);
    assert!(!store_replaced(&mut own, "a", "1".to_string()));
    assert!(store_replaced(&mut own, "a", "x".to_string()));
    assert_eq!(
        listed(&own),
        vec![("a".to_string(), "x".to_string()), ("b".to_string(), "2".to_string())]
    );
}

#[test]
fn lists_with_one_item_per_line() {
    assert_eq!(
        parse_multiline_list(Some(&"\n  lib1\n\n lib2 @ ^1.0 \r\nlib3".to_string())),
        vec!["lib1".to_string(), "lib2 @ ^1.0".to_string(), "lib3".to_string()]
    );
    assert!(parse_multiline_list(Some(&"  \n ".to_string())).is_empty());
    assert!(parse_multiline_list(None).is_empty());
}

#[test]
fn an_environment_as_it_is_shown() {
    let own = props(&[("extends", "env:base"), ("board", "esp32dev")]);
    let all = props(&[
        ("platform", "native"),
        ("board", "esp32dev"),
        ("lib_deps", "a\nb"),
    ]);
    let e = environment("dev", Some(&own), &all);
    assert_eq!(e.name, "dev");
    assert_eq!(e.extends.as_deref(), Some("base"));
    assert_eq!(e.platform, "native");
    assert!(!e.is_hardware_target);
    assert!(!e.can_upload);
    assert_eq!(e.lib_deps, vec!["a".to_string(), "b".to_string()]);
    assert!(e.build_flags.is_empty());
    let e = environment("bare", None, &props(&[]));
    assert_eq!(e.platform, "");
    assert!(e.is_hardware_target);
    assert_eq!(e.extends, None);
}

#[test]
fn extends_is_never_among_the_resolved_properties() {
    let all = envs(&[
        ("root", &[("platform", "p0")]),
        ("mid", &[("extends", "root"), ("board", "b1")]),
        ("leaf", &[("board", "b2"), ("extends", "env:mid")]),
    ]);
    for name in ["root", "mid", "leaf"] {
        let resolved = resolve_extends(&all, name).unwrap();
        assert!(!resolved.contains_key("extends"), "{}", name);
        assert_eq!(resolved.get("platform").map(String::as_str), Some("p0"));
    }
    assert_eq!(
        resolve_extends(&all, "leaf").unwrap().get("board").map(String::as_str),
        Some("b2")
    );
}
