use rgbw_dashboard::pattern::Groups;
use rgbw_dashboard::utils::config_schema::{
    classify_value, current_platform_context, current_platform_name, define_parts,
    enum_values_of, extract_config_defines, extract_ifndef_from_expr,
    extract_platform_from_expr, extract_platform_from_tokens, is_configurable_define,
    parse_config_schema, parse_value, strip_inline_comment, AppConfigSchema, ConditionalFrame,
    ConfigDefine, ConfigSource, EnumValue, PlatformContext, Scan, ValueType,
};

fn parse(content: &str) -> AppConfigSchema {
    parse_config_schema(&ConfigSource::Content(content.to_string())).unwrap()
}

fn frame(platform: Option<&str>, conditional: bool, ifndef: Option<&str>) -> ConditionalFrame {
    ConditionalFrame {
        platform: platform.map(str::to_string),
        platform_conditional: conditional,
        ifndef_name: ifndef.map(str::to_string),
    }
}

fn groups(items: &[Option<&str>]) -> Groups {
    items.iter().map(|g| g.map(str::to_string)).collect()
}

fn plain(name: &str) -> ConfigDefine {
    ConfigDefine {
        name: name.to_string(),
        default_value: "1".to_string(),
        value_type: ValueType::Integer,
        enum_values: None,
        platform: None,
        description: None,
    }
}

#[test]
fn test_no_config_file() {
    let result = parse_config_schema(&ConfigSource::Absent).unwrap();
    assert!(!result.has_config);
    assert!(result.defines.is_empty());
}

#[test]
fn test_basic_defines() {
    let result = parse(
        r#"
#ifndef PANEL_WIDTH
#define PANEL_WIDTH 36
#endif

#ifndef PANEL_HEIGHT
#define PANEL_HEIGHT 24
#endif

#ifndef BRIGHTNESS
#define BRIGHTNESS 0.8
#endif
"#,
    );
    assert!(result.has_config);
    assert_eq!(result.defines.len(), 3);

    let width = result.defines.iter().find(|d| d.name == "PANEL_WIDTH").unwrap();
    assert_eq!(width.default_value, "36");
    assert_eq!(width.value_type, ValueType::Integer);

    let brightness = result.defines.iter().find(|d| d.name == "BRIGHTNESS").unwrap();
    assert_eq!(brightness.value_type, ValueType::Float);
}

#[test]
fn test_enum_define() {
    let result = parse(
        r#"
#ifndef STRIP_TYPE
#define STRIP_TYPE 0 // 0 = SK6812 RGBW (default), 1 = WS2815B RGB
#endif
"#,
    );
    let strip = result.defines.iter().find(|d| d.name == "STRIP_TYPE").unwrap();

    assert_eq!(strip.value_type, ValueType::Enum);
    let enums = strip.enum_values.as_ref().unwrap();
    assert_eq!(enums.len(), 2);
    assert_eq!(enums[0].value, "0");
    assert_eq!(enums[0].label, "SK6812 RGBW (default)");
}

#[test]
fn test_pin_define() {
    let result = parse(
        r#"
#ifndef PIN_LED_DATA
#define PIN_LED_DATA 16
#endif
"#,
    );
    let pin = result.defines.iter().find(|d| d.name == "PIN_LED_DATA").unwrap();
    assert_eq!(pin.value_type, ValueType::Pin);
}

#[test]
fn test_platform_conditionals() {
    let result = parse(
        r#"
#ifndef PANEL_WIDTH
#define PANEL_WIDTH 36
#endif

#ifdef ESP32
#ifndef PIN_LED_DATA
#define PIN_LED_DATA 4
#endif
#elif defined(ESP8266)
#ifndef PIN_LED_DATA
#define PIN_LED_DATA 2
#endif
#else
#ifndef PIN_LED_DATA
#define PIN_LED_DATA 99
#endif
#endif
"#,
    );
    assert_eq!(result.defines.len(), 1);
    assert!(result.defines.iter().any(|d| d.name == "PANEL_WIDTH"));
    assert!(result.defines.iter().all(|d| d.name != "PIN_LED_DATA"));

    let esp32 = result.platform_conditional.get("ESP32").expect("ESP32 defines");
    assert_eq!(esp32.len(), 1);
    assert_eq!(esp32[0].default_value, "4");

    let esp8266 = result.platform_conditional.get("ESP8266").expect("ESP8266 defines");
    assert_eq!(esp8266.len(), 1);
    assert_eq!(esp8266[0].default_value, "2");
}

#[test]
fn a_header_that_cannot_be_read_is_an_error() {
    assert_eq!(
        parse_config_schema(&ConfigSource::Unreadable("Permission denied".to_string()))
            .unwrap_err(),
        "Failed to read config.h: Permission denied"
    );
}

#[test]
fn an_empty_header_has_a_configuration_without_defines() {
    let result = parse("");
    assert!(result.has_config);
    assert!(result.defines.is_empty());
    assert_eq!(result.platform_conditional.len(), 0);
}

#[test]
fn defines_outside_an_ifndef_of_their_name_are_passed_over() {
    let result = parse(
        "#define FIXED 1\n#ifndef OTHER\n#define NOT_OTHER 2\n#define OTHER 3 // what it is\n#endif\n#define LATE 4\n",
    );
    assert_eq!(result.defines.len(), 1);
    assert_eq!(result.defines[0].name, "OTHER");
    assert_eq!(result.defines[0].default_value, "3");
    assert_eq!(result.defines[0].description.as_deref(), Some("what it is"));
    assert_eq!(result.defines[0].platform, None);
}

#[test]
fn the_first_define_of_a_name_stays() {
    let result = parse(
        "#ifndef A\n#define A 1\n#endif\n#ifndef A\n#define A 2\n#endif\n#ifdef ESP32\n#ifndef A\n#define A 3\n#define A 4\n#endif\n#endif\n",
    );
    assert_eq!(result.defines.len(), 1);
    assert_eq!(result.defines[0].default_value, "1");
    let esp32 = result.platform_conditional.get("ESP32").unwrap();
    assert_eq!(esp32.len(), 1);
    assert_eq!(esp32[0].default_value, "3");
    assert_eq!(esp32[0].platform.as_deref(), Some("ESP32"));
}

#[test]
fn conditions_written_with_if_and_carriage_returns() {
    let result = parse(
        "#if defined(__AVR__) && !defined(SPEED)\r\n  #define SPEED 0x1F // prescaler\r\n#elif !defined SPEED\r\n#define SPEED 80000000\r\n#endif\r\n",
    );
    let avr = result.platform_conditional.get("__AVR__").unwrap();
    assert_eq!(avr.len(), 1);
    assert_eq!(avr[0].name, "SPEED");
    assert_eq!(avr[0].default_value, "0x1F");
    assert_eq!(avr[0].value_type, ValueType::Integer);
    assert_eq!(avr[0].description.as_deref(), Some("prescaler"));
    // After #elif the conditional names no platform any more.
    assert_eq!(result.defines.len(), 1);
    assert_eq!(result.defines[0].default_value, "80000000");
}

#[test]
fn a_conditional_on_two_platforms_is_left_out() {
    let result = parse(
        "#if defined(ESP32) || defined(ESP8266)\n#ifndef WIFI\n#define WIFI 1\n#endif\n#endif\n",
    );
    assert!(result.defines.is_empty());
    assert_eq!(result.platform_conditional.len(), 0);
}

#[test]
fn inline_comments_are_stripped_from_directives() {
    assert_eq!(strip_inline_comment("#endif // PANEL"), "#endif");
    assert_eq!(strip_inline_comment("  x  "), "x");
    assert_eq!(strip_inline_comment("//only"), "");
    assert_eq!(strip_inline_comment("a // b // c"), "a");
}

#[test]
fn the_name_whose_absence_a_condition_asks_for() {
    assert_eq!(extract_ifndef_from_expr("!defined(FOO)"), Some("FOO".to_string()));
    assert_eq!(extract_ifndef_from_expr("! defined  BAR_2 && X"), Some("BAR_2".to_string()));
    assert_eq!(extract_ifndef_from_expr("defined(FOO)"), None);
    assert_eq!(extract_ifndef_from_expr(""), None);
}

#[test]
fn platform_tokens() {
    assert_eq!(extract_platform_from_tokens("ESP32"), Some("ESP32".to_string()));
    assert_eq!(extract_platform_from_tokens("ESP8266"), Some("ESP8266".to_string()));
    assert_eq!(extract_platform_from_tokens("__AVR__"), Some("__AVR__".to_string()));
    assert_eq!(extract_platform_from_tokens("esp32"), None);
    assert_eq!(extract_platform_from_tokens("ESP32S3"), None);
    assert_eq!(extract_platform_from_tokens(""), None);
}

#[test]
fn platforms_of_an_expression() {
    assert_eq!(extract_platform_from_expr("defined(ESP32)"), (Some("ESP32".to_string()), true));
    assert_eq!(
        extract_platform_from_expr("defined(ESP32) && ESP32 > 1"),
        (Some("ESP32".to_string()), true)
    );
    assert_eq!(extract_platform_from_expr("defined(ESP32)||defined(__AVR__)"), (None, true));
    assert_eq!(extract_platform_from_expr("defined(FOO)"), (None, false));
    assert_eq!(extract_platform_from_expr("XESP32 ESP32X ESP32_"), (None, false));
    assert_eq!(extract_platform_from_expr(""), (None, false));
    assert_eq!(extract_platform_from_expr("!ESP8266"), (Some("ESP8266".to_string()), true));
}

#[test]
fn the_innermost_platform_conditional_governs() {
    let stack = vec![
        frame(Some("ESP32"), true, None),
        frame(None, false, Some("A")),
    ];
    assert_eq!(current_platform_context(&stack), PlatformContext::Specific);
    assert_eq!(current_platform_name(&stack), Some("ESP32".to_string()));

    let stack = vec![frame(Some("ESP32"), true, None), frame(None, true, None)];
    assert_eq!(current_platform_context(&stack), PlatformContext::Other);
    assert_eq!(current_platform_name(&stack), None);

    let stack = vec![frame(None, false, Some("A"))];
    assert_eq!(current_platform_context(&stack), PlatformContext::Neutral);
    assert_eq!(current_platform_name(&stack), None);
    assert_eq!(current_platform_context(&Vec::new()), PlatformContext::Neutral);
}

#[test]
fn configurable_names() {
    let stack = vec![frame(None, false, Some("A")), frame(Some("ESP32"), true, None)];
    assert!(is_configurable_define(&stack, "A"));
    assert!(!is_configurable_define(&stack, "B"));
    assert!(!is_configurable_define(&Vec::new(), "A"));
}

#[test]
fn kinds_of_values() {
    let kind = |name: &str, raw: &str| parse_value(name, raw, &None).0;
    assert_eq!(kind("PIN_X", "hello"), ValueType::Pin);
    assert_eq!(kind("LED_PIN", "4"), ValueType::Pin);
    assert_eq!(kind("WIFI_ENABLED", "1"), ValueType::Boolean);
    assert_eq!(kind("ENABLE_X", "false"), ValueType::Boolean);
    assert_eq!(kind("USE_PSRAM", "0"), ValueType::Boolean);
    assert_eq!(kind("USE_PSRAM", "2"), ValueType::Integer);
    assert_eq!(kind("COUNT", "1"), ValueType::Integer);
    assert_eq!(kind("COUNT", "true"), ValueType::String);
    assert_eq!(kind("GAMMA", "2.2"), ValueType::Float);
    assert_eq!(kind("GAMMA", "-.5e-3"), ValueType::Float);
    assert_eq!(kind("GAMMA", "5."), ValueType::Float);
    assert_eq!(kind("GAMMA", "1.0f"), ValueType::String);
    assert_eq!(kind("GAMMA", "."), ValueType::String);
    assert_eq!(kind("VERSION", "1.2.3"), ValueType::String);
    assert_eq!(kind("N", "-42"), ValueType::Integer);
    assert_eq!(kind("N", "+7"), ValueType::Integer);
    assert_eq!(kind("N", "9223372036854775807"), ValueType::Integer);
    assert_eq!(kind("N", "9223372036854775808"), ValueType::String);
    assert_eq!(kind("N", "-9223372036854775808"), ValueType::Integer);
    assert_eq!(kind("N", "-9223372036854775809"), ValueType::String);
    assert_eq!(kind("N", "0000000000000000000000000001"), ValueType::Integer);
    assert_eq!(kind("N", "12 "), ValueType::String);
    assert_eq!(kind("N", "0xFF"), ValueType::Integer);
    assert_eq!(kind("N", "0Xff"), ValueType::Integer);
    assert_eq!(kind("N", "0x7FFFFFFFFFFFFFFF"), ValueType::Integer);
    assert_eq!(kind("N", "0x8000000000000000"), ValueType::String);
    assert_eq!(kind("N", "0x-8000000000000000"), ValueType::Integer);
    assert_eq!(kind("N", "0x"), ValueType::String);
    assert_eq!(kind("N", "0xG"), ValueType::String);
    assert_eq!(kind("N", ""), ValueType::String);
    assert_eq!(kind("NAME", "\"strip\""), ValueType::String);
}

#[test]
fn choices_in_the_comment_outrank_everything() {
    let (kind, values, default) =
        parse_value("PIN_MODE", "1", &Some("0=Off, 1 = On ,2=Auto".to_string()));
    assert_eq!(kind, ValueType::Enum);
    assert_eq!(default, "1");
    let values = values.unwrap();
    assert_eq!(values.len(), 3);
    assert_eq!(values[1].value, "1");
    assert_eq!(values[1].label, "On");
    assert_eq!(values[2].label, "Auto");
    // A comment without choices leaves the kind to name and value.
    let (kind, values, _) = parse_value("PIN_MODE", "1", &Some("data pin".to_string()));
    assert_eq!(kind, ValueType::Pin);
    assert!(values.is_none());
}

#[test]
fn choices_from_what_was_matched() {
    let found = vec![
        groups(&[Some("0 = a "), Some("0"), Some("a ")]),
        groups(&[Some("x"), None, Some("dropped")]),
        groups(&[Some("short")]),
        groups(&[Some("7=b"), Some("7"), Some(" b")]),
    ];
    let values = enum_values_of(&found);
    assert_eq!(values.len(), 2);
    assert_eq!((values[0].value.as_str(), values[0].label.as_str()), ("0", "a"));
    assert_eq!((values[1].value.as_str(), values[1].label.as_str()), ("7", "b"));

    let (kind, kept, default) = classify_value("COUNT", "3", values);
    assert_eq!(kind, ValueType::Enum);
    assert_eq!(kept.unwrap().len(), 2);
    assert_eq!(default, "3");
    let (kind, kept, _) = classify_value("COUNT", "3", Vec::<EnumValue>::new());
    assert_eq!(kind, ValueType::Integer);
    assert!(kept.is_none());
}

#[test]
fn parts_of_a_define() {
    let parts = define_parts(&groups(&[
        Some("#define A 1 // one // more"),
        Some("A"),
        Some("1 // one // more"),
    ]));
    assert_eq!(parts, ("A".to_string(), "1".to_string(), Some("one // more".to_string())));
    let parts = define_parts(&groups(&[Some("#define A"), Some("A"), None]));
    assert_eq!(parts, ("A".to_string(), "".to_string(), None));
    let parts = define_parts(&groups(&[Some("x")]));
    assert_eq!(parts, ("".to_string(), "".to_string(), None));
}

#[test]
fn recording_by_hand() {
    let mut scan = Scan::new();
    scan.record(plain("A"));
    scan.record(plain("A"));
    scan.stack.push(frame(Some("ESP32"), true, None));
    scan.record(plain("A"));
    scan.record(plain("B"));
    scan.stack.push(frame(None, true, None));
    scan.record(plain("C"));
    assert_eq!(scan.defines.len(), 1);
    let esp32 = scan.platform_conditional.get("ESP32").unwrap();
    assert_eq!(esp32.len(), 2);
    assert_eq!(esp32[1].name, "B");
    assert_eq!(esp32[1].platform.as_deref(), Some("ESP32"));
    assert_eq!(scan.platform_conditional.len(), 1);

    scan.scan_define(&None);
    scan.scan_define(&Some(groups(&[Some("#define Z 1"), Some("Z"), Some("1")])));
    assert_eq!(scan.defines.len(), 1, "Z stands under no #ifndef Z");
}

#[test]
fn the_defines_alone() {
    let (defines, by_platform) =
        extract_config_defines("#ifndef A\n\n   #define A    hello world   \n#endif").unwrap();
    assert_eq!(defines.len(), 1);
    assert_eq!(defines[0].default_value, "hello world");
    assert_eq!(defines[0].value_type, ValueType::String);
    assert_eq!(by_platform.len(), 0);
}
