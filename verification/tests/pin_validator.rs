use rgbw_dashboard::utils::pin_validator::{
    get_safe_pins, validate_pin, Module, PinPurpose, Platform, Severity,
};

#[test]
fn test_esp32_flash_pins_blocked() {
    for pin in 6..=11 {
        let result = validate_pin(pin, PinPurpose::Output, Platform::Esp32, None);
        assert!(!result.valid);
        assert_eq!(result.severity, Severity::Error);
        assert!(result.message.contains("SPI flash"));
    }
}

#[test]
fn test_esp32_gpio12_output_blocked() {
    let result = validate_pin(12, PinPurpose::Output, Platform::Esp32, None);
    assert!(!result.valid);
    assert_eq!(result.severity, Severity::Error);
}

#[test]
fn test_esp32_input_only_pins_block_output() {
    for pin in 34..=39 {
        let result = validate_pin(pin, PinPurpose::Output, Platform::Esp32, None);
        assert!(!result.valid);
        assert!(result.message.contains("input-only"));
    }
}

#[test]
fn test_esp32_input_only_pins_allow_input() {
    for pin in 34..=39 {
        let result = validate_pin(pin, PinPurpose::Input, Platform::Esp32, None);
        assert!(result.valid);
    }
}

#[test]
fn test_esp32_adc2_warning() {
    let adc2_pins = [0, 2, 4, 12, 13, 14, 15, 25, 26, 27];
    for pin in adc2_pins {
        // GPIO 12 is covered by the strapping-pin rules of its own.
        if pin == 12 {
            continue;
        }
        let result = validate_pin(pin, PinPurpose::Adc, Platform::Esp32, None);
        assert!(result.valid);
        assert_eq!(result.severity, Severity::Warning);
        assert!(result.message.contains("ADC2"));
    }
}

#[test]
fn test_esp32_wrover_psram_pins() {
    let result = validate_pin(16, PinPurpose::Output, Platform::Esp32, Some(Module::Wrover));
    assert!(!result.valid);
    assert!(result.message.contains("PSRAM"));

    let result = validate_pin(17, PinPurpose::Output, Platform::Esp32, Some(Module::Pico));
    assert!(!result.valid);
}

#[test]
fn test_esp32_safe_pins_ok() {
    let safe = vec![4, 13, 14, 18, 19, 21, 22, 23, 25, 26, 27, 32, 33];
    for pin in safe {
        let result = validate_pin(pin, PinPurpose::Output, Platform::Esp32, None);
        assert!(result.valid, "Pin {} should be valid", pin);
    }
}

#[test]
fn test_esp8266_flash_pins_blocked() {
    for pin in 6..=11 {
        let result = validate_pin(pin, PinPurpose::Output, Platform::Esp8266, None);
        assert!(!result.valid);
    }
}

#[test]
fn test_avr_serial_pins_warning() {
    let result = validate_pin(0, PinPurpose::Output, Platform::Avr, None);
    assert!(result.valid);
    assert_eq!(result.severity, Severity::Warning);
}

#[test]
fn esp32_gpio12_needs_no_output_to_warn_on_adc() {
    let result = validate_pin(12, PinPurpose::Adc, Platform::Esp32, None);
    assert!(result.valid);
    assert_eq!(result.severity, Severity::Warning);
    assert!(result.message.contains("ADC2"));
}

#[test]
fn unknown_pins_are_named_in_the_remark() {
    let result = validate_pin(20, PinPurpose::Output, Platform::Esp32, None);
    assert!(result.valid);
    assert_eq!(result.severity, Severity::Info);
    assert_eq!(
        result.message,
        "GPIO 20 is not in the safe GPIO list. Verify it's appropriate for your board."
    );
    let result = validate_pin(3, PinPurpose::Output, Platform::Esp8266, None);
    assert_eq!(
        result.message,
        "GPIO 3 may have constraints on ESP8266. Verify it's appropriate for your use."
    );
    let result = validate_pin(200, PinPurpose::Input, Platform::Avr, None);
    assert!(!result.valid);
    assert_eq!(result.severity, Severity::Error);
    assert_eq!(result.message, "Pin 200 is out of range for Arduino Uno (0-19).");
}

#[test]
fn esp8266_gpio16_refuses_pwm_and_i2c_only() {
    assert!(!validate_pin(16, PinPurpose::Pwm, Platform::Esp8266, None).valid);
    assert!(!validate_pin(16, PinPurpose::I2c, Platform::Esp8266, None).valid);
    let plain = validate_pin(16, PinPurpose::Output, Platform::Esp8266, None);
    assert!(plain.valid);
    assert_eq!(plain.severity, Severity::Info);
}

#[test]
fn avr_led_pin_is_remarked_on() {
    let result = validate_pin(13, PinPurpose::Output, Platform::Avr, None);
    assert!(result.valid);
    assert_eq!(result.severity, Severity::Info);
    assert!(validate_pin(5, PinPurpose::Output, Platform::Avr, None).message.is_empty());
}

#[test]
fn safe_pins_per_platform() {
    assert_eq!(
        get_safe_pins(Platform::Esp32, None),
        vec![4, 13, 14, 16, 17, 18, 19, 21, 22, 23, 25, 26, 27, 32, 33]
    );
    assert_eq!(
        get_safe_pins(Platform::Esp32, Some(Module::Standard)),
        vec![4, 13, 14, 16, 17, 18, 19, 21, 22, 23, 25, 26, 27, 32, 33]
    );
    assert_eq!(
        get_safe_pins(Platform::Esp32, Some(Module::Wrover)),
        vec![4, 13, 14, 18, 19, 21, 22, 23, 25, 26, 27, 32, 33]
    );
    assert_eq!(get_safe_pins(Platform::Esp8266, None), vec![4, 5, 12, 13, 14]);
    assert_eq!(
        get_safe_pins(Platform::Avr, None),
        vec![2, 3, 4, 5, 6, 7, 8, 9, 10, 11, 12, 13, 14, 15, 16, 17, 18, 19]
    );
}

#[test]
fn every_safe_pin_is_valid_for_every_purpose() {
    let purposes = [
        PinPurpose::Output,
        PinPurpose::Input,
        PinPurpose::Adc,
        PinPurpose::I2c,
        PinPurpose::Spi,
        PinPurpose::I2s,
        PinPurpose::Pwm,
    ];
    let modules = [None, Some(Module::Standard), Some(Module::Wrover), Some(Module::Pico)];
    for platform in [Platform::Esp32, Platform::Esp8266, Platform::Avr] {
        for module in modules {
            for pin in get_safe_pins(platform, module) {
                for purpose in purposes {
                    assert!(validate_pin(pin, purpose, platform, module).valid);
                }
            }
        }
    }
}

#[test]
fn output_purposes() {
    assert!(PinPurpose::Output.is_output());
    assert!(PinPurpose::Pwm.is_output());
    assert!(PinPurpose::I2s.is_output());
    assert!(!PinPurpose::Input.is_output());
    assert!(!PinPurpose::Adc.is_output());
    assert!(!PinPurpose::I2c.is_output());
    assert!(!PinPurpose::Spi.is_output());
}
