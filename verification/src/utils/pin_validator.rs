//! Which GPIO pins are safe to use for what, per platform.
//!
//! The rules are a table with an order: the first rule that applies to a pin
//! decides. `esp32_verdict`, `esp8266_verdict` and `avr_verdict` are that
//! table; the executable functions return what it says.

use crate::text::{concat3, decimal, to_decimal};
use vstd::prelude::*;

verus! {

/// How serious a remark on a pin is.
#[derive(Debug, Clone, Copy, PartialEq, Eq, Structural)]
pub enum Severity {
    Okay,
    Info,
    Warning,
    Error,
}

/// What a pin is used for.
#[derive(Debug, Clone, Copy, PartialEq, Eq, Structural)]
pub enum PinPurpose {
    Output,
    Input,
    Adc,
    I2c,
    Spi,
    I2s,
    Pwm,
}

/// The family of boards.
#[derive(Debug, Clone, Copy, PartialEq, Eq, Structural)]
pub enum Platform {
    Esp32,
    Esp8266,
    Avr,
}

/// The ESP32 module on the board.
#[derive(Debug, Clone, Copy, PartialEq, Eq, Structural)]
pub enum Module {
    Standard,
    Wrover,
    Pico,
}

/// The verdict on one pin: whether it may be used, how serious the remark is,
/// and the remark.
#[derive(Debug, Clone)]
pub struct PinValidation {
    pub valid: bool,
    pub severity: Severity,
    pub message: String,
}

/// A verdict with its remark as a sequence of characters.
pub struct PinVerdict {
    pub valid: bool,
    pub severity: Severity,
    pub message: Seq<char>,
}

impl View for PinValidation {
    type V = PinVerdict;

    open spec fn view(&self) -> PinVerdict {
        PinVerdict { valid: self.valid, severity: self.severity, message: self.message@ }
    }
}

impl PinVerdict {
    /// Nothing to remark.
    pub open spec fn ok() -> PinVerdict {
        PinVerdict { valid: true, severity: Severity::Okay, message: Seq::empty() }
    }

    /// The pin may not be used.
    pub open spec fn error(message: Seq<char>) -> PinVerdict {
        PinVerdict { valid: false, severity: Severity::Error, message }
    }

    /// The pin may be used, with care.
    pub open spec fn warning(message: Seq<char>) -> PinVerdict {
        PinVerdict { valid: true, severity: Severity::Warning, message }
    }

    /// The pin may be used; the remark is for information.
    pub open spec fn info(message: Seq<char>) -> PinVerdict {
        PinVerdict { valid: true, severity: Severity::Info, message }
    }
}

impl PinValidation {
    /// Nothing to remark.
    pub fn ok() -> (v: Self)
        ensures
            v@ == PinVerdict::ok(),
    {
        PinValidation { valid: true, severity: Severity::Okay, message: String::new() }
    }

    /// The pin may not be used.
    pub fn error(message: &str) -> (v: Self)
        ensures
            v@ == PinVerdict::error(message@),
    {
        PinValidation {
            valid: false,
            severity: Severity::Error,
            message: String::from_str(message),
        }
    }

    /// The pin may be used, with care.
    pub fn warning(message: &str) -> (v: Self)
        ensures
            v@ == PinVerdict::warning(message@),
    {
        PinValidation {
            valid: true,
            severity: Severity::Warning,
            message: String::from_str(message),
        }
    }

    /// The pin may be used; the remark is for information.
    pub fn info(message: &str) -> (v: Self)
        ensures
            v@ == PinVerdict::info(message@),
    {
        PinValidation { valid: true, severity: Severity::Info, message: String::from_str(message) }
    }
}

impl PinPurpose {
    /// The purposes that drive the pin.
    pub open spec fn drives(self) -> bool {
        self == PinPurpose::Output || self == PinPurpose::Pwm || self == PinPurpose::I2s
    }

    /// Whether the purpose drives the pin.
    pub fn is_output(&self) -> (b: bool)
        ensures
            b == self.drives(),
    {
        match self {
            PinPurpose::Output | PinPurpose::Pwm | PinPurpose::I2s => true,
            _ => false,
        }
    }
}

// The remarks of the rules.

pub const ESP32_FLASH: &'static str =
    "GPIO 6-11 are connected to SPI flash. Using them will crash the ESP32.";

pub const ESP32_GPIO12: &'static str =
    "GPIO 12 is a dangerous strapping pin. HIGH at boot selects 1.8V flash voltage, preventing boot. Use only with 10k pull-down or avoid entirely.";

pub const ESP32_INPUT_ONLY: &'static str = "GPIO 34-39 are input-only (no output driver).";

pub const ESP32_PSRAM: &'static str = "GPIO 16/17 are used for PSRAM on WROVER/PICO modules.";

pub const ESP32_ADC2: &'static str =
    "GPIO is on ADC2. ADC2 is unavailable when WiFi is active. Use ADC1 pins (32-39) for reliable analog input.";

pub const ESP32_GPIO0: &'static str =
    "GPIO 0 is a boot strapping pin. Must be HIGH at boot for normal operation. Safe for output after boot, but external loads pulling LOW will prevent boot.";

pub const ESP32_GPIO2: &'static str =
    "GPIO 2 is connected to the built-in LED on many boards and is a boot strapping pin. Will flicker during boot.";

pub const ESP32_GPIO5: &'static str =
    "GPIO 5 is a strapping pin affecting SDIO timing. Low risk for LED projects.";

pub const ESP32_GPIO15: &'static str =
    "GPIO 15 is a strapping pin. LOW at boot suppresses UART boot messages.";

pub const ESP8266_FLASH: &'static str =
    "GPIO 6-11 are connected to SPI flash on ESP8266. Never use.";

pub const ESP8266_GPIO0: &'static str =
    "GPIO 0 is a boot strapping pin. Must be HIGH at boot. Can be used after boot but may interfere with programming.";

pub const ESP8266_GPIO2: &'static str =
    "GPIO 2 must be HIGH at boot. Also connected to built-in LED on many boards.";

pub const ESP8266_GPIO15: &'static str =
    "GPIO 15 must be LOW at boot (via pull-down). Safe to use after boot.";

pub const ESP8266_GPIO16: &'static str = "GPIO 16 does not support PWM or I2C on ESP8266.";

pub const AVR_SERIAL: &'static str =
    "Pins 0/1 are used for Serial communication. Using them will interfere with USB programming.";

pub const AVR_LED: &'static str = "Pin 13 has a built-in LED which may cause slight current draw.";

/// The ESP32 pins whose converter is shared with the radio.
pub open spec fn is_esp32_adc2_pin(pin: u8) -> bool {
    pin == 0 || pin == 2 || pin == 4 || (12 <= pin <= 15) || (25 <= pin <= 27)
}

/// The ESP32 pins with no known restriction.
pub open spec fn is_esp32_safe_pin(pin: u8) -> bool {
    pin == 4 || pin == 13 || pin == 14 || (16 <= pin <= 19) || (21 <= pin <= 23) || (25 <= pin
        <= 27) || pin == 32 || pin == 33
}

/// A module whose PSRAM takes GPIO 16 and 17.
pub open spec fn has_psram(module: Option<Module>) -> bool {
    module == Some(Module::Wrover) || module == Some(Module::Pico)
}

/// The rules of the ESP32, in their order.
pub open spec fn esp32_verdict(pin: u8, purpose: PinPurpose, module: Option<Module>) -> PinVerdict {
    if 6 <= pin <= 11 {
        PinVerdict::error(ESP32_FLASH@)
    } else if pin == 12 && purpose.drives() {
        PinVerdict::error(ESP32_GPIO12@)
    } else if 34 <= pin <= 39 && purpose.drives() {
        PinVerdict::error(ESP32_INPUT_ONLY@)
    } else if has_psram(module) && (pin == 16 || pin == 17) {
        PinVerdict::error(ESP32_PSRAM@)
    } else if is_esp32_adc2_pin(pin) && purpose == PinPurpose::Adc {
        PinVerdict::warning(ESP32_ADC2@)
    } else if pin == 0 {
        PinVerdict::warning(ESP32_GPIO0@)
    } else if pin == 2 {
        PinVerdict::warning(ESP32_GPIO2@)
    } else if pin == 5 {
        PinVerdict::info(ESP32_GPIO5@)
    } else if pin == 15 {
        PinVerdict::warning(ESP32_GPIO15@)
    } else if is_esp32_safe_pin(pin) {
        PinVerdict::ok()
    } else if 34 <= pin <= 39 {
        PinVerdict::ok()
    } else {
        PinVerdict::info(
            "GPIO "@ + decimal(pin as nat)
                + " is not in the safe GPIO list. Verify it's appropriate for your board."@,
        )
    }
}

/// The rules of the ESP8266, in their order.
pub open spec fn esp8266_verdict(pin: u8, purpose: PinPurpose) -> PinVerdict {
    if 6 <= pin <= 11 {
        PinVerdict::error(ESP8266_FLASH@)
    } else if pin == 0 {
        PinVerdict::warning(ESP8266_GPIO0@)
    } else if pin == 2 {
        PinVerdict::warning(ESP8266_GPIO2@)
    } else if pin == 15 {
        PinVerdict::warning(ESP8266_GPIO15@)
    } else if pin == 16 && (purpose == PinPurpose::Pwm || purpose == PinPurpose::I2c) {
        PinVerdict::error(ESP8266_GPIO16@)
    } else if pin == 4 || pin == 5 || (12 <= pin <= 14) {
        PinVerdict::ok()
    } else {
        PinVerdict::info(
            "GPIO "@ + decimal(pin as nat)
                + " may have constraints on ESP8266. Verify it's appropriate for your use."@,
        )
    }
}

/// The rules of the Arduino Uno, in their order.
pub open spec fn avr_verdict(pin: u8) -> PinVerdict {
    if pin > 19 {
        PinVerdict::error(
            "Pin "@ + decimal(pin as nat) + " is out of range for Arduino Uno (0-19)."@,
        )
    } else if pin == 0 || pin == 1 {
        PinVerdict::warning(AVR_SERIAL@)
    } else if pin == 13 {
        PinVerdict::info(AVR_LED@)
    } else {
        PinVerdict::ok()
    }
}

/// What the rules of `platform` say of `pin` used for `purpose`.
pub open spec fn pin_verdict(
    pin: u8,
    purpose: PinPurpose,
    platform: Platform,
    module: Option<Module>,
) -> PinVerdict {
    match platform {
        Platform::Esp32 => esp32_verdict(pin, purpose, module),
        Platform::Esp8266 => esp8266_verdict(pin, purpose),
        Platform::Avr => avr_verdict(pin),
    }
}

/// Validates a GPIO pin for a given purpose on a specific platform.
pub fn validate_pin(pin: u8, purpose: PinPurpose, platform: Platform, module: Option<Module>) -> (v:
    PinValidation)
    ensures
        v@ == pin_verdict(pin, purpose, platform, module),
{
    match platform {
        Platform::Esp32 => validate_esp32_pin(pin, purpose, module),
        Platform::Esp8266 => validate_esp8266_pin(pin, purpose),
        Platform::Avr => validate_avr_pin(pin, purpose),
    }
}

/// Validates a pin of an ESP32.
pub fn validate_esp32_pin(pin: u8, purpose: PinPurpose, module: Option<Module>) -> (v:
    PinValidation)
    ensures
        v@ == esp32_verdict(pin, purpose, module),
{
    if 6 <= pin && pin <= 11 {
        return PinValidation::error(ESP32_FLASH);
    }
    if pin == 12 && purpose.is_output() {
        return PinValidation::error(ESP32_GPIO12);
    }
    if 34 <= pin && pin <= 39 && purpose.is_output() {
        return PinValidation::error(ESP32_INPUT_ONLY);
    }
    let psram = match module {
        Some(Module::Wrover) | Some(Module::Pico) => true,
        _ => false,
    };
    if psram && (pin == 16 || pin == 17) {
        return PinValidation::error(ESP32_PSRAM);
    }
    let on_adc2 = pin == 0 || pin == 2 || pin == 4 || (12 <= pin && pin <= 15) || (25 <= pin
        && pin <= 27);
    if on_adc2 && purpose == PinPurpose::Adc {
        return PinValidation::warning(ESP32_ADC2);
    }
    if pin == 0 {
        return PinValidation::warning(ESP32_GPIO0);
    }
    if pin == 2 {
        return PinValidation::warning(ESP32_GPIO2);
    }
    if pin == 5 {
        return PinValidation::info(ESP32_GPIO5);
    }
    if pin == 15 {
        return PinValidation::warning(ESP32_GPIO15);
    }
    let safe = pin == 4 || pin == 13 || pin == 14 || (16 <= pin && pin <= 19) || (21 <= pin
        && pin <= 23) || (25 <= pin && pin <= 27) || pin == 32 || pin == 33;
    if safe {
        return PinValidation::ok();
    }
    if 34 <= pin && pin <= 39 && !purpose.is_output() {
        return PinValidation::ok();
    }
    let shown = to_decimal(pin as u64);
    let message = concat3(
        "GPIO ",
        shown.as_str(),
        " is not in the safe GPIO list. Verify it's appropriate for your board.",
    );
    PinValidation::info(message.as_str())
}

/// Validates a pin of an ESP8266.
pub fn validate_esp8266_pin(pin: u8, purpose: PinPurpose) -> (v: PinValidation)
    ensures
        v@ == esp8266_verdict(pin, purpose),
{
    if 6 <= pin && pin <= 11 {
        return PinValidation::error(ESP8266_FLASH);
    }
    if pin == 0 {
        return PinValidation::warning(ESP8266_GPIO0);
    }
    if pin == 2 {
        return PinValidation::warning(ESP8266_GPIO2);
    }
    if pin == 15 {
        return PinValidation::warning(ESP8266_GPIO15);
    }
    if pin == 16 && (purpose == PinPurpose::Pwm || purpose == PinPurpose::I2c) {
        return PinValidation::error(ESP8266_GPIO16);
    }
    if pin == 4 || pin == 5 || (12 <= pin && pin <= 14) {
        return PinValidation::ok();
    }
    let shown = to_decimal(pin as u64);
    let message = concat3(
        "GPIO ",
        shown.as_str(),
        " may have constraints on ESP8266. Verify it's appropriate for your use.",
    );
    PinValidation::info(message.as_str())
}

/// Validates a pin of an Arduino Uno.
pub fn validate_avr_pin(pin: u8, _purpose: PinPurpose) -> (v: PinValidation)
    ensures
        v@ == avr_verdict(pin),
{
    if pin > 19 {
        let shown = to_decimal(pin as u64);
        let message = concat3("Pin ", shown.as_str(), " is out of range for Arduino Uno (0-19).");
        return PinValidation::error(message.as_str());
    }
    if pin == 0 || pin == 1 {
        return PinValidation::warning(AVR_SERIAL);
    }
    if pin == 13 {
        return PinValidation::info(AVR_LED);
    }
    PinValidation::ok()
}

/// The pins offered for general use on `platform`, in ascending order.
pub open spec fn safe_pins(platform: Platform, module: Option<Module>) -> Seq<u8> {
    match platform {
        Platform::Esp32 => if has_psram(module) {
            seq![4u8, 13, 14, 18, 19, 21, 22, 23, 25, 26, 27, 32, 33]
        } else {
            seq![4u8, 13, 14, 16, 17, 18, 19, 21, 22, 23, 25, 26, 27, 32, 33]
        },
        Platform::Esp8266 => seq![4u8, 5, 12, 13, 14],
        Platform::Avr => seq![2u8, 3, 4, 5, 6, 7, 8, 9, 10, 11, 12, 13, 14, 15, 16, 17, 18, 19],
    }
}

fn pins_through(from: u8, to: u8, pins: &mut Vec<u8>)
    requires
        from <= to < 255,
    ensures
        final(pins)@ == old(pins)@ + Seq::new((to - from + 1) as nat, |i: int| (from + i) as u8),
{
    let mut pin: u8 = from;
    while pin <= to
        invariant
            from <= pin <= to + 1,
            to < 255,
            pins@ == old(pins)@ + Seq::new((pin - from) as nat, |i: int| (from + i) as u8),
        decreases to + 1 - pin,
    {
        pins.push(pin);
        pin += 1;
        assert(pins@ =~= old(pins)@ + Seq::new((pin - from) as nat, |i: int| (from + i) as u8));
    }
    assert(pins@ =~= old(pins)@ + Seq::new((to - from + 1) as nat, |i: int| (from + i) as u8));
}

/// Returns a list of safe GPIO pins for a platform.
pub fn get_safe_pins(platform: Platform, module: Option<Module>) -> (pins: Vec<u8>)
    ensures
        pins@ == safe_pins(platform, module),
{
    let mut pins: Vec<u8> = Vec::new();
    match platform {
        Platform::Esp32 => {
            let psram = match module {
                Some(Module::Wrover) | Some(Module::Pico) => true,
                _ => false,
            };
            pins.push(4);
            pins.push(13);
            pins.push(14);
            if !psram {
                pins.push(16);
                pins.push(17);
            }
            pins_through(18, 19, &mut pins);
            pins_through(21, 23, &mut pins);
            pins_through(25, 27, &mut pins);
            pins_through(32, 33, &mut pins);
        },
        Platform::Esp8266 => {
            pins_through(4, 5, &mut pins);
            pins_through(12, 14, &mut pins);
        },
        Platform::Avr => {
            pins_through(2, 19, &mut pins);
        },
    }
    assert(pins@ =~= safe_pins(platform, module));
    pins
}

/// Every pin offered for general use is accepted for every purpose.
pub proof fn lemma_safe_pins_are_valid(
    platform: Platform,
    module: Option<Module>,
    purpose: PinPurpose,
    i: int,
)
    requires
        0 <= i < safe_pins(platform, module).len(),
    ensures
        pin_verdict(safe_pins(platform, module)[i], purpose, platform, module).valid,
{
}

} // verus!
