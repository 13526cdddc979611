//! Settings that a device or the whole application carries.

use vstd::prelude::*;
use vstd::string::StrSliceExecFns;

use crate::binding::button::ButtonId;
use crate::ordered::{opt, replicate_opt, Replicate};
use crate::text::{after_prefix, digit_worth, number, small_letters, strip_prefix};

verus! {

/// A colour.
#[derive(Clone, Copy, Debug, PartialEq, Eq, Hash, Structural)]
pub struct Rgb {
    pub red: u8,
    pub green: u8,
    pub blue: u8,
}

/// The text does not name a colour.
#[derive(Clone, Copy, Debug, PartialEq, Eq, Structural)]
pub struct ParseColorError;

/// The value of a hexadecimal digit.
pub open spec fn digit_value(c: char) -> Option<int> {
    if '0' <= c <= '9' {
        Some(c as int - '0' as int)
    } else if 'a' <= c <= 'f' {
        Some(c as int - 'a' as int + 10)
    } else if 'A' <= c <= 'F' {
        Some(c as int - 'A' as int + 10)
    } else {
        None
    }
}

/// The text of a colour without the hash sign it may begin with.
pub open spec fn color_digits(text: Seq<char>) -> Seq<char> {
    match after_prefix(text, "#"@) {
        Some(rest) => rest,
        None => text,
    }
}

/// Whether `text` is six hexadecimal digits, behind a hash sign or not.
pub open spec fn is_color(text: Seq<char>) -> bool {
    let digits = color_digits(text);
    &&& digits.len() == 6
    &&& forall|i: int| 0 <= i < 6 ==> digit_value(#[trigger] digits[i]) is Some
}

/// The byte that two digits from position `i` make.
pub open spec fn byte_at(digits: Seq<char>, i: int) -> int {
    digit_value(digits[i]).unwrap() * 16 + digit_value(digits[i + 1]).unwrap()
}

fn value_of(c: char) -> (value: Option<u8>)
    ensures
        match value {
            Some(v) => v < 16 && digit_value(c) == Some(v as int),
            None => digit_value(c) is None,
        },
{
    if '0' <= c && c <= '9' {
        Some((c as u8) - 48)
    } else if 'a' <= c && c <= 'f' {
        Some((c as u8) - 87)
    } else if 'A' <= c && c <= 'F' {
        Some((c as u8) - 55)
    } else {
        None
    }
}

fn byte_of(digits: &str, i: usize) -> (byte: Option<u8>)
    requires
        digits@.len() == 6,
        i < 5,
    ensures
        match byte {
            Some(b) => digit_value(digits@[i as int]) is Some && digit_value(digits@[i + 1]) is Some
                && b == byte_at(digits@, i as int),
            None => digit_value(digits@[i as int]) is None || digit_value(digits@[i + 1]) is None,
        },
{
    match (value_of(digits.get_char(i)), value_of(digits.get_char(i + 1))) {
        (Some(high), Some(low)) => Some(high * 16 + low),
        _ => None,
    }
}

impl Rgb {
    /// A colour.
    pub fn new(red: u8, green: u8, blue: u8) -> (color: Rgb)
        ensures
            color == (Rgb { red, green, blue }),
    {
        Rgb { red, green, blue }
    }

    /// Read a colour such as `00aabb`.
    pub fn parse(text: &str) -> (result: Result<Rgb, ParseColorError>)
        ensures
            match result {
                Ok(color) => {
                    &&& is_color(text@)
                    &&& color.red == byte_at(color_digits(text@), 0)
                    &&& color.green == byte_at(color_digits(text@), 2)
                    &&& color.blue == byte_at(color_digits(text@), 4)
                },
                Err(_) => !is_color(text@),
            },
    {
        let digits = match strip_prefix(text, "#") {
            Some(rest) => rest,
            None => text,
        };
        if digits.unicode_len() != 6 {
            return Err(ParseColorError);
        }
        match (byte_of(digits, 0), byte_of(digits, 2), byte_of(digits, 4)) {
            (Some(red), Some(green), Some(blue)) => {
                assert forall|i: int| 0 <= i < 6 implies digit_value(
                    #[trigger] digits@[i],
                ) is Some by {
                    assert(i == 0 || i == 1 || i == 2 || i == 3 || i == 4 || i == 5);
                }
                Ok(Rgb { red, green, blue })
            },
            _ => Err(ParseColorError),
        }
    }
}

/// Keyboard lighting.
#[derive(Clone, Copy, Debug, PartialEq, Eq, Hash, Structural)]
pub struct Lighting {
    pub enabled: bool,
    pub color: Rgb,
    pub brightness: u8,
}

impl Default for Lighting {
    fn default() -> (lighting: Self)
        ensures
            lighting == (Lighting {
                enabled: true,
                color: Rgb { red: 255, green: 255, blue: 255 },
                brightness: 100,
            }),
    {
        Lighting { enabled: true, color: Rgb { red: 255, green: 255, blue: 255 }, brightness: 100 }
    }
}

/// A standalone light.
#[derive(Clone, Copy, Debug, PartialEq, Eq, Hash, Structural)]
pub struct LightSettings {
    pub enabled: bool,
    pub auto_camera: bool,
    pub brightness_percent: u8,
    pub temperature_kelvin: Option<u16>,
    pub color: Option<Rgb>,
}

impl Default for LightSettings {
    fn default() -> (light: Self)
        ensures
            light == (LightSettings {
                enabled: true,
                auto_camera: false,
                brightness_percent: 100,
                temperature_kelvin: None,
                color: None,
            }),
    {
        LightSettings {
            enabled: true,
            auto_camera: false,
            brightness_percent: 100,
            temperature_kelvin: None,
            color: None,
        }
    }
}

/// A brightness above a hundred percent.
#[derive(Clone, Copy, Debug, PartialEq, Eq, Structural)]
pub struct BrightnessRangeError;

/// A brightness read from a file, in percent.
pub fn brightness_from(value: u8) -> (result: Result<u8, BrightnessRangeError>)
    ensures
        match result {
            Ok(percent) => value <= 100 && percent == value,
            Err(_) => value > 100,
        },
{
    if value > 100 {
        Err(BrightnessRangeError)
    } else {
        Ok(value)
    }
}

/// Image controls of a camera; what is unset is left to the camera.
#[derive(Clone, Copy, Debug, PartialEq, Eq, Hash, Structural)]
pub struct CameraControls {
    pub brightness: Option<i32>,
    pub contrast: Option<i32>,
    pub saturation: Option<i32>,
    pub sharpness: Option<i32>,
    pub zoom: Option<i32>,
}

impl View for CameraControls {
    type V = CameraControls;

    open spec fn view(&self) -> CameraControls {
        *self
    }
}

impl Replicate for CameraControls {
    fn replicate(&self) -> (copy: Self) {
        *self
    }
}

/// How much a turn of a wheel counts, from one to a hundred.
#[derive(Clone, Copy, Debug, PartialEq, Eq, PartialOrd, Ord, Hash, Structural)]
pub struct ThumbwheelSensitivity {
    pub value: u8,
}

/// A sensitivity outside its range.
#[derive(Clone, Copy, Debug, PartialEq, Eq, Structural)]
pub struct SensitivityRangeError;

impl ThumbwheelSensitivity {
    /// The lowest sensitivity.
    pub const MIN: u8 = 1;

    /// The sensitivity at which the wheel is left to the device.
    pub const DEFAULT: u8 = 14;

    /// The highest sensitivity.
    pub const MAX: u8 = 100;

    /// The sensitivity at which the wheel is left to the device.
    pub open spec fn native() -> ThumbwheelSensitivity {
        ThumbwheelSensitivity { value: Self::DEFAULT }
    }

    /// A sensitivity, where it is in range.
    pub fn try_new(value: i32) -> (result: Result<Self, SensitivityRangeError>)
        ensures
            match result {
                Ok(sensitivity) => Self::MIN <= value <= Self::MAX && sensitivity.value == value,
                Err(_) => value < Self::MIN || value > Self::MAX,
            },
    {
        if value < Self::MIN as i32 || value > Self::MAX as i32 {
            Err(SensitivityRangeError)
        } else {
            Ok(ThumbwheelSensitivity { value: value as u8 })
        }
    }
}

impl Default for ThumbwheelSensitivity {
    fn default() -> (sensitivity: Self)
        ensures
            sensitivity == ThumbwheelSensitivity::native(),
    {
        ThumbwheelSensitivity { value: ThumbwheelSensitivity::DEFAULT }
    }
}

/// How far a turn of the main wheel scrolls, from one to a hundred.
#[derive(Clone, Copy, Debug, PartialEq, Eq, PartialOrd, Ord, Hash, Structural)]
pub struct VerticalScrollSensitivity {
    pub value: u8,
}

impl VerticalScrollSensitivity {
    /// The lowest sensitivity.
    pub const MIN: u8 = 1;

    /// The highest sensitivity.
    pub const MAX: u8 = 100;

    /// A sensitivity, where it is in range.
    pub fn try_new(value: i32) -> (result: Result<Self, SensitivityRangeError>)
        ensures
            match result {
                Ok(sensitivity) => Self::MIN <= value <= Self::MAX && sensitivity.value == value,
                Err(_) => value < Self::MIN || value > Self::MAX,
            },
    {
        if value < Self::MIN as i32 || value > Self::MAX as i32 {
            Err(SensitivityRangeError)
        } else {
            Ok(VerticalScrollSensitivity { value: value as u8 })
        }
    }
}

/// Settings that belong to no device.
///
/// What only the user interface reads is kept as it names it, and is absent
/// until the user chooses.
#[derive(Debug, PartialEq, Eq)]
pub struct AppSettings {
    /// Whether the agent starts at login.
    pub launch_at_login: bool,
    /// Whether the mouse hook may be installed.
    pub capture_mouse_events: bool,
    /// Whether scrolling is smoothed.
    pub smooth_scroll: bool,
    /// Thumb wheel sensitivity of every device without one of its own.
    pub thumbwheel_sensitivity: ThumbwheelSensitivity,
    /// Main wheel sensitivity, where the user set one.
    pub vertical_scroll_sensitivity: Option<VerticalScrollSensitivity>,
    /// The interface language, where it does not follow the system.
    pub language: Option<String>,
    /// How large the interface is.
    pub ui_scale: Option<String>,
    /// How devices are laid out.
    pub device_view_mode: Option<String>,
    /// Where pictures of devices come from.
    pub asset_source: Option<String>,
    /// The icon of the application.
    pub app_icon: Option<String>,
    /// Light or dark.
    pub appearance: Option<String>,
    /// Whether pictures of devices are downloaded.
    pub auto_download_assets: Option<bool>,
    /// Whether the agent shows in the menu bar.
    pub show_in_menu_bar: Option<bool>,
    /// Whether updates are looked for.
    pub check_for_updates: Option<bool>,
}

/// The model of [`AppSettings`].
pub ghost struct AppModel {
    pub launch_at_login: bool,
    pub capture_mouse_events: bool,
    pub smooth_scroll: bool,
    pub thumbwheel_sensitivity: ThumbwheelSensitivity,
    pub vertical_scroll_sensitivity: Option<VerticalScrollSensitivity>,
    pub language: Option<Seq<char>>,
    pub ui_scale: Option<Seq<char>>,
    pub device_view_mode: Option<Seq<char>>,
    pub asset_source: Option<Seq<char>>,
    pub app_icon: Option<Seq<char>>,
    pub appearance: Option<Seq<char>>,
    pub auto_download_assets: Option<bool>,
    pub show_in_menu_bar: Option<bool>,
    pub check_for_updates: Option<bool>,
}

impl View for AppSettings {
    type V = AppModel;

    open spec fn view(&self) -> AppModel {
        AppModel {
            launch_at_login: self.launch_at_login,
            capture_mouse_events: self.capture_mouse_events,
            smooth_scroll: self.smooth_scroll,
            thumbwheel_sensitivity: self.thumbwheel_sensitivity,
            vertical_scroll_sensitivity: self.vertical_scroll_sensitivity,
            language: opt(self.language),
            ui_scale: opt(self.ui_scale),
            device_view_mode: opt(self.device_view_mode),
            asset_source: opt(self.asset_source),
            app_icon: opt(self.app_icon),
            appearance: opt(self.appearance),
            auto_download_assets: self.auto_download_assets,
            show_in_menu_bar: self.show_in_menu_bar,
            check_for_updates: self.check_for_updates,
        }
    }
}

impl AppModel {
    /// What holds until the user says otherwise.
    pub open spec fn unset() -> AppModel {
        AppModel {
            launch_at_login: true,
            capture_mouse_events: true,
            smooth_scroll: false,
            thumbwheel_sensitivity: ThumbwheelSensitivity::native(),
            vertical_scroll_sensitivity: None,
            language: None,
            ui_scale: None,
            device_view_mode: None,
            asset_source: None,
            app_icon: None,
            appearance: None,
            auto_download_assets: None,
            show_in_menu_bar: None,
            check_for_updates: None,
        }
    }
}

impl Replicate for AppSettings {
    fn replicate(&self) -> (copy: Self) {
        AppSettings {
            launch_at_login: self.launch_at_login,
            capture_mouse_events: self.capture_mouse_events,
            smooth_scroll: self.smooth_scroll,
            thumbwheel_sensitivity: self.thumbwheel_sensitivity,
            vertical_scroll_sensitivity: self.vertical_scroll_sensitivity,
            language: replicate_opt(&self.language),
            ui_scale: replicate_opt(&self.ui_scale),
            device_view_mode: replicate_opt(&self.device_view_mode),
            asset_source: replicate_opt(&self.asset_source),
            app_icon: replicate_opt(&self.app_icon),
            appearance: replicate_opt(&self.appearance),
            auto_download_assets: self.auto_download_assets,
            show_in_menu_bar: self.show_in_menu_bar,
            check_for_updates: self.check_for_updates,
        }
    }
}

impl Clone for AppSettings {
    fn clone(&self) -> (copy: Self)
        ensures
            copy@ == self@,
    {
        self.replicate()
    }
}

impl Default for AppSettings {
    fn default() -> (settings: Self)
        ensures
            settings@ == AppModel::unset(),
    {
        AppSettings {
            launch_at_login: true,
            capture_mouse_events: true,
            smooth_scroll: false,
            thumbwheel_sensitivity: ThumbwheelSensitivity { value: ThumbwheelSensitivity::DEFAULT },
            vertical_scroll_sensitivity: None,
            language: None,
            ui_scale: None,
            device_view_mode: None,
            asset_source: None,
            app_icon: None,
            appearance: None,
            auto_download_assets: None,
            show_in_menu_bar: None,
            check_for_updates: None,
        }
    }
}

/// The one button that swiped, in files that allowed only one.
#[derive(Clone, Copy, Debug, PartialEq, Eq, Hash, Structural)]
pub enum GestureOwner {
    /// No button swiped.
    Off,
    /// This button swiped.
    Button(ButtonId),
}

/// A colour is read as its red, then its green, then its blue, each from two
/// hexadecimal digits; capital letters make no difference, nor does a hash sign
/// in front. Nothing else is a colour.
pub proof fn law_a_color_reads_as_its_bytes(text: Seq<char>)
    requires
        text.len() > 0 ==> text[0] != '#',
    ensures
        is_color("#"@ + text) <==> is_color(text),
        color_digits("#"@ + text) == color_digits(text),
        is_color(small_letters(text)) <==> is_color(text),
        is_color(text) <==> text.len() == 6 && forall|i: int|
            0 <= i < 6 ==> ('0' <= #[trigger] small_letters(text)[i] <= '9' || 'a'
                <= small_letters(text)[i] <= 'f'),
        is_color(text) ==> {
            let digits = color_digits(text);
            &&& byte_at(digits, 0) == number(small_letters(text).subrange(0, 2), 16)
            &&& byte_at(digits, 2) == number(small_letters(text).subrange(2, 4), 16)
            &&& byte_at(digits, 4) == number(small_letters(text).subrange(4, 6), 16)
        },
{
    reveal_strlit("#");
    let small = small_letters(text);
    let marked = "#"@ + text;
    assert(small.len() == text.len());
    assert(marked.skip(1) =~= text);
    assert(marked.take(1) =~= "#"@);
    assert(text.len() >= 1 ==> text.take(1)[0] == text[0]);
    assert(small.len() >= 1 ==> small.take(1)[0] == small[0]);
    assert(small.len() >= 1 && small[0] == '#' ==> text[0] == '#');
    assert(color_digits(text) == text);
    assert(color_digits(small) == small);
    assert(color_digits(marked) == text);
    assert forall|i: int| 0 <= i < text.len() implies digit_value(#[trigger] text[i])
        == digit_value(small[i]) by {}
    if is_color(small) {
        assert forall|i: int| 0 <= i < 6 implies digit_value(#[trigger] text[i]) is Some by {
            assert(digit_value(small[i]) is Some);
        }
    }
    if is_color(text) {
        assert forall|i: int| 0 <= i < 6 implies digit_value(#[trigger] small[i]) is Some by {
            assert(digit_value(text[i]) is Some);
        }
        lemma_two_digits(small, 0);
        lemma_two_digits(small, 2);
        lemma_two_digits(small, 4);
    }
}

proof fn lemma_two_digits(digits: Seq<char>, i: int)
    requires
        0 <= i,
        i + 2 <= digits.len(),
    ensures
        number(digits.subrange(i, i + 2), 16) == digit_worth(digits[i]) * 16 + digit_worth(
            digits[i + 1],
        ),
{
    reveal_with_fuel(number, 3);
    let two = digits.subrange(i, i + 2);
    assert(two.drop_last().drop_last() =~= Seq::<char>::empty());
    assert(two.drop_last().last() == digits[i]);
    assert(two.last() == digits[i + 1]);
}

}
