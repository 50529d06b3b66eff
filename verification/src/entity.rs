//! The values that commands take and replies give.

use vstd::prelude::*;
use vstd::string::*;
use crate::decimal::{digits, push_digits, push_signed_digits, signed_digits};

verus! {

/// One of the five simulated touch contacts.
#[derive(Debug, Clone, Copy, PartialEq, Eq, Structural)]
pub enum TouchFinger {
    One,
    Two,
    Three,
    Four,
    Five,
}

impl TouchFinger {
    /// The wire code of a finger: 1 for `One` up to 5 for `Five`.
    pub open spec fn spec_code(self) -> u8 {
        match self {
            TouchFinger::One => 1,
            TouchFinger::Two => 2,
            TouchFinger::Three => 3,
            TouchFinger::Four => 4,
            TouchFinger::Five => 5,
        }
    }

    /// The finger with the wire code `code`, if there is one.
    pub open spec fn spec_from_code(code: int) -> Option<TouchFinger> {
        if code == 1 {
            Some(TouchFinger::One)
        } else if code == 2 {
            Some(TouchFinger::Two)
        } else if code == 3 {
            Some(TouchFinger::Three)
        } else if code == 4 {
            Some(TouchFinger::Four)
        } else if code == 5 {
            Some(TouchFinger::Five)
        } else {
            None
        }
    }

    /// Computes the wire code.
    #[verifier::when_used_as_spec(spec_code)]
    pub fn code(self) -> (code: u8)
        ensures
            code == self.spec_code(),
            1 <= code <= 5,
            Self::spec_from_code(code as int) == Some(self),
    {
        match self {
            TouchFinger::One => 1,
            TouchFinger::Two => 2,
            TouchFinger::Three => 3,
            TouchFinger::Four => 4,
            TouchFinger::Five => 5,
        }
    }

    /// Finds the finger that has the wire code `code`.
    pub fn from_code(code: u8) -> (finger: Option<TouchFinger>)
        ensures
            finger == Self::spec_from_code(code as int),
            finger matches Some(f) ==> f.spec_code() == code,
    {
        match code {
            1 => Some(TouchFinger::One),
            2 => Some(TouchFinger::Two),
            3 => Some(TouchFinger::Three),
            4 => Some(TouchFinger::Four),
            5 => Some(TouchFinger::Five),
            _ => None,
        }
    }
}

impl From<TouchFinger> for u8 {
    fn from(value: TouchFinger) -> (code: u8)
        ensures
            code == value.spec_code(),
    {
        value.code()
    }
}

impl vstd::std_specs::convert::FromSpecImpl<TouchFinger> for u8 {
    open spec fn obeys_from_spec() -> bool {
        true
    }

    open spec fn from_spec(value: TouchFinger) -> u8 {
        value.spec_code()
    }
}

/// What a touch contact does.
#[derive(Debug, Clone, Copy, PartialEq, Eq, Structural)]
pub enum TouchType {
    Down,
    Move,
    Up,
}

impl TouchType {
    /// The wire code of a touch type: 1 for `Down`, 2 for `Move`, 0 for `Up`.
    pub open spec fn spec_code(self) -> u8 {
        match self {
            TouchType::Down => 1,
            TouchType::Move => 2,
            TouchType::Up => 0,
        }
    }

    /// The touch type with the wire code `code`, if there is one.
    pub open spec fn spec_from_code(code: int) -> Option<TouchType> {
        if code == 1 {
            Some(TouchType::Down)
        } else if code == 2 {
            Some(TouchType::Move)
        } else if code == 0 {
            Some(TouchType::Up)
        } else {
            None
        }
    }

    /// Computes the wire code.
    #[verifier::when_used_as_spec(spec_code)]
    pub fn code(self) -> (code: u8)
        ensures
            code == self.spec_code(),
            code <= 2,
            Self::spec_from_code(code as int) == Some(self),
    {
        match self {
            TouchType::Down => 1,
            TouchType::Move => 2,
            TouchType::Up => 0,
        }
    }

    /// Finds the touch type that has the wire code `code`.
    pub fn from_code(code: u8) -> (touch_type: Option<TouchType>)
        ensures
            touch_type == Self::spec_from_code(code as int),
            touch_type matches Some(t) ==> t.spec_code() == code,
    {
        match code {
            1 => Some(TouchType::Down),
            2 => Some(TouchType::Move),
            0 => Some(TouchType::Up),
            _ => None,
        }
    }
}

impl From<TouchType> for u8 {
    fn from(value: TouchType) -> (code: u8)
        ensures
            code == value.spec_code(),
    {
        value.code()
    }
}

impl vstd::std_specs::convert::FromSpecImpl<TouchType> for u8 {
    open spec fn obeys_from_spec() -> bool {
        true
    }

    open spec fn from_spec(value: TouchType) -> u8 {
        value.spec_code()
    }
}

/// One argument of a command.
#[derive(Debug, Clone, PartialEq, Eq)]
pub enum ParamType {
    String(String),
    I32(i32),
    U32(u32),
    U8(u8),
}

impl ParamType {
    /// The text of an argument on the wire: a string as it is, a number in
    /// decimal.
    pub open spec fn text(&self) -> Seq<char> {
        match self {
            ParamType::String(value) => value@,
            ParamType::I32(value) => signed_digits(*value as int),
            ParamType::U32(value) => digits(*value as nat),
            ParamType::U8(value) => digits(*value as nat),
        }
    }

    /// Appends the text of the argument to `out`.
    pub fn push_to(&self, out: &mut String)
        ensures
            final(out)@ == old(out)@ + self.text(),
    {
        match self {
            ParamType::String(value) => out.append(value.as_str()),
            ParamType::I32(value) => push_signed_digits(out, *value),
            ParamType::U32(value) => push_digits(out, *value as u64),
            ParamType::U8(value) => push_digits(out, *value as u64),
        }
    }
}

impl From<ParamType> for String {
    fn from(value: ParamType) -> (text: String)
        ensures
            text@ == value.text(),
    {
        match value {
            ParamType::String(value) => value,
            other => {
                let mut text = String::new();
                other.push_to(&mut text);
                assert(Seq::<char>::empty() + other.text() =~= other.text());
                text
            },
        }
    }
}

/// Ghost code cannot make a `String`, so no spec function gives the result of
/// this conversion: what it is stands in the `ensures` of `from`.
impl vstd::std_specs::convert::FromSpecImpl<ParamType> for String {
    open spec fn obeys_from_spec() -> bool {
        false
    }

    open spec fn from_spec(value: ParamType) -> String {
        arbitrary()
    }
}

impl From<String> for ParamType {
    fn from(value: String) -> (param: ParamType)
        ensures
            param == ParamType::String(value),
    {
        ParamType::String(value)
    }
}

impl vstd::std_specs::convert::FromSpecImpl<String> for ParamType {
    open spec fn obeys_from_spec() -> bool {
        true
    }

    open spec fn from_spec(value: String) -> ParamType {
        ParamType::String(value)
    }
}

impl From<i32> for ParamType {
    fn from(value: i32) -> (param: ParamType)
        ensures
            param == ParamType::I32(value),
    {
        ParamType::I32(value)
    }
}

impl vstd::std_specs::convert::FromSpecImpl<i32> for ParamType {
    open spec fn obeys_from_spec() -> bool {
        true
    }

    open spec fn from_spec(value: i32) -> ParamType {
        ParamType::I32(value)
    }
}

impl From<u32> for ParamType {
    fn from(value: u32) -> (param: ParamType)
        ensures
            param == ParamType::U32(value),
    {
        ParamType::U32(value)
    }
}

impl vstd::std_specs::convert::FromSpecImpl<u32> for ParamType {
    open spec fn obeys_from_spec() -> bool {
        true
    }

    open spec fn from_spec(value: u32) -> ParamType {
        ParamType::U32(value)
    }
}

impl From<u8> for ParamType {
    fn from(value: u8) -> (param: ParamType)
        ensures
            param == ParamType::U8(value),
    {
        ParamType::U8(value)
    }
}

impl vstd::std_specs::convert::FromSpecImpl<u8> for ParamType {
    open spec fn obeys_from_spec() -> bool {
        true
    }

    open spec fn from_spec(value: u8) -> ParamType {
        ParamType::U8(value)
    }
}

/// How the device's screen is turned.
#[derive(Debug, Clone, Copy, PartialEq, Eq, Structural)]
pub enum ScreenOrientation {
    Up,
    Down,
    Left,
    Right,
}

impl ScreenOrientation {
    /// The orientation that the device reports with `code`: 0 is `Up`, 1 is
    /// `Down`, 2 is `Left`, 3 is `Right`, and every other number is `Down`.
    pub open spec fn of_code(code: i32) -> ScreenOrientation {
        if code == 0 {
            ScreenOrientation::Up
        } else if code == 1 {
            ScreenOrientation::Down
        } else if code == 2 {
            ScreenOrientation::Left
        } else if code == 3 {
            ScreenOrientation::Right
        } else {
            ScreenOrientation::Down
        }
    }
}

impl From<i32> for ScreenOrientation {
    fn from(value: i32) -> (orientation: ScreenOrientation)
        ensures
            orientation == ScreenOrientation::of_code(value),
    {
        match value {
            0 => ScreenOrientation::Up,
            1 => ScreenOrientation::Down,
            2 => ScreenOrientation::Left,
            3 => ScreenOrientation::Right,
            _ => ScreenOrientation::Down,
        }
    }
}

impl vstd::std_specs::convert::FromSpecImpl<i32> for ScreenOrientation {
    open spec fn obeys_from_spec() -> bool {
        true
    }

    open spec fn from_spec(value: i32) -> ScreenOrientation {
        ScreenOrientation::of_code(value)
    }
}

/// What the device says of itself. The strings are the device's own.
#[derive(Debug, Clone, PartialEq, Eq)]
pub struct DeviceInfo {
    pub device_name: String,
    pub system_name: String,
    pub system_version: String,
    pub model: String,
    pub identifier_for_vendor: String,
}

/// The text of a `DeviceInfo`, field by field.
pub struct DeviceInfoView {
    pub device_name: Seq<char>,
    pub system_name: Seq<char>,
    pub system_version: Seq<char>,
    pub model: Seq<char>,
    pub identifier_for_vendor: Seq<char>,
}

impl View for DeviceInfo {
    type V = DeviceInfoView;

    open spec fn view(&self) -> DeviceInfoView {
        DeviceInfoView {
            device_name: self.device_name@,
            system_name: self.system_name@,
            system_version: self.system_version@,
            model: self.model@,
            identifier_for_vendor: self.identifier_for_vendor@,
        }
    }
}

/// Where a reference image was found on the screen: the corner of the
/// bounding box, its width and its height.
#[derive(Debug, Clone, Copy, PartialEq, Eq, Structural)]
pub struct MatchInfo {
    pub x: u32,
    pub y: u32,
    pub w: u32,
    pub h: u32,
}

impl MatchInfo {
    /// The match that a reported box stands for: the box whose four numbers
    /// are all 0 says that nothing was found, and every other box is a match
    /// with exactly those numbers.
    pub open spec fn spec_from_box(x: u32, y: u32, w: u32, h: u32) -> Option<MatchInfo> {
        if x == 0 && y == 0 && w == 0 && h == 0 {
            None
        } else {
            Some(MatchInfo { x, y, w, h })
        }
    }

    /// Turns a reported box into a match, or into `None` for the box of four
    /// zeros.
    pub fn from_box(x: u32, y: u32, w: u32, h: u32) -> (found: Option<MatchInfo>)
        ensures
            found == Self::spec_from_box(x, y, w, h),
            found is None <==> (x == 0 && y == 0 && w == 0 && h == 0),
            found matches Some(m) ==> m.x == x && m.y == y && m.w == w && m.h == h,
    {
        if x == 0 && y == 0 && w == 0 && h == 0 {
            None
        } else {
            Some(MatchInfo { x, y, w, h })
        }
    }

    /// The middle of the box, rounded down: `None` if a coordinate of it does
    /// not fit in 32 bits.
    pub open spec fn spec_center(&self) -> Option<(u32, u32)> {
        if self.x + self.w / 2 <= u32::MAX && self.y + self.h / 2 <= u32::MAX {
            Some(((self.x + self.w / 2) as u32, (self.y + self.h / 2) as u32))
        } else {
            None
        }
    }

    /// Computes the middle of the box.
    pub fn center(&self) -> (middle: Option<(u32, u32)>)
        ensures
            middle == self.spec_center(),
    {
        match (self.x.checked_add(self.w / 2), self.y.checked_add(self.h / 2)) {
            (Some(x), Some(y)) => Some((x, y)),
            _ => None,
        }
    }
}

/// How an image is searched for.
#[derive(Debug, Clone, PartialEq, Eq)]
pub struct FindBuilder {
    /// The lowest similarity that counts as a match, as decimal text; it is
    /// sent as it stands.
    pub acceptable: String,
    /// How many times the device tries before it gives up.
    pub max_try_times: u8,
    /// The ratio by which the device scales the screen for the search, as
    /// decimal text; it is sent as it stands.
    pub scale_ration: String,
}

/// The values of a `FindBuilder`.
pub struct FindBuilderView {
    pub acceptable: Seq<char>,
    pub max_try_times: u8,
    pub scale_ration: Seq<char>,
}

impl View for FindBuilder {
    type V = FindBuilderView;

    open spec fn view(&self) -> FindBuilderView {
        FindBuilderView {
            acceptable: self.acceptable@,
            max_try_times: self.max_try_times,
            scale_ration: self.scale_ration@,
        }
    }
}

impl FindBuilder {
    /// The settings that a search starts from: similarity `0.8`, four tries,
    /// scale ratio `0.8`.
    pub open spec fn initial() -> FindBuilderView {
        FindBuilderView {
            acceptable: seq!['0', '.', '8'],
            max_try_times: 4,
            scale_ration: seq!['0', '.', '8'],
        }
    }

    /// Makes the initial settings.
    pub fn new() -> (builder: FindBuilder)
        ensures
            builder@ == Self::initial(),
    {
        proof {
            reveal_strlit("0.8");
        }
        let builder = FindBuilder {
            acceptable: String::from_str("0.8"),
            max_try_times: 4,
            scale_ration: String::from_str("0.8"),
        };
        assert(builder.acceptable@ =~= seq!['0', '.', '8']);
        builder
    }

    /// Sets the lowest similarity that counts as a match.
    pub fn acceptable(&mut self, acceptable: &str) -> (builder: &mut FindBuilder)
        ensures
            builder@ == (FindBuilderView { acceptable: acceptable@, ..old(self)@ }),
            *final(self) == *final(builder),
    {
        self.acceptable = String::from_str(acceptable);
        self
    }

    /// Sets the number of tries.
    pub fn max_try_times(&mut self, max_try_times: u8) -> (builder: &mut FindBuilder)
        ensures
            builder@ == (FindBuilderView { max_try_times, ..old(self)@ }),
            *final(self) == *final(builder),
    {
        self.max_try_times = max_try_times;
        self
    }

    /// Sets the scale ratio.
    pub fn scale_ration(&mut self, scale_ration: &str) -> (builder: &mut FindBuilder)
        ensures
            builder@ == (FindBuilderView { scale_ration: scale_ration@, ..old(self)@ }),
            *final(self) == *final(builder),
    {
        self.scale_ration = String::from_str(scale_ration);
        self
    }

    /// Makes a copy of the settings.
    pub fn build(&self) -> (built: FindBuilder)
        ensures
            built@ == self@,
    {
        FindBuilder {
            acceptable: self.acceptable.clone(),
            max_try_times: self.max_try_times,
            scale_ration: self.scale_ration.clone(),
        }
    }
}

/// How an image is searched for and touched.
#[derive(Debug, Clone, PartialEq, Eq)]
pub struct TouchBuilder {
    /// How each search is made.
    pub find_builder: FindBuilder,
    /// For how many seconds the search is repeated before it is given up.
    pub timeout_seconds: u32,
}

/// The values of a `TouchBuilder`.
pub struct TouchBuilderView {
    pub find_builder: FindBuilderView,
    pub timeout_seconds: u32,
}

impl View for TouchBuilder {
    type V = TouchBuilderView;

    open spec fn view(&self) -> TouchBuilderView {
        TouchBuilderView { find_builder: self.find_builder@, timeout_seconds: self.timeout_seconds }
    }
}

impl TouchBuilder {
    /// Makes the initial settings: the initial search settings, repeated for
    /// ten seconds.
    pub fn new() -> (builder: TouchBuilder)
        ensures
            builder@ == (TouchBuilderView {
                find_builder: FindBuilder::initial(),
                timeout_seconds: 10,
            }),
    {
        TouchBuilder { find_builder: FindBuilder::new(), timeout_seconds: 10 }
    }

    /// Sets how each search is made.
    pub fn find_builder(&mut self, find_builder: FindBuilder) -> (builder: &mut TouchBuilder)
        ensures
            builder@ == (TouchBuilderView { find_builder: find_builder@, ..old(self)@ }),
            *final(self) == *final(builder),
    {
        self.find_builder = find_builder;
        self
    }

    /// Sets for how many seconds the search is repeated.
    pub fn timeout_seconds(&mut self, timeout_seconds: u32) -> (builder: &mut TouchBuilder)
        ensures
            builder@ == (TouchBuilderView { timeout_seconds, ..old(self)@ }),
            *final(self) == *final(builder),
    {
        self.timeout_seconds = timeout_seconds;
        self
    }

    /// Makes a copy of the settings.
    pub fn build(&self) -> (built: TouchBuilder)
        ensures
            built@ == self@,
    {
        TouchBuilder {
            find_builder: self.find_builder.build(),
            timeout_seconds: self.timeout_seconds,
        }
    }
}

} // verus!
