//! Message-type codes: the leading decimal number of every command line.

use vstd::prelude::*;

verus! {

/// The family a command line belongs to.
#[derive(Clone, Copy, Debug, PartialEq, Eq, Structural)]
pub enum MessageType {
    PerformTouch,
    ProcessBringForeground,
    ShowAlertBox,
    RunShell,
    TouchRecordingStart,
    TouchRecordingStop,
    CrazyTap,
    Depricated,
    Usleep,
    PlayScript,
    PlayScriptForceStop,
    TemplateMatch,
    ShowToast,
    ColorPicker,
    Keyboardimpl,
    GetDeviceInfo,
    TouchIndicator,
    TextRecognizer,
    ColorSearcher,
}

impl MessageType {
    /// The wire code of a message type: the variants are numbered 10 to 28 in
    /// declaration order.
    pub open spec fn spec_code(self) -> u8 {
        match self {
            MessageType::PerformTouch => 10,
            MessageType::ProcessBringForeground => 11,
            MessageType::ShowAlertBox => 12,
            MessageType::RunShell => 13,
            MessageType::TouchRecordingStart => 14,
            MessageType::TouchRecordingStop => 15,
            MessageType::CrazyTap => 16,
            MessageType::Depricated => 17,
            MessageType::Usleep => 18,
            MessageType::PlayScript => 19,
            MessageType::PlayScriptForceStop => 20,
            MessageType::TemplateMatch => 21,
            MessageType::ShowToast => 22,
            MessageType::ColorPicker => 23,
            MessageType::Keyboardimpl => 24,
            MessageType::GetDeviceInfo => 25,
            MessageType::TouchIndicator => 26,
            MessageType::TextRecognizer => 27,
            MessageType::ColorSearcher => 28,
        }
    }

    /// Computes the wire code.
    #[verifier::when_used_as_spec(spec_code)]
    pub fn code(self) -> (code: u8)
        ensures
            code == self.spec_code(),
            10 <= code <= 28,
    {
        match self {
            MessageType::PerformTouch => 10,
            MessageType::ProcessBringForeground => 11,
            MessageType::ShowAlertBox => 12,
            MessageType::RunShell => 13,
            MessageType::TouchRecordingStart => 14,
            MessageType::TouchRecordingStop => 15,
            MessageType::CrazyTap => 16,
            MessageType::Depricated => 17,
            MessageType::Usleep => 18,
            MessageType::PlayScript => 19,
            MessageType::PlayScriptForceStop => 20,
            MessageType::TemplateMatch => 21,
            MessageType::ShowToast => 22,
            MessageType::ColorPicker => 23,
            MessageType::Keyboardimpl => 24,
            MessageType::GetDeviceInfo => 25,
            MessageType::TouchIndicator => 26,
            MessageType::TextRecognizer => 27,
            MessageType::ColorSearcher => 28,
        }
    }
}

impl From<MessageType> for u8 {
    fn from(value: MessageType) -> (code: u8)
        ensures
            code == value.spec_code(),
    {
        value.code()
    }
}

impl vstd::std_specs::convert::FromSpecImpl<MessageType> for u8 {
    open spec fn obeys_from_spec() -> bool {
        true
    }

    open spec fn from_spec(value: MessageType) -> u8 {
        value.spec_code()
    }
}

} // verus!
