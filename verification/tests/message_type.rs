use zxtouch::message_type::MessageType;

#[test]
fn test_message_type() {
    let v: u8 = MessageType::PerformTouch.into();
    assert_eq!(v, 10);
}

#[test]
fn message_type_codes_run_from_ten_to_twenty_eight() {
    let all = [
        MessageType::PerformTouch,
        MessageType::ProcessBringForeground,
        MessageType::ShowAlertBox,
        MessageType::RunShell,
        MessageType::TouchRecordingStart,
        MessageType::TouchRecordingStop,
        MessageType::CrazyTap,
        MessageType::Depricated,
        MessageType::Usleep,
        MessageType::PlayScript,
        MessageType::PlayScriptForceStop,
        MessageType::TemplateMatch,
        MessageType::ShowToast,
        MessageType::ColorPicker,
        MessageType::Keyboardimpl,
        MessageType::GetDeviceInfo,
        MessageType::TouchIndicator,
        MessageType::TextRecognizer,
        MessageType::ColorSearcher,
    ];
    let mut expected: u8 = 10;
    for message_type in all {
        assert_eq!(message_type.code(), expected);
        assert_eq!(u8::from(message_type), expected);
        expected += 1;
    }
    assert_eq!(expected, 29);
}

#[test]
fn message_type_codes_of_the_commands_in_use() {
    assert_eq!(MessageType::ProcessBringForeground.code(), 11);
    assert_eq!(MessageType::ShowAlertBox.code(), 12);
    assert_eq!(MessageType::RunShell.code(), 13);
    assert_eq!(MessageType::Usleep.code(), 18);
    assert_eq!(MessageType::TemplateMatch.code(), 21);
    assert_eq!(MessageType::Keyboardimpl.code(), 24);
    assert_eq!(MessageType::GetDeviceInfo.code(), 25);
    assert_eq!(MessageType::TextRecognizer.code(), 27);
}
