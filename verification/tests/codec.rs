use zxtouch::codec::{
    decode_device_info, decode_image_find, decode_screen_orientation, decode_screen_scale,
    decode_screen_size, decode_touch, decode_touch_event, encode, encode_touch,
    encode_touch_events,
};
use zxtouch::entity::{
    DeviceInfo, MatchInfo, ParamType, ScreenOrientation, TouchFinger, TouchType,
};
use zxtouch::error::Error;
use zxtouch::message_type::MessageType;

#[test]
fn encode_show_alert_box_line() {
    let args = vec![
        ParamType::String("hello".to_string()),
        ParamType::String("hi".to_string()),
        ParamType::U32(3),
    ];
    assert_eq!(encode(MessageType::ShowAlertBox, &args), "12hello;;hi;;3\r\n");
}

#[test]
fn encode_without_arguments() {
    assert_eq!(encode(MessageType::TouchRecordingStart, &[]), "14\r\n");
}

#[test]
fn encode_one_argument_has_no_separator() {
    assert_eq!(encode(MessageType::RunShell, &[ParamType::String("pwd".to_string())]), "13pwd\r\n");
    assert_eq!(encode(MessageType::GetDeviceInfo, &[ParamType::U8(30)]), "2530\r\n");
}

#[test]
fn encode_every_kind_of_argument() {
    let args = vec![
        ParamType::I32(-5),
        ParamType::U32(4000000000),
        ParamType::U8(255),
        ParamType::String(String::new()),
        ParamType::String("a;;b".to_string()),
    ];
    assert_eq!(encode(MessageType::ColorSearcher, &args), "28-5;;4000000000;;255;;;;a;;b\r\n");
}

#[test]
fn encode_touch_down_line() {
    assert_eq!(
        encode_touch(TouchType::Down, 200, 200, TouchFinger::Five),
        format!("{}{}{}{}{}{}{}", "10", "1", "1", "5", "02000", "02000", "\r\n")
    );
    assert_eq!(
        encode_touch(TouchType::Down, 200, 200, TouchFinger::Five),
        "101150200002000\r\n"
    );
}

#[test]
fn encode_touch_of_each_type_and_finger() {
    assert_eq!(encode_touch(TouchType::Up, 0, 0, TouchFinger::One), "101010000000000\r\n");
    assert_eq!(encode_touch(TouchType::Move, 1, 2, TouchFinger::Two), "101220001000020\r\n");
    assert_eq!(encode_touch(TouchType::Down, 9999, 9999, TouchFinger::Three), "101139999099990\r\n");
    assert_eq!(encode_touch(TouchType::Down, 329, 2144, TouchFinger::Four), "101140329021440\r\n");
}

#[test]
fn encode_touch_beyond_five_digits_keeps_every_digit() {
    assert_eq!(encode_touch(TouchType::Down, 10000, 1, TouchFinger::Five), "1011510000000010\r\n");
    assert_eq!(
        encode_touch(TouchType::Down, u32::MAX, u32::MAX, TouchFinger::Five),
        "101154294967295042949672950\r\n"
    );
}

#[test]
fn encode_touch_events_line() {
    let list = vec![
        (TouchType::Down, 300, 400, TouchFinger::Five),
        (TouchType::Up, 300, 400, TouchFinger::Five),
    ];
    assert_eq!(encode_touch_events(&list), "10210503000040000050300004000\r\n");
}

#[test]
fn encode_touch_events_of_an_empty_batch() {
    assert_eq!(encode_touch_events(&[]), "100\r\n");
}

#[test]
fn encode_touch_events_counts_in_decimal() {
    let list = vec![(TouchType::Move, 1, 2, TouchFinger::One); 12];
    let mut expected = String::from("1012");
    for _ in 0..12 {
        expected.push_str("2010001000020");
    }
    expected.push_str("\r\n");
    assert_eq!(encode_touch_events(&list), expected);
}

#[test]
fn decode_touch_reads_the_fixed_fields() {
    assert_eq!(
        decode_touch("101150200002000\r\n"),
        Some((TouchType::Down, 2000, 2000, TouchFinger::Five))
    );
    assert_eq!(
        decode_touch("101010000099999\r\n"),
        Some((TouchType::Up, 0, 99999, TouchFinger::One))
    );
}

#[test]
fn decode_touch_refuses_other_lines() {
    for line in ["", "101150200002000", "101150200002000\n\r", "101150200002000\r\n ",
        "111150200002000\r\n", "102150200002000\r\n", "101350200002000\r\n",
        "101100200002000\r\n", "101160200002000\r\n", "10115020000200a\r\n",
        "10115+200002000\r\n", "1011502000020000\r\n", "10115020000200\r\n"]
    {
        assert_eq!(decode_touch(line), None, "{:?}", line);
    }
}

#[test]
fn touch_round_trip() {
    let types = [TouchType::Down, TouchType::Move, TouchType::Up];
    let fingers = [
        TouchFinger::One,
        TouchFinger::Two,
        TouchFinger::Three,
        TouchFinger::Four,
        TouchFinger::Five,
    ];
    let coordinates = [0u32, 1, 9, 10, 200, 329, 2144, 5000, 9998, 9999];
    for touch_type in types {
        for finger in fingers {
            for x in coordinates {
                for y in coordinates {
                    let line = encode_touch(touch_type, x, y, finger);
                    assert_eq!(decode_touch(&line), Some((touch_type, x * 10, y * 10, finger)));
                }
            }
        }
    }
}

#[test]
fn decode_touch_event_reads_the_fixed_fields() {
    assert_eq!(
        decode_touch_event("1050300004000"),
        Some((TouchType::Down, 3000, 4000, TouchFinger::Five))
    );
    assert_eq!(
        decode_touch_event("0010000099999"),
        Some((TouchType::Up, 0, 99999, TouchFinger::One))
    );
}

#[test]
fn decode_touch_event_refuses_other_texts() {
    for text in ["", "105030000400", "10503000040000", "3050300004000", "1000300004000",
        "1060300004000", "1150300004000", "1 50300004000", "10503000040a0", "105030000400\r"]
    {
        assert_eq!(decode_touch_event(text), None, "{:?}", text);
    }
}

#[test]
fn touch_events_round_trip() {
    let list = vec![
        (TouchType::Down, 0, 9999, TouchFinger::One),
        (TouchType::Move, 329, 2144, TouchFinger::Two),
        (TouchType::Move, 9999, 0, TouchFinger::Three),
        (TouchType::Up, 1, 1, TouchFinger::Four),
        (TouchType::Up, 200, 200, TouchFinger::Five),
    ];
    let line = encode_touch_events(&list);
    assert_eq!(line.len(), 2 + 1 + 13 * list.len() + 2);
    assert_eq!(&line[..3], "105");
    assert_eq!(&line[line.len() - 2..], "\r\n");
    for (i, (touch_type, x, y, finger)) in list.into_iter().enumerate() {
        let text = &line[3 + 13 * i..3 + 13 * (i + 1)];
        assert_eq!(decode_touch_event(text), Some((touch_type, x * 10, y * 10, finger)));
    }
}

#[test]
fn decode_screen_size_cuts_the_fraction() {
    assert_eq!(decode_screen_size("_;;1170.0;;2532.0\r\n"), Ok((1170, 2532)));
    assert_eq!(decode_screen_size("0;;750.9;;1334.99999;;x"), Ok((750, 1334)));
    assert_eq!(decode_screen_size("0;;-1.5;;+2"), Ok((-1, 2)));
}

#[test]
fn decode_screen_size_refuses_a_malformed_reply() {
    for reply in ["", "_", "_;;1170.0", "_;;a.0;;2532.0", "_;;1170.0;;2532\r\n", "_;;;;",
        "_;; 1170.0;;2532.0", "_;;99999999999.0;;1.0"]
    {
        assert_eq!(decode_screen_size(reply), Err(Error::Protocol), "{:?}", reply);
    }
}

#[test]
fn decode_screen_orientation_maps_codes() {
    assert_eq!(decode_screen_orientation("0;;0\r\n"), Ok(ScreenOrientation::Up));
    assert_eq!(decode_screen_orientation("0;;1\r\n"), Ok(ScreenOrientation::Down));
    assert_eq!(decode_screen_orientation("0;;2\r\n"), Ok(ScreenOrientation::Left));
    assert_eq!(decode_screen_orientation("0;;3\r\n"), Ok(ScreenOrientation::Right));
    assert_eq!(decode_screen_orientation("0;;4\r\n"), Ok(ScreenOrientation::Down));
    assert_eq!(decode_screen_orientation("0;; -7 ;;x"), Ok(ScreenOrientation::Down));
}

#[test]
fn decode_screen_orientation_refuses_a_malformed_reply() {
    for reply in ["", "0", "0;;", "0;;\r\n", "0;;1.0\r\n", "0;;up"] {
        assert_eq!(decode_screen_orientation(reply), Err(Error::Protocol), "{:?}", reply);
    }
}

#[test]
fn decode_screen_scale_cuts_the_fraction() {
    assert_eq!(decode_screen_scale("0;;3.0\r\n"), Ok(3));
    assert_eq!(decode_screen_scale("0;;2\r\n"), Ok(2));
    assert_eq!(decode_screen_scale("0;; 2.75 "), Ok(2));
}

#[test]
fn decode_screen_scale_refuses_a_malformed_reply() {
    for reply in ["", "0", "0;;", "0;;.5", "0;;x.0", "0;;3 .0"] {
        assert_eq!(decode_screen_scale(reply), Err(Error::Protocol), "{:?}", reply);
    }
}

#[test]
fn decode_device_info_reads_five_fields() {
    assert_eq!(
        decode_device_info("_;;iPhone;;iOS;;17.0;;iPhone15;;ABCD \r\n"),
        Ok(DeviceInfo {
            device_name: "iPhone".to_string(),
            system_name: "iOS".to_string(),
            system_version: "17.0".to_string(),
            model: "iPhone15".to_string(),
            identifier_for_vendor: "ABCD".to_string(),
        })
    );
}

#[test]
fn decode_device_info_keeps_the_other_fields_as_they_are() {
    assert_eq!(
        decode_device_info("0;; My Phone ;;;;1;;m ;; id ;;more;;fields"),
        Ok(DeviceInfo {
            device_name: " My Phone ".to_string(),
            system_name: String::new(),
            system_version: "1".to_string(),
            model: "m ".to_string(),
            identifier_for_vendor: "id".to_string(),
        })
    );
}

#[test]
fn decode_device_info_refuses_too_few_fields() {
    for reply in ["", "_", "_;;iPhone;;iOS;;17.0;;iPhone15", "_;;iPhone;;iOS;;17.0;;iPhone15;"] {
        assert_eq!(decode_device_info(reply), Err(Error::Protocol), "{:?}", reply);
    }
}

#[test]
fn decode_image_find_of_the_zero_box_is_none() {
    assert_eq!(decode_image_find("_;;0;;0;;0;;0"), Ok(None));
    assert_eq!(decode_image_find("_;;0.0;;0.0;;0.0;;0.0\r\n"), Ok(None));
    assert_eq!(decode_image_find("_;;+0;;000;;0.9;;0;;rest"), Ok(None));
}

#[test]
fn decode_image_find_of_any_other_box_is_some() {
    assert_eq!(
        decode_image_find("_;;10.5;;20.0;;30.25;;40.0\r\n"),
        Ok(Some(MatchInfo { x: 10, y: 20, w: 30, h: 40 }))
    );
    assert_eq!(decode_image_find("_;;0;;0;;0;;1"), Ok(Some(MatchInfo { x: 0, y: 0, w: 0, h: 1 })));
    assert_eq!(decode_image_find("_;;0;;0;;1;;0"), Ok(Some(MatchInfo { x: 0, y: 0, w: 1, h: 0 })));
    assert_eq!(decode_image_find("_;;0;;1;;0;;0"), Ok(Some(MatchInfo { x: 0, y: 1, w: 0, h: 0 })));
    assert_eq!(decode_image_find("_;;1;;0;;0;;0"), Ok(Some(MatchInfo { x: 1, y: 0, w: 0, h: 0 })));
    assert_eq!(
        decode_image_find("_;;4294967295;;0;;0;;0"),
        Ok(Some(MatchInfo { x: u32::MAX, y: 0, w: 0, h: 0 }))
    );
}

#[test]
fn decode_image_find_refuses_a_malformed_reply() {
    for reply in ["", "_", "_;;0;;0;;0", "_;;0;;0;;0;;", "_;;0;;0;;0;;x", "_;;-1;;0;;0;;0",
        "_;;0;;0;;0;;0\r\n", "_;;4294967296;;0;;0;;0", "_;;0;;0;;0;; 0"]
    {
        assert_eq!(decode_image_find(reply), Err(Error::Protocol), "{:?}", reply);
    }
}
