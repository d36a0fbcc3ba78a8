use yansongda_utils::phone::{
    get_segment, is_idd, is_mobile, is_phone, is_service, is_telephone, to_standard_format,
    MobileVendor, PhoneType,
};

const SAMPLES: [&str; 24] = [
    "13800138000",
    "+8613800138000",
    "8613800138000",
    "013800138000",
    "+86013800138000",
    "12800138000",
    "1380013800",
    "01012345678",
    "075512345678-1234",
    "01012345678-123",
    "0101234567",
    "10000000",
    "10086",
    "95588",
    ",1234",
    "1234567",
    "0012345678",
    "001234567",
    "008512345678",
    "",
    "+86",
    "abc",
    "１３８００１３８０００",
    "+86+8613800138000",
];

#[test]
fn phone_is_any_of_the_four_kinds() {
    for s in SAMPLES {
        assert_eq!(
            is_phone(s),
            is_mobile(s) || is_telephone(s) || is_service(s) || is_idd(s),
            "{}",
            s
        );
    }
}

#[test]
fn mobile_rejects_wrong_shapes() {
    assert!(is_mobile("013800138000"));
    assert!(is_mobile("8613800138000"));
    assert!(is_mobile("+86013800138000"));
    assert!(!is_mobile("12800138000"));
    assert!(!is_mobile("1380013800"));
    assert!(!is_mobile("138001380000"));
    assert!(!is_mobile("+86+8613800138000"));
    assert!(!is_mobile("１３８００１３８０００"));
    assert!(!is_mobile(""));
}

#[test]
fn telephone_rejects_wrong_shapes() {
    assert!(is_telephone("+8601012345678"));
    assert!(is_telephone("010123456789"));
    assert!(is_telephone("01012345678-1234567"));
    assert!(!is_telephone("01012345678-123"));
    assert!(!is_telephone("01012345678-12345678"));
    assert!(!is_telephone("01012345678 1234"));
    assert!(is_telephone("0101234567"));
    assert!(!is_telephone("010123456"));
    assert!(!is_telephone("01012345678901"));
    assert!(!is_telephone("1012345678"));
}

#[test]
fn service_and_idd_reject_wrong_shapes() {
    assert!(!is_service("1234567"));
    assert!(!is_service("20000"));
    assert!(!is_service(",1234"));
    assert!(!is_service("100000000"));
    assert!(!is_idd("001234567"));
    assert!(!is_idd("0112345678"));
    assert!(is_idd("00123456789012345"));
}

#[test]
fn standard_format_is_idempotent_on_mobile_numbers() {
    for s in ["13800138000", "013800138000", "8613800138000", "+8613800138000", "+86013800138000"] {
        let once = to_standard_format(s);
        assert_eq!("13800138000", once);
        assert_eq!(once, to_standard_format(once));
    }
}

#[test]
fn standard_format_keeps_idd_numbers() {
    for s in ["0012345678", "008512345678", "00123456789012345"] {
        assert_eq!(s, to_standard_format(s));
    }
}

#[test]
fn standard_format_strips_only_prefixes() {
    assert_eq!("", to_standard_format("+86"));
    assert_eq!("", to_standard_format(""));
    assert_eq!("01012345678", to_standard_format("+8601012345678"));
    assert_eq!("+8613800138000", to_standard_format("+86+8613800138000"));
}

#[test]
fn segment_edge_cases() {
    assert_eq!((PhoneType::Mobile, "+861380"), get_segment("+8613800138000"));
    assert_eq!((PhoneType::Service, "95588"), get_segment("95588"));
    assert_eq!((PhoneType::Tel, "020"), get_segment("020"));
    assert_eq!((PhoneType::Tel, "0755"), get_segment("0755"));
    assert_eq!((PhoneType::Tel, "+020"), get_segment("+0201234"));
}

#[test]
fn text_round_trips() {
    for v in [
        PhoneType::Tel,
        PhoneType::Mobile,
        PhoneType::Idd,
        PhoneType::Service,
        PhoneType::Others,
    ] {
        assert_eq!(v, PhoneType::from_text(&v.to_text()));
    }
    for v in [
        MobileVendor::Mobile,
        MobileVendor::Unicom,
        MobileVendor::Telecom,
        MobileVendor::Cbn,
        MobileVendor::Others,
    ] {
        assert_eq!(v, MobileVendor::from_text(&v.to_text()));
    }
    assert_eq!("OTHERS", PhoneType::Others.to_text());
    assert_eq!("unknown 未知", MobileVendor::Others.to_text());
}

#[test]
fn parsing_ignores_case_and_defaults_to_others() {
    assert_eq!(PhoneType::from_text("MOBILE"), PhoneType::from_text("mobile"));
    assert_eq!(PhoneType::from_text("MoBiLe"), PhoneType::from_text("mobile"));
    assert_eq!(PhoneType::Mobile, PhoneType::from_text("MoBiLe"));
    assert_eq!(PhoneType::Tel, PhoneType::from_text("TeL"));
    assert_eq!(PhoneType::Others, PhoneType::from_text("others"));
    assert_eq!(PhoneType::Others, PhoneType::from_text("landline"));
    assert_eq!(PhoneType::Others, PhoneType::from_text(""));
    assert_eq!(MobileVendor::Unicom, MobileVendor::from_text("UNICOM"));
    assert_eq!(MobileVendor::Unicom, MobileVendor::from_text("10010"));
    assert_eq!(MobileVendor::Others, MobileVendor::from_text("unknown 未知"));
    assert_eq!(MobileVendor::Others, MobileVendor::from_text("10011"));
}
