use yansongda_utils::phone::{
    get_segment, is_idd, is_mobile, is_phone, is_service, is_telephone, to_standard_format,
    MobileVendor, PhoneType,
};

#[test]
fn test_phone_type_string() {
    assert_eq!("MOBILE", PhoneType::Mobile.to_text());
    assert_eq!("TEL", PhoneType::Tel.to_text());
    assert_eq!("SERVICE", PhoneType::Service.to_text());
    assert_eq!("IDD", PhoneType::Idd.to_text());

    assert_eq!(PhoneType::Mobile, "MOBILE".to_string().into());
    assert_eq!(PhoneType::Tel, "TeL".to_string().into());
    assert_eq!(PhoneType::Service, "SERViCE".to_string().into());
    assert_eq!(PhoneType::Idd, "IDD".to_string().into());
}

#[test]
fn test_mobile_vendor_string() {
    assert_eq!("10086 移动", MobileVendor::Mobile.to_text());
    assert_eq!("10010 联通", MobileVendor::Unicom.to_text());
    assert_eq!("10000 电信", MobileVendor::Telecom.to_text());
    assert_eq!("10099 广电", MobileVendor::Cbn.to_text());

    assert_eq!(MobileVendor::Mobile, "10086 移动".to_string().into());
    assert_eq!(MobileVendor::Mobile, "mObIle".to_string().into());
    assert_eq!(MobileVendor::Unicom, "10010 联通".to_string().into());
    assert_eq!(MobileVendor::Unicom, "10010".to_string().into());
    assert_eq!(MobileVendor::Telecom, "10000 电信".to_string().into());
    assert_eq!(MobileVendor::Telecom, "telecom".to_string().into());
    assert_eq!(MobileVendor::Cbn, "10099 广电".to_string().into());
    assert_eq!(MobileVendor::Cbn, "cbn".to_string().into());
}

#[test]
fn test_is_mobile() {
    assert!(is_mobile("13800138000"));
    assert!(is_mobile("+8613800138000"));
}

#[test]
fn test_is_telephone() {
    assert!(is_telephone("01012345678"));
    assert!(is_telephone("01012345678-1234"));
    assert!(is_telephone("01012345678,1234"));
    assert!(is_telephone("075512345678"));
    assert!(is_telephone("075512345678-1234"));
    assert!(is_telephone("075512345678,1234"));
}

#[test]
fn test_is_service() {
    assert!(is_service("10000000"));
    assert!(is_service("10086"));
    assert!(is_service("95588"));
}

#[test]
fn test_is_idd() {
    assert!(is_idd("0012345678"));
    assert!(is_idd("008512345678"));
}

#[test]
fn test_is_phone() {
    assert!(is_phone("13800138000"));
    assert!(is_phone("+8613800138000"));
    assert!(is_phone("01012345678"));
    assert!(is_phone("01012345678-1234"));
    assert!(is_phone("01012345678,1234"));
    assert!(is_phone("075512345678"));
    assert!(is_phone("075512345678-1234"));
    assert!(is_phone("075512345678,1234"));
    assert!(is_phone("10000000"));
    assert!(is_phone("10086"));
    assert!(is_phone("95588"));
    assert!(is_phone("0012345678"));
    assert!(is_phone("008512345678"));
}

#[test]
fn test_to_standard_format() {
    assert_eq!("13800138000", to_standard_format("13800138000"));
    assert_eq!("13800138000", to_standard_format("013800138000"),);
    assert_eq!("13800138000", to_standard_format("+8613800138000"));
    assert_eq!("13800138000", to_standard_format("+86013800138000"));
    assert_eq!("01012345678", to_standard_format("01012345678"));
    assert_eq!("01012345678-1234", to_standard_format("01012345678-1234"));
    assert_eq!("01012345678,1234", to_standard_format("01012345678,1234"));
    assert_eq!("075512345678", to_standard_format("075512345678"));
    assert_eq!("075512345678-1234", to_standard_format("075512345678-1234"));
    assert_eq!("075512345678,1234", to_standard_format("075512345678,1234"));
    assert_eq!("10000000", to_standard_format("10000000"));
    assert_eq!("10086", to_standard_format("10086"));
    assert_eq!("95588", to_standard_format("95588"));
    assert_eq!("008512345678", to_standard_format("008512345678"));
}

#[test]
fn test_get_segment() {
    assert_eq!((PhoneType::Mobile, "1380013"), get_segment("13800138000"));
    assert_eq!((PhoneType::Idd, "8512"), get_segment("008512345678"));
    assert_eq!((PhoneType::Service, "10086"), get_segment("10086"));
    assert_eq!((PhoneType::Tel, "010"), get_segment("01012345678"));
    assert_eq!((PhoneType::Tel, "027"), get_segment("02712345678"));
    assert_eq!((PhoneType::Tel, "0755"), get_segment("075512345678"));
}
