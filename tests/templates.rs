use qrgen::{
    apply_template, email_template, phone_template, sms_template, vcard_from_answers,
    vcard_template, wifi_from_answers, wifi_template, QrgenError, TemplateKind,
};

#[test]
fn test_wifi_template_with_data() {
    let result = wifi_template("MyNetwork,password123,WPA").unwrap();
    assert!(result.contains("WIFI:T:WPA"));
    assert!(result.contains("S:MyNetwork"));
    assert!(result.contains("P:password123"));
    assert!(result.ends_with(";;"));
}

#[test]
fn test_wifi_template_wep_encryption() {
    let result = wifi_template("TestNet,pass456,WEP").unwrap();
    assert!(result.contains("WIFI:T:WEP"));
    assert!(result.contains("S:TestNet"));
    assert!(result.contains("P:pass456"));
}

#[test]
fn test_wifi_template_nopass() {
    let result = wifi_template("OpenNet,,NOPASS").unwrap();
    assert!(result.contains("WIFI:T:NOPASS"));
    assert!(result.contains("S:OpenNet"));
}

#[test]
fn test_vcard_template_full_data() {
    let result = vcard_template("John Doe,+1234567890,john@example.com,Acme Corp").unwrap();
    assert!(result.contains("BEGIN:VCARD"));
    assert!(result.contains("VERSION:3.0"));
    assert!(result.contains("FN:John Doe"));
    assert!(result.contains("TEL:+1234567890"));
    assert!(result.contains("EMAIL:john@example.com"));
    assert!(result.contains("ORG:Acme Corp"));
    assert!(result.contains("END:VCARD"));
}

#[test]
fn test_vcard_template_minimal_data() {
    let result = vcard_template("Jane Smith,+9876543210").unwrap();
    assert!(result.contains("BEGIN:VCARD"));
    assert!(result.contains("FN:Jane Smith"));
    assert!(result.contains("TEL:+9876543210"));
    assert!(result.contains("END:VCARD"));
}

#[test]
fn test_vcard_template_no_organization() {
    let result = vcard_template("Bob Jones,+1111111111,bob@example.com").unwrap();
    assert!(result.contains("FN:Bob Jones"));
    assert!(result.contains("TEL:+1111111111"));
    assert!(result.contains("EMAIL:bob@example.com"));
    assert!(!result.contains("ORG:") || result.contains("ORG:\n"));
}

#[test]
fn test_sms_template_with_message() {
    let result = sms_template("1234567890,Hello there!");
    assert_eq!(result, "SMSTO:1234567890:Hello there!");
}

#[test]
fn test_sms_template_phone_only() {
    let result = sms_template("9876543210");
    assert_eq!(result, "SMSTO:9876543210:");
}

#[test]
fn test_sms_template_with_commas_in_message() {
    let result = sms_template("1234567890,Hello, how are you?");
    assert_eq!(result, "SMSTO:1234567890:Hello, how are you?");
}

#[test]
fn test_email_template_full() {
    let result = email_template("contact@example.com,Subject Line,Email body text");
    assert_eq!(result, "mailto:contact@example.com?subject=Subject Line&body=Email body text");
}

#[test]
fn test_email_template_address_only() {
    let result = email_template("test@example.com");
    assert_eq!(result, "mailto:test@example.com?subject=&body=");
}

#[test]
fn test_email_template_with_subject_no_body() {
    let result = email_template("info@example.com,Important");
    assert_eq!(result, "mailto:info@example.com?subject=Important&body=");
}

#[test]
fn templates_test_phone_template() {
    let result = phone_template("+1234567890");
    assert_eq!(result, "tel:+1234567890");
}

#[test]
fn test_phone_template_no_plus() {
    let result = phone_template("9876543210");
    assert_eq!(result, "tel:9876543210");
}

#[test]
fn test_apply_template_wifi() {
    let result = apply_template("wifi", "MyNet,pass,WPA").unwrap();
    assert!(result.contains("WIFI:T:WPA"));
}

#[test]
fn test_apply_template_vcard() {
    let result = apply_template("vcard", "John,123").unwrap();
    assert!(result.contains("FN:John"));
}

#[test]
fn test_apply_template_sms() {
    let result = apply_template("sms", "123,msg").unwrap();
    assert_eq!(result, "SMSTO:123:msg");
}

#[test]
fn test_apply_template_email() {
    let result = apply_template("email", "test@test.com").unwrap();
    assert!(result.starts_with("mailto:"));
}

#[test]
fn test_apply_template_phone() {
    let result = apply_template("phone", "123").unwrap();
    assert_eq!(result, "tel:123");
}

#[test]
fn test_apply_template_invalid() {
    let result = apply_template("invalid", "test data");
    assert!(result.is_err());
}

#[test]
fn wifi_payload_is_exact() {
    let result = apply_template("wifi", "MyNetwork,password123,WPA").unwrap();
    assert_eq!(result, "WIFI:T:WPA;S:MyNetwork;P:password123;;");
}

#[test]
fn wifi_encryption_is_upper_cased_without_validation() {
    assert_eq!(wifi_template("Net,pw,wpa2").unwrap(), "WIFI:T:WPA2;S:Net;P:pw;;");
    assert_eq!(wifi_template("Net,p;w,wep").unwrap(), "WIFI:T:WEP;S:Net;P:p;w;;");
}

#[test]
fn wifi_with_wrong_field_count_asks_for_fields() {
    assert_eq!(wifi_template("OnlySsid"), Err(QrgenError::NeedsPrompt(TemplateKind::Wifi)));
    assert_eq!(wifi_template("a,b,c,d"), Err(QrgenError::NeedsPrompt(TemplateKind::Wifi)));
    assert_eq!(apply_template("wifi", ""), Err(QrgenError::NeedsPrompt(TemplateKind::Wifi)));
}

#[test]
fn wifi_answers_default_to_wpa() {
    assert_eq!(wifi_from_answers("Home", "secret", "wep"), "WIFI:T:WEP;S:Home;P:secret;;");
    assert_eq!(wifi_from_answers("Home", "", "nopass"), "WIFI:T:NOPASS;S:Home;P:;;");
    assert_eq!(wifi_from_answers("Home", "secret", "wpa3"), "WIFI:T:WPA;S:Home;P:secret;;");
    assert_eq!(wifi_from_answers("Home", "secret", ""), "WIFI:T:WPA;S:Home;P:secret;;");
}

#[test]
fn vcard_without_org_is_exact() {
    let result = vcard_template("Bob Jones,+1111111111,bob@example.com").unwrap();
    assert_eq!(
        result,
        "BEGIN:VCARD\nVERSION:3.0\nFN:Bob Jones\nTEL:+1111111111\nEMAIL:bob@example.com\nEND:VCARD"
    );
    assert!(!result.contains("ORG:"));
}

#[test]
fn vcard_omits_empty_fields() {
    assert_eq!(
        vcard_template("Ann,,,Acme").unwrap(),
        "BEGIN:VCARD\nVERSION:3.0\nFN:Ann\nORG:Acme\nEND:VCARD"
    );
    assert_eq!(
        vcard_from_answers("Ann", "", "", ""),
        "BEGIN:VCARD\nVERSION:3.0\nFN:Ann\nEND:VCARD"
    );
}

#[test]
fn vcard_with_one_field_asks_for_fields() {
    assert_eq!(vcard_template("Solo"), Err(QrgenError::NeedsPrompt(TemplateKind::Vcard)));
}

#[test]
fn sms_without_comma_is_exact() {
    assert_eq!(apply_template("sms", "1234567890").unwrap(), "SMSTO:1234567890:");
    assert_eq!(sms_template(""), "SMSTO::");
}

#[test]
fn email_address_only_is_exact() {
    assert_eq!(apply_template("email", "test@example.com").unwrap(), "mailto:test@example.com?subject=&body=");
    assert_eq!(email_template("a,b,c,d"), "mailto:a?subject=b&body=c,d");
}

#[test]
fn unknown_template_carries_its_name() {
    assert_eq!(
        apply_template("WIFI", "a,b,c"),
        Err(QrgenError::UnknownTemplate("WIFI".to_string()))
    );
}
