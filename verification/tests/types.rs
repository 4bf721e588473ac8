use materialist::parsing::workshopid_from_url;
use materialist::types::is_workshopid_byte;
use materialist::types::ETag;
use materialist::types::InvalidETag;
use materialist::types::is_workshopid_char;
use materialist::types::WorkshopId;

#[test]
fn test_workshopid_from_url_string() {
    assert_eq!(
        "3166241648".parse().ok(),
        workshopid_from_url("https://steamcommunity.com/sharedfiles/filedetails/?id=3166241648")
    );
    assert_eq!(
        "3166241648".parse().ok(),
        workshopid_from_url("https://steamcommunity.com/workshop/filedetails/?id=3166241648")
    );
    assert_eq!(
        "3166241648".parse().ok(),
        workshopid_from_url(
            "https://steamcommunity.com/sharedfiles/filedetails/?id=3166241648&something-wacky"
        )
    );
    assert_eq!(
        None,
        workshopid_from_url("https://steamcommunity.com/sharedfiles/filedetails/?id=")
    );
    assert_eq!(None, workshopid_from_url("12345"));
}

#[test]
fn an_empty_string_is_no_id() {
    assert!(WorkshopId::try_from(String::new()).is_err());
    assert!("".parse::<WorkshopId>().is_err());
}

#[test]
fn any_other_character_spoils_an_id() {
    assert!(WorkshopId::parse("12a4").is_err());
    assert!(WorkshopId::parse("1234 ").is_err());
    assert!(WorkshopId::parse("-1").is_err());
    assert!(WorkshopId::parse("١٢٣").is_err());
    assert_eq!(WorkshopId::parse("12a4").unwrap_err().0, "12a4");
    assert_eq!(
        WorkshopId::parse("12a4").unwrap_err().to_string(),
        "invalid workshop id: 12a4"
    );
}

#[test]
fn digits_make_an_id() {
    let id = WorkshopId::parse("0012").unwrap();
    assert_eq!(id.as_str(), "0012");
    assert_eq!(id.to_string(), "0012");
    assert_eq!(id.clone(), id);
}

#[test]
fn the_id_stops_at_the_first_other_character() {
    let id = workshopid_from_url("https://steamcommunity.com/workshop/filedetails/?id=12ab34");
    assert_eq!(id.unwrap().as_str(), "12");
    assert_eq!(
        workshopid_from_url("https://steamcommunity.com/workshop/filedetails/?id=x12"),
        None
    );
    assert_eq!(
        workshopid_from_url("http://steamcommunity.com/workshop/filedetails/?id=12"),
        None
    );
}

#[test]
fn digits_are_the_id_characters() {
    assert!(is_workshopid_char('0') && is_workshopid_char('9'));
    assert!(!is_workshopid_char('a') && !is_workshopid_char('/') && !is_workshopid_char(':'));
    assert!(is_workshopid_byte(b'0') && is_workshopid_byte(b'9'));
    assert!(!is_workshopid_byte(b'a') && !is_workshopid_byte(b'/') && !is_workshopid_byte(b':'));
}

#[test]
fn tags_in_their_transport_form() {
    let tag = ETag::from_base64(b"aGVsbG8_d29ybGQ").unwrap();
    assert_eq!(tag.0, b"hello?world");
    assert_eq!(tag.as_bytes(), b"hello?world");
    assert_eq!(tag.to_base64(), "aGVsbG8_d29ybGQ");
    assert_eq!(tag.to_string(), "aGVsbG8_d29ybGQ");
    assert_eq!(ETag(vec![0xfb, 0xff]).to_base64(), "-_8");
    assert_eq!(ETag(vec![]).to_base64(), "");
    assert_eq!(ETag::from_base64(b"").unwrap().0, b"");
    assert_eq!(ETag::from_base64(b"aGVsbG8=").unwrap_err(), InvalidETag);
    assert_eq!(ETag::from_base64(b"a+b/").unwrap_err(), InvalidETag);
    assert_eq!(ETag::from_base64(b"\"abcd\"").unwrap_err(), InvalidETag);
}
