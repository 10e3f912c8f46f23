use android_sdk_cli::repository11::{
    parse_archive, parse_decimal, parse_sdk_repository, Archive, BitSize, OsType, ParseError,
    SdkRepository, XML_URL_BASE,
};
use android_sdk_cli::xmlhelper::{find_attribute, Attribute, Event};

fn open(name: &str) -> Event {
    Event::StartElement { local_name: name.to_string(), attributes: Vec::new() }
}

fn open_with(name: &str, attrs: &[(&str, &str)]) -> Event {
    Event::StartElement {
        local_name: name.to_string(),
        attributes: attrs
            .iter()
            .map(|(n, v)| Attribute { name: n.to_string(), value: v.to_string() })
            .collect(),
    }
}

fn close(name: &str) -> Event {
    Event::EndElement { local_name: name.to_string() }
}

fn text(t: &str) -> Event {
    Event::Text { text: t.to_string() }
}

fn leaf(name: &str, value: &str) -> Vec<Event> {
    vec![open(name), text(value), close(name)]
}

fn archive(checksum: &str, url: &str, os: Option<&str>, bits: Option<&str>) -> Vec<Event> {
    let mut v = vec![open("archive")];
    v.extend(leaf("checksum", checksum));
    v.extend(leaf("url", url));
    if let Some(o) = os {
        v.extend(leaf("host-os", o));
    }
    if let Some(b) = bits {
        v.extend(leaf("host-bits", b));
    }
    v.push(close("archive"));
    v
}

fn in_root(body: Vec<Event>) -> Vec<Event> {
    let mut v = vec![open("sdk-repository")];
    v.extend(body);
    v.push(close("sdk-repository"));
    v
}

fn platform(api: &str, rev: &str) -> Vec<Event> {
    let mut v = vec![open("platform")];
    v.extend(leaf("api-level", api));
    v.extend(leaf("revision", rev));
    v.push(open_with("uses-license", &[("ref", "android-sdk-license")]));
    v.push(close("uses-license"));
    v.push(open("archives"));
    v.extend(archive("aa11", "android-19_r04.zip", None, None));
    v.push(close("archives"));
    v.push(close("platform"));
    v
}

fn parse(body: Vec<Event>) -> Result<SdkRepository, ParseError> {
    parse_sdk_repository(&in_root(body))
}

fn full_manifest() -> Vec<Event> {
    let mut body = Vec::new();
    body.push(open_with("license", &[("id", "android-sdk-license")]));
    body.push(text("Terms and Conditions"));
    body.push(close("license"));
    body.push(open("ndk"));
    body.extend(leaf("revision", "10"));
    body.push(open("archives"));
    body.extend(archive("n1", "ndk-linux.zip", Some("linux"), Some("64")));
    body.extend(archive("n2", "ndk-mac.zip", Some("macosx"), Some("32")));
    body.push(close("archives"));
    body.push(close("ndk"));
    body.extend(platform("19", "4"));
    body.push(text("\n"));
    body.extend(platform("21", "2"));
    body.push(open("source"));
    body.extend(leaf("api-level", "19"));
    body.extend(leaf("revision", "2"));
    body.push(close("source"));
    body.push(open("build-tool"));
    body.push(open("revision"));
    body.extend(leaf("major", "21"));
    body.extend(leaf("minor", "1"));
    body.extend(leaf("micro", "2"));
    body.push(close("revision"));
    body.push(close("build-tool"));
    body.push(open("platform-tool"));
    body.push(open("revision"));
    body.extend(leaf("major", "20"));
    body.extend(leaf("preview", "3"));
    body.push(close("revision"));
    body.push(open("archives"));
    body.extend(archive("abc", "platform-tools_r01-linux.zip", Some("linux"), None));
    body.push(close("archives"));
    body.push(close("platform-tool"));
    body
}

#[test]
fn parse_counts_components_in_document_order() {
    let repo = parse(full_manifest()).unwrap();
    assert_eq!(repo.ndks.len(), 1);
    assert_eq!(repo.platforms.len(), 2);
    assert_eq!(repo.sources.len(), 1);
    assert_eq!(repo.build_tools.len(), 1);
    assert_eq!(repo.platform_tools.len(), 1);
    assert_eq!(repo.platforms[0].api_level, 19);
    assert_eq!(repo.platforms[0].revision, 4);
    assert_eq!(repo.platforms[1].api_level, 21);
    assert_eq!(repo.platforms[1].revision, 2);
    assert_eq!(repo.platforms[0].uses_license.as_deref(), Some("android-sdk-license"));
    assert_eq!(repo.sources[0].api_level, 19);
    assert_eq!(repo.ndks[0].revision, 10);
    assert_eq!(repo.ndks[0].uses_license, None);
    assert_eq!(repo.ndks[0].archives.len(), 2);
    assert_eq!(repo.ndks[0].archives[1].url, "ndk-mac.zip");
    assert_eq!(repo.ndks[0].archives[1].host_os, Some(OsType::Macosx));
    assert_eq!(repo.ndks[0].archives[1].host_bits, Some(BitSize::Bit32));
}

#[test]
fn structured_revisions_keep_absent_parts_absent() {
    let repo = parse(full_manifest()).unwrap();
    let b = repo.build_tools[0].revision;
    assert_eq!((b.major, b.minor, b.micro, b.preview), (21, Some(1), Some(2), None));
    let p = repo.platform_tools[0].revision;
    assert_eq!((p.major, p.minor, p.micro, p.preview), (20, None, None, Some(3)));
    assert_eq!(repo.platform_tools[0].archives[0].host_bits, None);
}

#[test]
fn empty_manifest_has_no_components() {
    let repo = parse(Vec::new()).unwrap();
    assert!(repo.licenses.is_empty());
    assert!(repo.ndks.is_empty() && repo.platforms.is_empty() && repo.sources.is_empty());
    assert!(repo.build_tools.is_empty() && repo.platform_tools.is_empty());
}

#[test]
fn license_text_is_kept_exactly_and_last_wins() {
    let mut body = Vec::new();
    body.push(open_with("license", &[("id", "a")]));
    body.push(text("first"));
    body.push(close("license"));
    body.push(open_with("license", &[("id", "empty")]));
    body.push(close("license"));
    body.push(open_with("license", &[("id", "a")]));
    body.push(text("  second text "));
    body.push(close("license"));
    let repo = parse(body).unwrap();
    assert_eq!(repo.licenses.len(), 2);
    assert_eq!(repo.licenses[0].id, "a");
    assert_eq!(repo.licenses[0].text, "  second text ");
    assert_eq!(repo.licenses[1].id, "empty");
    assert_eq!(repo.licenses[1].text, "");
    assert_eq!(repo.license_text("a").map(|t| t.as_str()), Some("  second text "));
    assert_eq!(repo.license_text("empty").map(|t| t.as_str()), Some(""));
    assert_eq!(repo.license_text("missing"), None);
}

#[test]
fn license_without_id_is_a_structure_error() {
    let body = vec![open("license"), text("x"), close("license")];
    let e = parse(body).unwrap_err();
    assert!(matches!(&e, ParseError::MissingAttribute { element, attribute }
        if element == "license" && attribute == "id"));
    assert!(e.is_structure_error());
    assert!(!e.is_value_error());
}

#[test]
fn uses_license_without_ref_is_a_structure_error() {
    let body = vec![open("ndk"), open("uses-license"), close("uses-license"), close("ndk")];
    let e = parse(body).unwrap_err();
    assert!(matches!(&e, ParseError::MissingAttribute { element, attribute }
        if element == "uses-license" && attribute == "ref"));
}

fn ndk_with_revision(value: &str) -> Result<SdkRepository, ParseError> {
    let mut body = vec![open("ndk")];
    body.extend(leaf("revision", value));
    body.push(close("ndk"));
    parse(body)
}

#[test]
fn integer_fields_read_exact_values() {
    assert_eq!(ndk_with_revision("11").unwrap().ndks[0].revision, 11);
    assert_eq!(ndk_with_revision("0").unwrap().ndks[0].revision, 0);
    assert_eq!(ndk_with_revision("007").unwrap().ndks[0].revision, 7);
    assert_eq!(ndk_with_revision("4294967295").unwrap().ndks[0].revision, u32::MAX);
}

#[test]
fn integer_fields_reject_other_text() {
    for bad in ["-1", "1a", "abc", "", "+1", " 1", "4294967296", "99999999999999999999"] {
        let e = ndk_with_revision(bad).unwrap_err();
        assert!(matches!(&e, ParseError::InvalidValue { field, text }
            if field == "revision" && text == bad), "{}", bad);
        assert!(e.is_value_error());
    }
}

#[test]
fn decimal_reader_exact_values() {
    assert_eq!(parse_decimal(&"11".to_string()), Some(11));
    assert_eq!(parse_decimal(&"123456789".to_string()), Some(123456789));
    assert_eq!(parse_decimal(&"-5".to_string()), None);
    assert_eq!(parse_decimal(&"".to_string()), None);
    assert_eq!(parse_decimal(&"١".to_string()), None);
}

fn archive_with_os(os: &str) -> Result<SdkRepository, ParseError> {
    let mut body = vec![open("ndk"), open("archives")];
    body.extend(archive("c", "u", Some(os), None));
    body.push(close("archives"));
    body.push(close("ndk"));
    parse(body)
}

#[test]
fn host_os_maps_to_matching_member() {
    for (t, o) in [("linux", OsType::Linux), ("macosx", OsType::Macosx), ("windows", OsType::Windows)] {
        let repo = archive_with_os(t).unwrap();
        assert_eq!(repo.ndks[0].archives[0].host_os, Some(o));
    }
}

#[test]
fn host_os_outside_the_set_is_a_value_error() {
    for bad in ["solaris", "Linux", ""] {
        let e = archive_with_os(bad).unwrap_err();
        assert!(matches!(&e, ParseError::InvalidValue { field, text }
            if field == "host-os" && text == bad));
    }
}

#[test]
fn host_bits_other_than_32_or_64_is_a_value_error() {
    let mut body = vec![open("ndk"), open("archives")];
    body.extend(archive("c", "u", None, Some("16")));
    body.push(close("archives"));
    body.push(close("ndk"));
    let e = parse(body).unwrap_err();
    assert!(matches!(&e, ParseError::InvalidValue { field, text }
        if field == "host-bits" && text == "16"));
}

#[test]
fn absolute_url_joins_the_base() {
    let a = Archive {
        checksum: String::new(),
        url: "platform-tools_r01-linux.zip".to_string(),
        host_os: None,
        host_bits: None,
    };
    assert_eq!(
        a.absolute_url(),
        "https://dl.google.com/android/repository/platform-tools_r01-linux.zip"
    );
    assert_eq!(a.absolute_url(), format!("{}/{}", XML_URL_BASE, a.url));
}

#[test]
fn missing_closing_tag_names_expected_and_actual() {
    let evs = vec![open("archive"), open("checksum"), text("abc"), close("archive")];
    let e = parse_archive(&evs, 1).unwrap_err();
    assert!(matches!(&e, ParseError::UnexpectedEnd { expected, found }
        if expected == "checksum" && found == "archive"));
    assert!(e.is_structure_error());
}

#[test]
fn archive_reads_through_its_close() {
    let evs = archive("abc", "x.zip", Some("windows"), Some("64"));
    let (a, p) = parse_archive(&evs, 1).unwrap();
    assert_eq!(p, evs.len());
    assert_eq!(a.checksum, "abc");
    assert_eq!(a.url, "x.zip");
    assert_eq!(a.host_os, Some(OsType::Windows));
    assert_eq!(a.host_bits, Some(BitSize::Bit64));
}

#[test]
fn unknown_element_is_passed_over() {
    let mut body = vec![open("platform")];
    body.push(open("description"));
    body.push(text("Android 4.4"));
    body.push(open("nested"));
    body.push(close("nested"));
    body.push(close("description"));
    body.extend(leaf("api-level", "19"));
    body.extend(leaf("revision", "4"));
    body.push(close("platform"));
    body.push(open("extra"));
    body.push(close("extra"));
    let repo = parse(body).unwrap();
    assert_eq!(repo.platforms.len(), 1);
    assert_eq!(repo.platforms[0].api_level, 19);
    assert_eq!(repo.platforms[0].revision, 4);
}

#[test]
fn stream_must_open_with_the_root() {
    assert!(matches!(parse_sdk_repository(&Vec::new()), Err(ParseError::MissingRoot)));
    let evs = vec![open("repository"), close("repository")];
    assert!(matches!(parse_sdk_repository(&evs), Err(ParseError::MissingRoot)));
    let evs = vec![text("x"), open("sdk-repository"), close("sdk-repository")];
    assert!(matches!(parse_sdk_repository(&evs), Err(ParseError::MissingRoot)));
}

#[test]
fn stream_ending_inside_an_element_is_truncated() {
    let evs = vec![open("sdk-repository"), open("ndk"), open("revision"), text("1")];
    let e = parse_sdk_repository(&evs).unwrap_err();
    assert!(matches!(&e, ParseError::Truncated { inside } if inside == "revision"));
    let evs = vec![open("sdk-repository")];
    let e = parse_sdk_repository(&evs).unwrap_err();
    assert!(matches!(&e, ParseError::Truncated { inside } if inside == "sdk-repository"));
}

#[test]
fn mismatched_close_in_a_component_is_a_structure_error() {
    let body = vec![open("ndk"), close("platform")];
    let e = parse(body).unwrap_err();
    assert!(matches!(&e, ParseError::UnexpectedEnd { expected, found }
        if expected == "ndk" && found == "platform"));
}

#[test]
fn element_inside_a_bare_value_is_a_structure_error() {
    let body = vec![open("ndk"), open("revision"), open("major"), close("major"), close("revision"), close("ndk")];
    let e = parse(body).unwrap_err();
    assert!(matches!(&e, ParseError::UnexpectedStart { inside, found }
        if inside == "revision" && found == "major"));
}

#[test]
fn last_text_of_a_bare_value_wins() {
    let body = vec![open("ndk"), open("revision"), text("3"), text("12"), close("revision"), close("ndk")];
    assert_eq!(parse(body).unwrap().ndks[0].revision, 12);
}

#[test]
fn attribute_lookup_finds_by_name() {
    let attrs = vec![
        Attribute { name: "id".to_string(), value: "one".to_string() },
        Attribute { name: "ref".to_string(), value: "two".to_string() },
    ];
    assert_eq!(find_attribute(&attrs, "ref").map(|s| s.as_str()), Some("two"));
    assert_eq!(find_attribute(&attrs, "id").map(|s| s.as_str()), Some("one"));
    assert!(find_attribute(&attrs, "other").is_none());
}
