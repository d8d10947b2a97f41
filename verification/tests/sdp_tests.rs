use session::cmd::CmdStream;
use session::error::{CmdError, Malformation};
use session::sdp::{media_map, rtpmap_fields, MediaAttribute, MediaSection, SessionDescription};
use session::sip::SipResponse;
use session::text::{find_char, is_space_char, parse_payload_type, trim, upper};

fn attribute(name: &str, value: Option<&str>) -> MediaAttribute {
    MediaAttribute { attribute: name.to_string(), value: value.map(|v| v.to_string()) }
}

fn one_section(attributes: Vec<MediaAttribute>) -> SessionDescription {
    SessionDescription { medias: vec![MediaSection { attributes }] }
}

fn accepted(body: &str) -> SipResponse {
    SipResponse {
        status: 200,
        reason: "OK".to_string(),
        from: Some("<sip:34020000002000000001@3402000000>;tag=a1b2".to_string()),
        to: Some("<sip:34020000001320000001@3402000000>;tag=c3d4".to_string()),
        body: body.as_bytes().to_vec(),
        raw: Vec::new(),
    }
}

const CAMERA_SDP: &str = "v=0
o=33010602001310019325 0 0 IN IP4 10.64.49.44
s=Play
c=IN IP4 10.64.49.218
t=0 0
m=video 5514 RTP/AVP 96
a=rtpmap:96 PS/90000
a=sendonly
y=0060205514";

#[test]
fn test_parse_sdp() {
    let sdp_str = CAMERA_SDP;
    let session = sdp_types::Session::parse(sdp_str.as_ref()).unwrap();
    println!("{:#?}", session);
    let negotiated = CmdStream::negotiate(accepted(sdp_str)).unwrap();
    assert_eq!(negotiated.media_map.len(), 1);
    assert_eq!(negotiated.media_map.get(&96).map(|s| s.as_str()), Some("PS"));
}

#[test]
fn test_str_blank() {
    let str0 = " 96   PS/90000 ";
    let str1 = "96 PS/90000";
    let str2 = "96  PS/90000";
    let str3 = " 96 PS/90000";
    let str4 = "96 PS/90000 ";
    let re = regex::Regex::new(r"\s+").unwrap();
    let s0 = str0.trim().replace("  ", " ");

    println!("{s0}");
    for value in [str0, str1, str2, str3, str4] {
        assert_eq!(re.replace_all(value.trim(), " "), "96 PS/90000");
        assert_eq!(rtpmap_fields(value), Ok(Some((96, "PS".to_string()))));
    }
}

#[test]
fn two_mappings_give_two_entries() {
    let session = one_section(vec![
        attribute("rtpmap", Some("96 PS/90000")),
        attribute("rtpmap", Some("97 H264/90000")),
    ]);
    let map = media_map(&session).unwrap();
    assert_eq!(map.len(), 2);
    assert_eq!(map[&96], "PS");
    assert_eq!(map[&97], "H264");
}

#[test]
fn irregular_white_space_is_normalized() {
    assert_eq!(rtpmap_fields(" 96   PS/90000 "), Ok(Some((96, "PS".to_string()))));
    assert_eq!(rtpmap_fields("\t96\u{a0}\u{3000} PS/90000\r\n"), Ok(Some((96, "PS".to_string()))));
}

#[test]
fn codec_names_are_upper_cased() {
    let session = one_section(vec![attribute("rtpmap", Some("98 mpeg4/90000"))]);
    let map = media_map(&session).unwrap();
    assert_eq!(map[&98], "MPEG4");
}

#[test]
fn ascii_names_are_upper_cased_character_by_character() {
    let all: String = (0u8..128).map(|b| b as char).filter(|c| !c.is_whitespace() && *c != '/').collect();
    assert_eq!(upper(&all), all.to_ascii_uppercase());
    for b in 0u8..128 {
        let c = b as char;
        assert_eq!(upper(&c.to_string()), c.to_ascii_uppercase().to_string());
    }
    assert_eq!(rtpmap_fields(&format!("7 {all}")), Ok(Some((7, all.clone()))));
    let session = one_section(vec![attribute("rtpmap", Some(&format!("7 {all}")))]);
    assert_eq!(media_map(&session).unwrap()[&7], all.to_ascii_uppercase());
    assert_eq!(upper("straße"), "STRASSE");
}

#[test]
fn codec_name_without_parameters_is_kept_whole() {
    assert_eq!(rtpmap_fields("8 PCMA"), Ok(Some((8, "PCMA".to_string()))));
    assert_eq!(rtpmap_fields("8 PCMA/8000/1"), Ok(Some((8, "PCMA".to_string()))));
    assert_eq!(rtpmap_fields("8 /8000"), Ok(Some((8, String::new()))));
}

#[test]
fn descriptor_keeps_inner_spaces() {
    assert_eq!(rtpmap_fields("96 PS  extra/90000"), Ok(Some((96, "PS extra".to_string()))));
}

#[test]
fn value_without_space_says_nothing() {
    assert_eq!(rtpmap_fields("96"), Ok(None));
    assert_eq!(rtpmap_fields("  96  "), Ok(None));
    assert_eq!(rtpmap_fields(""), Ok(None));
    assert_eq!(rtpmap_fields("notanumber"), Ok(None));
}

#[test]
fn malformed_payload_type_fails() {
    let bad = Err(CmdError::MalformedNegotiation { reason: Malformation::PayloadType });
    assert_eq!(rtpmap_fields("abc PS/90000"), bad);
    assert_eq!(rtpmap_fields("256 PS/90000"), bad);
    assert_eq!(rtpmap_fields("-1 PS/90000"), bad);
    assert_eq!(rtpmap_fields("9x PS/90000"), bad);
    assert_eq!(rtpmap_fields("+ PS/90000"), bad);
}

#[test]
fn malformed_payload_type_fails_the_whole_table() {
    let session = SessionDescription {
        medias: vec![
            MediaSection { attributes: vec![attribute("rtpmap", Some("96 PS/90000"))] },
            MediaSection { attributes: vec![attribute("rtpmap", Some("x7 H264/90000"))] },
        ],
    };
    assert_eq!(
        media_map(&session).unwrap_err(),
        CmdError::MalformedNegotiation { reason: Malformation::PayloadType }
    );
}

#[test]
fn last_mapping_of_a_payload_type_wins() {
    let session = SessionDescription {
        medias: vec![
            MediaSection {
                attributes: vec![
                    attribute("rtpmap", Some("96 PS/90000")),
                    attribute("rtpmap", Some("96 H264/90000")),
                ],
            },
            MediaSection { attributes: vec![attribute("rtpmap", Some("96 H265/90000"))] },
        ],
    };
    let map = media_map(&session).unwrap();
    assert_eq!(map.len(), 1);
    assert_eq!(map[&96], "H265");
}

#[test]
fn other_attributes_are_ignored() {
    let session = one_section(vec![
        attribute("sendonly", None),
        attribute("fmtp", Some("abc def")),
        attribute("rtpmap", None),
        attribute("RTPMAP", Some("99 PS/90000")),
        attribute("rtpmap", Some("96 PS/90000")),
    ]);
    let map = media_map(&session).unwrap();
    assert_eq!(map.len(), 1);
    assert_eq!(map[&96], "PS");
}

#[test]
fn empty_description_gives_empty_table() {
    assert!(media_map(&SessionDescription { medias: vec![] }).unwrap().is_empty());
    assert!(media_map(&one_section(vec![])).unwrap().is_empty());
}

#[test]
fn payload_type_grammar() {
    assert_eq!(parse_payload_type("0"), Some(0));
    assert_eq!(parse_payload_type("96"), Some(96));
    assert_eq!(parse_payload_type("255"), Some(255));
    assert_eq!(parse_payload_type("+96"), Some(96));
    assert_eq!(parse_payload_type("0096"), Some(96));
    assert_eq!(parse_payload_type("256"), None);
    assert_eq!(parse_payload_type("99999999999999999999"), None);
    assert_eq!(parse_payload_type(""), None);
    assert_eq!(parse_payload_type("+"), None);
    assert_eq!(parse_payload_type("-0"), None);
    assert_eq!(parse_payload_type("9 6"), None);
    assert_eq!(parse_payload_type("９６"), None);
    for n in 0..=255u16 {
        assert_eq!(parse_payload_type(&n.to_string()), n.to_string().parse::<u8>().ok());
    }
    for text in ["", "+", "-", "+0", "-0", "256", "1000", "a", "1a", "+255", "++1", " 1"] {
        assert_eq!(parse_payload_type(text), text.parse::<u8>().ok());
    }
}

#[test]
fn trim_strips_both_ends() {
    assert_eq!(trim(" 96   PS/90000 "), "96   PS/90000");
    assert_eq!(trim("\u{2003}a b\u{85}"), "a b");
    assert_eq!(trim("   "), "");
    assert_eq!(trim(""), "");
    assert_eq!(trim("x"), "x");
    for text in [" a", "a ", " a ", "\t\n a\u{3000}b \r", "é ", " \u{1680}é"] {
        assert_eq!(trim(text), text.trim());
    }
}

#[test]
fn white_space_is_the_unicode_property() {
    let re = regex::Regex::new(r"^\s$").unwrap();
    for code in 0u32..0x11000 {
        if let Some(c) = char::from_u32(code) {
            assert_eq!(is_space_char(c), c.is_whitespace());
            assert_eq!(is_space_char(c), re.is_match(c.to_string().as_str()));
        }
    }
}

#[test]
fn every_run_of_white_space_becomes_one_space() {
    let spaces = [" ", "\t", "\n", "\u{a0}", "\u{2009}", "\u{3000}", "\r\n", "  ", " \t \u{85} "];
    for a in spaces {
        for b in spaces {
            let value = format!("{a}96{b}PS{a}x{b}y/90000{b}");
            assert_eq!(rtpmap_fields(&value), Ok(Some((96, "PS x y".to_string()))));
        }
    }
}

#[test]
fn find_char_counts_characters() {
    assert_eq!(find_char("96 PS", ' '), 2);
    assert_eq!(find_char("PS/90000", '/'), 2);
    assert_eq!(find_char("PS", '/'), 2);
    assert_eq!(find_char("", '/'), 0);
    assert_eq!(find_char("éé/x", '/'), 2);
}
