use httpcore::link::{
    eq_ignore_case, fmt_delimited, from_str_delimited, str_eq, trim_matching, verify_and_trim,
    Link, LinkValue, MediaDesc, RelationType, SplitAsciiUnquoted, TrimClass, Uri,
};

#[test]
fn test_link() {
    let link_value = LinkValue::new("http://example.com/TheBook/chapter2")
        .unwrap()
        .push_rel(RelationType::Previous)
        .push_rev(RelationType::Next)
        .set_title("previous chapter");

    let link_header = "<http://example.com/TheBook/chapter2>; \
            rel=\"previous\"; rev=next; title=\"previous chapter\"";

    let expected_link = Link::new(vec![link_value]);

    let link = Link::from_str(link_header);
    assert_eq!(link.ok(), Some(expected_link));
}

#[test]
fn test_link_multiple_values() {
    let first_link = LinkValue::new("/TheBook/chapter2")
        .unwrap()
        .push_rel(RelationType::Previous)
        .set_title_star("UTF-8'de'letztes%20Kapitel");

    let second_link = LinkValue::new("/TheBook/chapter4")
        .unwrap()
        .push_rel(RelationType::Next)
        .set_title_star("UTF-8'de'n%c3%a4chstes%20Kapitel");

    let link_header = "</TheBook/chapter2>; \
            rel=\"previous\"; title*=UTF-8'de'letztes%20Kapitel, \
            </TheBook/chapter4>; \
            rel=\"next\"; title*=UTF-8'de'n%c3%a4chstes%20Kapitel";

    let expected_link = Link::new(vec![first_link, second_link]);

    let link = Link::from_str(link_header);
    assert_eq!(link.ok(), Some(expected_link));
}

#[test]
fn test_link_all_attributes() {
    let link_value = LinkValue::new("http://example.com/TheBook/chapter2")
        .unwrap()
        .push_rel(RelationType::Previous)
        .set_anchor("../anchor/example/")
        .unwrap()
        .push_rev(RelationType::Next)
        .push_href_lang("de")
        .push_media_desc(MediaDesc::Screen)
        .set_title("previous chapter")
        .set_title_star("title* unparsed")
        .set_media_type("text/plain")
        .set_link_extension("link-extension unparsed");

    let link_header = "<http://example.com/TheBook/chapter2>; \
            rel=\"previous\"; anchor=\"../anchor/example/\"; \
            rev=\"next\"; hreflang=de; media=\"screen\"; \
            title=\"previous chapter\"; title*=title* unparsed; \
            type=\"text/plain\"; link-extension=link-extension unparsed";

    let expected_link = Link::new(vec![link_value]);

    let link = Link::from_str(link_header);
    assert_eq!(link.ok(), Some(expected_link));
}

#[test]
fn parse_rejects_param_before_any_link_value() {
    assert!(Link::from_str("rel=\"previous\"").is_err());
}

#[test]
fn parse_rejects_unknown_param() {
    assert!(Link::from_str("<http://example.com/>; nonsense=1").is_err());
}

#[test]
fn parse_rejects_unwrapped_target() {
    assert!(Link::from_str("http://example.com/").is_err());
}

#[test]
fn parse_rejects_bad_relation() {
    // `<` cannot appear in a relation name nor in an extension URI
    assert!(Link::from_str("<http://example.com/>; rel=\"<x>\"").is_err());
}

#[test]
fn parse_rejects_bad_media_type() {
    assert!(Link::from_str("<http://example.com/>; type=\"nonsense\"").is_err());
}

#[test]
fn parse_empty_header_yields_no_values() {
    let link = Link::from_str("").unwrap();
    assert!(link.values.is_empty());
}

#[test]
fn parse_normalizes_media_type_case() {
    let link = Link::from_str("<http://example.com/>; type=\"Text/PLAIN\"").unwrap();
    assert_eq!(
        link.values[0].media_type().map(|s| s.as_str()),
        Some("text/plain")
    );
}

#[test]
fn parse_normalizes_language_tag() {
    let link = Link::from_str("<http://example.com/>; hreflang=DE").unwrap();
    assert_eq!(
        link.values[0].href_lang().map(|v| v[0].as_str()),
        Some("de")
    );
}

#[test]
fn parse_splits_media_descriptors() {
    let link = Link::from_str("<http://example.com/>; media=\"screen, tty\"").unwrap();
    assert_eq!(
        link.values[0].media_desc(),
        Some(&vec![MediaDesc::Screen, MediaDesc::Tty])
    );
}

#[test]
fn parse_keeps_first_title_of_repeated_params() {
    let link = Link::from_str("<http://example.com/>; title=\"one\"; title=\"two\"").unwrap();
    assert_eq!(link.values[0].title().map(|s| s.as_str()), Some("one"));
}

#[test]
fn parse_accumulates_hreflang() {
    let link = Link::from_str("<http://example.com/>; hreflang=de; hreflang=en").unwrap();
    let tags: Vec<&str> = link.values[0]
        .href_lang()
        .unwrap()
        .iter()
        .map(|s| s.as_str())
        .collect();
    assert_eq!(tags, vec!["de", "en"]);
}

#[test]
fn parse_quoted_delimiters_do_not_split() {
    let link = Link::from_str("<http://example.com/>; title=\"a;b,c\"").unwrap();
    assert_eq!(link.values[0].title().map(|s| s.as_str()), Some("a;b,c"));
}

#[test]
fn fmt_serializes_canonically() {
    let link_value = LinkValue::new("http://example.com/TheBook/chapter2")
        .unwrap()
        .push_rel(RelationType::Previous)
        .set_title("previous chapter");
    let link = Link::new(vec![link_value]);
    let mut out = String::new();
    link.fmt(&mut out);
    assert_eq!(
        out,
        "<http://example.com/TheBook/chapter2>; rel=\"previous\"; title=\"previous chapter\""
    );
}

#[test]
fn fmt_round_trips_through_parse() {
    let header = "<http://example.com/TheBook/chapter2>; \
        rel=\"previous\"; anchor=\"../anchor/example/\"; rev=\"next\"; \
        hreflang=de; media=\"screen\"; title=\"previous chapter\"; \
        title*=title* unparsed; type=\"text/plain\"; \
        link-extension=link-extension unparsed";
    let link = Link::from_str(header).unwrap();
    let mut out = String::new();
    link.fmt(&mut out);
    let reparsed = Link::from_str(&out).unwrap();
    assert_eq!(reparsed, link);
}

#[test]
fn relation_type_parses_case_insensitively() {
    assert_eq!(
        RelationType::from_str("PREVIOUS").ok(),
        Some(RelationType::Previous)
    );
    assert_eq!(
        RelationType::from_str("Working-Copy-Of").ok(),
        Some(RelationType::WorkingCopyOf)
    );
}

#[test]
fn relation_type_falls_back_to_uri() {
    match RelationType::from_str("http://example.net/rel").unwrap() {
        RelationType::ExtRelType(u) => assert_eq!(u.as_str(), "http://example.net/rel"),
        other => panic!("expected an extension relation, found {:?}", other),
    }
    assert!(RelationType::from_str("two words").is_err());
}

#[test]
fn relation_type_fmt_writes_canonical_names() {
    let mut out = String::new();
    RelationType::LatestVersion.fmt(&mut out);
    out.push(' ');
    RelationType::RelationTypeSelf.fmt(&mut out);
    assert_eq!(out, "latest-version self");
}

#[test]
fn media_desc_from_str_keeps_unknown_values() {
    assert_eq!(MediaDesc::from_str("tv").ok(), Some(MediaDesc::Tv));
    assert_eq!(
        MediaDesc::from_str("3d-glasses").ok(),
        Some(MediaDesc::Value(String::from("3d-glasses")))
    );
    let mut out = String::new();
    MediaDesc::Value(String::from("3d-glasses")).fmt(&mut out);
    assert_eq!(out, "3d-glasses");
}

#[test]
fn uri_rejects_embedded_whitespace() {
    assert!(Uri::new("http://example.com/a b").is_err());
    assert!(Uri::new("").is_err());
    assert_eq!(Uri::new("/a/b").unwrap().as_str(), "/a/b");
}

#[test]
fn verify_and_trim_checks_wrapping() {
    assert_eq!(
        verify_and_trim("<http://x>", 60u8, 62u8).ok(),
        Some("http://x")
    );
    assert_eq!(verify_and_trim("\" t \"", 34u8, 34u8).ok(), Some("t"));
    assert!(verify_and_trim("http://x>", 60u8, 62u8).is_err());
    assert!(verify_and_trim("<", 60u8, 62u8).is_err());
}

#[test]
fn trim_matching_strips_both_ends() {
    assert_eq!(trim_matching("  a b  ", TrimClass::Space), "a b");
    assert_eq!(trim_matching("\"\"q\"\"", TrimClass::Quote), "q");
    assert_eq!(trim_matching("", TrimClass::Space), "");
    assert_eq!(trim_matching("   ", TrimClass::Space), "");
}

#[test]
fn case_insensitive_comparison() {
    assert!(eq_ignore_case("Title*", "title*"));
    assert!(!eq_ignore_case("rel", "rev"));
    assert!(str_eq("screen", "screen"));
    assert!(!str_eq("screen", "Screen"));
}

#[test]
fn split_ascii_unquoted_respects_quotes() {
    let mut split = SplitAsciiUnquoted::new("a; \"b;c\", d", ";,");
    assert_eq!(split.next(), Some("a"));
    assert_eq!(split.next(), Some(" \"b;c\""));
    assert_eq!(split.next(), Some(" d"));
    assert_eq!(split.next(), None);
}

#[test]
fn from_str_delimited_trims_each_field() {
    let rels: Vec<RelationType> = from_str_delimited("prev next", ' ').unwrap();
    assert_eq!(rels, vec![RelationType::Prev, RelationType::Next]);
    let descs: Vec<MediaDesc> = from_str_delimited("screen , tty", ',').unwrap();
    assert_eq!(descs, vec![MediaDesc::Screen, MediaDesc::Tty]);
    assert!(from_str_delimited::<RelationType>("prev b\"d", ' ').is_err());
}

#[test]
fn fmt_delimited_wraps_and_joins() {
    let mut out = String::new();
    fmt_delimited(
        &mut out,
        &vec![MediaDesc::Screen, MediaDesc::Tty],
        ", ",
        "; media=\"",
        "\"",
    );
    assert_eq!(out, "; media=\"screen, tty\"");
    let mut empty_out = String::new();
    fmt_delimited(&mut empty_out, &Vec::<MediaDesc>::new(), ", ", "x", "y");
    assert_eq!(empty_out, "");
}
