use dtube_pinner::config::Config;
use dtube_pinner::extract::{
    bool_to_option, extract, extract_all, parse_metadata, read_metadata, select_identifiers,
    str_to_option, DtubeMetadata, DtubeMetadataVideo, DtubeMetadataVideoContent,
    DtubeMetadataVideoInfo, MetadataError, TRACKED_CATEGORY,
};
use dtube_pinner::message::{ResponseGetDiscussionsByBlog, ResponseGetDiscussionsByBlogEntry};

fn all_flags() -> Config {
    Config {
        names: vec!["phc".to_string()],
        concurrent_requests: 2,
        concurrent_pins: 2,
        interval_ms: 5000,
        pin_snaphash: true,
        pin_spritehash: true,
        pin_videohash: true,
        pin_video480hash: true,
    }
}

fn a_post(category: &str, json_metadata: &str) -> ResponseGetDiscussionsByBlogEntry {
    ResponseGetDiscussionsByBlogEntry {
        id: 1,
        author: "phc".to_string(),
        permlink: "a-post".to_string(),
        body: "text".to_string(),
        json_metadata: json_metadata.to_string(),
        category: category.to_string(),
    }
}

fn metadata(snap: &str, sprite: &str, video: &str, video480: &str) -> DtubeMetadata {
    DtubeMetadata {
        video: DtubeMetadataVideo {
            info: DtubeMetadataVideoInfo {
                snaphash: snap.to_string(),
                spritehash: sprite.to_string(),
            },
            content: DtubeMetadataVideoContent {
                videohash: video.to_string(),
                video480hash: video480.to_string(),
            },
        },
    }
}

fn strings(items: &[&str]) -> Vec<String> {
    items.iter().map(|s| s.to_string()).collect()
}

const SAMPLE: &str = r#"{"video":{"info":{"snaphash":"Qm1","spritehash":""},"content":{"videohash":"Qm2","video480hash":"Qm3"}}}"#;

const FULL: &str = r#"{"video":{"info":{"snaphash":"QmA","spritehash":"QmB"},"content":{"videohash":"QmC","video480hash":"QmD"}}}"#;

#[test]
fn bool_to_option_follows_the_flag() {
    assert_eq!(bool_to_option(true), Some(()));
    assert_eq!(bool_to_option(false), None);
}

#[test]
fn str_to_option_drops_the_empty_string() {
    assert_eq!(str_to_option("Qm1"), Some("Qm1"));
    assert_eq!(str_to_option(" "), Some(" "));
    assert_eq!(str_to_option(""), None);
}

#[test]
fn tracked_category_is_dtube() {
    assert_eq!(TRACKED_CATEGORY, "dtube");
}

#[test]
fn extract_emits_enabled_non_empty_hashes_in_order() {
    let ids = extract(&a_post("dtube", SAMPLE), &all_flags()).unwrap();
    assert_eq!(ids, strings(&["Qm1", "Qm2", "Qm3"]));
}

#[test]
fn extract_emits_all_four_in_fixed_order() {
    let ids = extract(&a_post("dtube", FULL), &all_flags()).unwrap();
    assert_eq!(ids, strings(&["QmA", "QmB", "QmC", "QmD"]));
}

#[test]
fn extract_is_repeatable() {
    let post = a_post("dtube", SAMPLE);
    let config = all_flags();
    let first = extract(&post, &config).unwrap();
    let second = extract(&post, &config).unwrap();
    let third = extract(&post.clone(), &config.clone()).unwrap();
    assert_eq!(first, second);
    assert_eq!(first, third);
}

#[test]
fn extract_skips_other_categories_whatever_the_metadata() {
    let config = all_flags();
    assert_eq!(extract(&a_post("blog", SAMPLE), &config).unwrap(), Vec::<String>::new());
    assert_eq!(extract(&a_post("blog", "not json"), &config).unwrap(), Vec::<String>::new());
    assert_eq!(extract(&a_post("", FULL), &config).unwrap(), Vec::<String>::new());
    assert_eq!(extract(&a_post("DTube", FULL), &config).unwrap(), Vec::<String>::new());
    assert_eq!(extract(&a_post("dtube ", FULL), &config).unwrap(), Vec::<String>::new());
}

#[test]
fn each_flag_removes_exactly_its_field() {
    let post = a_post("dtube", FULL);
    let mut config = all_flags();
    config.pin_snaphash = false;
    assert_eq!(extract(&post, &config).unwrap(), strings(&["QmB", "QmC", "QmD"]));
    let mut config = all_flags();
    config.pin_spritehash = false;
    assert_eq!(extract(&post, &config).unwrap(), strings(&["QmA", "QmC", "QmD"]));
    let mut config = all_flags();
    config.pin_videohash = false;
    assert_eq!(extract(&post, &config).unwrap(), strings(&["QmA", "QmB", "QmD"]));
    let mut config = all_flags();
    config.pin_video480hash = false;
    assert_eq!(extract(&post, &config).unwrap(), strings(&["QmA", "QmB", "QmC"]));
}

#[test]
fn no_flag_no_identifier() {
    let mut config = all_flags();
    config.pin_snaphash = false;
    config.pin_spritehash = false;
    config.pin_videohash = false;
    config.pin_video480hash = false;
    assert_eq!(extract(&a_post("dtube", FULL), &config).unwrap(), Vec::<String>::new());
}

#[test]
fn empty_hashes_are_never_emitted() {
    let meta = metadata("", "", "", "");
    assert_eq!(select_identifiers(&meta, &all_flags()), Vec::<String>::new());
    let meta = metadata("", "Qm", "", "Qn");
    assert_eq!(select_identifiers(&meta, &all_flags()), strings(&["Qm", "Qn"]));
}

#[test]
fn select_identifiers_does_not_check_the_format() {
    let meta = metadata("not a hash", " ", "\u{e9}", "0");
    assert_eq!(
        select_identifiers(&meta, &all_flags()),
        strings(&["not a hash", " ", "\u{e9}", "0"])
    );
}

#[test]
fn parse_metadata_reads_the_four_hashes() {
    let meta = parse_metadata(SAMPLE).unwrap();
    assert_eq!(meta.video.info.snaphash, "Qm1");
    assert_eq!(meta.video.info.spritehash, "");
    assert_eq!(meta.video.content.videohash, "Qm2");
    assert_eq!(meta.video.content.video480hash, "Qm3");
}

#[test]
fn parse_metadata_passes_over_other_members() {
    let raw = r#"{"tags":["a"],"video":{"info":{"title":"t","snaphash":"Qm1","spritehash":"Qm2"},"content":{"videohash":"Qm3","video480hash":"Qm4","description":"d"},"extra":1},"app":"dtube/0.7"}"#;
    let meta = parse_metadata(raw).unwrap();
    assert_eq!(meta.video.info.snaphash, "Qm1");
    assert_eq!(meta.video.content.video480hash, "Qm4");
}

#[test]
fn parse_metadata_unescapes_strings() {
    let raw = r#"{"video":{"info":{"snaphash":"Qm1","spritehash":"a\"b"},"content":{"videohash":"","video480hash":""}}}"#;
    let meta = parse_metadata(raw).unwrap();
    assert_eq!(meta.video.info.snaphash, "Qm1");
    assert_eq!(meta.video.info.spritehash, "a\"b");
}

#[test]
fn parse_metadata_rejects_what_is_not_json() {
    assert!(matches!(parse_metadata(""), Err(MetadataError::Syntax(_))));
    assert!(matches!(parse_metadata("not json"), Err(MetadataError::Syntax(_))));
    assert!(matches!(parse_metadata("{\"video\":"), Err(MetadataError::Syntax(_))));
    let trailing = format!("{} x", SAMPLE);
    assert!(matches!(parse_metadata(&trailing), Err(MetadataError::Syntax(_))));
}

#[test]
fn parse_metadata_rejects_a_wrong_shape_as_a_whole() {
    let missing_leaf = r#"{"video":{"info":{"snaphash":"Qm1"},"content":{"videohash":"Qm2","video480hash":"Qm3"}}}"#;
    assert!(matches!(parse_metadata(missing_leaf), Err(MetadataError::Schema)));
    let missing_group = r#"{"video":{"info":{"snaphash":"Qm1","spritehash":""}}}"#;
    assert!(matches!(parse_metadata(missing_group), Err(MetadataError::Schema)));
    let not_a_string = r#"{"video":{"info":{"snaphash":1,"spritehash":""},"content":{"videohash":"Qm2","video480hash":"Qm3"}}}"#;
    assert!(matches!(parse_metadata(not_a_string), Err(MetadataError::Schema)));
    let null_leaf = r#"{"video":{"info":{"snaphash":null,"spritehash":""},"content":{"videohash":"Qm2","video480hash":"Qm3"}}}"#;
    assert!(matches!(parse_metadata(null_leaf), Err(MetadataError::Schema)));
    assert!(matches!(parse_metadata("{}"), Err(MetadataError::Schema)));
    assert!(matches!(parse_metadata("[]"), Err(MetadataError::Schema)));
    assert!(matches!(parse_metadata("null"), Err(MetadataError::Schema)));
    assert!(matches!(parse_metadata("\"video\""), Err(MetadataError::Schema)));
}

#[test]
fn read_metadata_reads_a_parsed_document() {
    let document: serde_json::Value = serde_json::from_str(FULL).unwrap();
    let meta = read_metadata(&document).unwrap();
    assert_eq!(meta.video.info.spritehash, "QmB");
    assert_eq!(meta.video.content.videohash, "QmC");
    let other: serde_json::Value = serde_json::from_str("{\"video\":{}}").unwrap();
    assert!(read_metadata(&other).is_none());
}

#[test]
fn extract_reports_malformed_metadata() {
    let config = all_flags();
    assert!(matches!(
        extract(&a_post("dtube", "{oops"), &config),
        Err(MetadataError::Syntax(_))
    ));
    assert!(matches!(
        extract(&a_post("dtube", "{\"video\":{}}"), &config),
        Err(MetadataError::Schema)
    ));
}

#[test]
fn a_malformed_post_does_not_hide_its_siblings() {
    let posts = ResponseGetDiscussionsByBlog(vec![
        a_post("dtube", SAMPLE),
        a_post("dtube", "{broken"),
        a_post("blog", "{broken"),
        a_post("dtube", "{\"video\":1}"),
        a_post("dtube", FULL),
    ]);
    let found = extract_all(&posts, &all_flags());
    assert_eq!(
        found.identifiers,
        strings(&["Qm1", "Qm2", "Qm3", "QmA", "QmB", "QmC", "QmD"])
    );
    assert_eq!(found.rejected.len(), 2);
    assert_eq!(found.rejected[0].0, 1);
    assert!(matches!(found.rejected[0].1, MetadataError::Syntax(_)));
    assert_eq!(found.rejected[1].0, 3);
    assert!(matches!(found.rejected[1].1, MetadataError::Schema));
}

#[test]
fn extract_all_of_nothing_is_nothing() {
    let found = extract_all(&ResponseGetDiscussionsByBlog(Vec::new()), &all_flags());
    assert!(found.identifiers.is_empty());
    assert!(found.rejected.is_empty());
}

#[test]
fn extract_all_keeps_duplicates() {
    let posts = ResponseGetDiscussionsByBlog(vec![a_post("dtube", SAMPLE), a_post("dtube", SAMPLE)]);
    let found = extract_all(&posts, &all_flags());
    assert_eq!(found.identifiers, strings(&["Qm1", "Qm2", "Qm3", "Qm1", "Qm2", "Qm3"]));
}
