use pleroma_rss::content::Content;
use pleroma_rss::preview::{image_source, preview_html_name, preview_image_name, render_template};
use pleroma_rss::text::remove_html_tags;

#[test]
fn tags_and_entities_are_stripped() {
    // The round-trip case: tags and entities removed, remaining text kept
    // literally (two spaces stay where the entity stood between spaces).
    assert_eq!(remove_html_tags("<b>Hello</b> &amp; world"), "Hello  world");
}

#[test]
fn break_tags_and_whitespace_are_removed() {
    assert_eq!(remove_html_tags("  <p>line one<br />line two</p>\n"), "line oneline two");
}

#[test]
fn unterminated_tag_is_kept() {
    assert_eq!(remove_html_tags("a < b and a &lt; b"), "a < b and a  b");
}

#[test]
fn plain_text_is_only_trimmed() {
    assert_eq!(remove_html_tags("   plain words   "), "plain words");
}

fn content(title: &str, link: &str, description: &str) -> Content {
    Content::new(title.to_string(), link.to_string(), description.to_string(), None)
}

#[test]
fn status_text_joins_title_description_link() {
    let c = content("a title", "https://ex.com/x", "a description");
    assert_eq!(c.status_text(), "a title\n\na description\n\nhttps://ex.com/x");
}

#[test]
fn template_placeholders_are_filled() {
    let c = content("T", "https://ex.com/x", "D");
    let html = render_template(
        "<h1>{{title}}</h1><p>{{description}}</p><a href=\"{{link}}\">x</a><img src=\"{{image-src}}\"/>",
        &c,
        "/tmp/default.png",
    );
    assert_eq!(
        html,
        "<h1>T</h1><p>D</p><a href=\"https://ex.com/x\">x</a><img src=\"/tmp/default.png\"/>"
    );
}

#[test]
fn template_description_is_cut_at_the_first_word_after_320() {
    // 325 letters, then a space: the word in flight runs past the limit and
    // the cut falls on the first space at or after position 320.
    let long = "a".repeat(325) + " tail words";
    let c = content("t", "https://ex.com/x", &long);
    let html = render_template("{{description}}", &c, "img");
    assert_eq!(html, "a".repeat(325));
}

#[test]
fn short_description_is_not_cut() {
    let c = content("t", "https://ex.com/x", "short words stay whole");
    assert_eq!(render_template("{{description}}", &c, "img"), "short words stay whole");
}

#[test]
fn image_source_prefers_the_items_own_image() {
    assert_eq!(
        image_source(&Some("https://ex.com/own.png".to_string()), "/tmp/default.png"),
        "https://ex.com/own.png"
    );
    assert_eq!(image_source(&None, "/tmp/default.png"), "/tmp/default.png");
}

#[test]
fn preview_file_names_follow_the_uuid() {
    assert_eq!(preview_html_name("abc"), "abc.html");
    assert_eq!(preview_image_name("abc"), "abc.png");
}

#[test]
fn content_new_keeps_fields_and_stamps_a_uuid() {
    let c = Content::new(
        "t".to_string(),
        "l".to_string(),
        "d".to_string(),
        Some("i".to_string()),
    );
    assert_eq!(c.title, "t");
    assert_eq!(c.link, "l");
    assert_eq!(c.description, "d");
    assert_eq!(c.image_url.as_deref(), Some("i"));
    assert_eq!(c.uuid.len(), 36);
    let c2 = Content::new("t".to_string(), "l".to_string(), "d".to_string(), None);
    assert_ne!(c.uuid, c2.uuid);
}
