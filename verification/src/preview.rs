use vstd::prelude::*;
use vstd::string::StringExecFns;

use crate::content::Content;
use crate::text::{chars_to_string, replace_all, replaced, str_to_chars};

verus! {

// ---------------------------------------------------------------------------
// The preview image: template rendering and the transient file names
// ---------------------------------------------------------------------------

/// The description as shown on a preview image, from position `idx` on: the
/// text is cut at the first space at or after position 320, so it runs to
/// the end of the word in flight when the limit is reached.
pub open spec fn truncated_from(s: Seq<char>, idx: int) -> Seq<char>
    decreases s.len(),
{
    if s.len() == 0 {
        s
    } else if idx < 320 || s[0] != ' ' {
        seq![s[0]] + truncated_from(s.skip(1), idx + 1)
    } else {
        Seq::empty()
    }
}

/// The description as shown on a preview image: cut at the first whole word
/// at or after 320 characters.
pub open spec fn truncated_description(s: Seq<char>) -> Seq<char> {
    truncated_from(s, 0)
}

/// Cuts a description for the preview image.
fn truncate_description(chars: &Vec<char>) -> (r: Vec<char>)
    ensures
        r@ == truncated_description(chars@),
{
    let mut out: Vec<char> = Vec::new();
    let mut i: usize = 0;
    proof {
        assert(chars@.skip(0) =~= chars@);
        assert(out@ + truncated_from(chars@, 0) =~= truncated_from(chars@, 0));
    }
    while i < chars.len() && (i < 320 || chars[i] != ' ')
        invariant
            i <= chars@.len(),
            truncated_description(chars@) == out@ + truncated_from(chars@.skip(i as int), i as int),
        decreases chars@.len() - i,
    {
        let ghost tail = chars@.skip(i as int);
        let ghost pre = out@;
        proof {
            assert(tail[0] == chars@[i as int]);
            assert(tail.skip(1) =~= chars@.skip(i + 1));
        }
        out.push(chars[i]);
        proof {
            assert(out@ =~= pre + seq![tail[0]]);
        }
        i = i + 1;
    }
    proof {
        if i < chars@.len() {
            assert(chars@.skip(i as int)[0] == chars@[i as int]);
        }
        assert(truncated_from(chars@.skip(i as int), i as int) =~= Seq::<char>::empty());
        assert(out@ + Seq::<char>::empty() =~= out@);
    }
    out
}

/// What the HTML handed to the renderer holds: the template with each
/// placeholder replaced in turn — the title, then the description cut for
/// display, then the link, then the image source.
pub open spec fn rendered_template(
    template: Seq<char>,
    title: Seq<char>,
    description: Seq<char>,
    link: Seq<char>,
    image_src: Seq<char>,
) -> Seq<char> {
    replaced(
        replaced(
            replaced(replaced(template, "{{title}}"@, title), "{{description}}"@, truncated_description(description)),
            "{{link}}"@,
            link,
        ),
        "{{image-src}}"@,
        image_src,
    )
}

/// Fills the preview template with a content's fields and the resolved
/// image source.
pub fn render_template(template: &str, content: &Content, image_src: &str) -> (r: String)
    ensures
        r@ == rendered_template(
            template@,
            content.title@,
            content.description@,
            content.link@,
            image_src@,
        ),
{
    let tpl = str_to_chars(template);
    let with_title = replace_all(
        &tpl,
        &str_to_chars("{{title}}"),
        &str_to_chars(content.title.as_str()),
    );
    let cut = truncate_description(&str_to_chars(content.description.as_str()));
    let with_description = replace_all(&with_title, &str_to_chars("{{description}}"), &cut);
    let with_link = replace_all(
        &with_description,
        &str_to_chars("{{link}}"),
        &str_to_chars(content.link.as_str()),
    );
    let filled = replace_all(&with_link, &str_to_chars("{{image-src}}"), &str_to_chars(image_src));
    chars_to_string(&filled)
}

/// The image source for a content's preview: the item's own image when it
/// brought one, else the configured default (already resolved by the
/// caller to the path it wants rendered).
pub fn image_source(item_image: &Option<String>, default_image: &str) -> (r: String)
    ensures
        item_image matches Some(u) ==> r@ == u@,
        item_image is None ==> r@ == default_image@,
{
    match item_image {
        Some(u) => u.clone(),
        None => default_image.to_owned(),
    }
}

/// The name of the transient HTML file written for a content's preview.
pub fn preview_html_name(uuid: &str) -> (r: String)
    ensures
        r@ == uuid@ + ".html"@,
{
    let mut out = String::new();
    out.append(uuid);
    out.append(".html");
    proof {
        assert(out@ =~= uuid@ + ".html"@);
    }
    out
}

/// The name of the transient image file the renderer fills for a content's
/// preview.
pub fn preview_image_name(uuid: &str) -> (r: String)
    ensures
        r@ == uuid@ + ".png"@,
{
    let mut out = String::new();
    out.append(uuid);
    out.append(".png");
    proof {
        assert(out@ =~= uuid@ + ".png"@);
    }
    out
}

} // verus!
