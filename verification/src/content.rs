use vstd::prelude::*;
use vstd::string::StringExecFns;

verus! {

/// A normalized, publish-ready feed item: the required title, link and
/// description, the optional source URL of a preview image, and a fresh
/// identifier used to name the transient preview files.
#[derive(Debug)]
pub struct Content {
    pub uuid: String,
    pub title: String,
    pub link: String,
    pub image_url: Option<String>,
    pub description: String,
}

/// Relies on uuid's `Uuid::new_v4` and its hyphenated text form, which is
/// documented to be 36 characters long.  Nothing more is assumed of a random
/// identifier.
#[verifier::external_body]
fn fresh_uuid() -> (r: String)
    ensures
        r@.len() == 36,
{
    uuid::Uuid::new_v4().to_string()
}

/// The text of the outbound post: title, description and link, separated by
/// blank lines.
pub open spec fn status_text_spec(title: Seq<char>, description: Seq<char>, link: Seq<char>) -> Seq<
    char,
> {
    title + seq!['\n', '\n'] + description + seq!['\n', '\n'] + link
}

impl Content {
    /// Builds a content value from already-normalized fields, stamping it
    /// with a fresh identifier.
    pub fn new(title: String, link: String, description: String, image: Option<String>) -> (c:
        Content)
        ensures
            c.title == title,
            c.link == link,
            c.description == description,
            c.image_url == image,
            c.uuid@.len() == 36,
    {
        Content { uuid: fresh_uuid(), title, link, description, image_url: image }
    }

    /// The plain-text body of the post made from this content.
    pub fn status_text(&self) -> (r: String)
        ensures
            r@ == status_text_spec(self.title@, self.description@, self.link@),
    {
        proof {
            reveal_strlit("\n\n");
        }
        let mut out = String::new();
        out.append(self.title.as_str());
        out.append("\n\n");
        out.append(self.description.as_str());
        out.append("\n\n");
        out.append(self.link.as_str());
        proof {
            assert(out@ =~= status_text_spec(self.title@, self.description@, self.link@));
        }
        out
    }
}

} // verus!
