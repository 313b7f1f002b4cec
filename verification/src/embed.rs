use vstd::prelude::*;

verus! {

/// Which attribute of a `<meta>` tag names it.
#[derive(Debug, Clone, Copy, PartialEq, Eq, Structural)]
pub enum MetaAttr {
    /// `property="..."` (Open Graph).
    Property,
    /// `name="..."` (Twitter cards).
    Name,
}

/// One `<meta>` tag: the naming attribute, its value, and the content.
#[derive(Debug)]
pub struct MetaTag {
    pub attr: MetaAttr,
    pub key: String,
    pub content: String,
}

/// The tags as (attribute, key, content).
pub open spec fn tags_view(tags: Seq<MetaTag>) -> Seq<(MetaAttr, Seq<char>, Seq<char>)> {
    tags.map_values(|t: MetaTag| (t.attr, t.key@, t.content@))
}

/// The link-preview tags of a page: Open Graph title, description, URL,
/// image and type `website`, then a large-image Twitter card with the same
/// title, description and image.
pub open spec fn head_embed_spec(
    title: Seq<char>,
    description: Seq<char>,
    url: Seq<char>,
    image: Seq<char>,
) -> Seq<(MetaAttr, Seq<char>, Seq<char>)> {
    seq![
        (MetaAttr::Property, "og:title"@, title),
        (MetaAttr::Property, "og:description"@, description),
        (MetaAttr::Property, "og:url"@, url),
        (MetaAttr::Property, "og:image"@, image),
        (MetaAttr::Property, "og:type"@, "website"@),
        (MetaAttr::Name, "twitter:card"@, "summary_large_image"@),
        (MetaAttr::Name, "twitter:title"@, title),
        (MetaAttr::Name, "twitter:description"@, description),
        (MetaAttr::Name, "twitter:image"@, image),
    ]
}

fn tag(attr: MetaAttr, key: &str, content: &str) -> (r: MetaTag)
    ensures
        r.attr == attr,
        r.key@ == key@,
        r.content@ == content@,
{
    MetaTag { attr, key: key.to_owned(), content: content.to_owned() }
}

/// The `<meta>` tags that describe a page for link previews, in order.
pub fn head_embed_tags(title: &str, description: &str, url: &str, image: &str) -> (r: Vec<MetaTag>)
    ensures
        tags_view(r@) == head_embed_spec(title@, description@, url@, image@),
{
    let mut v: Vec<MetaTag> = Vec::new();
    v.push(tag(MetaAttr::Property, "og:title", title));
    v.push(tag(MetaAttr::Property, "og:description", description));
    v.push(tag(MetaAttr::Property, "og:url", url));
    v.push(tag(MetaAttr::Property, "og:image", image));
    v.push(tag(MetaAttr::Property, "og:type", "website"));
    v.push(tag(MetaAttr::Name, "twitter:card", "summary_large_image"));
    v.push(tag(MetaAttr::Name, "twitter:title", title));
    v.push(tag(MetaAttr::Name, "twitter:description", description));
    v.push(tag(MetaAttr::Name, "twitter:image", image));
    assert(tags_view(v@) =~= head_embed_spec(title@, description@, url@, image@));
    v
}

} // verus!
