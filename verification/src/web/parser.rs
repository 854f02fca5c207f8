//! The text that announces a posted web hook message with its embeds.

use vstd::prelude::*;
use vstd::string::*;
use crate::text::{chars_of, lines_of, optional_text, push_chars, split_lines, string_of, trim_bounds, trimmed};

verus! {

/// A posted message.
pub struct WebhookData {
    pub content: Option<String>,
    pub username: Option<String>,
    pub embeds: Vec<Embed>,
}

/// An embed of a posted message.
pub struct Embed {
    pub title: Option<String>,
    pub description: Option<String>,
    pub url: Option<String>,
    pub timestamp: Option<String>,
    pub footer: Option<EmbedFooter>,
    pub image: Option<UrlObject>,
    pub thumbnail: Option<UrlObject>,
    pub video: Option<UrlObject>,
    pub author: Option<EmbedAuthor>,
    pub fields: Option<Vec<EmbedField>>,
}

/// Something that is given by its address.
pub struct UrlObject {
    pub url: String,
}

/// The author of an embed.
pub struct EmbedAuthor {
    pub name: String,
}

/// The footer of an embed.
pub struct EmbedFooter {
    pub text: String,
}

/// A named value of an embed.
pub struct EmbedField {
    pub name: String,
    pub value: String,
}

/// The greatest number of grapheme clusters shown of a text.
pub const SHOWN: usize = 450;

/// `text` cut to `len` extended grapheme clusters, with `...` after it where
/// something was cut, as `ellipse` computes it.
pub uninterp spec fn ellipsed(text: Seq<char>, len: nat) -> Seq<char>;

/// Calls `Ellipse::truncate_ellipse` of the crate `ellipse`. The contract
/// names the outcome, which depends on the text and the length alone, and adds
/// that a text of at most `len` characters, which has no more grapheme
/// clusters than characters, comes back as it is.
#[verifier::external_body]
fn truncate_ellipse(text: &str, len: usize) -> (r: String)
    ensures
        r@ == ellipsed(text@, len as nat),
        text@.len() <= len ==> r@ == text@,
{
    ellipse::Ellipse::truncate_ellipse(&text, len).into_owned()
}

/// Each of `lines` after `prefix`, ending in a carriage return and a line feed.
pub open spec fn prefixed(prefix: Seq<char>, lines: Seq<Seq<char>>) -> Seq<char>
    decreases lines.len(),
{
    if lines.len() == 0 {
        Seq::empty()
    } else {
        prefixed(prefix, lines.drop_last()) + prefix + lines.last() + "\r\n"@
    }
}

/// A longer text as it is shown: trimmed, cut to 450 grapheme clusters, each line after `prefix`.
pub open spec fn shown_block(prefix: Seq<char>, text: Seq<char>) -> Seq<char> {
    prefixed(prefix, lines_of(ellipsed(trimmed(text), SHOWN as nat)))
}

/// A value after its label on a line of its own, where there is a value and it is not empty.
#[verifier::opaque]
pub open spec fn labelled(label: Seq<char>, value: Option<Seq<char>>) -> Seq<char> {
    match value {
        Some(v) => if v.len() == 0 {
            Seq::empty()
        } else {
            label + v + "\r\n"@
        },
        None => Seq::empty(),
    }
}

/// The fields of an embed as they are shown: each name, then its value.
pub open spec fn shown_fields(fields: Seq<EmbedField>) -> Seq<char>
    decreases fields.len(),
{
    if fields.len() == 0 {
        Seq::empty()
    } else {
        shown_fields(fields.drop_last()) + "  + "@ + fields.last().name@ + "\r\n"@ + shown_block(
            "   "@,
            fields.last().value@,
        )
    }
}

/// The address of something that may be given by its address.
pub open spec fn address(o: Option<UrlObject>) -> Option<Seq<char>> {
    match o {
        Some(o) => Some(o.url@),
        None => None,
    }
}

/// The heading of an embed: its title, or `Embed` without one.
pub open spec fn embed_heading(e: Embed) -> Seq<char> {
    "-> "@ + (match e.title {
        Some(t) => t@,
        None => "Embed"@,
    }) + "\r\n"@
}

/// The description of an embed as it is shown, where it has one that is not empty.
pub open spec fn embed_description(e: Embed) -> Seq<char> {
    match e.description {
        Some(d) => if d@.len() == 0 {
            Seq::empty()
        } else {
            shown_block("  "@, d@)
        },
        None => Seq::empty(),
    }
}

/// The fields of an embed as they are shown, where it has fields.
pub open spec fn embed_fields(e: Embed) -> Seq<char> {
    match e.fields {
        Some(fields) => shown_fields(fields@),
        None => Seq::empty(),
    }
}

/// The name of an author, where there is one.
pub open spec fn author_name(a: Option<EmbedAuthor>) -> Option<Seq<char>> {
    match a {
        Some(a) => Some(a.name@),
        None => None,
    }
}

/// The text of a footer, where there is one.
pub open spec fn footer_text(f: Option<EmbedFooter>) -> Option<Seq<char>> {
    match f {
        Some(f) => Some(f.text@),
        None => None,
    }
}

/// What an embed points to and comes from, each on a line of its own: its
/// address, image, thumbnail and video, its author, its footer and its time.
pub open spec fn embed_links(e: Embed) -> Seq<char> {
    labelled("  url: "@, optional_text(e.url)) + labelled("  img: "@, address(e.image))
        + labelled("  thumb: "@, address(e.thumbnail)) + labelled("  vid: "@, address(e.video))
        + labelled("  by: "@, author_name(e.author)) + labelled("  - "@, footer_text(e.footer))
        + labelled("  - "@, optional_text(e.timestamp))
}

/// An embed as it is shown.
pub open spec fn shown_embed(e: Embed) -> Seq<char> {
    embed_heading(e) + embed_description(e) + embed_fields(e) + embed_links(e)
}

/// Some embeds as they are shown, one after the other.
pub open spec fn shown_embeds(embeds: Seq<Embed>) -> Seq<char>
    decreases embeds.len(),
{
    if embeds.len() == 0 {
        Seq::empty()
    } else {
        shown_embeds(embeds.drop_last()) + shown_embed(embeds.last())
    }
}

/// A posted message as it is announced: a heading with the name of the
/// sender, else of the hook, the content, the embeds, and a closing line.
pub open spec fn textified(wh: WebhookData, webhook_name: Seq<char>) -> Seq<char> {
    "-- [Webhook: "@ + (match wh.username {
        Some(u) => u@,
        None => webhook_name,
    }) + "]\r\n"@ + (match wh.content {
        Some(c) => shown_block(" "@, c@),
        None => Seq::empty(),
    }) + shown_embeds(wh.embeds@) + "-- end of webhook"@
}

/// Appends a longer text as it is shown.
fn push_block(buf: &mut String, prefix: &str, text: &str)
    ensures
        final(buf)@ == old(buf)@ + shown_block(prefix@, text@),
{
    let chars = chars_of(text);
    let (from, to) = trim_bounds(&chars);
    let kept = string_of(&chars, from, to);
    let cut = truncate_ellipse(kept.as_str(), SHOWN);
    let cut_chars = chars_of(cut.as_str());
    let lines = split_lines(&cut_chars);
    let ghost all = Seq::new(lines@.len(), |i: int| lines@[i]@);
    let mut i: usize = 0;
    assert(buf@ =~= old(buf)@ + prefixed(prefix@, all.take(0)));
    while i < lines.len()
        invariant
            i <= lines.len(),
            all == Seq::new(lines@.len(), |i: int| lines@[i]@),
            buf@ == old(buf)@ + prefixed(prefix@, all.take(i as int)),
        decreases lines.len() - i,
    {
        buf.append(prefix);
        push_chars(buf, &lines[i], 0, lines[i].len());
        buf.append("\r\n");
        i += 1;
        proof {
            assert(lines@[i - 1]@.subrange(0, lines@[i - 1]@.len() as int) =~= lines@[i - 1]@);
            assert(all.take(i as int).drop_last() =~= all.take(i - 1));
            assert(all.take(i as int).last() == lines@[i - 1]@);
            assert(buf@ =~= old(buf)@ + prefixed(prefix@, all.take(i as int)));
        }
    }
    assert(all.take(i as int) =~= all);
}

/// Appends a value after its label, where there is a value and it is not empty.
fn push_labelled(buf: &mut String, label: &str, value: Option<&str>)
    ensures
        final(buf)@ == old(buf)@ + labelled(
            label@,
            match value {
                Some(v) => Some(v@),
                None => None,
            },
        ),
{
    reveal(labelled);
    match value {
        Some(v) => {
            if v.unicode_len() != 0 {
                buf.append(label);
                buf.append(v);
                buf.append("\r\n");
                assert(buf@ =~= old(buf)@ + (label@ + v@ + "\r\n"@));
            } else {
                assert(buf@ =~= old(buf)@ + Seq::<char>::empty());
            }
        },
        None => {
            assert(buf@ =~= old(buf)@ + Seq::<char>::empty());
        },
    }
}

/// The address of something that may be given by its address.
fn address_of(o: &Option<UrlObject>) -> (r: Option<&str>)
    ensures
        (match r {
            Some(v) => Some(v@),
            None => None,
        }) == address(*o),
{
    match o {
        Some(o) => Some(o.url.as_str()),
        None => None,
    }
}

/// Appends the heading, the description and the fields of an embed.
fn push_embed_body(buf: &mut String, embed: &Embed)
    ensures
        final(buf)@ == old(buf)@ + (embed_heading(*embed) + embed_description(*embed)
            + embed_fields(*embed)),
{
    let ghost start = buf@;
    buf.append("-> ");
    match &embed.title {
        Some(t) => buf.append(t.as_str()),
        None => buf.append("Embed"),
    }
    buf.append("\r\n");
    let ghost head = embed_heading(*embed);
    assert(buf@ =~= start + head);
    match &embed.description {
        Some(d) => {
            if d.as_str().unicode_len() != 0 {
                push_block(buf, "  ", d.as_str());
            }
        },
        None => {},
    }
    let ghost described = head + embed_description(*embed);
    assert(buf@ =~= start + described);
    match &embed.fields {
        Some(fields) => {
            let mut i: usize = 0;
            assert(buf@ =~= start + described + shown_fields(fields@.take(0)));
            while i < fields.len()
                invariant
                    i <= fields.len(),
                    buf@ == start + described + shown_fields(fields@.take(i as int)),
                decreases fields.len() - i,
            {
                let ghost was = buf@;
                buf.append("  + ");
                buf.append(fields[i].name.as_str());
                buf.append("\r\n");
                push_block(buf, "   ", fields[i].value.as_str());
                i += 1;
                proof {
                    assert(fields@.take(i as int).drop_last() =~= fields@.take(i - 1));
                    assert(fields@.take(i as int).last() == fields@[i - 1]);
                    assert(buf@ =~= was + ("  + "@ + fields@[i - 1].name@ + "\r\n"@ + shown_block(
                        "   "@,
                        fields@[i - 1].value@,
                    )));
                    assert(buf@ =~= start + described + shown_fields(fields@.take(i as int)));
                }
            }
            assert(fields@.take(i as int) =~= fields@);
        },
        None => {},
    }
    assert(buf@ =~= start + (described + embed_fields(*embed)));
}

/// Appends what an embed points to and comes from.
fn push_embed_links(buf: &mut String, embed: &Embed)
    ensures
        final(buf)@ == old(buf)@ + embed_links(*embed),
{
    let ghost start = buf@;
    push_labelled(
        buf,
        "  url: ",
        match &embed.url {
            Some(u) => Some(u.as_str()),
            None => None,
        },
    );
    let ghost t1 = labelled("  url: "@, optional_text(embed.url));
    assert(buf@ == start + t1);
    push_labelled(buf, "  img: ", address_of(&embed.image));
    let ghost t2 = t1 + labelled("  img: "@, address(embed.image));
    assert(buf@ =~= start + t2);
    push_labelled(buf, "  thumb: ", address_of(&embed.thumbnail));
    let ghost t3 = t2 + labelled("  thumb: "@, address(embed.thumbnail));
    assert(buf@ =~= start + t3);
    push_labelled(buf, "  vid: ", address_of(&embed.video));
    let ghost t4 = t3 + labelled("  vid: "@, address(embed.video));
    assert(buf@ =~= start + t4);
    let who = match &embed.author {
        Some(a) => Some(a.name.as_str()),
        None => None,
    };
    push_labelled(buf, "  by: ", who);
    let ghost t5 = t4 + labelled("  by: "@, author_name(embed.author));
    assert(buf@ =~= start + t5);
    let foot = match &embed.footer {
        Some(f) => Some(f.text.as_str()),
        None => None,
    };
    push_labelled(buf, "  - ", foot);
    let ghost t6 = t5 + labelled("  - "@, footer_text(embed.footer));
    assert(buf@ =~= start + t6);
    push_labelled(
        buf,
        "  - ",
        match &embed.timestamp {
            Some(t) => Some(t.as_str()),
            None => None,
        },
    );
    let ghost t7 = t6 + labelled("  - "@, optional_text(embed.timestamp));
    assert(buf@ =~= start + t7);
    assert(t7 == embed_links(*embed));
}

/// Appends an embed as it is shown.
fn push_embed(buf: &mut String, embed: &Embed)
    ensures
        final(buf)@ == old(buf)@ + shown_embed(*embed),
{
    push_embed_body(buf, embed);
    push_embed_links(buf, embed);
    assert(buf@ =~= old(buf)@ + shown_embed(*embed));
}

/// The announcement of a posted message.
pub fn textify(wh: &WebhookData, webhook_name: &str) -> (text: String)
    ensures
        text@ == textified(*wh, webhook_name@),
{
    let mut buf = "-- [Webhook: ".to_owned();
    match &wh.username {
        Some(u) => buf.append(u.as_str()),
        None => buf.append(webhook_name),
    }
    buf.append("]\r\n");
    match &wh.content {
        Some(c) => push_block(&mut buf, " ", c.as_str()),
        None => {},
    }
    let ghost head = buf@;
    let mut i: usize = 0;
    assert(buf@ =~= head + shown_embeds(wh.embeds@.take(0)));
    while i < wh.embeds.len()
        invariant
            i <= wh.embeds.len(),
            buf@ == head + shown_embeds(wh.embeds@.take(i as int)),
        decreases wh.embeds.len() - i,
    {
        push_embed(&mut buf, &wh.embeds[i]);
        i += 1;
        proof {
            assert(wh.embeds@.take(i as int).drop_last() =~= wh.embeds@.take(i - 1));
            assert(wh.embeds@.take(i as int).last() == wh.embeds@[i - 1]);
            assert(buf@ =~= head + shown_embeds(wh.embeds@.take(i as int)));
        }
    }
    assert(wh.embeds@.take(i as int) =~= wh.embeds@);
    buf.append("-- end of webhook");
    assert(buf@ =~= textified(*wh, webhook_name@));
    buf
}

} // verus!
