//! Rich embeds attached to messages: cleaned and bounded before they are stored.
//!
//! Limits: at most 10 embeds; title ≤ 256 characters, description ≤ 4096; at most 25
//! fields (name ≤ 256, value ≤ 1024, both non-empty); footer ≤ 2048; URLs only `http(s)`
//! (others removed) and ≤ 2048; color masked to 24 bits; embeds left empty are dropped.

use vstd::prelude::*;
use crate::text::{chars_of, starts_with_spec, str_starts_with, string_from_range};

verus! {

pub struct EmbedField {
    pub name: String,
    pub value: String,
    pub inline: bool,
}

pub struct MessageEmbed {
    pub title: Option<String>,
    pub description: Option<String>,
    pub url: Option<String>,
    pub color: Option<u32>,
    pub fields: Vec<EmbedField>,
    pub image_url: Option<String>,
    pub footer: Option<String>,
}

/// Mathematical content of an embed field.
pub struct EmbedFieldView {
    pub name: Seq<char>,
    pub value: Seq<char>,
    pub inline: bool,
}

/// Mathematical content of an embed.
pub struct EmbedView {
    pub title: Option<Seq<char>>,
    pub description: Option<Seq<char>>,
    pub url: Option<Seq<char>>,
    pub color: Option<u32>,
    pub fields: Seq<EmbedFieldView>,
    pub image_url: Option<Seq<char>>,
    pub footer: Option<Seq<char>>,
}

pub open spec fn opt_view(s: Option<String>) -> Option<Seq<char>> {
    match s {
        Some(t) => Some(t@),
        None => None,
    }
}

impl View for EmbedField {
    type V = EmbedFieldView;

    open spec fn view(&self) -> EmbedFieldView {
        EmbedFieldView { name: self.name@, value: self.value@, inline: self.inline }
    }
}

impl View for MessageEmbed {
    type V = EmbedView;

    open spec fn view(&self) -> EmbedView {
        EmbedView {
            title: opt_view(self.title),
            description: opt_view(self.description),
            url: opt_view(self.url),
            color: self.color,
            fields: self.fields@.map_values(|f: EmbedField| f@),
            image_url: opt_view(self.image_url),
            footer: opt_view(self.footer),
        }
    }
}

/// The first `max` elements of `s` (all of them when shorter).
pub open spec fn prefix<A>(s: Seq<A>, max: nat) -> Seq<A> {
    if s.len() <= max {
        s
    } else {
        s.take(max as int)
    }
}

/// A text cut to `max` characters, absent when that leaves nothing.
pub open spec fn clip_spec(s: Option<Seq<char>>, max: nat) -> Option<Seq<char>> {
    match s {
        Some(t) => if prefix(t, max).len() == 0 {
            None
        } else {
            Some(prefix(t, max))
        },
        None => None,
    }
}

/// An `http://` or `https://` URL cut to 2048 characters; anything else is removed.
pub open spec fn safe_url_spec(u: Option<Seq<char>>) -> Option<Seq<char>> {
    match u {
        Some(t) => if starts_with_spec(t, "http://"@) || starts_with_spec(t, "https://"@) {
            Some(prefix(t, 2048))
        } else {
            None
        },
        None => None,
    }
}

/// The cleaned fields: each cut (name 256, value 1024), kept when both are non-empty.
pub open spec fn clean_fields(fs: Seq<EmbedFieldView>) -> Seq<EmbedFieldView>
    decreases fs.len(),
{
    if fs.len() == 0 {
        Seq::empty()
    } else {
        let rest = clean_fields(fs.drop_last());
        let f = fs.last();
        let name = prefix(f.name, 256);
        let value = prefix(f.value, 1024);
        if name.len() == 0 || value.len() == 0 {
            rest
        } else {
            rest.push(EmbedFieldView { name, value, inline: f.inline })
        }
    }
}

/// One embed cleaned (its first 25 fields considered).
pub open spec fn clean_embed(e: EmbedView) -> EmbedView {
    EmbedView {
        title: clip_spec(e.title, 256),
        description: clip_spec(e.description, 4096),
        url: safe_url_spec(e.url),
        color: match e.color {
            Some(c) => Some(c & 0xFF_FFFFu32),
            None => None,
        },
        fields: clean_fields(prefix(e.fields, 25)),
        image_url: safe_url_spec(e.image_url),
        footer: clip_spec(e.footer, 2048),
    }
}

/// An embed shows something: a title, a description, a field or an image.
pub open spec fn embed_shows_something(e: EmbedView) -> bool {
    e.title is Some || e.description is Some || e.fields.len() > 0 || e.image_url is Some
}

/// The cleaned embeds of `es`, the empty ones dropped.
pub open spec fn clean_embeds(es: Seq<EmbedView>) -> Seq<EmbedView>
    decreases es.len(),
{
    if es.len() == 0 {
        Seq::empty()
    } else {
        let rest = clean_embeds(es.drop_last());
        let c = clean_embed(es.last());
        if embed_shows_something(c) {
            rest.push(c)
        } else {
            rest
        }
    }
}

/// What [`sanitize_embeds`] keeps of `es`: its first 10 embeds, cleaned, empty ones dropped.
pub open spec fn sanitize_embeds_spec(es: Seq<EmbedView>) -> Seq<EmbedView> {
    clean_embeds(prefix(es, 10))
}

/// The first `max` characters of `s`.
pub fn clip_chars(s: &str, max: usize) -> (r: String)
    ensures
        r@ == prefix(s@, max as nat),
{
    let v = chars_of(s);
    let n = if v.len() <= max {
        v.len()
    } else {
        max
    };
    let r = string_from_range(&v, 0, n);
    assert(v@.subrange(0, n as int) == prefix(s@, max as nat));
    r
}

/// Cuts an optional text to `max` characters; absent when empty.
fn clip(s: Option<String>, max: usize) -> (r: Option<String>)
    ensures
        opt_view(r) == clip_spec(opt_view(s), max as nat),
{
    match s {
        Some(t) => {
            let c = clip_chars(t.as_str(), max);
            if crate::text::char_count(c.as_str()) == 0 {
                None
            } else {
                Some(c)
            }
        },
        None => None,
    }
}

/// Keeps an optional URL only when it is `http(s)`, cut to 2048 characters.
fn safe_url(u: Option<String>) -> (r: Option<String>)
    ensures
        opt_view(r) == safe_url_spec(opt_view(u)),
{
    match u {
        Some(t) => {
            if str_starts_with(t.as_str(), "http://") || str_starts_with(t.as_str(), "https://") {
                Some(clip_chars(t.as_str(), 2048))
            } else {
                None
            }
        },
        None => None,
    }
}

/// Views of a sequence of fields.
pub open spec fn field_views(v: Seq<EmbedField>) -> Seq<EmbedFieldView> {
    v.map_values(|f: EmbedField| f@)
}

/// Views of a sequence of embeds.
pub open spec fn embed_views(v: Seq<MessageEmbed>) -> Seq<EmbedView> {
    v.map_values(|e: MessageEmbed| e@)
}

/// Cleans the fields of one embed.
fn clean_field_list(fields: Vec<EmbedField>) -> (r: Vec<EmbedField>)
    ensures
        field_views(r@) == clean_fields(prefix(field_views(fields@), 25)),
{
    let n = if fields.len() <= 25 {
        fields.len()
    } else {
        25
    };
    let ghost inp = prefix(field_views(fields@), 25);
    assert(inp =~= field_views(fields@.take(n as int)));
    let mut out: Vec<EmbedField> = Vec::new();
    let mut i: usize = 0;
    while i < n
        invariant
            n <= fields@.len(),
            0 <= i <= n,
            field_views(out@) == clean_fields(field_views(fields@.take(i as int))),
        decreases n - i,
    {
        let f = &fields[i];
        assert(field_views(fields@.take(i + 1)).drop_last() =~= field_views(
            fields@.take(i as int),
        ));
        assert(field_views(fields@.take(i + 1)).last() == fields@[i as int]@);
        let name = clip_chars(f.name.as_str(), 256);
        let value = clip_chars(f.value.as_str(), 1024);
        if crate::text::char_count(name.as_str()) != 0 && crate::text::char_count(value.as_str())
            != 0 {
            let nf = EmbedField { name, value, inline: f.inline };
            let ghost before = out@;
            out.push(nf);
            assert(field_views(out@) =~= field_views(before).push(nf@));
        }
        i = i + 1;
    }
    out
}

/// Cleans and bounds a list of embeds (see [`sanitize_embeds_spec`]); an empty answer
/// means the message carries no embed.
pub fn sanitize_embeds(embeds: Vec<MessageEmbed>) -> (r: Vec<MessageEmbed>)
    ensures
        embed_views(r@) == sanitize_embeds_spec(embed_views(embeds@)),
{
    let ghost input = embeds@;
    let mut embeds = embeds;
    let n = if embeds.len() <= 10 {
        embeds.len()
    } else {
        10
    };
    let ghost orig = input;
    embeds.truncate(n);
    let ghost inp = embeds@;
    assert(embed_views(inp) =~= prefix(embed_views(orig), 10));
    let mut out: Vec<MessageEmbed> = Vec::new();
    let mut rest: Vec<MessageEmbed> = Vec::new();
    // Process in order: move the embeds into a reversed stack, then pop them.
    while embeds.len() > 0
        invariant
            rest@.len() + embeds@.len() == inp.len(),
            forall|k: int| 0 <= k < embeds@.len() ==> embeds@[k] == inp[k],
            forall|k: int|
                0 <= k < rest@.len() ==> rest@[k] == inp[inp.len() - 1 - k],
        decreases embeds.len(),
    {
        let e = embeds.pop().unwrap();
        rest.push(e);
    }
    let mut i: usize = 0;
    while rest.len() > 0
        invariant
            rest@.len() + i == inp.len(),
            inp.len() <= 10,
            forall|k: int| 0 <= k < rest@.len() ==> rest@[k] == inp[inp.len() - 1 - k],
            embed_views(out@) == clean_embeds(embed_views(inp.take(i as int))),
        decreases rest.len(),
    {
        let e = rest.pop().unwrap();
        assert(e == inp[i as int]);
        assert(embed_views(inp.take(i + 1)).drop_last() =~= embed_views(inp.take(i as int)));
        assert(embed_views(inp.take(i + 1)).last() == e@);
        let MessageEmbed { title, description, url, color, fields, image_url, footer } = e;
        let ghost fv = field_views(fields@);
        let c = MessageEmbed {
            title: clip(title, 256),
            description: clip(description, 4096),
            url: safe_url(url),
            color: match color {
                Some(x) => Some(x & 0xFF_FFFF),
                None => None,
            },
            fields: clean_field_list(fields),
            image_url: safe_url(image_url),
            footer: clip(footer, 2048),
        };
        assert(c@ == clean_embed(e@));
        if c.title.is_some() || c.description.is_some() || c.fields.len() > 0
            || c.image_url.is_some() {
            let ghost before = out@;
            out.push(c);
            assert(embed_views(out@) =~= embed_views(before).push(c@));
        }
        i = i + 1;
    }
    assert(inp.take(inp.len() as int) == inp);
    out
}

} // verus!
