//! One title as the catalogue describes it.

use crate::text::str_eq;
use vstd::prelude::*;

verus! {

/// The language in which texts are shown where the catalogue has them in it.
pub const PREFERRED_LANGUAGE: &'static str = "en";

/// A text in one language. Titles, descriptions and tag names come as lists
/// of these, in the catalogue's order and with each language once.
#[derive(Debug)]
pub struct Translation {
    pub lang: String,
    pub text: String,
}

/// A title: its id, what it is, and what it is related to.
#[derive(Debug)]
pub struct MangaData {
    pub id: String,
    pub attributes: MangaAttributes,
    pub relationships: Vec<Relationship>,
}

/// What the catalogue says of a title itself.
#[derive(Debug)]
pub struct MangaAttributes {
    pub status: String,
    pub title: Vec<Translation>,
    pub description: Vec<Translation>,
    pub translations: Vec<String>,
    pub year: Option<u32>,
    pub tags: Vec<Tag>,
}

/// A tag of a title.
#[derive(Debug)]
pub struct Tag {
    pub attributes: TagAttributes,
}

/// The group a tag belongs to (genre, theme, format) and its name.
#[derive(Debug)]
pub struct TagAttributes {
    pub group: String,
    pub name: Vec<Translation>,
}

/// Something a title is related to: its author, its cover.
#[derive(Debug)]
pub struct Relationship {
    pub rel_type: String,
    pub attributes: Option<RelationshipAttributes>,
}

/// What the catalogue says of a related thing, as far as it was asked to.
#[derive(Debug)]
pub struct RelationshipAttributes {
    pub file_name: Option<String>,
    pub name: Option<String>,
}

/// The text in the language `lang`: that of the first entry in that language.
pub open spec fn text_in(texts: Seq<Translation>, lang: Seq<char>) -> Option<Seq<char>>
    decreases texts.len(),
{
    if texts.len() == 0 {
        None
    } else if texts[0].lang@ == lang {
        Some(texts[0].text@)
    } else {
        text_in(texts.drop_first(), lang)
    }
}

/// The text to show: the one in the preferred language, else the first one
/// there is, else none.
pub open spec fn shown_text(texts: Seq<Translation>) -> Option<Seq<char>> {
    match text_in(texts, PREFERRED_LANGUAGE@) {
        Some(text) => Some(text),
        None => if texts.len() > 0 {
            Some(texts[0].text@)
        } else {
            None
        },
    }
}

/// The first relationship of the given type, whatever it carries.
pub open spec fn first_of_type(rels: Seq<Relationship>, rel_type: Seq<char>) -> Option<Relationship>
    decreases rels.len(),
{
    if rels.len() == 0 {
        None
    } else if rels[0].rel_type@ == rel_type {
        Some(rels[0])
    } else {
        first_of_type(rels.drop_first(), rel_type)
    }
}

/// The name that a relationship carries, if it carries one.
pub open spec fn name_of(rel: Relationship) -> Option<Seq<char>> {
    match rel.attributes {
        Some(attributes) => match attributes.name {
            Some(name) => Some(name@),
            None => None,
        },
        None => None,
    }
}

/// The name of the first relationship of the given type that carries one.
pub open spec fn first_name_of_type(rels: Seq<Relationship>, rel_type: Seq<char>) -> Option<
    Seq<char>,
>
    decreases rels.len(),
{
    if rels.len() == 0 {
        None
    } else if rels[0].rel_type@ == rel_type && name_of(rels[0]) is Some {
        name_of(rels[0])
    } else {
        first_name_of_type(rels.drop_first(), rel_type)
    }
}

/// The text in the language `lang`, if there is one.
pub fn find_text<'a>(texts: &'a Vec<Translation>, lang: &str) -> (text: Option<&'a String>)
    ensures
        match text {
            Some(t) => text_in(texts@, lang@) == Some(t@),
            None => text_in(texts@, lang@) is None,
        },
{
    let mut i: usize = 0;
    assert(texts@.skip(0) =~= texts@);
    while i < texts.len()
        invariant
            i <= texts@.len(),
            text_in(texts@, lang@) == text_in(texts@.skip(i as int), lang@),
        decreases texts@.len() - i,
    {
        if str_eq(texts[i].lang.as_str(), lang) {
            assert(texts@.skip(i as int)[0] == texts@[i as int]);
            return Some(&texts[i].text);
        }
        assert(texts@.skip(i as int).drop_first() =~= texts@.skip(i + 1));
        assert(texts@.skip(i as int)[0] == texts@[i as int]);
        i += 1;
    }
    assert(texts@.skip(i as int).len() == 0);
    None
}

/// The text to show of a list of translations.
pub fn pick_text(texts: &Vec<Translation>) -> (text: Option<String>)
    ensures
        crate::text::opt_chars(text) == shown_text(texts@),
{
    match find_text(texts, PREFERRED_LANGUAGE) {
        Some(t) => Some(t.clone()),
        None => {
            if texts.len() > 0 {
                Some(texts[0].text.clone())
            } else {
                None
            }
        },
    }
}

/// The first relationship of the given type.
pub fn find_relationship<'a>(rels: &'a Vec<Relationship>, rel_type: &str) -> (found: Option<
    &'a Relationship,
>)
    ensures
        match found {
            Some(rel) => first_of_type(rels@, rel_type@) == Some(*rel),
            None => first_of_type(rels@, rel_type@) is None,
        },
{
    let mut i: usize = 0;
    assert(rels@.skip(0) =~= rels@);
    while i < rels.len()
        invariant
            i <= rels@.len(),
            first_of_type(rels@, rel_type@) == first_of_type(rels@.skip(i as int), rel_type@),
        decreases rels@.len() - i,
    {
        if str_eq(rels[i].rel_type.as_str(), rel_type) {
            assert(rels@.skip(i as int)[0] == rels@[i as int]);
            return Some(&rels[i]);
        }
        assert(rels@.skip(i as int).drop_first() =~= rels@.skip(i + 1));
        assert(rels@.skip(i as int)[0] == rels@[i as int]);
        i += 1;
    }
    assert(rels@.skip(i as int).len() == 0);
    None
}

/// The name of the first relationship of the given type that carries one.
pub fn find_related_name(rels: &Vec<Relationship>, rel_type: &str) -> (name: Option<String>)
    ensures
        crate::text::opt_chars(name) == first_name_of_type(rels@, rel_type@),
{
    let mut i: usize = 0;
    assert(rels@.skip(0) =~= rels@);
    while i < rels.len()
        invariant
            i <= rels@.len(),
            first_name_of_type(rels@, rel_type@) == first_name_of_type(
                rels@.skip(i as int),
                rel_type@,
            ),
        decreases rels@.len() - i,
    {
        assert(rels@.skip(i as int)[0] == rels@[i as int]);
        if str_eq(rels[i].rel_type.as_str(), rel_type) {
            match &rels[i].attributes {
                Some(attributes) => match &attributes.name {
                    Some(name) => {
                        return Some(name.clone());
                    },
                    None => {},
                },
                None => {},
            }
        }
        assert(rels@.skip(i as int).drop_first() =~= rels@.skip(i + 1));
        i += 1;
    }
    assert(rels@.skip(i as int).len() == 0);
    None
}

} // verus!
