//! A title as it is shown in listings.

use crate::model::manga_data::{
    find_relationship, find_text, first_of_type, pick_text, shown_text, text_in, MangaData,
    Relationship, Tag, PREFERRED_LANGUAGE,
};
use crate::text::{each_chars, opt_chars, push_char, str_eq, to_chars};
use vstd::prelude::*;

verus! {

/// Root of the catalogue's uploads.
pub const MANGADEX_UPLOADS: &'static str = "https://uploads.mangadex.org";

/// The relationship type of a cover.
pub const COVER_ART: &'static str = "cover_art";

/// The tag group of genres.
pub const GENRE: &'static str = "genre";

/// A title with what a listing shows of it.
#[derive(Debug)]
pub struct MangaView {
    pub id: String,
    pub title: String,
    pub status: String,
    pub cover_url: Option<String>,
    pub description: Option<String>,
    pub genres: Vec<String>,
    pub lang_codes: Vec<String>,
}

/// The URL of the thumbnail of a cover file of the title `id`.
pub open spec fn cover_url_for(id: Seq<char>, file_name: Seq<char>) -> Seq<char> {
    MANGADEX_UPLOADS@ + "/covers/"@ + id + "/"@ + file_name + ".512.jpg"@
}

/// The URL of the cover of a title: that of the file which its first cover
/// relationship names, and none where there is no such relationship or it
/// names no file.
pub open spec fn cover_url_of(id: Seq<char>, rels: Seq<Relationship>) -> Option<Seq<char>> {
    match first_of_type(rels, COVER_ART@) {
        Some(rel) => match rel.attributes {
            Some(attributes) => match attributes.file_name {
                Some(file_name) => Some(cover_url_for(id, file_name@)),
                None => None,
            },
            None => None,
        },
        None => None,
    }
}

/// The genre that a tag names: its name in the preferred language, if it is
/// of the genre group and has one.
pub open spec fn genre_of(tag: Tag) -> Option<Seq<char>> {
    if tag.attributes.group@ == GENRE@ {
        text_in(tag.attributes.name@, PREFERRED_LANGUAGE@)
    } else {
        None
    }
}

/// The genres that a list of tags names, in the order of the tags.
pub open spec fn genres_of(tags: Seq<Tag>) -> Seq<Seq<char>>
    decreases tags.len(),
{
    if tags.len() == 0 {
        Seq::empty()
    } else {
        let rest = genres_of(tags.drop_last());
        match genre_of(tags.last()) {
            Some(genre) => rest.push(genre),
            None => rest,
        }
    }
}

/// The part of a language tag in front of its first dash: all of it where it
/// has none.
pub open spec fn before_dash(tag: Seq<char>) -> Seq<char>
    decreases tag.len(),
{
    if tag.len() == 0 || tag[0] == '-' {
        Seq::empty()
    } else {
        seq![tag[0]] + before_dash(tag.drop_first())
    }
}

/// The code of the flag under which a translation is listed: the language of
/// its tag, but `gb` for English and `cn` for Chinese.
pub open spec fn lang_code_of(tag: Seq<char>) -> Seq<char> {
    let language = before_dash(tag);
    if language == "en"@ {
        "gb"@
    } else if language == "zh"@ {
        "cn"@
    } else {
        language
    }
}

/// The flag codes of a list of language tags.
pub open spec fn lang_codes_of(tags: Seq<String>) -> Seq<Seq<char>> {
    tags.map_values(|tag: String| lang_code_of(tag@))
}

/// The part of a language tag in front of its first dash.
pub fn language_of(tag: &str) -> (language: String)
    ensures
        language@ == before_dash(tag@),
{
    let chars = to_chars(tag);
    let mut language = String::new();
    let mut i: usize = 0;
    assert(chars@.skip(0) =~= chars@);
    while i < chars.len() && chars[i] != '-'
        invariant
            i <= chars@.len(),
            language@ + before_dash(chars@.skip(i as int)) == before_dash(chars@),
        decreases chars@.len() - i,
    {
        push_char(&mut language, chars[i]);
        proof {
            let rest = chars@.skip(i as int);
            assert(rest[0] == chars@[i as int]);
            assert(rest.drop_first() =~= chars@.skip(i + 1));
            assert(language@ + before_dash(chars@.skip(i + 1)) =~= (language@.drop_last() + seq![
                chars@[i as int],
            ]) + before_dash(chars@.skip(i + 1)));
            assert(language@ + before_dash(chars@.skip(i + 1)) =~= language@.drop_last() + (seq![
                chars@[i as int],
            ] + before_dash(chars@.skip(i + 1))));
        }
        i += 1;
    }
    proof {
        let rest = chars@.skip(i as int);
        if i < chars@.len() {
            assert(rest[0] == chars@[i as int]);
        }
        assert(before_dash(rest) =~= Seq::<char>::empty());
        assert(language@ + Seq::<char>::empty() =~= language@);
    }
    language
}

/// The flag code of a language tag.
pub fn lang_code(tag: &str) -> (code: String)
    ensures
        code@ == lang_code_of(tag@),
{
    let language = language_of(tag);
    if str_eq(language.as_str(), "en") {
        "gb".to_owned()
    } else if str_eq(language.as_str(), "zh") {
        "cn".to_owned()
    } else {
        language
    }
}

/// The URL of the cover of a title.
pub fn cover_url(id: &str, rels: &Vec<Relationship>) -> (url: Option<String>)
    ensures
        opt_chars(url) == cover_url_of(id@, rels@),
{
    match find_relationship(rels, COVER_ART) {
        Some(rel) => match &rel.attributes {
            Some(attributes) => match &attributes.file_name {
                Some(file_name) => {
                    let mut url = String::new();
                    url.append(MANGADEX_UPLOADS);
                    url.append("/covers/");
                    url.append(id);
                    url.append("/");
                    url.append(file_name.as_str());
                    url.append(".512.jpg");
                    assert(url@ =~= cover_url_for(id@, file_name@));
                    Some(url)
                },
                None => None,
            },
            None => None,
        },
        None => None,
    }
}

/// The genres of a title.
pub fn genres(tags: &Vec<Tag>) -> (names: Vec<String>)
    ensures
        each_chars(names@) == genres_of(tags@),
{
    let mut names: Vec<String> = Vec::new();
    let mut i: usize = 0;
    assert(each_chars(names@) =~= genres_of(tags@.take(0)));
    while i < tags.len()
        invariant
            i <= tags@.len(),
            each_chars(names@) == genres_of(tags@.take(i as int)),
        decreases tags@.len() - i,
    {
        let tag = &tags[i];
        proof {
            assert(tags@.take(i + 1).drop_last() =~= tags@.take(i as int));
            assert(tags@.take(i + 1).last() == tags@[i as int]);
        }
        if str_eq(tag.attributes.group.as_str(), GENRE) {
            match find_text(&tag.attributes.name, PREFERRED_LANGUAGE) {
                Some(name) => {
                    let ghost before = names@;
                    names.push(name.clone());
                    assert(each_chars(names@) =~= each_chars(before).push(name@));
                },
                None => {},
            }
        }
        i += 1;
    }
    assert(tags@.take(i as int) =~= tags@);
    names
}

/// The flag codes of the languages into which a title is translated.
pub fn lang_codes(tags: &Vec<String>) -> (codes: Vec<String>)
    ensures
        each_chars(codes@) == lang_codes_of(tags@),
{
    let mut codes: Vec<String> = Vec::new();
    let mut i: usize = 0;
    while i < tags.len()
        invariant
            i <= tags@.len(),
            codes@.len() == i,
            forall|k: int| 0 <= k < i ==> (#[trigger] codes@[k])@ == lang_code_of(tags@[k]@),
        decreases tags@.len() - i,
    {
        codes.push(lang_code(tags[i].as_str()));
        i += 1;
    }
    assert(each_chars(codes@) =~= lang_codes_of(tags@));
    codes
}

impl MangaView {
    /// Whether this is what a listing shows of the title.
    pub open spec fn shows(&self, manga: MangaData) -> bool {
        &&& self.id@ == manga.id@
        &&& self.status@ == manga.attributes.status@
        &&& self.title@ == match shown_text(manga.attributes.title@) {
            Some(title) => title,
            None => Seq::empty(),
        }
        &&& opt_chars(self.cover_url) == cover_url_of(manga.id@, manga.relationships@)
        &&& opt_chars(self.description) == shown_text(manga.attributes.description@)
        &&& each_chars(self.genres@) == genres_of(manga.attributes.tags@)
        &&& each_chars(self.lang_codes@) == lang_codes_of(manga.attributes.translations@)
    }

    /// What a listing shows of a title: its title and description in the
    /// preferred language, or else in the first language there is; the URL of
    /// its cover; its genres; and the flags of its translations.
    pub fn from(manga: &MangaData) -> (view: MangaView)
        ensures
            view.shows(*manga),
    {
        let title = match pick_text(&manga.attributes.title) {
            Some(title) => title,
            None => String::new(),
        };
        MangaView {
            id: manga.id.clone(),
            title,
            status: manga.attributes.status.clone(),
            cover_url: cover_url(manga.id.as_str(), &manga.relationships),
            description: pick_text(&manga.attributes.description),
            genres: genres(&manga.attributes.tags),
            lang_codes: lang_codes(&manga.attributes.translations),
        }
    }
}

} // verus!
