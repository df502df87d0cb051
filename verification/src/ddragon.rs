//! The champion roster as it is exchanged with the data files, and the names
//! under which a champion's pages are found.
use crate::text::{append_chars, contains, contains_seq, from_chars, replace, replaced, to_chars};
use vstd::prelude::*;

verus! {

/// The four ratings of a champion.
#[derive(Debug)]
pub struct ChampionInfo {
    pub attack: u8,
    pub defense: u8,
    pub magic: u8,
    pub difficulty: u8,
}

/// Where a champion's picture lies in its sprite sheet.
#[derive(Debug)]
pub struct ChampionImage {
    pub full: String,
    pub sprite: String,
    pub group: String,
    pub x: u32,
    pub y: u32,
    pub w: u32,
    pub h: u32,
}

/// One champion of the roster: display name, identifier, and icon address.
#[derive(Debug)]
pub struct ChampionExport {
    pub name: String,
    pub id: String,
    pub icon: String,
}

/// The quotes of one champion, with the icon shown beside them.
#[derive(Debug)]
pub struct QuoteExport {
    pub quotes: Vec<String>,
    pub icon: String,
}

/// The name under which a champion's audio page is looked up: the display
/// name, or the identifier where the display name holds an ampersand.
pub open spec fn page_name_of(name: Seq<char>, id: Seq<char>) -> Seq<char> {
    if contains_seq(name, "&"@) {
        id
    } else {
        name
    }
}

/// The address of the raw audio page of the character `name`: spaces in the
/// name become underscores.
pub open spec fn wiki_url_of(name: Seq<char>) -> Seq<char> {
    "https://leagueoflegends.fandom.com/wiki/"@ + replaced(name, " "@, "_"@)
        + "/LoL/Audio?action=raw"@
}

/// The address of a champion's icon in the given game version.
pub open spec fn icon_url_of(version: Seq<char>, file: Seq<char>) -> Seq<char> {
    "https://ddragon.leagueoflegends.com/cdn/"@ + version + "/img/champion/"@ + file
}

impl ChampionExport {
    /// The name under which the champion's audio page is looked up.
    pub fn page_name(&self) -> (name: String)
        ensures
            name@ == page_name_of(self.name@, self.id@),
    {
        let shown = to_chars(self.name.as_str());
        let ampersand = to_chars("&");
        if contains(&shown, &ampersand) {
            self.id.clone()
        } else {
            self.name.clone()
        }
    }
}

/// The address of the raw audio page of the character `name`.
pub fn wiki_url(name: &str) -> (url: String)
    ensures
        url@ == wiki_url_of(name@),
{
    let mut url = to_chars("https://leagueoflegends.fandom.com/wiki/");
    let given = to_chars(name);
    let space = to_chars(" ");
    let underscore = to_chars("_");
    let page = replace(&given, &space, &underscore);
    let tail = to_chars("/LoL/Audio?action=raw");
    append_chars(&mut url, &page);
    append_chars(&mut url, &tail);
    from_chars(&url)
}

/// The address of a champion's icon in the given game version.
pub fn icon_url(version: &str, file: &str) -> (url: String)
    ensures
        url@ == icon_url_of(version@, file@),
{
    let mut url = to_chars("https://ddragon.leagueoflegends.com/cdn/");
    let middle = to_chars("/img/champion/");
    append_chars(&mut url, &to_chars(version));
    append_chars(&mut url, &middle);
    append_chars(&mut url, &to_chars(file));
    from_chars(&url)
}

} // verus!
