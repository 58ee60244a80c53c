//! Interface language, chosen once at startup from the system locale.
//!
//! The same choice drives the tray menu and the web pages: every page gets it
//! in a script that runs before its own.

use crate::text;
use vstd::prelude::*;

verus! {

#[derive(Debug, Clone, Copy, PartialEq, Eq, Structural)]
pub enum Lang {
    En,
    Fr,
}

/// The entries of the tray menu.
#[derive(Debug, Clone, Copy, PartialEq, Eq)]
pub struct TrayText {
    pub open: &'static str,
    pub restart: &'static str,
    pub quit: &'static str,
}

/// Whether a character ends the language part of a locale tag.
pub open spec fn separates(c: char) -> bool {
    c == '-' || c == '_' || c == '.' || c == '@'
}

/// What comes before the first separator of a locale tag.
pub open spec fn primary(tag: Seq<char>) -> Seq<char>
    decreases tag.len(),
{
    if tag.len() == 0 || separates(tag[0]) {
        Seq::empty()
    } else {
        seq![tag[0]] + primary(tag.drop_first())
    }
}

/// Calls `sys_locale::get_locales` and collects what it lists: the locale
/// tags the system prefers, best first. They depend on the machine and its
/// settings, so nothing is claimed of them.
#[verifier::external_body]
fn preferred_locales() -> (tags: Vec<String>) {
    sys_locale::get_locales().collect()
}

proof fn lemma_primary(tag: Seq<char>, n: int)
    requires
        0 <= n <= tag.len(),
        forall|k: int| 0 <= k < n ==> !separates(#[trigger] tag[k]),
        n == tag.len() || separates(tag[n]),
    ensures
        primary(tag) == tag.take(n),
    decreases n,
{
    if n > 0 {
        let rest = tag.drop_first();
        assert forall|k: int| 0 <= k < n - 1 implies !separates(#[trigger] rest[k]) by {
            assert(rest[k] == tag[k + 1]);
        }
        lemma_primary(rest, n - 1);
        assert(tag.take(n) =~= seq![tag[0]] + rest.take(n - 1));
    } else {
        assert(tag.take(0) =~= Seq::empty());
    }
}

impl Lang {
    /// The language of a locale tag, if it is a supported one.
    pub open spec fn of_tag(tag: Seq<char>) -> Option<Lang> {
        if text::same_ignoring_ascii_case(primary(tag), "en"@) {
            Some(Lang::En)
        } else if text::same_ignoring_ascii_case(primary(tag), "fr"@) {
            Some(Lang::Fr)
        } else {
            None
        }
    }

    /// The first supported language of a list of tags, else English.
    pub open spec fn of_tags(tags: Seq<String>) -> Lang
        decreases tags.len(),
    {
        if tags.len() == 0 {
            Lang::En
        } else {
            match Lang::of_tag(tags[0]@) {
                Some(lang) => lang,
                None => Lang::of_tags(tags.drop_first()),
            }
        }
    }

    /// First supported language in the user's preferred list, else English.
    pub fn detect() -> (lang: Self)
        ensures
            exists|tags: Seq<String>| lang == #[trigger] Lang::of_tags(tags),
    {
        let tags = preferred_locales();
        Self::from_tags(&tags)
    }

    /// First supported language in a list of locale tags, else English.
    pub fn from_tags(tags: &Vec<String>) -> (lang: Self)
        ensures
            lang == Lang::of_tags(tags@),
    {
        let mut i: usize = 0;
        assert(tags@.skip(0) =~= tags@);
        while i < tags.len()
            invariant
                i <= tags@.len(),
                Lang::of_tags(tags@) == Lang::of_tags(tags@.skip(i as int)),
            decreases tags@.len() - i,
        {
            if let Some(lang) = Self::from_tag(tags[i].as_str()) {
                return lang;
            }
            assert(tags@.skip(i as int).drop_first() =~= tags@.skip(i + 1));
            i += 1;
        }
        Lang::En
    }

    /// Reads a BCP 47 or POSIX locale tag (`fr-CA`, `fr_FR.UTF-8`).
    pub fn from_tag(tag: &str) -> (lang: Option<Self>)
        ensures
            lang == Lang::of_tag(tag@),
    {
        let len: usize = tag.unicode_len();
        let mut n: usize = 0;
        while n < len
            invariant
                n <= len,
                len == tag@.len(),
                forall|k: int| 0 <= k < n ==> !separates(#[trigger] tag@[k]),
            ensures
                n <= len,
                forall|k: int| 0 <= k < n ==> !separates(#[trigger] tag@[k]),
                n == len || separates(tag@[n as int]),
            decreases len - n,
        {
            let c = tag.get_char(n);
            if c == '-' || c == '_' || c == '.' || c == '@' {
                break;
            }
            n += 1;
        }
        proof {
            lemma_primary(tag@, n as int);
        }
        let language = tag.substring_char(0, n);
        if text::same_without_case(language, "en") {
            Some(Lang::En)
        } else if text::same_without_case(language, "fr") {
            Some(Lang::Fr)
        } else {
            None
        }
    }

    pub fn code(self) -> (r: &'static str)
        ensures
            r@ == match self {
                Lang::En => "en"@,
                Lang::Fr => "fr"@,
            },
    {
        match self {
            Lang::En => "en",
            Lang::Fr => "fr",
        }
    }

    pub fn tray(self) -> (r: TrayText)
        ensures
            match self {
                Lang::En => r.open@ == "Open Audio Mirror"@ && r.restart@ == "Restart audio"@
                    && r.quit@ == "Quit"@,
                Lang::Fr => r.open@ == "Ouvrir Audio Mirror"@ && r.restart@
                    == "Redémarrer l’audio"@ && r.quit@ == "Quitter"@,
            },
    {
        match self {
            Lang::En => TrayText {
                open: "Open Audio Mirror",
                restart: "Restart audio",
                quit: "Quit",
            },
            Lang::Fr => TrayText {
                open: "Ouvrir Audio Mirror",
                restart: "Redémarrer l’audio",
                quit: "Quitter",
            },
        }
    }

    /// The script that hands the language to a page.
    pub fn init_script(self) -> (r: String)
        ensures
            r@ == "window.__AUDIO_MIRROR_LANG__ = \""@ + (match self {
                Lang::En => "en"@,
                Lang::Fr => "fr"@,
            }) + "\";"@,
    {
        let mut script = "window.__AUDIO_MIRROR_LANG__ = \"".to_owned();
        script.append(self.code());
        script.append("\";");
        script
    }
}

/// The code of a language leads back to it, so a page and the menu always
/// speak the same one.
pub proof fn law_code_names_its_language(lang: Lang)
    ensures
        Lang::of_tag(
            match lang {
                Lang::En => "en"@,
                Lang::Fr => "fr"@,
            },
        ) == Some(lang),
{
    reveal_strlit("en");
    reveal_strlit("fr");
    lemma_primary("en"@, 2);
    lemma_primary("fr"@, 2);
    assert("en"@.take(2) =~= "en"@);
    assert("fr"@.take(2) =~= "fr"@);
    assert("fr"@[0] == 'f');
    assert(text::ascii_lower("fr"@[0]) != text::ascii_lower("en"@[0]));
}

/// A locale tag has the language that it names before its first separator,
/// whatever follows: English and French are known, in small letters or capitals,
/// and no other.
pub proof fn law_a_tag_has_the_language_it_names(
    tag: &str,
    name: Seq<char>,
    n: int,
    r: Option<Lang>,
)
    requires
        call_ensures(Lang::from_tag, (tag,), r),
        0 <= n <= tag@.len(),
        name == tag@.take(n),
        forall|k: int| 0 <= k < n ==> !separates(#[trigger] tag@[k]),
        n == tag@.len() || tag@[n] == '-' || tag@[n] == '_' || tag@[n] == '.' || tag@[n] == '@',
    ensures
        r == Some(Lang::En) <==> n == 2 && (name[0] == 'e' || name[0] == 'E') && (name[1] == 'n'
            || name[1] == 'N'),
        r == Some(Lang::Fr) <==> n == 2 && (name[0] == 'f' || name[0] == 'F') && (name[1] == 'r'
            || name[1] == 'R'),
{
    reveal_strlit("en");
    reveal_strlit("fr");
    lemma_primary(tag@, n);
    let e = "en"@;
    let f = "fr"@;
    assert(e.len() == 2 && e[0] == 'e' && e[1] == 'n');
    assert(f.len() == 2 && f[0] == 'f' && f[1] == 'r');
    if n == 2 {
        lemma_lower(name[0]);
        lemma_lower(name[1]);
        if text::same_ignoring_ascii_case(name, e) {
            assert(text::ascii_lower(name[0]) == text::ascii_lower(e[0]));
            assert(text::ascii_lower(name[1]) == text::ascii_lower(e[1]));
        }
        if text::same_ignoring_ascii_case(name, f) {
            assert(text::ascii_lower(name[0]) == text::ascii_lower(f[0]));
            assert(text::ascii_lower(name[1]) == text::ascii_lower(f[1]));
        }
    }
}

proof fn lemma_lower(c: char)
    ensures
        text::ascii_lower(c) == 'e' <==> c == 'e' || c == 'E',
        text::ascii_lower(c) == 'n' <==> c == 'n' || c == 'N',
        text::ascii_lower(c) == 'f' <==> c == 'f' || c == 'F',
        text::ascii_lower(c) == 'r' <==> c == 'r' || c == 'R',
{
}

proof fn lemma_of_tags(tags: Seq<String>, i: int)
    requires
        0 <= i <= tags.len(),
        forall|k: int| 0 <= k < i ==> Lang::of_tag((#[trigger] tags[k])@) is None,
    ensures
        i == tags.len() ==> Lang::of_tags(tags) == Lang::En,
        i < tags.len() && Lang::of_tag(tags[i]@) is Some ==> Lang::of_tags(tags) == Lang::of_tag(
            tags[i]@,
        )->0,
    decreases i,
{
    if i > 0 {
        assert(Lang::of_tag(tags[0]@) is None);
        let rest = tags.drop_first();
        assert forall|k: int| 0 <= k < i - 1 implies Lang::of_tag((#[trigger] rest[k])@)
            is None by {
            assert(Lang::of_tag(tags[k + 1]@) is None);
        }
        lemma_of_tags(rest, i - 1);
    }
}

/// Of a list of tags the first one with a known language decides; where none
/// has one it is English.
pub proof fn law_the_first_known_language_is_taken(
    tags: &Vec<String>,
    lang: Lang,
    i: int,
    tag: &str,
    r: Option<Lang>,
)
    requires
        call_ensures(Lang::from_tags, (tags,), lang),
        0 <= i <= tags@.len(),
        forall|k: int| 0 <= k < i ==> Lang::of_tag((#[trigger] tags@[k])@) is None,
        i < tags@.len() ==> tag@ == tags@[i]@,
        call_ensures(Lang::from_tag, (tag,), r),
    ensures
        i < tags@.len() && r is Some ==> lang == r->0,
        i == tags@.len() ==> lang == Lang::En,
{
    lemma_of_tags(tags@, i);
}

/// The code of a language is read as that language, and its script hands over
/// that code; the menu speaks another language for each.
pub proof fn law_a_page_gets_the_language(
    lang: Lang,
    code: &'static str,
    r: Option<Lang>,
    script: String,
    menu: TrayText,
)
    requires
        call_ensures(Lang::code, (lang,), code),
        call_ensures(Lang::from_tag, (code,), r),
        call_ensures(Lang::init_script, (lang,), script),
        call_ensures(Lang::tray, (lang,), menu),
    ensures
        r == Some(lang),
        script@ == "window.__AUDIO_MIRROR_LANG__ = \""@ + code@ + "\";"@,
        lang is En ==> menu.quit@ == "Quit"@ && menu.open@ == "Open Audio Mirror"@,
        lang is Fr ==> menu.quit@ == "Quitter"@ && menu.open@ == "Ouvrir Audio Mirror"@,
{
    law_code_names_its_language(lang);
}

} // verus!
