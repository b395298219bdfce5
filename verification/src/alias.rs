//! The device alias: validation, persistence decisions, and generation from
//! localized word lists ("Adorable Apple").
use vstd::prelude::*;

use crate::text::{
    concat2, concat3, eq_ignore_case, from_chars, lower_seq, replace_all, str_eq, str_eq_ignore_ascii_case,
    str_replace, str_to_lower, to_chars, trim, trim_str, lemma_trim_idempotent, lemma_trim_newline, upper_chars, upper_seq, lower_chars,
};

use crate::alias_laws::law_generated_alias_reloads;

verus! {

broadcast use vstd::string::group_string_axioms;

/// The file, in the configuration directory, that holds the alias.
pub const ALIAS_FILE: &'static str = "alias.txt";
/// The longest alias accepted, in characters.
pub const MAX_ALIAS_LEN: usize = 255;

/// Joins a file name onto a directory as `Path::join` does: no separator is
/// added after an empty directory or one that already ends in `/`.
pub open spec fn join_spec(dir: Seq<char>, name: Seq<char>) -> Seq<char> {
    if dir.len() == 0 || dir.last() == '/' {
        dir + name
    } else {
        dir + "/"@ + name
    }
}

/// Joins a relative name onto a directory (`Path::join`).
pub fn join_path(dir: &str, name: &str) -> (r: String)
    ensures
        r@ == join_spec(dir@, name@),
{
    let d = to_chars(dir);
    if d.len() == 0 || d[d.len() - 1] == '/' {
        concat2(dir, name)
    } else {
        concat3(dir, "/", name)
    }
}

/// Where the alias is stored.
pub fn alias_path(config_dir: &str) -> (r: String)
    ensures
        r@ == join_spec(config_dir@, ALIAS_FILE@),
{
    join_path(config_dir, ALIAS_FILE)
}

/// The alias stored in a file's content: the trimmed text, unless empty.
pub open spec fn persisted_spec(content: Option<Seq<char>>) -> Option<Seq<char>> {
    match content {
        Some(c) => if trim(c).len() > 0 {
            Some(trim(c))
        } else {
            None
        },
        None => None,
    }
}

/// The alias held by the alias file's content (`None` when there is no file).
pub fn read_persisted(content: Option<String>) -> (r: Option<String>)
    ensures
        match r {
            Some(a) => persisted_spec(match content { Some(c) => Some(c@), None => None }) == Some(a@),
            None => persisted_spec(match content { Some(c) => Some(c@), None => None }) is None,
        },
{
    match content {
        Some(c) => {
            let t = trim_str(c.as_str());
            if t.as_str().is_empty() {
                None
            } else {
                Some(t)
            }
        },
        None => None,
    }
}

/// An alias is its trimmed text; it must be non-empty and at most 255
/// characters.
pub open spec fn validate_spec(alias: Seq<char>) -> Result<Seq<char>, Seq<char>> {
    let t = trim(alias);
    if t.len() == 0 {
        Err("Alias must not be empty"@)
    } else if t.len() > MAX_ALIAS_LEN {
        Err("Alias must be at most 255 characters"@)
    } else {
        Ok(t)
    }
}

pub open spec fn result_seq(r: Result<String, String>) -> Result<Seq<char>, Seq<char>> {
    match r {
        Ok(s) => Ok(s@),
        Err(e) => Err(e@),
    }
}

/// Validates an alias; the error is the message shown.
pub fn validate_alias(alias: &str) -> (r: Result<String, String>)
    ensures
        result_seq(r) == validate_spec(alias@),
{
    let t = trim_str(alias);
    if t.as_str().is_empty() {
        return Err(String::from_str("Alias must not be empty"));
    }
    if t.as_str().unicode_len() > MAX_ALIAS_LEN {
        return Err(String::from_str("Alias must be at most 255 characters"));
    }
    Ok(t)
}

/// What `save` writes to the alias file: the validated alias and a newline.
pub open spec fn save_spec(alias: Seq<char>) -> Result<Seq<char>, Seq<char>> {
    match validate_spec(alias) {
        Ok(a) => Ok(a + "\n"@),
        Err(e) => Err(e),
    }
}

/// The content to write for an alias.
pub fn save(alias: &str) -> (r: Result<String, String>)
    ensures
        result_seq(r) == save_spec(alias@),
{
    let a = validate_alias(alias)?;
    Ok(concat2(a.as_str(), "\n"))
}

// ---------------------------------------------------------------- locale tags

/// A locale tag taken apart: `language[-Script][-REGION]`.
#[derive(Debug, Clone)]
pub struct ParsedLocale {
    pub language: String,
    pub script: Option<String>,
    pub region: Option<String>,
}

pub struct LocaleView {
    pub language: Seq<char>,
    pub script: Option<Seq<char>>,
    pub region: Option<Seq<char>>,
}

impl View for ParsedLocale {
    type V = LocaleView;

    open spec fn view(&self) -> LocaleView {
        LocaleView {
            language: self.language@,
            script: match self.script { Some(s) => Some(s@), None => None },
            region: match self.region { Some(s) => Some(s@), None => None },
        }
    }
}

/// The non-empty pieces of a text between `-` separators, `cur` being the
/// start of the current piece.
pub open spec fn dash_pieces(cur: Seq<char>, rest: Seq<char>) -> Seq<Seq<char>>
    decreases rest.len(),
{
    if rest.len() == 0 {
        if cur.len() > 0 { seq![cur] } else { Seq::empty() }
    } else if rest[0] == '-' {
        (if cur.len() > 0 { seq![cur] } else { Seq::empty() }) + dash_pieces(Seq::empty(), rest.drop_first())
    } else {
        dash_pieces(cur.push(rest[0]), rest.drop_first())
    }
}

pub open spec fn is_ascii_alpha(c: char) -> bool {
    ('a' <= c && c <= 'z') || ('A' <= c && c <= 'Z')
}

pub open spec fn all_alpha(s: Seq<char>) -> bool {
    forall|i: int| 0 <= i < s.len() ==> is_ascii_alpha(#[trigger] s[i])
}

/// A tag's pieces: trimmed, `_` read as `-`, empty pieces dropped.
pub open spec fn tag_pieces(tag: Seq<char>) -> Seq<Seq<char>> {
    dash_pieces(Seq::empty(), replace_all(trim(tag), "_"@, "-"@))
}

/// The language (lowercased) is the first piece; a four-letter piece after it
/// is the script; a two-letter piece after that is the region (uppercased).
/// An empty tag is English.
pub open spec fn parse_locale_spec(tag: Seq<char>) -> LocaleView {
    let parts = tag_pieces(tag);
    if parts.len() == 0 {
        LocaleView { language: "en"@, script: None, region: None }
    } else {
        let rest = parts.drop_first();
        let has_script = rest.len() > 0 && rest[0].len() == 4 && all_alpha(rest[0]);
        let rest2 = if has_script { rest.drop_first() } else { rest };
        let has_region = rest2.len() > 0 && rest2[0].len() == 2 && all_alpha(rest2[0]);
        LocaleView {
            language: lower_seq(parts[0]),
            script: if has_script { Some(rest[0]) } else { None },
            region: if has_region { Some(upper_seq(rest2[0])) } else { None },
        }
    }
}

fn is_alpha_piece(p: &Vec<char>, n: usize) -> (r: bool)
    ensures
        r == (p@.len() == n && all_alpha(p@)),
{
    if p.len() != n {
        return false;
    }
    let mut i: usize = 0;
    while i < p.len()
        invariant
            i <= p@.len(),
            forall|k: int| 0 <= k < i ==> is_ascii_alpha(#[trigger] p@[k]),
        decreases p@.len() - i,
    {
        let c = p[i];
        if !(('a' <= c && c <= 'z') || ('A' <= c && c <= 'Z')) {
            return false;
        }
        i = i + 1;
    }
    true
}

pub open spec fn pieces_view(v: Seq<Vec<char>>) -> Seq<Seq<char>> {
    v.map_values(|p: Vec<char>| p@)
}

fn split_pieces(s: &Vec<char>) -> (r: Vec<Vec<char>>)
    ensures
        pieces_view(r@) == dash_pieces(Seq::empty(), s@),
{
    let mut out: Vec<Vec<char>> = Vec::new();
    let mut cur: Vec<char> = Vec::new();
    let mut i: usize = 0;
    assert(s@.skip(0) == s@);
    assert(pieces_view(out@) =~= Seq::empty());
    while i < s.len()
        invariant
            i <= s@.len(),
            pieces_view(out@) + dash_pieces(cur@, s@.skip(i as int)) == dash_pieces(Seq::empty(), s@),
        decreases s@.len() - i,
    {
        let ghost rest = s@.skip(i as int);
        assert(rest.drop_first() == s@.skip(i + 1));
        assert(rest[0] == s@[i as int]);
        if s[i] == '-' {
            let ghost o = pieces_view(out@);
            let ghost c = cur@;
            if cur.len() > 0 {
                out.push(cur);
                assert(pieces_view(out@) =~= o + seq![c]);
            } else {
                assert(o + (Seq::<Seq<char>>::empty()) =~= o);
            }
            cur = Vec::new();
            assert(pieces_view(out@) + dash_pieces(cur@, s@.skip(i + 1)) =~= o + ((if c.len() > 0 { seq![c] } else { Seq::empty() }) + dash_pieces(Seq::empty(), s@.skip(i + 1))));
        } else {
            cur.push(s[i]);
        }
        i = i + 1;
    }
    assert(s@.skip(i as int) =~= Seq::<char>::empty());
    let ghost o = pieces_view(out@);
    let ghost c = cur@;
    if cur.len() > 0 {
        out.push(cur);
        assert(pieces_view(out@) =~= o + seq![c]);
    } else {
        assert(o + (Seq::<Seq<char>>::empty()) =~= o);
    }
    out
}

/// Takes a locale tag apart.
pub fn parse_locale_tag(tag: &str) -> (r: ParsedLocale)
    ensures
        r@ == parse_locale_spec(tag@),
{
    let t = trim_str(tag);
    proof {
        reveal_strlit("_");
    }
    let normalized = str_replace(t.as_str(), "_", "-");
    let chars = to_chars(normalized.as_str());
    let parts = split_pieces(&chars);
    let ghost pv = pieces_view(parts@);
    assert(pv == tag_pieces(tag@));
    if parts.len() == 0 {
        return ParsedLocale { language: String::from_str("en"), script: None, region: None };
    }
    assert(pv[0] == parts@[0]@);
    let lang = lower_chars(parts[0].as_slice());
    let language = from_chars(lang.as_slice());
    let mut k: usize = 1;
    let mut script: Option<String> = None;
    if parts.len() > 1 && is_alpha_piece(&parts[1], 4) {
        assert(pv.drop_first()[0] == parts@[1]@);
        script = Some(from_chars(parts[1].as_slice()));
        k = 2;
    } else {
        proof {
            if parts.len() > 1 {
                assert(pv.drop_first()[0] == parts@[1]@);
            }
        }
    }
    let mut region: Option<String> = None;
    if parts.len() > k && is_alpha_piece(&parts[k], 2) {
        let up = upper_chars(parts[k].as_slice());
        region = Some(from_chars(up.as_slice()));
    }
    proof {
        let rest = pv.drop_first();
        let has_script = rest.len() > 0 && rest[0].len() == 4 && all_alpha(rest[0]);
        let rest2 = if has_script { rest.drop_first() } else { rest };
        if rest2.len() > 0 {
            assert(rest2[0] == parts@[k as int]@);
        }
    }
    ParsedLocale { language, script, region }
}

/// Adds a candidate unless it is already listed.
pub open spec fn push_unique(c: Seq<Seq<char>>, v: Seq<char>) -> Seq<Seq<char>> {
    if c.contains(v) { c } else { c.push(v) }
}

pub open spec fn push_if(c: Seq<Seq<char>>, cond: bool, v: Seq<char>) -> Seq<Seq<char>> {
    if cond { push_unique(c, v) } else { c }
}

/// The locale files to try for a tag, most specific first: language-region,
/// then the special cases of Serbian (Cyrillic script), Filipino/Tagalog,
/// Spanish, Portuguese, Chinese and English, then the bare language, then
/// English.
pub open spec fn candidates_spec(p: LocaleView) -> Seq<Seq<char>> {
    let lang = p.language;
    let c1 = match p.region {
        Some(r) => push_unique(Seq::empty(), lang + "-"@ + r),
        None => Seq::empty(),
    };
    let c2 = if lang == "sr"@ {
        push_unique(push_if(c1, p.script matches Some(s) && eq_ignore_case(s, "cyrl"@), "sr-Cyrl"@), "sr"@)
    } else { c1 };
    let c3 = push_if(c2, lang == "fil"@ || lang == "tl"@, "fil-PH"@);
    let c4 = push_if(c3, lang == "es"@, "es-ES"@);
    let c5 = if lang == "pt"@ {
        push_unique(push_unique(push_if(c4, p.region == Some("PT"@), "pt-PT"@), "pt-BR"@), "pt-PT"@)
    } else { c4 };
    let c6 = if lang == "zh"@ {
        let z = match p.region {
            Some(r) => push_unique(c5, "zh-"@ + r),
            None => c5,
        };
        push_unique(push_unique(push_unique(z, "zh-CN"@), "zh-TW"@), "zh-HK"@)
    } else { c5 };
    let c7 = if lang == "en"@ {
        push_unique(push_if(c6, p.region == Some("IN"@), "en-IN"@), "en"@)
    } else { c6 };
    push_unique(push_unique(c7, lang), "en"@)
}

pub open spec fn strings_view(v: Seq<String>) -> Seq<Seq<char>> {
    v.map_values(|s: String| s@)
}

fn push_candidate(c: &mut Vec<String>, v: String)
    ensures
        strings_view(final(c)@) == push_unique(strings_view(old(c)@), v@),
{
    let mut i: usize = 0;
    while i < c.len()
        invariant
            i <= c@.len(),
            c@ == old(c)@,
            forall|k: int| 0 <= k < i ==> c@[k]@ != v@,
        decreases c@.len() - i,
    {
        if str_eq(c[i].as_str(), v.as_str()) {
            assert(strings_view(c@)[i as int] == v@);
            return;
        }
        i = i + 1;
    }
    let ghost before = strings_view(c@);
    assert(!before.contains(v@)) by {
        if before.contains(v@) {
            let k = choose|k: int| 0 <= k < before.len() && before[k] == v@;
            assert(c@[k]@ == v@);
        }
    }
    let ghost vv = v@;
    c.push(v);
    assert(strings_view(c@) =~= before.push(vv));
}

fn opt_is(o: &Option<String>, v: &str) -> (r: bool)
    ensures
        r == (match o { Some(s) => Some(s@), None => None } == Some(v@)),
{
    match o {
        Some(s) => str_eq(s.as_str(), v),
        None => false,
    }
}

/// The locale files to try for a parsed tag.
pub fn locale_candidates(parsed: &ParsedLocale) -> (r: Vec<String>)
    ensures
        strings_view(r@) == candidates_spec(parsed@),
{
    let lang = parsed.language.as_str();
    let mut c: Vec<String> = Vec::new();
    assert(strings_view(c@) =~= Seq::empty());
    match &parsed.region {
        Some(r) => {
            let v = concat3(lang, "-", r.as_str());
            push_candidate(&mut c, v);
        },
        None => {},
    }
    if str_eq(lang, "sr") {
        let cyrl = match &parsed.script {
            Some(s) => str_eq_ignore_ascii_case(s.as_str(), "cyrl"),
            None => false,
        };
        if cyrl {
            push_candidate(&mut c, String::from_str("sr-Cyrl"));
        }
        push_candidate(&mut c, String::from_str("sr"));
    }
    if str_eq(lang, "fil") || str_eq(lang, "tl") {
        push_candidate(&mut c, String::from_str("fil-PH"));
    }
    if str_eq(lang, "es") {
        push_candidate(&mut c, String::from_str("es-ES"));
    }
    if str_eq(lang, "pt") {
        if opt_is(&parsed.region, "PT") {
            push_candidate(&mut c, String::from_str("pt-PT"));
        }
        push_candidate(&mut c, String::from_str("pt-BR"));
        push_candidate(&mut c, String::from_str("pt-PT"));
    }
    if str_eq(lang, "zh") {
        match &parsed.region {
            Some(r) => {
                let v = concat2("zh-", r.as_str());
                push_candidate(&mut c, v);
            },
            None => {},
        }
        push_candidate(&mut c, String::from_str("zh-CN"));
        push_candidate(&mut c, String::from_str("zh-TW"));
        push_candidate(&mut c, String::from_str("zh-HK"));
    }
    if str_eq(lang, "en") {
        if opt_is(&parsed.region, "IN") {
            push_candidate(&mut c, String::from_str("en-IN"));
        }
        push_candidate(&mut c, String::from_str("en"));
    }
    push_candidate(&mut c, String::from_str(lang));
    push_candidate(&mut c, String::from_str("en"));
    c
}

/// The locales that have word lists.
pub open spec fn is_locale_id(id: Seq<char>) -> bool {
    id == "ar"@ || id == "be"@ || id == "bg"@ || id == "bn"@ || id == "ca"@ || id == "cs"@ || id == "da"@ || id == "de"@ || id == "el"@ || id == "en"@ || id == "en-IN"@ || id == "es-ES"@ || id == "et"@ || id == "eu"@ || id == "fa"@ || id == "fi"@ || id == "fil-PH"@ || id == "fr"@ || id == "ga"@ || id == "he"@ || id == "hi"@ || id == "hu"@ || id == "id"@ || id == "it"@ || id == "ja"@ || id == "km"@ || id == "ko"@ || id == "ms"@ || id == "ne"@ || id == "nl"@ || id == "pl"@ || id == "pt-BR"@ || id == "pt-PT"@ || id == "ro"@ || id == "ru"@ || id == "sk"@ || id == "sr"@ || id == "sr-Cyrl"@ || id == "sv"@ || id == "ta"@ || id == "th"@ || id == "tr"@ || id == "uk"@ || id == "ur"@ || id == "vi"@ || id == "zh-CN"@ || id == "zh-HK"@ || id == "zh-TW"@
}

/// Whether a locale has word lists.
pub fn has_locale(id: &str) -> (r: bool)
    ensures
        r == is_locale_id(id@),
{
    str_eq(id, "ar") || str_eq(id, "be") || str_eq(id, "bg") || str_eq(id, "bn") || str_eq(id, "ca") || str_eq(id, "cs") || str_eq(id, "da") || str_eq(id, "de") || str_eq(id, "el") || str_eq(id, "en") || str_eq(id, "en-IN") || str_eq(id, "es-ES") || str_eq(id, "et") || str_eq(id, "eu") || str_eq(id, "fa") || str_eq(id, "fi") || str_eq(id, "fil-PH") || str_eq(id, "fr") || str_eq(id, "ga") || str_eq(id, "he") || str_eq(id, "hi") || str_eq(id, "hu") || str_eq(id, "id") || str_eq(id, "it") || str_eq(id, "ja") || str_eq(id, "km") || str_eq(id, "ko") || str_eq(id, "ms") || str_eq(id, "ne") || str_eq(id, "nl") || str_eq(id, "pl") || str_eq(id, "pt-BR") || str_eq(id, "pt-PT") || str_eq(id, "ro") || str_eq(id, "ru") || str_eq(id, "sk") || str_eq(id, "sr") || str_eq(id, "sr-Cyrl") || str_eq(id, "sv") || str_eq(id, "ta") || str_eq(id, "th") || str_eq(id, "tr") || str_eq(id, "uk") || str_eq(id, "ur") || str_eq(id, "vi") || str_eq(id, "zh-CN") || str_eq(id, "zh-HK") || str_eq(id, "zh-TW")
}

/// The first candidate that has word lists.
pub open spec fn first_supported(c: Seq<Seq<char>>) -> Option<Seq<char>>
    decreases c.len(),
{
    if c.len() == 0 {
        None
    } else if is_locale_id(c[0]) {
        Some(c[0])
    } else {
        first_supported(c.drop_first())
    }
}

/// The locale a tag resolves to: its first candidate that has word lists,
/// else English.
pub open spec fn resolve_locale_spec(tag: Seq<char>) -> Seq<char> {
    match first_supported(candidates_spec(parse_locale_spec(tag))) {
        Some(id) => id,
        None => "en"@,
    }
}

/// Resolves a locale tag to a locale with word lists.
pub fn resolve_locale_tag(tag: &str) -> (r: String)
    ensures
        r@ == resolve_locale_spec(tag@),
{
    let parsed = parse_locale_tag(tag);
    let c = locale_candidates(&parsed);
    let ghost cv = strings_view(c@);
    let mut i: usize = 0;
    assert(cv.skip(0) == cv);
    while i < c.len()
        invariant
            i <= c@.len(),
            cv == strings_view(c@),
            cv == candidates_spec(parse_locale_spec(tag@)),
            first_supported(cv) == first_supported(cv.skip(i as int)),
        decreases c@.len() - i,
    {
        let ghost rest = cv.skip(i as int);
        assert(rest.drop_first() == cv.skip(i + 1));
        assert(rest[0] == c@[i as int]@);
        if has_locale(c[i].as_str()) {
            return c[i].clone();
        }
        i = i + 1;
    }
    assert(cv.skip(i as int) =~= Seq::empty());
    String::from_str("en")
}

// ---------------------------------------------------------------- generation

/// The adjectives aliases are made from.
pub open spec fn adjective_words() -> Seq<Seq<char>> {
    seq!["Adorable"@, "Beautiful"@, "Big"@, "Bright"@, "Clean"@, "Clever"@, "Cool"@, "Cute"@, "Cunning"@, "Determined"@, "Energetic"@, "Efficient"@, "Fantastic"@, "Fast"@, "Fine"@, "Fresh"@, "Good"@, "Gorgeous"@, "Great"@, "Handsome"@, "Hot"@, "Kind"@, "Lovely"@, "Mystic"@, "Neat"@, "Nice"@, "Patient"@, "Pretty"@, "Powerful"@, "Rich"@, "Secret"@, "Smart"@, "Solid"@, "Special"@, "Strategic"@, "Strong"@, "Tidy"@, "Wise"@]
}

/// The fruits aliases are made from.
pub open spec fn fruit_words() -> Seq<Seq<char>> {
    seq!["Apple"@, "Avocado"@, "Banana"@, "Blackberry"@, "Blueberry"@, "Broccoli"@, "Carrot"@, "Cherry"@, "Coconut"@, "Grape"@, "Lemon"@, "Lettuce"@, "Mango"@, "Melon"@, "Mushroom"@, "Onion"@, "Orange"@, "Papaya"@, "Peach"@, "Pear"@, "Pineapple"@, "Potato"@, "Pumpkin"@, "Raspberry"@, "Strawberry"@, "Tomato"@]
}

pub open spec fn strs_view(v: Seq<&str>) -> Seq<Seq<char>> {
    v.map_values(|s: &str| s@)
}

/// The adjectives, as text.
pub fn adjective_list() -> (r: [&'static str; 38])
    ensures
        strs_view(r@) == adjective_words(),
{
    let r = ["Adorable", "Beautiful", "Big", "Bright", "Clean", "Clever", "Cool", "Cute", "Cunning", "Determined", "Energetic", "Efficient", "Fantastic", "Fast", "Fine", "Fresh", "Good", "Gorgeous", "Great", "Handsome", "Hot", "Kind", "Lovely", "Mystic", "Neat", "Nice", "Patient", "Pretty", "Powerful", "Rich", "Secret", "Smart", "Solid", "Special", "Strategic", "Strong", "Tidy", "Wise"];
    assert(strs_view(r@) =~= adjective_words());
    r
}

/// The fruits, as text.
pub fn fruit_list() -> (r: [&'static str; 26])
    ensures
        strs_view(r@) == fruit_words(),
{
    let r = ["Apple", "Avocado", "Banana", "Blackberry", "Blueberry", "Broccoli", "Carrot", "Cherry", "Coconut", "Grape", "Lemon", "Lettuce", "Mango", "Melon", "Mushroom", "Onion", "Orange", "Papaya", "Peach", "Pear", "Pineapple", "Potato", "Pumpkin", "Raspberry", "Strawberry", "Tomato"];
    assert(strs_view(r@) =~= fruit_words());
    r
}

/// How a locale orders the two words (`{adjective}` and `{fruit}` are
/// replaced by the words).
pub open spec fn template_for(id: Seq<char>) -> Seq<char> {
    if id == "zh-CN"@ || id == "zh-TW"@ || id == "zh-HK"@ {
        "{adjective}的{fruit}"@
    } else if id == "ro"@ {
        "{fruit} {adjective}"@
    } else if id == "ms"@ {
        "{fruit} yang {adjective}"@
    } else {
        "{adjective} {fruit}"@
    }
}

/// The template of a locale.
pub fn locale_template(id: &str) -> (r: &'static str)
    ensures
        r@ == template_for(id@),
{
    if str_eq(id, "zh-CN") || str_eq(id, "zh-TW") || str_eq(id, "zh-HK") {
        "{adjective}的{fruit}"
    } else if str_eq(id, "ro") {
        "{fruit} {adjective}"
    } else if str_eq(id, "ms") {
        "{fruit} yang {adjective}"
    } else {
        "{adjective} {fruit}"
    }
}

/// Fills a template with an adjective and a fruit.
pub open spec fn combine_spec(template: Seq<char>, adjective: Seq<char>, fruit: Seq<char>) -> Seq<char> {
    replace_all(replace_all(template, "{adjective}"@, adjective), "{fruit}"@, fruit)
}

/// Fills a template with an adjective and a fruit.
pub fn combine(template: &str, adjective: &str, fruit: &str) -> (r: String)
    ensures
        r@ == combine_spec(template@, adjective@, fruit@),
{
    proof {
        reveal_strlit("{adjective}");
        reveal_strlit("{fruit}");
    }
    let a = str_replace(template, "{adjective}", adjective);
    str_replace(a.as_str(), "{fruit}", fruit)
}

/// A uniformly random index below `n` (`rand::Rng::random_range`). Only the
/// bound is stated: the value is random.
#[verifier::external_body]
fn random_index(n: usize) -> (r: usize)
    requires
        n > 0,
    ensures
        r < n,
{
    rand::Rng::random_range(&mut rand::rng(), 0..n)
}

/// The words of a locale: the locale's own lists when it has them, else
/// English's (which every locale here shares).
pub open spec fn data_locale(id: Seq<char>) -> Seq<char> {
    if is_locale_id(id) { id } else { "en"@ }
}

/// Whether an alias is one that a locale can generate.
pub open spec fn generated_for(id: Seq<char>, alias: Seq<char>) -> bool {
    exists|i: int, j: int|
        0 <= i < adjective_words().len() && 0 <= j < fruit_words().len() && alias == combine_spec(
            template_for(data_locale(id)),
            #[trigger] adjective_words()[i],
            #[trigger] fruit_words()[j],
        )
}

/// A random alias from a locale's words and word order.
pub fn generate_random_alias_for_locale(locale_id: &str) -> (r: String)
    ensures
        generated_for(locale_id@, r@),
{
    let id = if has_locale(locale_id) { locale_id } else { "en" };
    let template = locale_template(id);
    let adjectives = adjective_list();
    let fruits = fruit_list();
    let i = random_index(38);
    let j = random_index(26);
    let r = combine(template, adjectives[i], fruits[j]);
    assert(adjective_words()[i as int] == adjectives@[i as int]@);
    assert(fruit_words()[j as int] == fruits@[j as int]@);
    r
}

// ---------------------------------------------------------------- system locale

/// Where the system's locale comes from: the platform's setting, then the
/// `LC_ALL`, `LC_MESSAGES` and `LANG` environment variables.
#[derive(Debug, Clone)]
pub struct LocaleEnv {
    pub system: Option<String>,
    pub lc_all: Option<String>,
    pub lc_messages: Option<String>,
    pub lang: Option<String>,
}

/// The part of a text before its first `.`.
pub open spec fn before_dot(v: Seq<char>) -> Seq<char>
    decreases v.len(),
{
    if v.len() == 0 {
        v
    } else if v[0] == '.' {
        Seq::empty()
    } else {
        seq![v[0]] + before_dot(v.drop_first())
    }
}

/// The locale tag an environment variable gives: the part before the
/// encoding, trimmed, unless it is empty, `C` or `POSIX`.
pub open spec fn env_tag(v: Option<Seq<char>>) -> Option<Seq<char>> {
    match v {
        Some(x) => {
            let t = trim(before_dot(x));
            if t.len() == 0 || t == "C"@ || t == "POSIX"@ {
                None
            } else {
                Some(t)
            }
        },
        None => None,
    }
}

pub open spec fn opt_view(o: Option<String>) -> Option<Seq<char>> {
    match o {
        Some(s) => Some(s@),
        None => None,
    }
}

fn env_tag_exec(v: &Option<String>) -> (r: Option<String>)
    ensures
        opt_view(r) == env_tag(opt_view(*v)),
{
    match v {
        Some(x) => {
            let chars = to_chars(x.as_str());
            let mut head: Vec<char> = Vec::new();
            let mut i: usize = 0;
            assert(chars@.skip(0) == chars@);
            while i < chars.len() && chars[i] != '.'
                invariant
                    i <= chars@.len(),
                    chars@ == x@,
                    head@ + before_dot(chars@.skip(i as int)) == before_dot(x@),
                decreases chars@.len() - i,
            {
                let ghost rest = chars@.skip(i as int);
                assert(rest.drop_first() == chars@.skip(i + 1));
                assert(rest[0] == chars@[i as int]);
                head.push(chars[i]);
                i = i + 1;
            }
            proof {
                let rest = chars@.skip(i as int);
                if i < chars@.len() {
                    assert(rest[0] == chars@[i as int]);
                } else {
                    assert(rest =~= Seq::<char>::empty());
                }
                assert(head@ =~= before_dot(x@));
            }
            let h = from_chars(head.as_slice());
            let t = trim_str(h.as_str());
            if t.as_str().is_empty() || str_eq(t.as_str(), "C") || str_eq(t.as_str(), "POSIX") {
                None
            } else {
                Some(t)
            }
        },
        None => None,
    }
}

/// The first usable tag among `LC_ALL`, `LC_MESSAGES`, `LANG`.
pub open spec fn lang_env_spec(env: LocaleEnv) -> Option<Seq<char>> {
    match env_tag(opt_view(env.lc_all)) {
        Some(t) => Some(t),
        None => match env_tag(opt_view(env.lc_messages)) {
            Some(t) => Some(t),
            None => env_tag(opt_view(env.lang)),
        },
    }
}

/// The locale tag from the environment variables.
pub fn read_lang_env(env: &LocaleEnv) -> (r: Option<String>)
    ensures
        opt_view(r) == lang_env_spec(*env),
{
    match env_tag_exec(&env.lc_all) {
        Some(t) => Some(t),
        None => match env_tag_exec(&env.lc_messages) {
            Some(t) => Some(t),
            None => env_tag_exec(&env.lang),
        },
    }
}

/// The system's locale: the platform's tag, else the environment's, else
/// English, resolved to a locale with word lists.
pub open spec fn system_locale_spec(env: LocaleEnv) -> Seq<char> {
    resolve_locale_spec(
        match opt_view(env.system) {
            Some(t) => t,
            None => match lang_env_spec(env) {
                Some(t) => t,
                None => "en"@,
            },
        },
    )
}

/// The system's locale.
pub fn resolve_system_locale_id(env: &LocaleEnv) -> (r: String)
    ensures
        r@ == system_locale_spec(*env),
{
    let tag = match &env.system {
        Some(t) => t.clone(),
        None => match read_lang_env(env) {
            Some(t) => t,
            None => String::from_str("en"),
        },
    };
    resolve_locale_tag(tag.as_str())
}

/// A random alias in the system's locale.
pub fn generate_random_alias(env: &LocaleEnv) -> (r: String)
    ensures
        generated_for(system_locale_spec(*env), r@),
{
    let id = resolve_system_locale_id(env);
    generate_random_alias_for_locale(id.as_str())
}

// ---------------------------------------------------------------- persistence

/// The alias after a change, with the one it replaced and where it is stored.
#[derive(Debug, Clone, PartialEq, Eq)]
pub struct AliasChangeResult {
    pub previous: Option<String>,
    pub alias: String,
    pub path: String,
}

/// The current alias, where it is stored, and whether it was just generated.
#[derive(Debug, Clone, PartialEq, Eq)]
pub struct AliasShowResult {
    pub alias: String,
    pub path: String,
    pub created: bool,
}

/// The alias to use given the alias file's content (`None`: no file), and the
/// content to write back when a new one had to be generated
///: the stored alias when there is one, else a random
/// alias in the system's locale, saved.
pub fn load_or_create(content: Option<String>, env: &LocaleEnv) -> (r: Result<(String, Option<String>), String>)
    ensures
        match persisted_spec(opt_view(content)) {
            Some(a) => r matches Ok((x, w)) && x@ == a && w is None,
            None => r matches Ok((x, w)) && generated_for(system_locale_spec(*env), x@) && (w matches Some(c)
                && save_spec(x@) == Ok::<Seq<char>, Seq<char>>(c@)),
        },
{
    let ghost cv = opt_view(content);
    match read_persisted(content) {
        Some(a) => {
            return Ok((a, None));
        },
        None => {},
    }
    let alias = generate_random_alias(env);
    proof {
        law_generated_alias_reloads(system_locale_spec(*env), alias@);
    }
    let written = save(alias.as_str())?;
    Ok((alias, Some(written)))
}

/// The alias to show, generating and saving one when there is none; also
/// returns the content to write, if any. It always succeeds.
pub fn show_or_create(config_dir: &str, content: Option<String>, env: &LocaleEnv) -> (r: Result<(AliasShowResult, Option<String>), String>)
    ensures
        r is Ok,
        match r {
            Ok((res, w)) => {
                &&& res.path@ == join_spec(config_dir@, ALIAS_FILE@)
                &&& res.created == (persisted_spec(opt_view(content)) is None)
                &&& match persisted_spec(opt_view(content)) {
                    Some(a) => res.alias@ == a && w is None,
                    None => generated_for(system_locale_spec(*env), res.alias@) && (w matches Some(c) && save_spec(res.alias@) == Ok::<Seq<char>, Seq<char>>(c@)),
                }
            },
            Err(_) => true,
        },
{
    let path = alias_path(config_dir);
    let created = match &content {
        Some(c) => read_persisted(Some(c.clone())).is_none(),
        None => true,
    };
    let (alias, written) = load_or_create(content, env)?;
    Ok((AliasShowResult { alias, path, created }, written))
}

/// A new random alias (in the given locale, else the system's), saved; also
/// returns the content to write. It always succeeds.
pub fn regenerate(
    config_dir: &str,
    content: Option<String>,
    locale: Option<&str>,
    env: &LocaleEnv,
) -> (r: Result<(AliasChangeResult, String), String>)
    ensures
        r is Ok,
        ({
            let id = match locale {
                Some(l) => resolve_locale_spec(l@),
                None => system_locale_spec(*env),
            };
            match r {
                Ok((res, w)) => {
                    &&& opt_view(res.previous) == persisted_spec(opt_view(content))
                    &&& generated_for(id, res.alias@)
                    &&& save_spec(res.alias@) == Ok::<Seq<char>, Seq<char>>(w@)
                    &&& res.path@ == join_spec(config_dir@, ALIAS_FILE@)
                },
                Err(_) => true,
            }
        }),
{
    let previous = read_persisted(content);
    let locale_id = match locale {
        Some(l) => resolve_locale_tag(l),
        None => resolve_system_locale_id(env),
    };
    let alias = generate_random_alias_for_locale(locale_id.as_str());
    proof {
        law_generated_alias_reloads(locale_id@, alias@);
    }
    let written = save(alias.as_str())?;
    Ok((AliasChangeResult { previous, alias, path: alias_path(config_dir) }, written))
}

/// Sets the alias: the previous one, the validated new one,
/// and the content to write; a refused alias is an error.
pub fn set_persisted(config_dir: &str, content: Option<String>, alias: &str) -> (r: Result<(AliasChangeResult, String), String>)
    ensures
        match validate_spec(alias@) {
            Ok(a) => r matches Ok((res, w)) && opt_view(res.previous) == persisted_spec(opt_view(content))
                && res.alias@ == a && w@ == a + "\n"@ && res.path@ == join_spec(config_dir@, ALIAS_FILE@),
            Err(e) => r matches Err(m) && m@ == e,
        },
{
    let previous = read_persisted(content);
    let written = save(alias)?;
    let alias = validate_alias(alias)?;
    Ok((AliasChangeResult { previous, alias, path: alias_path(config_dir) }, written))
}

// ---------------------------------------------------------------- laws

/// An accepted alias is accepted again unchanged.
pub proof fn law_validate_is_idempotent(alias: Seq<char>)
    requires
        validate_spec(alias) is Ok,
    ensures
        validate_spec(validate_spec(alias)->Ok_0) == validate_spec(alias),
{
    lemma_trim_idempotent(alias);
}

/// What saving an alias writes reads back as the accepted alias.
pub proof fn law_saved_alias_reads_back(alias: Seq<char>)
    requires
        save_spec(alias) is Ok,
    ensures
        persisted_spec(Some(save_spec(alias)->Ok_0)) == Some(validate_spec(alias)->Ok_0),
{
    let t = trim(alias);
    lemma_trim_idempotent(alias);
    assert("\n"@ == seq!['\n']) by {
        reveal_strlit("\n");
    }
    lemma_trim_newline(t);
}

} // verus!
