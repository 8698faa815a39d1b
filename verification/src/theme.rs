//! Theme loading and token resolution.
//!
//! A theme is a TOML document with `[light.*]` and `[dark.*]` sections, each
//! holding `colors`, `text`, `shadows` and `components` tables. A value in a
//! later section may refer to an earlier token with `$section.key` (such as
//! `$colors.primary`); references are resolved at load time in one pass.
use vstd::prelude::*;
use vstd::string::*;

use crate::bundled::DEFAULT_THEME;
use crate::keyed::{distinct_keys, entry_get, entry_insert, law_map_insert_keeps_keys_distinct, StringMap};
use crate::text::{str_eq, chars_of, find_char_from, first_index_of, first_index_where, is_char,
    lemma_first_index_where, string_of_range};

verus! {

/// Resolved theme tokens for one variant (light or dark), keyed by
/// `"section-tokenName"`, in the order they were first set.
pub type ThemeTokens = StringMap;

/// Both variants of a parsed theme.
#[derive(Clone, Debug)]
pub struct Theme {
    pub light: ThemeTokens,
    pub dark: ThemeTokens,
}

// ---------------------------------------------------------------------------
// References
// ---------------------------------------------------------------------------

/// What `char::is_alphanumeric` says of `c` (the Unicode `Alphabetic` or
/// `Numeric` property).
pub uninterp spec fn unicode_alphanumeric(c: char) -> bool;

/// Whether `c` is an ASCII letter or digit.
pub open spec fn is_ascii_alphanumeric(c: char) -> bool {
    ('a' <= c && c <= 'z') || ('A' <= c && c <= 'Z') || ('0' <= c && c <= '9')
}

/// `char::is_alphanumeric`; its result is named, as the Unicode tables it
/// consults take pages to state. Stated is the ASCII range, where the
/// alphabetic and numeric characters are the letters and the digits.
#[verifier::external_body]
fn char_is_alphanumeric(c: char) -> (r: bool)
    ensures
        r == unicode_alphanumeric(c),
        (c as u32) < 128 ==> (r <==> is_ascii_alphanumeric(c)),
{
    c.is_alphanumeric()
}

/// The characters that may follow `$` in a reference.
pub open spec fn is_ref_char(c: char) -> bool {
    unicode_alphanumeric(c) || c == '.' || c == '-' || c == '_'
}

/// The predicate that ends a reference name.
pub open spec fn ends_ref() -> spec_fn(char) -> bool {
    |c: char| !is_ref_char(c)
}

/// The token key a reference names: its first `.` becomes `-`.
pub open spec fn ref_key(name: Seq<char>) -> Seq<char> {
    let i = first_index_of(name, '.');
    if 0 <= i < name.len() {
        name.subrange(0, i) + seq!['-'] + name.subrange(i + 1, name.len() as int)
    } else {
        name
    }
}

/// The length of the reference name at the start of `rest`.
pub open spec fn ref_name_len(rest: Seq<char>) -> int {
    let e = first_index_where(rest, ends_ref());
    if 0 <= e <= rest.len() {
        e
    } else {
        rest.len() as int
    }
}

/// `value` with each `$section.key` replaced by the value of token
/// `section-key`, or kept as written when there is no such token.
pub open spec fn resolve_refs_spec(value: Seq<char>, tokens: Seq<(Seq<char>, Seq<char>)>) -> Seq<
    char,
>
    decreases value.len(),
{
    let d = first_index_of(value, '$');
    if d < 0 || d >= value.len() {
        value
    } else {
        let rest = value.subrange(d + 1, value.len() as int);
        let e = ref_name_len(rest);
        let name = rest.subrange(0, e);
        let replacement = match entry_get(tokens, ref_key(name)) {
            Some(v) => v,
            None => seq!['$'] + name,
        };
        value.subrange(0, d) + replacement + resolve_refs_spec(
            rest.subrange(e, rest.len() as int),
            tokens,
        )
    }
}

/// Looks up the reference `ref_name` (`"section.key"`) as token
/// `"section-key"`.
pub fn lookup_ref(ref_name: &str, tokens: &ThemeTokens) -> (r: Option<String>)
    ensures
        match r {
            Some(v) => entry_get(tokens@, ref_key(ref_name@)) == Some(v@),
            None => entry_get(tokens@, ref_key(ref_name@)) is None,
        },
{
    let v = chars_of(ref_name);
    let n = v.len();
    let key = match find_char_from(&v, 0, '.') {
        Some(i) => {
            let mut k = string_of_range(ref_name, 0, i);
            let dash = "-";
            proof {
                reveal_strlit("-");
            }
            k.append(dash);
            k.append(ref_name.substring_char(i + 1, n));
            assert(v@.subrange(0, n as int) == v@);
            k
        },
        None => {
            assert(v@.subrange(0, n as int) == v@);
            String::from_str(ref_name)
        },
    };
    assert(key@ == ref_key(ref_name@));
    match tokens.get(key.as_str()) {
        Some(s) => Some(s.clone()),
        None => None,
    }
}

/// Whether `c` may occur in a reference name: a letter or digit of any
/// script, `.`, `-` or `_`. Among ASCII characters these are the letters,
/// the digits, `.`, `-` and `_`.
pub fn ref_char(c: char) -> (r: bool)
    ensures
        r == is_ref_char(c),
        (c as u32) < 128 ==> (r <==> (is_ascii_alphanumeric(c) || c == '.' || c == '-' || c
            == '_')),
{
    char_is_alphanumeric(c) || c == '.' || c == '-' || c == '_'
}

/// The end of the reference name that starts at `from`.
fn ref_name_end(v: &Vec<char>, from: usize) -> (r: usize)
    requires
        from <= v.len(),
    ensures
        from <= r <= v.len(),
        r - from == ref_name_len(v@.subrange(from as int, v.len() as int)),
{
    let mut i = from;
    while i < v.len() && ref_char(v[i])
        invariant
            from <= i <= v.len(),
            forall|j: int| from <= j < i ==> is_ref_char(#[trigger] v@[j]),
        decreases v.len() - i,
    {
        i = i + 1;
    }
    proof {
        let s = v@.subrange(from as int, v.len() as int);
        assert forall|j: int| 0 <= j < i - from implies !(ends_ref()(#[trigger] s[j])) by {
            assert(s[j] == v@[from + j]);
        }
        if i < v.len() {
            assert(s[i - from] == v@[i as int]);
        }
        lemma_first_index_where(s, ends_ref(), i - from);
    }
    i
}

/// Replaces `$section.key` references in `value` with the values of the
/// tokens they name. One pass: only tokens already in `tokens` resolve; an
/// unknown reference is kept literally.
#[verifier::rlimit(50)]
pub fn resolve_refs(value: &str, tokens: &ThemeTokens) -> (r: String)
    ensures
        r@ == resolve_refs_spec(value@, tokens@),
{
    let v = chars_of(value);
    let n = v.len();
    let mut result = String::new();
    let mut pos: usize = 0;
    assert(v@.subrange(0, n as int) == value@);
    while pos < n
        invariant
            n == v.len(),
            v@ == value@,
            pos <= n,
            result@ + resolve_refs_spec(v@.subrange(pos as int, n as int), tokens@)
                == resolve_refs_spec(value@, tokens@),
        decreases n - pos,
    {
        let ghost s = v@.subrange(pos as int, n as int);
        match find_char_from(&v, pos, '$') {
            None => {
                result.append(value.substring_char(pos, n));
                assert(resolve_refs_spec(s, tokens@) == s);
                assert(v@.subrange(n as int, n as int) =~= Seq::<char>::empty());
                assert(resolve_refs_spec(v@.subrange(n as int, n as int), tokens@) =~= Seq::<
                    char,
                >::empty());
                pos = n;
            },
            Some(d) => {
                result.append(value.substring_char(pos, d));
                let end = ref_name_end(&v, d + 1);
                let name = value.substring_char(d + 1, end);
                proof {
                    let rest = s.subrange(d - pos + 1, s.len() as int);
                    assert(rest == v@.subrange(d + 1, n as int));
                    assert(rest.subrange(0, end - d - 1) == name@);
                    assert(rest.subrange(end - d - 1, rest.len() as int) == v@.subrange(
                        end as int,
                        n as int,
                    ));
                    assert(s.subrange(0, d - pos) == v@.subrange(pos as int, d as int));
                }
                match lookup_ref(name, tokens) {
                    Some(resolved) => {
                        result.append(resolved.as_str());
                    },
                    None => {
                        let dollar = "$";
                        proof {
                            reveal_strlit("$");
                        }
                        result.append(dollar);
                        result.append(name);
                    },
                }
                pos = end;
            },
        }
    }
    assert(v@.subrange(n as int, n as int) =~= Seq::<char>::empty());
    assert(resolve_refs_spec(Seq::<char>::empty(), tokens@) =~= Seq::<char>::empty());
    assert(result@ + Seq::<char>::empty() =~= result@);
    result
}

// ---------------------------------------------------------------------------
// Reading the TOML document
// ---------------------------------------------------------------------------

/// A table `[outer.inner]` of a TOML document as the theme reader sees it.
#[derive(Clone, Debug)]
pub enum TomlSection {
    /// The text is not a TOML document.
    Unparsable,
    /// The document has no table `outer`.
    NoOuter,
    /// The table `outer` has no table `inner`.
    NoInner,
    /// The keys of `[outer.inner]` in document order, each with its value
    /// when that value is a string.
    Entries(Vec<(String, Option<String>)>),
}

/// The abstract form of a [`TomlSection`].
pub enum TomlSectionView {
    Unparsable,
    NoOuter,
    NoInner,
    Entries(Seq<(Seq<char>, Option<Seq<char>>)>),
}

/// A string-valued option by its view.
pub open spec fn opt_view(o: Option<String>) -> Option<Seq<char>> {
    match o {
        Some(s) => Some(s@),
        None => None,
    }
}

impl View for TomlSection {
    type V = TomlSectionView;

    open spec fn view(&self) -> TomlSectionView {
        match self {
            TomlSection::Unparsable => TomlSectionView::Unparsable,
            TomlSection::NoOuter => TomlSectionView::NoOuter,
            TomlSection::NoInner => TomlSectionView::NoInner,
            TomlSection::Entries(es) => TomlSectionView::Entries(
                es@.map_values(|e: (String, Option<String>)| (e.0@, opt_view(e.1))),
            ),
        }
    }
}

/// What `toml_edit` reads from `text` for the table `[outer.inner]`.
pub uninterp spec fn toml_section(text: Seq<char>, outer: Seq<char>, inner: Seq<char>) -> TomlSectionView;

/// Parses `text` with `toml_edit::DocumentMut::from_str` and reads the table
/// `[outer.inner]`: `Table::get` then `Item::as_table` for each level,
/// `Table::iter` for its entries and `Item::as_str` for each value. The
/// result is named: it is a function of the three strings alone.
#[verifier::external_body]
fn read_toml_section(text: &str, outer: &str, inner: &str) -> (r: TomlSection)
    ensures
        r@ == toml_section(text@, outer@, inner@),
{
    let doc = match text.parse::<toml_edit::DocumentMut>() {
        Ok(doc) => doc,
        Err(_) => return TomlSection::Unparsable,
    };
    let Some(outer_table) = doc.get(outer).and_then(|item| item.as_table()) else {
        return TomlSection::NoOuter;
    };
    let Some(table) = outer_table.get(inner).and_then(|item| item.as_table()) else {
        return TomlSection::NoInner;
    };
    TomlSection::Entries(
        table.iter().map(|(key, item)| (key.to_string(), item.as_str().map(|v| v.to_string()))).collect(),
    )
}

// ---------------------------------------------------------------------------
// Resolving a variant
// ---------------------------------------------------------------------------

/// Why a theme could not be loaded.
#[derive(Clone, Debug)]
pub enum ThemeError {
    /// The text is not TOML.
    InvalidToml,
    /// The document lacks the `[light]` or `[dark]` table named here.
    MissingVariant(String),
}

/// The abstract form of a [`ThemeError`].
pub enum ThemeErrorView {
    InvalidToml,
    MissingVariant(Seq<char>),
}

impl View for ThemeError {
    type V = ThemeErrorView;

    open spec fn view(&self) -> ThemeErrorView {
        match self {
            ThemeError::InvalidToml => ThemeErrorView::InvalidToml,
            ThemeError::MissingVariant(v) => ThemeErrorView::MissingVariant(v@),
        }
    }
}

/// The sections of a variant, in the order they are resolved.
pub open spec fn theme_sections() -> Seq<Seq<char>> {
    seq!["colors"@, "text"@, "shadows"@, "components"@]
}

/// The key a section's entry is stored under.
pub open spec fn token_key(section: Seq<char>, key: Seq<char>) -> Seq<char> {
    section + seq!['-'] + key
}

/// `tokens` once the string entries of `section` are resolved and added in
/// order, each seeing the tokens added before it.
pub open spec fn add_entries(
    tokens: Seq<(Seq<char>, Seq<char>)>,
    section: Seq<char>,
    entries: Seq<(Seq<char>, Option<Seq<char>>)>,
) -> Seq<(Seq<char>, Seq<char>)>
    decreases entries.len(),
{
    if entries.len() == 0 {
        tokens
    } else {
        let next = match entries[0].1 {
            Some(v) => entry_insert(
                tokens,
                token_key(section, entries[0].0),
                resolve_refs_spec(v, tokens),
            ),
            None => tokens,
        };
        add_entries(next, section, entries.drop_first())
    }
}

/// The tokens of `variant` once the sections `sections` are resolved in
/// order on top of `tokens`.
pub open spec fn resolve_sections(
    text: Seq<char>,
    variant: Seq<char>,
    sections: Seq<Seq<char>>,
    tokens: Seq<(Seq<char>, Seq<char>)>,
) -> Result<Seq<(Seq<char>, Seq<char>)>, ThemeErrorView>
    decreases sections.len(),
{
    if sections.len() == 0 {
        Ok(tokens)
    } else {
        match toml_section(text, variant, sections[0]) {
            TomlSectionView::Unparsable => Err(ThemeErrorView::InvalidToml),
            TomlSectionView::NoOuter => Err(ThemeErrorView::MissingVariant(variant)),
            TomlSectionView::NoInner => resolve_sections(
                text,
                variant,
                sections.drop_first(),
                tokens,
            ),
            TomlSectionView::Entries(es) => resolve_sections(
                text,
                variant,
                sections.drop_first(),
                add_entries(tokens, sections[0], es),
            ),
        }
    }
}

/// The resolved tokens of one variant of the theme in `text`.
pub open spec fn resolve_variant_spec(text: Seq<char>, variant: Seq<char>) -> Result<
    Seq<(Seq<char>, Seq<char>)>,
    ThemeErrorView,
> {
    resolve_sections(text, variant, theme_sections(), seq![])
}

/// Both variants of the theme in `text`, light first.
pub open spec fn parse_theme_spec(text: Seq<char>) -> Result<
    (Seq<(Seq<char>, Seq<char>)>, Seq<(Seq<char>, Seq<char>)>),
    ThemeErrorView,
> {
    match resolve_variant_spec(text, "light"@) {
        Err(e) => Err(e),
        Ok(light) => match resolve_variant_spec(text, "dark"@) {
            Err(e) => Err(e),
            Ok(dark) => Ok((light, dark)),
        },
    }
}

/// Adds the string entries of `section` to `tokens`, resolving each value's
/// references against the tokens added so far.
pub fn add_section_entries(
    tokens: &mut ThemeTokens,
    section: &str,
    entries: &Vec<(String, Option<String>)>,
)
    ensures
        final(tokens)@ == add_entries(
            old(tokens)@,
            section@,
            entries@.map_values(|e: (String, Option<String>)| (e.0@, opt_view(e.1))),
        ),
{
    let ghost all = entries@.map_values(|e: (String, Option<String>)| (e.0@, opt_view(e.1)));
    assert(all.subrange(0, all.len() as int) == all);
    let mut i: usize = 0;
    while i < entries.len()
        invariant
            i <= entries.len(),
            all == entries@.map_values(|e: (String, Option<String>)| (e.0@, opt_view(e.1))),
            add_entries(tokens@, section@, all.subrange(i as int, all.len() as int)) == add_entries(
                old(tokens)@,
                section@,
                all,
            ),
        decreases entries.len() - i,
    {
        let ghost rest = all.subrange(i as int, all.len() as int);
        assert(rest[0] == all[i as int]);
        assert(rest.drop_first() == all.subrange(i + 1, all.len() as int));
        let entry = &entries[i];
        assert(all[i as int] == (entry.0@, opt_view(entry.1)));
        let ghost before = tokens@;
        match &entry.1 {
            Some(value) => {
                let resolved = resolve_refs(value.as_str(), tokens);
                let mut key = String::from_str(section);
                let dash = "-";
                proof {
                    reveal_strlit("-");
                }
                key.append(dash);
                key.append(entry.0.as_str());
                assert(key@ == token_key(section@, entry.0@));
                tokens.insert(key, resolved);
                assert(add_entries(before, section@, rest) == add_entries(
                    tokens@,
                    section@,
                    rest.drop_first(),
                ));
            },
            None => {
                assert(add_entries(before, section@, rest) == add_entries(
                    tokens@,
                    section@,
                    rest.drop_first(),
                ));
            },
        }
        i = i + 1;
    }
    assert(all.subrange(all.len() as int, all.len() as int) =~= Seq::<
        (Seq<char>, Option<Seq<char>>),
    >::empty());
}

/// What one section read from the document does to the tokens: the error it
/// reveals, nothing for a missing section, or its entries added.
pub open spec fn section_step(
    tokens: Seq<(Seq<char>, Seq<char>)>,
    variant: Seq<char>,
    section: Seq<char>,
    read: TomlSectionView,
) -> Result<Seq<(Seq<char>, Seq<char>)>, ThemeErrorView> {
    match read {
        TomlSectionView::Unparsable => Err(ThemeErrorView::InvalidToml),
        TomlSectionView::NoOuter => Err(ThemeErrorView::MissingVariant(variant)),
        TomlSectionView::NoInner => Ok(tokens),
        TomlSectionView::Entries(es) => Ok(add_entries(tokens, section, es)),
    }
}

/// Applies what was read for the section `section` of `variant` to the
/// tokens; on an error the tokens are left as they were.
pub fn apply_toml_section(
    tokens: &mut ThemeTokens,
    variant: &str,
    section: &str,
    read: &TomlSection,
) -> (r: Result<(), ThemeError>)
    ensures
        match section_step(old(tokens)@, variant@, section@, read@) {
            Ok(t) => r is Ok && final(tokens)@ == t,
            Err(e) => (r matches Err(x) && x@ == e) && final(tokens)@ == old(tokens)@,
        },
{
    match read {
        TomlSection::Unparsable => Err(ThemeError::InvalidToml),
        TomlSection::NoOuter => Err(ThemeError::MissingVariant(String::from_str(variant))),
        TomlSection::NoInner => Ok(()),
        TomlSection::Entries(entries) => {
            add_section_entries(tokens, section, entries);
            Ok(())
        },
    }
}

/// Resolves the tokens of `variant` (`"light"` or `"dark"`) of the theme in
/// `text`: its sections in order, each entry seeing the tokens before it.
fn resolve_variant(text: &str, variant: &str) -> (r: Result<ThemeTokens, ThemeError>)
    ensures
        match r {
            Ok(t) => resolve_variant_spec(text@, variant@) == Ok::<
                Seq<(Seq<char>, Seq<char>)>,
                ThemeErrorView,
            >(t@),
            Err(e) => resolve_variant_spec(text@, variant@) == Err::<
                Seq<(Seq<char>, Seq<char>)>,
                ThemeErrorView,
            >(e@),
        },
{
    let sections = ["colors", "text", "shadows", "components"];
    let ghost secs = theme_sections();
    proof {
        reveal_strlit("colors");
        reveal_strlit("text");
        reveal_strlit("shadows");
        reveal_strlit("components");
    }
    assert(sections@.map_values(|s: &str| s@) =~= secs);
    let mut tokens = ThemeTokens::new();
    assert(secs.subrange(0, 4) == secs);
    let mut i: usize = 0;
    while i < 4
        invariant
            i <= 4,
            sections@.len() == 4,
            sections@.map_values(|s: &str| s@) == secs,
            secs == theme_sections(),
            resolve_sections(text@, variant@, secs.subrange(i as int, 4), tokens@)
                == resolve_variant_spec(text@, variant@),
        decreases 4 - i,
    {
        let ghost rest = secs.subrange(i as int, 4);
        assert(rest[0] == sections@[i as int]@);
        assert(rest.drop_first() == secs.subrange(i + 1, 4));
        let section = sections[i];
        let read = read_toml_section(text, variant, section);
        if let Err(e) = apply_toml_section(&mut tokens, variant, section, &read) {
            return Err(e);
        }
        i = i + 1;
    }
    assert(secs.subrange(4, 4) =~= Seq::<Seq<char>>::empty());
    Ok(tokens)
}

/// Loads and resolves a theme from its TOML text.
pub fn parse_theme(toml_str: &str) -> (r: Result<Theme, ThemeError>)
    ensures
        match r {
            Ok(t) => parse_theme_spec(toml_str@) == Ok::<
                (Seq<(Seq<char>, Seq<char>)>, Seq<(Seq<char>, Seq<char>)>),
                ThemeErrorView,
            >((t.light@, t.dark@)),
            Err(e) => parse_theme_spec(toml_str@) == Err::<
                (Seq<(Seq<char>, Seq<char>)>, Seq<(Seq<char>, Seq<char>)>),
                ThemeErrorView,
            >(e@),
        },
{
    let light_name = "light";
    let dark_name = "dark";
    proof {
        reveal_strlit("light");
        reveal_strlit("dark");
    }
    let light = match resolve_variant(toml_str, light_name) {
        Ok(t) => t,
        Err(e) => return Err(e),
    };
    let dark = match resolve_variant(toml_str, dark_name) {
        Ok(t) => t,
        Err(e) => return Err(e),
    };
    Ok(Theme { light, dark })
}

/// The tokens of the bundled theme, light then dark; none if it did not parse.
pub open spec fn default_theme_tokens() -> (Seq<(Seq<char>, Seq<char>)>, Seq<(Seq<char>, Seq<char>)>) {
    match parse_theme_spec(DEFAULT_THEME@) {
        Ok(both) => both,
        Err(_) => (seq![], seq![]),
    }
}

/// The bundled default theme. The bundled text parses (the tests check
/// it); were it not to, the result would be a theme without tokens.
pub fn default_theme() -> (r: Theme)
    ensures
        (r.light@, r.dark@) == default_theme_tokens(),
{
    match parse_theme(DEFAULT_THEME) {
        Ok(t) => t,
        Err(_) => Theme { light: ThemeTokens::new(), dark: ThemeTokens::new() },
    }
}

/// The theme named by the settings, given the text of its file when the
/// settings name one and it could be read; the bundled default otherwise,
/// or when that text is not a valid theme.
pub fn load_from_settings(theme_file_text: Option<&str>) -> (r: Theme)
    ensures
        match theme_file_text {
            Some(text) => match parse_theme_spec(text@) {
                Ok(both) => (r.light@, r.dark@) == both,
                Err(_) => (r.light@, r.dark@) == default_theme_tokens(),
            },
            None => (r.light@, r.dark@) == default_theme_tokens(),
        },
{
    if let Some(text) = theme_file_text {
        if let Ok(t) = parse_theme(text) {
            return t;
        }
    }
    default_theme()
}

// ---------------------------------------------------------------------------
// CSS
// ---------------------------------------------------------------------------

/// One `--gg-*` custom property per token, in token order, each line
/// starting with `indent`.
pub open spec fn css_decls(tokens: Seq<(Seq<char>, Seq<char>)>, indent: Seq<char>) -> Seq<char>
    decreases tokens.len(),
{
    if tokens.len() == 0 {
        seq![]
    } else {
        css_decls(tokens.drop_last(), indent) + indent + "--gg-"@ + tokens.last().0 + ": "@
            + tokens.last().1 + ";\n"@
    }
}

/// A `#shell` rule setting one variant's properties and color scheme.
pub open spec fn css_variant_rule(tokens: Seq<(Seq<char>, Seq<char>)>, scheme: Seq<char>) -> Seq<char> {
    "#shell {\n"@ + css_decls(tokens, "  "@) + "  color-scheme: "@ + scheme + ";\n"@ + "}\n"@
}

/// The stylesheet for a theme: the overridden variant alone when
/// `theme_override` is `"dark"` or `"light"`, otherwise light by default
/// and dark under `prefers-color-scheme: dark`.
pub open spec fn theme_css(
    light: Seq<(Seq<char>, Seq<char>)>,
    dark: Seq<(Seq<char>, Seq<char>)>,
    theme_override: Option<Seq<char>>,
) -> Seq<char> {
    if theme_override == Some("dark"@) {
        css_variant_rule(dark, "dark"@)
    } else if theme_override == Some("light"@) {
        css_variant_rule(light, "light"@)
    } else {
        css_variant_rule(light, "light"@) + "@media (prefers-color-scheme: dark) {\n"@
            + "  #shell {\n"@ + css_decls(dark, "    "@) + "    color-scheme: dark;\n"@ + "  }\n"@
            + "}\n"@
    }
}

/// Appends the custom properties of `tokens`, each line starting with `indent`.
fn emit_decls(css: &mut String, tokens: &ThemeTokens, indent: &str)
    ensures
        final(css)@ == old(css)@ + css_decls(tokens@, indent@),
{
    let n = tokens.len();
    let mut i: usize = 0;
    assert(tokens@.subrange(0, 0) =~= Seq::<(Seq<char>, Seq<char>)>::empty());
    assert(old(css)@ + Seq::<char>::empty() =~= old(css)@);
    while i < n
        invariant
            n == tokens@.len(),
            i <= n,
            css@ == old(css)@ + css_decls(tokens@.subrange(0, i as int), indent@),
        decreases n - i,
    {
        let (key, value) = tokens.entry(i);
        css.append(indent);
        css.append("--gg-");
        css.append(key.as_str());
        css.append(": ");
        css.append(value.as_str());
        css.append(";\n");
        let ghost sub = tokens@.subrange(0, i + 1);
        assert(sub.drop_last() == tokens@.subrange(0, i as int));
        assert(sub.last() == tokens@[i as int]);
        i = i + 1;
    }
    assert(tokens@.subrange(0, n as int) == tokens@);
}

/// Appends a `#shell` rule for one variant.
fn emit_variant(css: &mut String, tokens: &ThemeTokens, scheme: &str)
    ensures
        final(css)@ == old(css)@ + css_variant_rule(tokens@, scheme@),
{
    css.append("#shell {\n");
    emit_decls(css, tokens, "  ");
    css.append("  color-scheme: ");
    css.append(scheme);
    css.append(";\n");
    css.append("}\n");
}

/// Generates CSS rules that set `--gg-*` custom properties on `#shell` for
/// both the light and the dark variant (using `prefers-color-scheme`), or
/// for the variant `theme_override` names when it is `"dark"` or `"light"`.
/// The theme is the one `load_from_settings` gives for `theme_file_text`.
pub fn generate_css(theme_file_text: Option<&str>, theme_override: Option<&str>) -> (r: String)
    ensures
        ({
            let (light, dark) = match theme_file_text {
                Some(text) => match parse_theme_spec(text@) {
                    Ok(both) => both,
                    Err(_) => default_theme_tokens(),
                },
                None => default_theme_tokens(),
            };
            r@ == theme_css(
                light,
                dark,
                match theme_override {
                    Some(o) => Some(o@),
                    None => None,
                },
            )
        }),
{
    let theme = load_from_settings(theme_file_text);
    let mut css = String::new();
    let (is_dark, is_light) = match theme_override {
        Some(o) => (str_eq(o, "dark"), str_eq(o, "light")),
        None => (false, false),
    };
    if is_dark {
        emit_variant(&mut css, &theme.dark, "dark");
    } else if is_light {
        emit_variant(&mut css, &theme.light, "light");
    } else {
        emit_variant(&mut css, &theme.light, "light");
        css.append("@media (prefers-color-scheme: dark) {\n");
        css.append("  #shell {\n");
        emit_decls(&mut css, &theme.dark, "    ");
        css.append("    color-scheme: dark;\n");
        css.append("  }\n");
        css.append("}\n");
    }
    css
}

/// Wraps the output of [`generate_css`] in a `<style>` element for HTML
/// injection.
pub fn generate_style_element(theme_file_text: Option<&str>, theme_override: Option<&str>) -> (r:
    String)
    ensures
        ({
            let (light, dark) = match theme_file_text {
                Some(text) => match parse_theme_spec(text@) {
                    Ok(both) => both,
                    Err(_) => default_theme_tokens(),
                },
                None => default_theme_tokens(),
            };
            r@ == "<style id=\"gg-theme\">\n"@ + theme_css(
                light,
                dark,
                match theme_override {
                    Some(o) => Some(o@),
                    None => None,
                },
            ) + "</style>"@
        }),
{
    let mut r = String::from_str("<style id=\"gg-theme\">\n");
    let css = generate_css(theme_file_text, theme_override);
    r.append(css.as_str());
    r.append("</style>");
    r
}

// ---------------------------------------------------------------------------
// Laws
// ---------------------------------------------------------------------------

/// A value without `$` resolves to itself.
pub proof fn law_plain_value_unchanged(value: Seq<char>, tokens: Seq<(Seq<char>, Seq<char>)>)
    requires
        forall|i: int| 0 <= i < value.len() ==> value[i] != '$',
    ensures
        resolve_refs_spec(value, tokens) == value,
{
    lemma_first_index_where(value, is_char('$'), value.len() as int);
}

/// A `$section.key` reference that ends where a character that cannot
/// continue a name follows (or the value ends) is replaced by the value of
/// token `section-key`, or kept as written when there is no such token;
/// the text before it is copied and the text after it is resolved on its
/// own. So every reference of a value is resolved, not only the first.
pub proof fn law_reference_then_rest(
    prefix: Seq<char>,
    section: Seq<char>,
    key: Seq<char>,
    rest: Seq<char>,
    tokens: Seq<(Seq<char>, Seq<char>)>,
)
    requires
        !prefix.contains('$'),
        !section.contains('.'),
        forall|i: int| 0 <= i < section.len() ==> is_ref_char(#[trigger] section[i]),
        forall|i: int| 0 <= i < key.len() ==> is_ref_char(#[trigger] key[i]),
        rest.len() == 0 || !is_ref_char(rest[0]),
    ensures
        resolve_refs_spec(prefix + seq!['$'] + section + seq!['.'] + key + rest, tokens) == prefix
            + match entry_get(tokens, section + seq!['-'] + key) {
            Some(v) => v,
            None => seq!['$'] + section + seq!['.'] + key,
        } + resolve_refs_spec(rest, tokens),
{
    let name = section + seq!['.'] + key;
    let value = prefix + seq!['$'] + name + rest;
    assert(value =~= prefix + seq!['$'] + section + seq!['.'] + key + rest);
    let d = prefix.len() as int;
    assert forall|j: int| 0 <= j < d implies !is_char('$')(#[trigger] value[j]) by {
        assert(value[j] == prefix[j]);
        if value[j] == '$' {
            assert(prefix.contains('$'));
        }
    }
    assert(value[d] == '$');
    lemma_first_index_where(value, is_char('$'), d);
    let after = value.subrange(d + 1, value.len() as int);
    assert(after =~= name + rest);
    let nl = name.len() as int;
    assert forall|j: int| 0 <= j < nl implies !ends_ref()(#[trigger] after[j]) by {
        assert(after[j] == name[j]);
        if j < section.len() {
            assert(name[j] == section[j]);
        } else if j > section.len() {
            assert(name[j] == key[j - section.len() - 1]);
        }
    }
    if rest.len() > 0 {
        assert(after[nl] == rest[0]);
    }
    lemma_first_index_where(after, ends_ref(), nl);
    assert(ref_name_len(after) == nl);
    assert(after.subrange(0, nl) =~= name);
    assert(after.subrange(nl, after.len() as int) =~= rest);
    assert(value.subrange(0, d) =~= prefix);
    assert forall|j: int| 0 <= j < section.len() implies !is_char('.')(#[trigger] name[j]) by {
        assert(name[j] == section[j]);
        if section[j] == '.' {
            assert(section.contains('.'));
        }
    }
    assert(name[section.len() as int] == '.');
    lemma_first_index_where(name, is_char('.'), section.len() as int);
    assert(name.subrange(0, section.len() as int) =~= section);
    assert(name.subrange(section.len() as int + 1, name.len() as int) =~= key);
    assert(ref_key(name) == section + seq!['-'] + key);
    assert(seq!['$'] + section + seq!['.'] + key =~= seq!['$'] + name);
}

/// A value that is a single reference `$name` to a known token resolves to
/// that token's value; to an unknown token, it is kept as written.
pub proof fn law_single_reference(name: Seq<char>, tokens: Seq<(Seq<char>, Seq<char>)>)
    requires
        forall|i: int| 0 <= i < name.len() ==> is_ref_char(#[trigger] name[i]),
    ensures
        resolve_refs_spec(seq!['$'] + name, tokens) == match entry_get(tokens, ref_key(name)) {
            Some(v) => v,
            None => seq!['$'] + name,
        },
{
    let value = seq!['$'] + name;
    assert(value[0] == '$');
    assert(is_char('$')(value[0]));
    lemma_first_index_where(value, is_char('$'), 0);
    assert(first_index_of(value, '$') == 0);
    let rest = value.subrange(1, value.len() as int);
    assert(rest =~= name);
    assert(value.subrange(0int + 1, value.len() as int) == name);
    assert forall|j: int| 0 <= j < name.len() implies !(ends_ref()(#[trigger] name[j])) by {}
    lemma_first_index_where(name, ends_ref(), name.len() as int);
    assert(ref_name_len(name) == name.len());
    assert(name.subrange(0, name.len() as int) =~= name);
    let tail = name.subrange(name.len() as int, name.len() as int);
    assert(tail =~= Seq::<char>::empty());
    lemma_first_index_where(tail, is_char('$'), 0);
    assert(resolve_refs_spec(tail, tokens) == tail);
    assert(value.subrange(0, 0) =~= Seq::<char>::empty());
    match entry_get(tokens, ref_key(name)) {
        Some(v) => {
            assert(Seq::<char>::empty() + v + Seq::<char>::empty() =~= v);
        },
        None => {
            assert(Seq::<char>::empty() + (seq!['$'] + name) + Seq::<char>::empty() =~= seq!['$']
                + name);
        },
    }
}

/// Adding a section's entries keeps the keys distinct.
proof fn lemma_add_entries_distinct(
    tokens: Seq<(Seq<char>, Seq<char>)>,
    section: Seq<char>,
    entries: Seq<(Seq<char>, Option<Seq<char>>)>,
)
    requires
        distinct_keys(tokens),
    ensures
        distinct_keys(add_entries(tokens, section, entries)),
    decreases entries.len(),
{
    if entries.len() > 0 {
        match entries[0].1 {
            Some(v) => {
                law_map_insert_keeps_keys_distinct(
                    tokens,
                    token_key(section, entries[0].0),
                    resolve_refs_spec(v, tokens),
                );
                lemma_add_entries_distinct(
                    entry_insert(tokens, token_key(section, entries[0].0), resolve_refs_spec(v, tokens)),
                    section,
                    entries.drop_first(),
                );
            },
            None => {
                lemma_add_entries_distinct(tokens, section, entries.drop_first());
            },
        }
    }
}

/// Resolving sections keeps the keys distinct.
proof fn lemma_resolve_sections_distinct(
    text: Seq<char>,
    variant: Seq<char>,
    sections: Seq<Seq<char>>,
    tokens: Seq<(Seq<char>, Seq<char>)>,
)
    requires
        distinct_keys(tokens),
    ensures
        resolve_sections(text, variant, sections, tokens) matches Ok(t) ==> distinct_keys(t),
    decreases sections.len(),
{
    if sections.len() > 0 {
        match toml_section(text, variant, sections[0]) {
            TomlSectionView::Entries(es) => {
                lemma_add_entries_distinct(tokens, sections[0], es);
                lemma_resolve_sections_distinct(
                    text,
                    variant,
                    sections.drop_first(),
                    add_entries(tokens, sections[0], es),
                );
            },
            TomlSectionView::NoInner => {
                lemma_resolve_sections_distinct(text, variant, sections.drop_first(), tokens);
            },
            _ => {},
        }
    }
}

/// No token of a parsed theme occurs twice in either variant, whatever the
/// document holds: a key set again replaces its value in place.
pub proof fn law_theme_keys_distinct(text: Seq<char>)
    ensures
        parse_theme_spec(text) matches Ok(both) ==> distinct_keys(both.0) && distinct_keys(both.1),
{
    lemma_resolve_sections_distinct(text, "light"@, theme_sections(), seq![]);
    lemma_resolve_sections_distinct(text, "dark"@, theme_sections(), seq![]);
}

}
