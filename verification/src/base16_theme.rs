//! Base16 colour schemes and their mapping onto the palette of the user interface.

use vstd::prelude::*;

use crate::style::TermColor;
use crate::unicode::chars_of;

verus! {

/// Whether a scheme is dark or light.
#[derive(Debug, PartialEq, Eq, Copy, Clone, Structural)]
pub enum Base16ThemePolarity {
    Dark,
    Light,
}

impl Base16ThemePolarity {
    /// The default polarity: dark.
    pub fn default_polarity() -> (p: Base16ThemePolarity)
        ensures
            p == Base16ThemePolarity::Dark,
    {
        Base16ThemePolarity::Dark
    }
}

/// One of the sixteen base colours of a scheme.
#[derive(Debug, Clone, Copy, PartialEq, Eq, Structural)]
pub enum Base16Index {
    Base00,
    Base01,
    Base02,
    Base03,
    Base04,
    Base05,
    Base06,
    Base07,
    Base08,
    Base09,
    Base0A,
    Base0B,
    Base0C,
    Base0D,
    Base0E,
    Base0F,
}

/// The colours of a base16 scheme: sixteen base colours and eight optional extra ones.
#[derive(Debug, Clone, Copy, PartialEq, Eq, Structural)]
pub struct Base16Palette {
    pub base00: TermColor,
    pub base01: TermColor,
    pub base02: TermColor,
    pub base03: TermColor,
    pub base04: TermColor,
    pub base05: TermColor,
    pub base06: TermColor,
    pub base07: TermColor,
    pub base08: TermColor,
    pub base09: TermColor,
    pub base0a: TermColor,
    pub base0b: TermColor,
    pub base0c: TermColor,
    pub base0d: TermColor,
    pub base0e: TermColor,
    pub base0f: TermColor,
    pub base10: Option<TermColor>,
    pub base11: Option<TermColor>,
    pub base12: Option<TermColor>,
    pub base13: Option<TermColor>,
    pub base14: Option<TermColor>,
    pub base15: Option<TermColor>,
    pub base16: Option<TermColor>,
    pub base17: Option<TermColor>,
}

/// The base colour of `p` at `i`.
pub open spec fn palette_at(p: Base16Palette, i: Base16Index) -> TermColor {
    match i {
        Base16Index::Base00 => p.base00,
        Base16Index::Base01 => p.base01,
        Base16Index::Base02 => p.base02,
        Base16Index::Base03 => p.base03,
        Base16Index::Base04 => p.base04,
        Base16Index::Base05 => p.base05,
        Base16Index::Base06 => p.base06,
        Base16Index::Base07 => p.base07,
        Base16Index::Base08 => p.base08,
        Base16Index::Base09 => p.base09,
        Base16Index::Base0A => p.base0a,
        Base16Index::Base0B => p.base0b,
        Base16Index::Base0C => p.base0c,
        Base16Index::Base0D => p.base0d,
        Base16Index::Base0E => p.base0e,
        Base16Index::Base0F => p.base0f,
    }
}

/// The colours of the user interface.
#[derive(Debug, Clone, Copy, PartialEq, Eq, Structural)]
pub struct ColorPalette {
    pub background: TermColor,
    pub foreground: TermColor,
    pub muted: TermColor,
    pub highlight: TermColor,
    pub flagged: TermColor,
    pub accent_primary: TermColor,
    pub accent_secondary: TermColor,
    pub accent_tertiary: TermColor,
    pub accent_quaternary: TermColor,
    pub info: TermColor,
    pub warning: TermColor,
    pub error: TermColor,
}

/// Which base colour each colour of the user interface takes.
#[derive(Debug, Clone, Copy, PartialEq, Eq, Structural)]
pub struct Base16ToColorPaletteMapping {
    pub background: Base16Index,
    pub foreground: Base16Index,
    pub muted: Base16Index,
    pub highlight: Base16Index,
    pub flagged: Base16Index,
    pub accent_primary: Base16Index,
    pub accent_secondary: Base16Index,
    pub accent_tertiary: Base16Index,
    pub accent_quaternary: Base16Index,
    pub info: Base16Index,
    pub warning: Base16Index,
    pub error: Base16Index,
}

/// The mapping used for schemes of the given polarity.
pub open spec fn spec_default_mapping(polarity: Base16ThemePolarity) -> Base16ToColorPaletteMapping {
    match polarity {
        Base16ThemePolarity::Dark => Base16ToColorPaletteMapping {
            background: Base16Index::Base00,
            foreground: Base16Index::Base05,
            muted: Base16Index::Base02,
            highlight: Base16Index::Base0A,
            flagged: Base16Index::Base08,
            accent_primary: Base16Index::Base0B,
            accent_secondary: Base16Index::Base0C,
            accent_tertiary: Base16Index::Base0D,
            accent_quaternary: Base16Index::Base0E,
            info: Base16Index::Base0B,
            warning: Base16Index::Base0A,
            error: Base16Index::Base08,
        },
        Base16ThemePolarity::Light => Base16ToColorPaletteMapping {
            background: Base16Index::Base00,
            foreground: Base16Index::Base07,
            muted: Base16Index::Base03,
            highlight: Base16Index::Base02,
            flagged: Base16Index::Base08,
            accent_primary: Base16Index::Base0B,
            accent_secondary: Base16Index::Base0C,
            accent_tertiary: Base16Index::Base0D,
            accent_quaternary: Base16Index::Base0E,
            info: Base16Index::Base0B,
            warning: Base16Index::Base0A,
            error: Base16Index::Base08,
        },
    }
}

impl Base16ToColorPaletteMapping {
    /// The mapping used for schemes of the given polarity.
    pub fn default_for_polarity(polarity: Base16ThemePolarity) -> (m: Base16ToColorPaletteMapping)
        ensures
            m == spec_default_mapping(polarity),
    {
        match polarity {
            Base16ThemePolarity::Dark => Base16ToColorPaletteMapping {
                background: Base16Index::Base00,
                foreground: Base16Index::Base05,
                muted: Base16Index::Base02,
                highlight: Base16Index::Base0A,
                flagged: Base16Index::Base08,
                accent_primary: Base16Index::Base0B,
                accent_secondary: Base16Index::Base0C,
                accent_tertiary: Base16Index::Base0D,
                accent_quaternary: Base16Index::Base0E,
                info: Base16Index::Base0B,
                warning: Base16Index::Base0A,
                error: Base16Index::Base08,
            },
            Base16ThemePolarity::Light => Base16ToColorPaletteMapping {
                background: Base16Index::Base00,
                foreground: Base16Index::Base07,
                muted: Base16Index::Base03,
                highlight: Base16Index::Base02,
                flagged: Base16Index::Base08,
                accent_primary: Base16Index::Base0B,
                accent_secondary: Base16Index::Base0C,
                accent_tertiary: Base16Index::Base0D,
                accent_quaternary: Base16Index::Base0E,
                info: Base16Index::Base0B,
                warning: Base16Index::Base0A,
                error: Base16Index::Base08,
            },
        }
    }

    /// The default mapping: the one for dark schemes.
    pub fn default_mapping() -> (m: Base16ToColorPaletteMapping)
        ensures
            m == spec_default_mapping(Base16ThemePolarity::Dark),
    {
        Self::default_for_polarity(Base16ThemePolarity::Dark)
    }
}

impl Base16Palette {
    /// The base colour at `index`.
    pub fn index(&self, index: Base16Index) -> (c: TermColor)
        ensures
            c == palette_at(*self, index),
    {
        match index {
            Base16Index::Base00 => self.base00,
            Base16Index::Base01 => self.base01,
            Base16Index::Base02 => self.base02,
            Base16Index::Base03 => self.base03,
            Base16Index::Base04 => self.base04,
            Base16Index::Base05 => self.base05,
            Base16Index::Base06 => self.base06,
            Base16Index::Base07 => self.base07,
            Base16Index::Base08 => self.base08,
            Base16Index::Base09 => self.base09,
            Base16Index::Base0A => self.base0a,
            Base16Index::Base0B => self.base0b,
            Base16Index::Base0C => self.base0c,
            Base16Index::Base0D => self.base0d,
            Base16Index::Base0E => self.base0e,
            Base16Index::Base0F => self.base0f,
        }
    }

    /// The colours of the user interface, each the base colour the mapping names.
    pub fn as_color_palette(&self, mapping: &Base16ToColorPaletteMapping) -> (p: ColorPalette)
        ensures
            p == (ColorPalette {
                background: palette_at(*self, mapping.background),
                foreground: palette_at(*self, mapping.foreground),
                muted: palette_at(*self, mapping.muted),
                highlight: palette_at(*self, mapping.highlight),
                flagged: palette_at(*self, mapping.flagged),
                accent_primary: palette_at(*self, mapping.accent_primary),
                accent_secondary: palette_at(*self, mapping.accent_secondary),
                accent_tertiary: palette_at(*self, mapping.accent_tertiary),
                accent_quaternary: palette_at(*self, mapping.accent_quaternary),
                info: palette_at(*self, mapping.info),
                warning: palette_at(*self, mapping.warning),
                error: palette_at(*self, mapping.error),
            }),
    {
        ColorPalette {
            background: self.index(mapping.background),
            foreground: self.index(mapping.foreground),
            muted: self.index(mapping.muted),
            highlight: self.index(mapping.highlight),
            flagged: self.index(mapping.flagged),
            accent_primary: self.index(mapping.accent_primary),
            accent_secondary: self.index(mapping.accent_secondary),
            accent_tertiary: self.index(mapping.accent_tertiary),
            accent_quaternary: self.index(mapping.accent_quaternary),
            info: self.index(mapping.info),
            warning: self.index(mapping.warning),
            error: self.index(mapping.error),
        }
    }
}

/// A base16 scheme as read from its YAML description.
#[derive(Debug)]
pub struct Base16Theme {
    pub system: Option<String>,
    pub name: Option<String>,
    pub author: Option<String>,
    pub variant: Base16ThemePolarity,
    pub palette: Base16Palette,
}

/// Where a scheme comes from.
#[derive(Debug)]
pub enum Base16ThemeSource {
    /// A YAML file in the user's theme directory, at `path`.
    Custom { path: String },
    /// A scheme bundled with the program, under the file name `file`.
    Library { file: String },
    /// A scheme written out in the configuration.
    Configured { theme: Base16Theme },
}

/// A scheme the user can choose, under its name.
#[derive(Debug)]
pub struct Base16ThemeEntry {
    pub name: String,
    pub source: Base16ThemeSource,
}

/// The relative order of two entries.
#[derive(Debug, Clone, Copy, PartialEq, Eq, Structural)]
pub enum EntryOrder {
    Less,
    Equal,
    Greater,
}

/// `a` before `b` in lexicographic order of characters: the first difference decides, and a
/// proper prefix comes first.
pub open spec fn lex_less(a: Seq<char>, b: Seq<char>) -> bool
    decreases a.len(),
{
    if a.len() == 0 {
        b.len() > 0
    } else if b.len() == 0 {
        false
    } else if a[0] != b[0] {
        a[0] < b[0]
    } else {
        lex_less(a.drop_first(), b.drop_first())
    }
}

/// How two entries are ordered in the list of schemes: an entry from the configuration or the
/// user's directory comes before any other; a bundled scheme is ordered by name.
pub open spec fn entry_order(a: &Base16ThemeEntry, b: &Base16ThemeEntry) -> EntryOrder {
    match a.source {
        Base16ThemeSource::Configured { .. } => EntryOrder::Less,
        Base16ThemeSource::Custom { .. } => EntryOrder::Less,
        Base16ThemeSource::Library { .. } => if a.name@ == b.name@ {
            EntryOrder::Equal
        } else if lex_less(a.name@, b.name@) {
            EntryOrder::Less
        } else {
            EntryOrder::Greater
        },
    }
}

/// Compares two character sequences lexicographically.
fn compare_chars(a: &Vec<char>, b: &Vec<char>) -> (o: EntryOrder)
    ensures
        o == (if a@ == b@ {
            EntryOrder::Equal
        } else if lex_less(a@, b@) {
            EntryOrder::Less
        } else {
            EntryOrder::Greater
        }),
{
    let mut i: usize = 0;
    assert(a@.skip(0) == a@);
    assert(b@.skip(0) == b@);
    while i < a.len() && i < b.len() && a[i] == b[i]
        invariant
            i <= a@.len(),
            i <= b@.len(),
            a@.take(i as int) == b@.take(i as int),
            lex_less(a@, b@) == lex_less(a@.skip(i as int), b@.skip(i as int)),
        decreases a.len() - i,
    {
        proof {
            assert(a@.skip(i as int).drop_first() == a@.skip(i + 1));
            assert(b@.skip(i as int).drop_first() == b@.skip(i + 1));
            assert(a@.take(i + 1) == a@.take(i as int).push(a@[i as int]));
            assert(b@.take(i + 1) == b@.take(i as int).push(b@[i as int]));
        }
        i += 1;
    }
    proof {
        if i == a@.len() && i == b@.len() {
            assert(a@ == a@.take(i as int));
            assert(b@ == b@.take(i as int));
        }
        if a@ == b@ {
            assert(i == a@.len() && i == b@.len()) by {
                if i < a@.len() && i < b@.len() {
                    assert(a@[i as int] == b@[i as int]);
                }
            }
        }
        if i < a@.len() && i < b@.len() {
            assert(a@.skip(i as int)[0] == a@[i as int]);
            assert(b@.skip(i as int)[0] == b@[i as int]);
        }
    }
    if i == a.len() && i == b.len() {
        EntryOrder::Equal
    } else if i == a.len() {
        EntryOrder::Less
    } else if i == b.len() {
        EntryOrder::Greater
    } else if a[i] < b[i] {
        EntryOrder::Less
    } else {
        EntryOrder::Greater
    }
}

impl Base16ThemeEntry {
    /// The name under which the scheme is offered.
    pub fn name(&self) -> (n: &str)
        ensures
            n@ == self.name@,
    {
        self.name.as_str()
    }

    /// How this entry is ordered against `other` in the list of schemes.
    pub fn order(&self, other: &Base16ThemeEntry) -> (o: EntryOrder)
        ensures
            o == entry_order(self, other),
    {
        match self.source {
            Base16ThemeSource::Configured { .. } => EntryOrder::Less,
            Base16ThemeSource::Custom { .. } => EntryOrder::Less,
            Base16ThemeSource::Library { .. } => {
                let a = chars_of(self.name.as_str());
                let b = chars_of(other.name.as_str());
                compare_chars(&a, &b)
            },
        }
    }
}

/// The name of the scheme in a file called `file_name`, when it is a YAML file: its stem, the
/// name without the final `.yaml` (a file named just `.yaml` keeps its whole name).
pub open spec fn spec_yaml_theme_name(file_name: Seq<char>) -> Option<Seq<char>> {
    let n = file_name.len();
    if n >= 5 && file_name.subrange(n - 5, n as int) == ".yaml"@ {
        if n == 5 { Some(file_name) } else { Some(file_name.subrange(0, n - 5)) }
    } else {
        None
    }
}

/// The name of the scheme in a file called `file_name`, when it is a YAML file.
pub fn yaml_theme_name(file_name: &str) -> (r: Option<String>)
    ensures
        match r {
            Some(t) => spec_yaml_theme_name(file_name@) == Some(t@),
            None => spec_yaml_theme_name(file_name@) is None,
        },
{
    proof {
        reveal_strlit(".yaml");
    }
    let chars = chars_of(file_name);
    let n = chars.len();
    if n < 5 {
        return None;
    }
    let ext = ['.', 'y', 'a', 'm', 'l'];
    let mut k: usize = 0;
    while k < 5
        invariant
            n == chars@.len(),
            n >= 5,
            chars@ == file_name@,
            k <= 5,
            ext@ == ".yaml"@,
            forall|j: int| 0 <= j < k ==> chars@[n - 5 + j] == ext@[j],
        decreases 5 - k,
    {
        if chars[n - 5 + k] != ext[k] {
            assert(chars@.subrange(n - 5, n as int)[k as int] != ".yaml"@[k as int]);
            return None;
        }
        k = k + 1;
    }
    assert(chars@.subrange(n - 5, n as int) =~= ".yaml"@);
    if n == 5 {
        return Some(file_name.to_owned());
    }
    let mut stem = String::new();
    let mut i: usize = 0;
    while i < n - 5
        invariant
            n == chars@.len(),
            n > 5,
            i <= n - 5,
            stem@ == chars@.subrange(0, i as int),
        decreases n - 5 - i,
    {
        crate::unicode::push_char(&mut stem, chars[i]);
        assert(chars@.subrange(0, i + 1) =~= chars@.subrange(0, i as int).push(chars@[i as int]));
        i = i + 1;
    }
    Some(stem)
}

impl Base16ThemeEntry {
    /// An entry for the YAML file at `path` in the user's theme directory.
    pub fn custom(name: &str, path: String) -> (e: Base16ThemeEntry)
        ensures
            e.name@ == name@,
            e.source matches Base16ThemeSource::Custom { path: p } && p == path,
    {
        Base16ThemeEntry { name: name.to_owned(), source: Base16ThemeSource::Custom { path } }
    }

    /// An entry for the bundled scheme in the file `file`.
    pub fn library(name: &str, file: String) -> (e: Base16ThemeEntry)
        ensures
            e.name@ == name@,
            e.source matches Base16ThemeSource::Library { file: f } && f == file,
    {
        Base16ThemeEntry { name: name.to_owned(), source: Base16ThemeSource::Library { file } }
    }

    /// An entry for a scheme written out in the configuration.
    pub fn configured(name: &str, theme: Base16Theme) -> (e: Base16ThemeEntry)
        ensures
            e.name@ == name@,
            e.source == (Base16ThemeSource::Configured { theme }),
    {
        Base16ThemeEntry { name: name.to_owned(), source: Base16ThemeSource::Configured { theme } }
    }
}

/// The YAML files among `files`, each as the name of its scheme and the file itself, in order.
pub open spec fn yaml_entries(files: Seq<(Seq<char>, Seq<char>)>) -> Seq<(Seq<char>, Seq<char>)>
    decreases files.len(),
{
    if files.len() == 0 {
        Seq::empty()
    } else {
        let rest = yaml_entries(files.drop_last());
        match spec_yaml_theme_name(files.last().0) {
            Some(n) => rest.push((n, files.last().1)),
            None => rest,
        }
    }
}

/// The file names and paths of the user's theme directory, as character sequences.
pub open spec fn custom_files(custom: Seq<(String, String)>) -> Seq<(Seq<char>, Seq<char>)> {
    Seq::new(custom.len(), |i: int| (custom[i].0@, custom[i].1@))
}

/// The bundled file names, each paired with itself.
pub open spec fn bundled_files(bundled: Seq<String>) -> Seq<(Seq<char>, Seq<char>)> {
    Seq::new(bundled.len(), |i: int| (bundled[i]@, bundled[i]@))
}

proof fn lemma_yaml_entries_step(files: Seq<(Seq<char>, Seq<char>)>, i: int)
    requires
        0 <= i < files.len(),
    ensures
        yaml_entries(files.take(i + 1)) == match spec_yaml_theme_name(files[i].0) {
            Some(n) => yaml_entries(files.take(i)).push((n, files[i].1)),
            None => yaml_entries(files.take(i)),
        },
{
    assert(files.take(i + 1).drop_last() =~= files.take(i));
}

/// The schemes the user can choose from: first those of the configuration, in the order given,
/// then the YAML files of the user's directory (`custom` holds each file's name and path), then
/// the bundled YAML files (`bundled` holds their names); a file is offered under its stem, and
/// files that are not YAML files are left out.
pub fn theme_entries(
    configured: Vec<(String, Base16Theme)>,
    custom: &Vec<(String, String)>,
    bundled: &Vec<String>,
) -> (r: Vec<Base16ThemeEntry>)
    ensures
        r@.len() == configured@.len() + yaml_entries(custom_files(custom@)).len() + yaml_entries(
            bundled_files(bundled@),
        ).len(),
        forall|i: int|
            0 <= i < configured@.len() ==> #[trigger] r@[i].name@ == configured@[i].0@ && r@[i].source
                == (Base16ThemeSource::Configured { theme: configured@[i].1 }),
        forall|j: int|
            0 <= j < yaml_entries(custom_files(custom@)).len() ==> {
                let e = #[trigger] r@[configured@.len() + j];
                &&& e.name@ == yaml_entries(custom_files(custom@))[j].0
                &&& e.source matches Base16ThemeSource::Custom { path } && path@ == yaml_entries(
                    custom_files(custom@),
                )[j].1
            },
        forall|j: int|
            0 <= j < yaml_entries(bundled_files(bundled@)).len() ==> {
                let e = #[trigger] r@[configured@.len() + yaml_entries(custom_files(custom@)).len()
                    + j];
                &&& e.name@ == yaml_entries(bundled_files(bundled@))[j].0
                &&& e.source matches Base16ThemeSource::Library { file } && file@ == yaml_entries(
                    bundled_files(bundled@),
                )[j].1
            },
{
    let ghost conf = configured@;
    let ghost cs = custom_files(custom@);
    let ghost bs = bundled_files(bundled@);
    let mut rest = configured;
    let mut r: Vec<Base16ThemeEntry> = Vec::new();
    while rest.len() > 0
        invariant
            r@.len() + rest@.len() == conf.len(),
            rest@ == conf.subrange(r@.len() as int, conf.len() as int),
            forall|i: int|
                0 <= i < r@.len() ==> #[trigger] r@[i].name@ == conf[i].0@ && r@[i].source
                    == (Base16ThemeSource::Configured { theme: conf[i].1 }),
        decreases rest.len(),
    {
        let (name, theme) = rest.remove(0);
        r.push(Base16ThemeEntry { name, source: Base16ThemeSource::Configured { theme } });
        assert(rest@ =~= conf.subrange(r@.len() as int, conf.len() as int));
    }
    let c = r.len();
    let mut i: usize = 0;
    assert(cs.take(0) =~= Seq::<(Seq<char>, Seq<char>)>::empty());
    while i < custom.len()
        invariant
            c == conf.len(),
            cs == custom_files(custom@),
            i <= custom@.len(),
            r@.len() == c + yaml_entries(cs.take(i as int)).len(),
            forall|k: int|
                0 <= k < c ==> #[trigger] r@[k].name@ == conf[k].0@ && r@[k].source
                    == (Base16ThemeSource::Configured { theme: conf[k].1 }),
            forall|j: int|
                0 <= j < yaml_entries(cs.take(i as int)).len() ==> {
                    let e = #[trigger] r@[c + j];
                    &&& e.name@ == yaml_entries(cs.take(i as int))[j].0
                    &&& e.source matches Base16ThemeSource::Custom { path } && path@ == yaml_entries(
                        cs.take(i as int),
                    )[j].1
                },
        decreases custom.len() - i,
    {
        proof {
            lemma_yaml_entries_step(cs, i as int);
        }
        let file = &custom[i];
        match yaml_theme_name(file.0.as_str()) {
            Some(name) => {
                let path = file.1.clone();
                r.push(Base16ThemeEntry { name, source: Base16ThemeSource::Custom { path } });
            },
            None => {},
        }
        i = i + 1;
    }
    assert(cs.take(custom@.len() as int) =~= cs);
    let d = r.len();
    let mut i: usize = 0;
    assert(bs.take(0) =~= Seq::<(Seq<char>, Seq<char>)>::empty());
    while i < bundled.len()
        invariant
            c == conf.len(),
            d == c + yaml_entries(cs).len(),
            cs == custom_files(custom@),
            bs == bundled_files(bundled@),
            i <= bundled@.len(),
            r@.len() == d + yaml_entries(bs.take(i as int)).len(),
            forall|k: int|
                0 <= k < c ==> #[trigger] r@[k].name@ == conf[k].0@ && r@[k].source
                    == (Base16ThemeSource::Configured { theme: conf[k].1 }),
            forall|j: int|
                0 <= j < yaml_entries(cs).len() ==> {
                    let e = #[trigger] r@[c + j];
                    &&& e.name@ == yaml_entries(cs)[j].0
                    &&& e.source matches Base16ThemeSource::Custom { path } && path@
                        == yaml_entries(cs)[j].1
                },
            forall|j: int|
                0 <= j < yaml_entries(bs.take(i as int)).len() ==> {
                    let e = #[trigger] r@[d + j];
                    &&& e.name@ == yaml_entries(bs.take(i as int))[j].0
                    &&& e.source matches Base16ThemeSource::Library { file } && file@
                        == yaml_entries(bs.take(i as int))[j].1
                },
        decreases bundled.len() - i,
    {
        proof {
            lemma_yaml_entries_step(bs, i as int);
        }
        let file = &bundled[i];
        match yaml_theme_name(file.as_str()) {
            Some(name) => {
                let file = file.clone();
                r.push(Base16ThemeEntry { name, source: Base16ThemeSource::Library { file } });
            },
            None => {},
        }
        i = i + 1;
    }
    assert(bs.take(bundled@.len() as int) =~= bs);
    r
}

} // verus!
