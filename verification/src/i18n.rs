use vstd::prelude::*;
use vstd::string::*;

use icu_locale_core::LanguageIdentifier;

use crate::plugin::{Plugin, PluginRegistry};
use crate::str_map::StrMap;

verus! {

/// A translated text: one form, or forms by plural category.
pub enum Translation {
    Single(String),
    Plural { one: String, few: String, many: String },
}

/// What a translation is, as text.
pub enum TranslationView {
    Single(Seq<char>),
    Plural { one: Seq<char>, few: Seq<char>, many: Seq<char> },
}

impl View for Translation {
    type V = TranslationView;

    open spec fn view(&self) -> TranslationView {
        match self {
            Translation::Single(s) => TranslationView::Single(s@),
            Translation::Plural { one, few, many } => TranslationView::Plural {
                one: one@,
                few: few@,
                many: many@,
            },
        }
    }
}

/// The text shown for a translation when no count is involved: the single
/// form, or the singular form of a plural one.
pub open spec fn shown_text(t: TranslationView) -> Seq<char> {
    match t {
        TranslationView::Single(s) => s,
        TranslationView::Plural { one, .. } => one,
    }
}

impl Translation {
    /// A copy of this translation.
    pub fn duplicate(&self) -> (r: Self)
        ensures
            r@ == self@,
    {
        match self {
            Translation::Single(s) => Translation::Single(s.clone()),
            Translation::Plural { one, few, many } => Translation::Plural {
                one: one.clone(),
                few: few.clone(),
                many: many.clone(),
            },
        }
    }

    fn shown(&self) -> (r: String)
        ensures
            r@ == shown_text(self@),
    {
        match self {
            Translation::Single(s) => s.clone(),
            Translation::Plural { one, .. } => one.clone(),
        }
    }
}

/// Translations by language tag, then by key.
pub type Catalog = StrMap<StrMap<Translation>>;

/// The translation stored for `key` in language `lang` of catalog `c`, if any.
pub open spec fn lookup(
    c: Map<Seq<char>, Map<Seq<char>, TranslationView>>,
    lang: Seq<char>,
    key: Seq<char>,
) -> Option<TranslationView> {
    if c.contains_key(lang) && c[lang].contains_key(key) {
        Some(c[lang][key])
    } else {
        None
    }
}

/// Catalog `acc` with catalog `c` merged in: for each language of `c`, its
/// keys are added to that language's table, replacing translations of the
/// same key.
pub open spec fn merge_catalog(
    acc: Map<Seq<char>, Map<Seq<char>, TranslationView>>,
    c: Map<Seq<char>, Map<Seq<char>, TranslationView>>,
) -> Map<Seq<char>, Map<Seq<char>, TranslationView>> {
    Map::new(
        |lang: Seq<char>| acc.contains_key(lang) || c.contains_key(lang),
        |lang: Seq<char>|
            if c.contains_key(lang) {
                if acc.contains_key(lang) {
                    acc[lang].union_prefer_right(c[lang])
                } else {
                    c[lang]
                }
            } else {
                acc[lang]
            },
    )
}

/// The translations of the enabled plugins among the first `i`, merged in order.
pub open spec fn merged_translations(ps: Seq<Plugin>, i: int) -> Map<
    Seq<char>,
    Map<Seq<char>, TranslationView>,
>
    decreases i,
{
    if i <= 0 {
        Map::empty()
    } else {
        let m = merged_translations(ps, i - 1);
        match ps[i - 1].i18n {
            Some(c) => if ps[i - 1].is_enabled {
                merge_catalog(m, c@)
            } else {
                m
            },
            None => m,
        }
    }
}

/// The texts of the first `i` strings of `keys`.
pub open spec fn prefix_keys(keys: Seq<String>, i: int) -> Set<Seq<char>> {
    Set::new(|k: Seq<char>| exists|j: int| 0 <= j < i && (#[trigger] keys[j])@ == k)
}

proof fn lemma_prefix_keys_step(keys: Seq<String>, i: int)
    requires
        0 <= i < keys.len(),
    ensures
        forall|k: Seq<char>| #[trigger]
            prefix_keys(keys, i + 1).contains(k) <==> (prefix_keys(keys, i).contains(k) || k
                == keys[i]@),
{
    assert forall|k: Seq<char>| #[trigger]
        prefix_keys(keys, i + 1).contains(k) <==> (prefix_keys(keys, i).contains(k) || k == keys[i]@) by {
        if prefix_keys(keys, i + 1).contains(k) {
            let j = choose|j: int| 0 <= j < i + 1 && (#[trigger] keys[j])@ == k;
            if j < i {
                assert(0 <= j < i && keys[j]@ == k);
            }
        }
        if prefix_keys(keys, i).contains(k) {
            let j = choose|j: int| 0 <= j < i && (#[trigger] keys[j])@ == k;
            assert(0 <= j < i + 1 && keys[j]@ == k);
        }
        if k == keys[i]@ {
            assert(0 <= i < i + 1 && keys[i]@ == k);
        }
    }
}

proof fn lemma_prefix_keys_all(keys: Seq<String>)
    ensures
        forall|k: Seq<char>| #[trigger]
            prefix_keys(keys, keys.len() as int).contains(k) <==> exists|j: int|
                0 <= j < keys.len() && keys[j]@ == k,
{
    assert forall|k: Seq<char>| #[trigger]
        prefix_keys(keys, keys.len() as int).contains(k) <==> exists|j: int|
            0 <= j < keys.len() && keys[j]@ == k by {
        if exists|j: int| 0 <= j < keys.len() && keys[j]@ == k {
            let j = choose|j: int| 0 <= j < keys.len() && keys[j]@ == k;
            assert((#[trigger] keys[j])@ == k);
        }
    }
}

/// Adds the translations of `inner` to `table`, replacing those of the same key.
fn merge_table(table: &mut StrMap<Translation>, inner: &StrMap<Translation>)
    ensures
        final(table)@ == old(table)@.union_prefer_right(inner@),
{
    let keys = inner.keys();
    let ghost t0 = table@;
    let mut i: usize = 0;
    while i < keys.len()
        invariant
            i <= keys@.len(),
            keys@.len() == inner@.dom().len(),
            forall|j: int| 0 <= j < keys@.len() ==> inner@.contains_key(#[trigger] keys@[j]@),
            forall|k: Seq<char>| #[trigger]
                inner@.contains_key(k) ==> exists|j: int| 0 <= j < keys@.len() && keys@[j]@ == k,
            table@ == t0.union_prefer_right(
                inner@.restrict(prefix_keys(keys@, i as int)),
            ),
        decreases keys@.len() - i,
    {
        let k = &keys[i];
        let t = match inner.get(k.as_str()) {
            Some(t) => t.duplicate(),
            None => {
                assert(false);
                return;
            },
        };
        table.insert(k.clone(), t);
        i = i + 1;
        proof {
            lemma_prefix_keys_step(keys@, i - 1);
        }
        assert(table@ =~= t0.union_prefer_right(inner@.restrict(prefix_keys(keys@, i as int))));
    }
    proof {
        lemma_prefix_keys_all(keys@);
    }
    assert(inner@.restrict(prefix_keys(keys@, i as int)) =~= inner@);
}

/// Merges catalog `c` into `acc`.
fn merge_into(acc: &mut Catalog, c: &Catalog)
    ensures
        final(acc)@ == merge_catalog(old(acc)@, c@),
{
    let langs = c.keys();
    let ghost a0 = acc@;
    let mut i: usize = 0;
    while i < langs.len()
        invariant
            i <= langs@.len(),
            langs@.len() == c@.dom().len(),
            forall|j: int| 0 <= j < langs@.len() ==> c@.contains_key(#[trigger] langs@[j]@),
            forall|k: Seq<char>| #[trigger]
                c@.contains_key(k) ==> exists|j: int| 0 <= j < langs@.len() && langs@[j]@ == k,
            forall|a: int, b: int|
                0 <= a < langs@.len() && 0 <= b < langs@.len() && a != b ==> (#[trigger] langs@[a])@
                    != (#[trigger] langs@[b])@,
            acc@ == merge_catalog(
                a0,
                c@.restrict(prefix_keys(langs@, i as int)),
            ),
        decreases langs@.len() - i,
    {
        let lang = &langs[i];
        let inner = match c.get(lang.as_str()) {
            Some(t) => t,
            None => {
                assert(false);
                return;
            },
        };
        let ghost before = acc@;
        let mut table = match acc.take(lang.as_str()) {
            Some(t) => t,
            None => StrMap::new(),
        };
        merge_table(&mut table, inner);
        acc.insert(lang.clone(), table);
        i = i + 1;
        proof {
            let s_old = prefix_keys(langs@, i - 1);
            let s_new = prefix_keys(langs@, i as int);
            let l = langs@[i - 1]@;
            lemma_prefix_keys_step(langs@, i - 1);
            assert(!s_old.contains(l)) by {
                if s_old.contains(l) {
                    let j = choose|j: int| 0 <= j < i - 1 && langs@[j]@ == l;
                    assert(langs@[j]@ != langs@[i - 1]@);
                }
            }
            let target = merge_catalog(a0, c@.restrict(s_new));
            assert(c@.restrict(s_new).contains_key(l));
            if a0.contains_key(l) {
                assert(before[l] == a0[l]);
                assert(acc@[l] =~= target[l]);
            } else {
                assert(!before.contains_key(l));
                assert(acc@[l] =~= target[l]);
            }
            assert(acc@ =~= target);
        }
    }
    proof {
        lemma_prefix_keys_all(langs@);
    }
    assert(c@.restrict(prefix_keys(langs@, i as int)) =~= c@);
}

/// Translations of the editor's texts, and the language they are shown in
/// (a canonical language tag).
pub struct I18n {
    pub translations: Catalog,
    pub language: String,
}

impl I18n {
    /// No translations yet, shown in `language`.
    pub fn new(language: String) -> (r: Self)
        ensures
            r.translations@ == Map::<Seq<char>, Map<Seq<char>, TranslationView>>::empty(),
            r.language@ == language@,
    {
        I18n { translations: StrMap::new(), language }
    }

    fn find(&self, lang: &str, key: &str) -> (r: Option<&Translation>)
        ensures
            r is Some <==> lookup(self.translations@, lang@, key@) is Some,
            r matches Some(t) ==> lookup(self.translations@, lang@, key@) == Some(t@),
    {
        match self.translations.get(lang) {
            Some(table) => table.get(key),
            None => None,
        }
    }

    /// Replaces the translations by those of the enabled plugins, merged in
    /// plugin order (a later plugin's translation of a key wins).
    pub fn collect_translations(&mut self, plugins: &PluginRegistry)
        ensures
            final(self).translations@ == merged_translations(
                plugins.plugins@,
                plugins.plugins@.len() as int,
            ),
            final(self).language@ == old(self).language@,
    {
        let mut acc: Catalog = StrMap::new();
        let mut i: usize = 0;
        while i < plugins.plugins.len()
            invariant
                i <= plugins.plugins@.len(),
                acc@ == merged_translations(plugins.plugins@, i as int),
            decreases plugins.plugins@.len() - i,
        {
            let p = &plugins.plugins[i];
            if p.is_enabled {
                match &p.i18n {
                    Some(c) => merge_into(&mut acc, c),
                    None => {},
                }
            }
            i = i + 1;
        }
        self.translations = acc;
    }

    /// The text for `key` in the current language, or `key` itself when it
    /// has no translation there.
    pub fn get(&self, key: &str) -> (r: String)
        ensures
            r@ == match lookup(self.translations@, self.language@, key@) {
                Some(t) => shown_text(t),
                None => key@,
            },
    {
        match self.find(self.language.as_str(), key) {
            Some(t) => t.shown(),
            None => String::from_str(key),
        }
    }

    /// The languages that have translations, each once.
    pub fn languages(&self) -> (r: Vec<String>)
        ensures
            r@.len() == self.translations@.dom().len(),
            forall|i: int| 0 <= i < r@.len() ==> self.translations@.contains_key(#[trigger] r@[i]@),
            forall|k: Seq<char>| #[trigger]
                self.translations@.contains_key(k) ==> exists|i: int|
                    0 <= i < r@.len() && r@[i]@ == k,
    {
        self.translations.keys()
    }

    /// The text for `key` in language `lang`, if it has a translation there.
    pub fn get_for_language(&self, lang: &str, key: &str) -> (r: Option<String>)
        ensures
            r is Some <==> lookup(self.translations@, lang@, key@) is Some,
            r matches Some(s) ==> lookup(self.translations@, lang@, key@) matches Some(t)
                && s@ == shown_text(t),
    {
        match self.find(lang, key) {
            Some(t) => Some(t.shown()),
            None => None,
        }
    }

    /// The text for `key` with a count: a single-form translation is used as
    /// is; a plural one, or a missing one, gives `key` itself.
    pub fn get_plural(&self, key: &str, n: u64) -> (r: String)
        ensures
            r@ == match lookup(self.translations@, self.language@, key@) {
                Some(TranslationView::Single(s)) => s,
                _ => key@,
            },
    {
        match self.find(self.language.as_str(), key) {
            Some(Translation::Single(s)) => s.clone(),
            _ => String::from_str(key),
        }
    }

    /// Switches to the language that a language-change request named, given
    /// the canonical tag its code parsed to (`None` when it did not parse).
    pub fn apply_language_change(&mut self, parsed: Option<String>)
        ensures
            final(self).translations@ == old(self).translations@,
            final(self).language@ == match parsed {
                Some(tag) => tag@,
                None => old(self).language@,
            },
    {
        match parsed {
            Some(tag) => {
                self.language = tag;
            },
            None => {},
        }
    }

    /// Handles a request to change the language to `code`: the language
    /// changes to the code's canonical tag when the code is a valid language
    /// identifier, and stays otherwise.
    pub fn change_language(&mut self, code: &str)
        ensures
            final(self).translations@ == old(self).translations@,
            final(self).language@ == match language_tag_of(code@) {
                Some(tag) => tag,
                None => old(self).language@,
            },
    {
        let parsed = canonical_language_tag(code);
        self.apply_language_change(parsed);
    }
}

/// The canonical tag of the language identifier that `code` spells, or
/// `None` when `code` is not a valid language identifier (as
/// `icu_locale_core` parses and prints it).
pub uninterp spec fn language_tag_of(code: Seq<char>) -> Option<Seq<char>>;

/// Parses `code` with `icu_locale_core`'s `LanguageIdentifier::from_str` and
/// prints the identifier back with its `Display` impl. The contract claims
/// only that the result depends on `code` alone.
#[verifier::external_body]
fn canonical_language_tag(code: &str) -> (r: Option<String>)
    ensures
        match r {
            Some(s) => language_tag_of(code@) == Some(s@),
            None => language_tag_of(code@) is None,
        },
{
    match LanguageIdentifier::try_from_str(code) {
        Ok(id) => Some(id.to_string()),
        Err(_) => None,
    }
}

} // verus!
