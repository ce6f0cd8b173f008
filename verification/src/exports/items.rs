use vstd::prelude::*;
use vstd::string::StringExecFns;
use crate::bytes::copy_range;
use crate::formats::item_export::{ItemData, ItemEntry, ItemSlipData, ItemMonipulatorData, ItemTextData};
use crate::text::{decimal_chars, push_decimal, str_equal};

verus! {

/// An item's text as (name, article, singular, plural, description).
pub type TextView = (Seq<u8>, Option<u32>, Option<Seq<u8>>, Option<Seq<u8>>, Option<Seq<u8>>);

pub open spec fn opt_bytes(o: Option<Vec<u8>>) -> Option<Seq<u8>> {
    match o {
        Some(v) => Some(v@),
        None => None,
    }
}

pub open spec fn text_view(t: ItemTextData) -> TextView {
    (t.name@, t.article_type_code, opt_bytes(t.singular_name), opt_bytes(t.plural_name), opt_bytes(t.description))
}

pub open spec fn opt_text_view(t: Option<ItemTextData>) -> Option<TextView> {
    match t {
        Some(t) => Some(text_view(t)),
        None => None,
    }
}

/// English text has an article, both name forms and a description.
pub open spec fn is_english_text(t: TextView) -> bool {
    t.1 is Some && t.2 is Some && t.3 is Some && t.4 is Some
}

/// Japanese text has a description and nothing English.
pub open spec fn is_japanese_text(t: TextView) -> bool {
    t.1 is None && t.2 is None && t.3 is None && t.4 is Some
}

/// Why item tables of two languages cannot be exported together.
#[derive(Clone, Copy, Debug, PartialEq, Eq, Structural)]
pub enum ItemExportError {
    NonEnglishText,
    NonJapaneseText,
    UnsupportedLanguage,
    CountMismatch { primary: usize, japanese: usize },
    PayloadMismatch { index: usize, primary_id: u32, japanese_id: u32 },
}

/// Text of an item in each language.
#[derive(Debug)]
pub struct LocalizedItemText {
    pub english: Option<ItemTextData>,
    pub japanese: Option<ItemTextData>,
}

/// Whether setting `text` as the text of `language` is allowed: the text must
/// have the shape of its language, and the language must be one of the two.
pub open spec fn set_outcome(language: Seq<char>, text: Option<TextView>) -> Result<(), ItemExportError> {
    if language == "english"@ && (text matches Some(t) && !is_english_text(t)) {
        Err(ItemExportError::NonEnglishText)
    } else if language == "japanese"@ && (text matches Some(t) && !is_japanese_text(t)) {
        Err(ItemExportError::NonJapaneseText)
    } else if language == "english"@ || language == "japanese"@ {
        Ok(())
    } else {
        Err(ItemExportError::UnsupportedLanguage)
    }
}

fn text_is_english(t: &ItemTextData) -> (r: bool)
    ensures
        r == is_english_text(text_view(*t)),
{
    t.article_type_code.is_some() && t.singular_name.is_some() && t.plural_name.is_some()
        && t.description.is_some()
}

fn text_is_japanese(t: &ItemTextData) -> (r: bool)
    ensures
        r == is_japanese_text(text_view(*t)),
{
    t.article_type_code.is_none() && t.singular_name.is_none() && t.plural_name.is_none()
        && t.description.is_some()
}

impl LocalizedItemText {
    /// Whether no language has text.
    pub fn is_empty(&self) -> (r: bool)
        ensures
            r == (self.english is None && self.japanese is None),
    {
        self.english.is_none() && self.japanese.is_none()
    }

    /// Sets the text of `language`, checking that it has that language's
    /// shape; on an error nothing changes.
    pub fn set(&mut self, language: &str, text: Option<ItemTextData>) -> (r: Result<(), ItemExportError>)
        ensures
            r == set_outcome(language@, opt_text_view(text)),
            r is Ok && language@ == "english"@ ==> opt_text_view(final(self).english) == opt_text_view(text)
                && opt_text_view(final(self).japanese) == opt_text_view(old(self).japanese),
            r is Ok && language@ == "japanese"@ ==> opt_text_view(final(self).japanese) == opt_text_view(text)
                && opt_text_view(final(self).english) == opt_text_view(old(self).english),
            r is Err ==> opt_text_view(final(self).english) == opt_text_view(old(self).english)
                && opt_text_view(final(self).japanese) == opt_text_view(old(self).japanese),
    {
        proof {
            reveal_strlit("english");
            reveal_strlit("japanese");
            assert("english"@.len() != "japanese"@.len());
        }
        let is_english = str_equal(language, "english");
        let is_japanese = str_equal(language, "japanese");
        match &text {
            Some(t) => {
                if is_english && !text_is_english(t) {
                    return Err(ItemExportError::NonEnglishText);
                }
                if is_japanese && !text_is_japanese(t) {
                    return Err(ItemExportError::NonJapaneseText);
                }
            },
            None => {},
        }
        if is_english {
            self.english = text;
            Ok(())
        } else if is_japanese {
            self.japanese = text;
            Ok(())
        } else {
            Err(ItemExportError::UnsupportedLanguage)
        }
    }
}

/// An exported item with its position, its data and its text by language.
#[derive(Debug)]
pub struct LocalizedItemEntry {
    pub index: usize,
    pub data: ItemData,
    pub text: LocalizedItemText,
}

pub type LocalizedView = (usize, ItemData, Option<TextView>, Option<TextView>);

pub open spec fn localized_view(e: LocalizedItemEntry) -> LocalizedView {
    (e.index, e.data, opt_text_view(e.text.english), opt_text_view(e.text.japanese))
}

/// Whether two items hold the same numbers.
pub open spec fn data_equal(a: ItemData, b: ItemData) -> bool {
    &&& a.id == b.id
    &&& a.flags_bits == b.flags_bits
    &&& a.stack_size == b.stack_size
    &&& a.item_type_code == b.item_type_code
    &&& a.resource_id == b.resource_id
    &&& a.valid_targets_bits == b.valid_targets_bits
    &&& a.equipment == b.equipment
    &&& a.weapon == b.weapon
    &&& a.puppet == b.puppet
    &&& a.instinct == b.instinct
    &&& a.furnishing == b.furnishing
    &&& a.usable == b.usable
    &&& a.currency == b.currency
    &&& match (a.slip, b.slip) {
        (Some(x), Some(y)) => x.unknown1 == y.unknown1 && x.unknowns@ == y.unknowns@,
        (None, None) => true,
        _ => false,
    }
    &&& match (a.monipulator, b.monipulator) {
        (Some(x), Some(y)) => x.unknown1 == y.unknown1 && x.unknowns@ == y.unknowns@,
        (None, None) => true,
        _ => false,
    }
}

fn words_equal(a: &[u32], b: &[u32]) -> (r: bool)
    ensures
        r == (a@ == b@),
{
    if a.len() != b.len() {
        return false;
    }
    let mut i: usize = 0;
    while i < a.len()
        invariant
            a@.len() == b@.len(),
            i <= a@.len(),
            forall|j: int| 0 <= j < i ==> a@[j] == b@[j],
        decreases a@.len() - i,
    {
        if a[i] != b[i] {
            return false;
        }
        i = i + 1;
    }
    assert(a@ =~= b@);
    true
}

fn slips_equal(a: &Option<ItemSlipData>, b: &Option<ItemSlipData>) -> (r: bool)
    ensures
        r == (match (*a, *b) {
            (Some(x), Some(y)) => x.unknown1 == y.unknown1 && x.unknowns@ == y.unknowns@,
            (None, None) => true,
            _ => false,
        }),
{
    match (a, b) {
        (Some(x), Some(y)) => x.unknown1 == y.unknown1 && words_equal(x.unknowns.as_slice(), y.unknowns.as_slice()),
        (None, None) => true,
        _ => false,
    }
}

fn monipulators_equal(a: &Option<ItemMonipulatorData>, b: &Option<ItemMonipulatorData>) -> (r: bool)
    ensures
        r == (match (*a, *b) {
            (Some(x), Some(y)) => x.unknown1 == y.unknown1 && x.unknowns@ == y.unknowns@,
            (None, None) => true,
            _ => false,
        }),
{
    match (a, b) {
        (Some(x), Some(y)) => x.unknown1 == y.unknown1 && words_equal(x.unknowns.as_slice(), y.unknowns.as_slice()),
        (None, None) => true,
        _ => false,
    }
}

/// Whether two items hold the same numbers.
pub fn item_data_equal(a: &ItemData, b: &ItemData) -> (r: bool)
    ensures
        r == data_equal(*a, *b),
{
    a.id == b.id && a.flags_bits == b.flags_bits && a.stack_size == b.stack_size
        && a.item_type_code == b.item_type_code && a.resource_id == b.resource_id
        && a.valid_targets_bits == b.valid_targets_bits && a.equipment == b.equipment
        && a.weapon == b.weapon && a.puppet == b.puppet && a.instinct == b.instinct
        && a.furnishing == b.furnishing && a.usable == b.usable && a.currency == b.currency
        && slips_equal(&a.slip, &b.slip) && monipulators_equal(&a.monipulator, &b.monipulator)
}

fn copy_bytes(v: &Option<Vec<u8>>) -> (r: Option<Vec<u8>>)
    ensures
        opt_bytes(r) == opt_bytes(*v),
{
    match v {
        Some(b) => {
            let c = copy_range(b.as_slice(), 0, b.len());
            assert(c@ =~= b@);
            Some(c)
        },
        None => None,
    }
}

/// A copy of item text.
pub fn copy_text(t: &Option<ItemTextData>) -> (r: Option<ItemTextData>)
    ensures
        opt_text_view(r) == opt_text_view(*t),
{
    match t {
        Some(t) => {
            let name = copy_range(t.name.as_slice(), 0, t.name.len());
            assert(name@ =~= t.name@);
            Some(
                ItemTextData {
                    name,
                    article_type_code: t.article_type_code,
                    singular_name: copy_bytes(&t.singular_name),
                    plural_name: copy_bytes(&t.plural_name),
                    description: copy_bytes(&t.description),
                },
            )
        },
        None => None,
    }
}

/// The exported entry at position `i`, from the primary entry and, when a
/// Japanese table is given, the Japanese entry at the same position: the
/// primary text must have its language's shape, the numbers must agree, and
/// the Japanese text must have the Japanese shape.
pub open spec fn merged_entry(
    language: Seq<char>,
    p: ItemEntry,
    j: Option<ItemEntry>,
    i: int,
) -> Result<LocalizedView, ItemExportError> {
    let pt = opt_text_view(p.text);
    match set_outcome(language, pt) {
        Err(e) => Err(e),
        Ok(_) => {
            let english = if language == "english"@ { pt } else { None };
            let japanese = if language == "japanese"@ { pt } else { None };
            match j {
                None => Ok((i as usize, p.data, english, japanese)),
                Some(j) => if !data_equal(p.data, j.data) {
                    Err(ItemExportError::PayloadMismatch { index: i as usize, primary_id: p.data.id, japanese_id: j.data.id })
                } else {
                    match set_outcome("japanese"@, opt_text_view(j.text)) {
                        Err(e) => Err(e),
                        Ok(_) => Ok((i as usize, p.data, english, opt_text_view(j.text))),
                    }
                },
            }
        },
    }
}

/// The exported entries of the first `n` positions, or the first error.
pub open spec fn merged_prefix(
    language: Seq<char>,
    ps: Seq<ItemEntry>,
    js: Option<Seq<ItemEntry>>,
    n: int,
) -> Result<Seq<LocalizedView>, ItemExportError>
    decreases n,
{
    if n <= 0 {
        Ok(Seq::empty())
    } else {
        match merged_prefix(language, ps, js, n - 1) {
            Err(e) => Err(e),
            Ok(s) => match merged_entry(
                language,
                ps[n - 1],
                match js {
                    Some(js) => Some(js[n - 1]),
                    None => None,
                },
                n - 1,
            ) {
                Ok(v) => Ok(s.push(v)),
                Err(e) => Err(e),
            },
        }
    }
}

/// The exported entries, or why the tables cannot be exported together.
pub open spec fn merge_items_spec(language: Seq<char>, ps: Seq<ItemEntry>, js: Option<Seq<ItemEntry>>) -> Result<Seq<LocalizedView>, ItemExportError> {
    match js {
        Some(js) => if ps.len() != js.len() {
            Err(ItemExportError::CountMismatch { primary: ps.len() as usize, japanese: js.len() as usize })
        } else {
            merged_prefix(language, ps, Some(js), ps.len() as int)
        },
        None => merged_prefix(language, ps, None, ps.len() as int),
    }
}

proof fn lemma_merged_err(language: Seq<char>, ps: Seq<ItemEntry>, js: Option<Seq<ItemEntry>>, k: int, n: int)
    requires
        0 <= k <= n,
        merged_prefix(language, ps, js, k) is Err,
    ensures
        merged_prefix(language, ps, js, n) == merged_prefix(language, ps, js, k),
    decreases n - k,
{
    if k < n {
        lemma_merged_err(language, ps, js, k, n - 1);
    }
}

proof fn lemma_merged_prefix_pointwise(language: Seq<char>, ps: Seq<ItemEntry>, js: Option<Seq<ItemEntry>>, n: int)
    requires
        0 <= n <= ps.len(),
        js matches Some(j) ==> j.len() == ps.len(),
        merged_prefix(language, ps, js, n) is Ok,
    ensures
        ({
            let w = merged_prefix(language, ps, js, n)->Ok_0;
            &&& w.len() == n
            &&& forall|i: int|
                0 <= i < n ==> merged_entry(
                    language,
                    ps[i],
                    match js {
                        Some(j) => Some(j[i]),
                        None => None,
                    },
                    i,
                ) == Ok::<LocalizedView, ItemExportError>(#[trigger] w[i])
        }),
    decreases n,
{
    if n > 0 {
        lemma_merged_prefix_pointwise(language, ps, js, n - 1);
        let w = merged_prefix(language, ps, js, n)->Ok_0;
        let v = merged_prefix(language, ps, js, n - 1)->Ok_0;
        assert forall|i: int| 0 <= i < n - 1 implies w[i] == v[i] by {}
    }
}

/// Where the English-primary merge succeeds, it has one entry per primary
/// entry, and entry `i` holds index `i`, the primary numbers, the primary
/// text as the English text and, with a Japanese table, the Japanese text
/// of position `i` (whose numbers agree), otherwise no Japanese text.
pub proof fn lemma_merge_items_pointwise(ps: Seq<ItemEntry>, js: Option<Seq<ItemEntry>>)
    requires
        ps.len() <= usize::MAX,
        merge_items_spec("english"@, ps, js) is Ok,
    ensures
        ({
            let w = merge_items_spec("english"@, ps, js)->Ok_0;
            &&& w.len() == ps.len()
            &&& forall|i: int|
                0 <= i < ps.len() ==> {
                    &&& (#[trigger] w[i]).0 as int == i
                    &&& w[i].1 == ps[i].data
                    &&& w[i].2 == opt_text_view(ps[i].text)
                    &&& match js {
                        Some(j) => w[i].3 == opt_text_view(j[i].text) && data_equal(ps[i].data, j[i].data),
                        None => w[i].3 is None,
                    }
                }
        }),
{
    reveal_strlit("english");
    reveal_strlit("japanese");
    assert("english"@ != "japanese"@) by {
        assert("english"@.len() != "japanese"@.len());
    }
    if let Some(j) = js {
        assert(ps.len() == j.len());
    }
    lemma_merged_prefix_pointwise("english"@, ps, js, ps.len() as int);
    let w = merge_items_spec("english"@, ps, js)->Ok_0;
    assert forall|i: int| 0 <= i < ps.len() implies {
        &&& (#[trigger] w[i]).0 as int == i
        &&& w[i].1 == ps[i].data
        &&& w[i].2 == opt_text_view(ps[i].text)
        &&& match js {
            Some(j) => w[i].3 == opt_text_view(j[i].text) && data_equal(ps[i].data, j[i].data),
            None => w[i].3 is None,
        }
    } by {
        assert(merged_entry(
            "english"@,
            ps[i],
            match js {
                Some(j) => Some(j[i]),
                None => None,
            },
            i,
        ) == Ok::<LocalizedView, ItemExportError>(w[i]));
    }
}

/// A merge with a Japanese table, in any primary language, succeeds only
/// where, position by position, the two entries carry the same item: the
/// same ID and every other number and payload field the same.
pub proof fn lemma_merge_items_same_data(language: Seq<char>, ps: Seq<ItemEntry>, js: Seq<ItemEntry>)
    requires
        merge_items_spec(language, ps, Some(js)) is Ok,
    ensures
        ps.len() == js.len(),
        forall|i: int|
            0 <= i < ps.len() ==> {
                let a = (#[trigger] ps[i]).data;
                let b = js[i].data;
                &&& a.id == b.id
                &&& a.flags_bits == b.flags_bits
                &&& a.stack_size == b.stack_size
                &&& a.item_type_code == b.item_type_code
                &&& a.resource_id == b.resource_id
                &&& a.valid_targets_bits == b.valid_targets_bits
                &&& a.equipment == b.equipment
                &&& a.weapon == b.weapon
                &&& a.puppet == b.puppet
                &&& a.instinct == b.instinct
                &&& a.furnishing == b.furnishing
                &&& a.usable == b.usable
                &&& a.currency == b.currency
                &&& a.slip is Some == b.slip is Some
                &&& (a.slip matches Some(x) ==> x.unknown1 == b.slip->0.unknown1 && x.unknowns@ == b.slip->0.unknowns@)
                &&& a.monipulator is Some == b.monipulator is Some
                &&& (a.monipulator matches Some(x) ==> x.unknown1 == b.monipulator->0.unknown1 && x.unknowns@
                    == b.monipulator->0.unknowns@)
            },
{
    lemma_merged_prefix_pointwise(language, ps, Some(js), ps.len() as int);
    let w = merge_items_spec(language, ps, Some(js))->Ok_0;
    assert forall|i: int| 0 <= i < ps.len() implies data_equal((#[trigger] ps[i]).data, js[i].data) by {
        assert(merged_entry(language, ps[i], Some(js[i]), i) == Ok::<LocalizedView, ItemExportError>(w[i]));
    }
}

/// Pairs the entries of an item table with those of its Japanese table, if
/// given, position by position.
pub fn merge_entries(
    resource_name: &str,
    primary_language: &str,
    primary_entries: Vec<ItemEntry>,
    japanese_entries: Option<&[ItemEntry]>,
) -> (r: Result<Vec<LocalizedItemEntry>, ItemExportError>)
    ensures
        match (r, merge_items_spec(primary_language@, primary_entries@, match japanese_entries {
            Some(j) => Some(j@),
            None => None,
        })) {
            (Ok(v), Ok(w)) => v@.map_values(|e: LocalizedItemEntry| localized_view(e)) == w,
            (Err(e), Err(f)) => e == f,
            _ => false,
        },
{
    let ghost language = primary_language@;
    let ghost ps = primary_entries@;
    let ghost js = match japanese_entries {
        Some(j) => Some(j@),
        None => None,
    };
    match japanese_entries {
        Some(j) => {
            if primary_entries.len() != j.len() {
                return Err(ItemExportError::CountMismatch { primary: primary_entries.len(), japanese: j.len() });
            }
        },
        None => {},
    }
    let mut entries: Vec<LocalizedItemEntry> = Vec::new();
    let mut i: usize = 0;
    assert(entries@.map_values(|e: LocalizedItemEntry| localized_view(e)) =~= Seq::<LocalizedView>::empty());
    while i < primary_entries.len()
        invariant
            i <= ps.len(),
            ps == primary_entries@,
            language == primary_language@,
            js == (match japanese_entries {
                Some(j) => Some(j@),
                None => None::<Seq<ItemEntry>>,
            }),
            js matches Some(j) ==> j.len() == ps.len(),
            merged_prefix(language, ps, js, i as int) == Ok::<Seq<LocalizedView>, ItemExportError>(
                entries@.map_values(|e: LocalizedItemEntry| localized_view(e)),
            ),
        decreases ps.len() - i,
    {
        let primary = &primary_entries[i];
        let mut text = LocalizedItemText { english: None, japanese: None };
        match text.set(primary_language, copy_text(&primary.text)) {
            Ok(()) => {},
            Err(e) => {
                proof {
                    lemma_merged_err(language, ps, js, i + 1, ps.len() as int);
                }
                return Err(e);
            },
        }
        match japanese_entries {
            Some(j) => {
                let japanese = &j[i];
                if !item_data_equal(&primary.data, &japanese.data) {
                    proof {
                        lemma_merged_err(language, ps, js, i + 1, ps.len() as int);
                    }
                    return Err(
                        ItemExportError::PayloadMismatch { index: i, primary_id: primary.data.id, japanese_id: japanese.data.id },
                    );
                }
                proof {
                    reveal_strlit("japanese");
                }
                match text.set("japanese", copy_text(&japanese.text)) {
                    Ok(()) => {},
                    Err(e) => {
                        proof {
                            lemma_merged_err(language, ps, js, i + 1, ps.len() as int);
                        }
                        return Err(e);
                    },
                }
            },
            None => {},
        }
        let ghost before = entries@;
        entries.push(LocalizedItemEntry { index: i, data: primary.data, text });
        assert(entries@.map_values(|e: LocalizedItemEntry| localized_view(e)) =~= before.map_values(
            |e: LocalizedItemEntry| localized_view(e),
        ).push(localized_view(entries@.last())));
        i = i + 1;
    }
    Ok(entries)
}

impl ItemExportError {
    /// The message of the error, for the resource `resource_name` read in
    /// `language`.
    pub open spec fn message_spec(self, resource_name: Seq<char>, language: Seq<char>) -> Seq<char> {
        match self {
            ItemExportError::NonEnglishText => "English item source has non-English text"@,
            ItemExportError::NonJapaneseText => "Japanese item source has non-Japanese text"@,
            ItemExportError::UnsupportedLanguage => "Unsupported item language "@ + language,
            ItemExportError::CountMismatch { primary, japanese } => resource_name
                + " language tables have different entry counts: "@ + decimal_chars(primary as nat) + " and "@
                + decimal_chars(japanese as nat),
            ItemExportError::PayloadMismatch { index, primary_id, japanese_id } => resource_name
                + " language payloads differ at entry "@ + decimal_chars(index as nat) + " (item IDs "@
                + decimal_chars(primary_id as nat) + " and "@ + decimal_chars(japanese_id as nat) + ")"@,
        }
    }

    /// The message of the error, for the resource `resource_name` read in
    /// `language`.
    pub fn message(&self, resource_name: &str, language: &str) -> (s: String)
        ensures
            s@ == self.message_spec(resource_name@, language@),
    {
        match self {
            ItemExportError::NonEnglishText => String::from_str("English item source has non-English text"),
            ItemExportError::NonJapaneseText => String::from_str("Japanese item source has non-Japanese text"),
            ItemExportError::UnsupportedLanguage => {
                let mut s = String::from_str("Unsupported item language ");
                s.append(language);
                s
            },
            ItemExportError::CountMismatch { primary, japanese } => {
                let mut s = String::from_str(resource_name);
                s.append(" language tables have different entry counts: ");
                push_decimal(&mut s, *primary as u64);
                s.append(" and ");
                push_decimal(&mut s, *japanese as u64);
                s
            },
            ItemExportError::PayloadMismatch { index, primary_id, japanese_id } => {
                let mut s = String::from_str(resource_name);
                s.append(" language payloads differ at entry ");
                push_decimal(&mut s, *index as u64);
                s.append(" (item IDs ");
                push_decimal(&mut s, *primary_id as u64);
                s.append(" and ");
                push_decimal(&mut s, *japanese_id as u64);
                s.append(")");
                s
            },
        }
    }
}

} // verus!
