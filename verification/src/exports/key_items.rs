use vstd::prelude::*;
use vstd::string::StringExecFns;
use crate::bytes::copy_range;
use crate::text::{decimal_chars, push_decimal, str_equal};

verus! {

/// One value of a message list: a number or an encoded string.
#[derive(Debug)]
pub enum DmsgContent {
    Number(u32),
    String(Vec<u8>),
}

/// A value of a message list, the string as its bytes.
pub enum DmsgValue {
    Number(u32),
    Text(Seq<u8>),
}

impl View for DmsgContent {
    type V = DmsgValue;

    open spec fn view(&self) -> DmsgValue {
        match self {
            DmsgContent::Number(n) => DmsgValue::Number(*n),
            DmsgContent::String(s) => DmsgValue::Text(s@),
        }
    }
}

/// The values of one entry of a message table.
#[derive(Debug)]
pub struct DmsgEntryList {
    pub content: Vec<DmsgContent>,
}

pub open spec fn list_view(l: DmsgEntryList) -> Seq<DmsgValue> {
    l.content@.map_values(|c: DmsgContent| c@)
}

/// Text of a key item in one language; absent fields are `None`.
#[derive(Debug)]
pub struct KeyItemText {
    pub name: Option<Vec<u8>>,
    pub plural_name: Option<Vec<u8>>,
    pub description: Option<Vec<u8>>,
}

pub open spec fn opt_bytes(o: Option<Vec<u8>>) -> Option<Seq<u8>> {
    match o {
        Some(v) => Some(v@),
        None => None,
    }
}

pub open spec fn key_text_view(t: KeyItemText) -> (Option<Seq<u8>>, Option<Seq<u8>>, Option<Seq<u8>>) {
    (opt_bytes(t.name), opt_bytes(t.plural_name), opt_bytes(t.description))
}

pub open spec fn opt_key_text_view(t: Option<KeyItemText>) -> Option<(Option<Seq<u8>>, Option<Seq<u8>>, Option<Seq<u8>>)> {
    match t {
        Some(t) => Some(key_text_view(t)),
        None => None,
    }
}

/// The string at `index` of the list, if it is a non-empty string.
pub open spec fn string_at_spec(list: Option<Seq<DmsgValue>>, index: int) -> Option<Seq<u8>> {
    match list {
        Some(l) => if 0 <= index < l.len() {
            match l[index] {
                DmsgValue::Text(s) => if s.len() > 0 {
                    Some(s)
                } else {
                    None
                },
                DmsgValue::Number(_) => None,
            }
        } else {
            None
        },
        None => None,
    }
}

/// The number the list opens with, if it opens with one.
pub open spec fn id_at_spec(list: Option<Seq<DmsgValue>>) -> Option<u32> {
    match list {
        Some(l) => if l.len() > 0 {
            match l[0] {
                DmsgValue::Number(n) => Some(n),
                DmsgValue::Text(_) => None,
            }
        } else {
            None
        },
        None => None,
    }
}

/// The text of a key item list: English lists hold the name at 4, the
/// plural at 5 and the description at 6; Japanese ones the name at 1 and the
/// description at 2. `None` when the language is neither or nothing is there.
pub open spec fn text_at_spec(list: Option<Seq<DmsgValue>>, language: Seq<char>) -> Option<(Option<Seq<u8>>, Option<Seq<u8>>, Option<Seq<u8>>)> {
    if language == "english"@ {
        let t = (string_at_spec(list, 4), string_at_spec(list, 5), string_at_spec(list, 6));
        if t.0 is Some || t.1 is Some || t.2 is Some {
            Some(t)
        } else {
            None
        }
    } else if language == "japanese"@ {
        let t = (string_at_spec(list, 1), None, string_at_spec(list, 2));
        if t.0 is Some || t.1 is Some || t.2 is Some {
            Some(t)
        } else {
            None
        }
    } else {
        None
    }
}

/// Whether entry `k` of the list is the non-empty string `s`.
pub open spec fn holds_text(l: Seq<DmsgValue>, k: int, s: Seq<u8>) -> bool {
    0 <= k < l.len() && l[k] == DmsgValue::Text(s) && s.len() > 0
}

/// Where the key-item texts lie in a list: an English list gives its name
/// at entry 4, its plural at entry 5 and its description at entry 6; a
/// Japanese list its name at entry 1 and its description at entry 2, and no
/// plural. A field is set exactly when its entry is a non-empty string, and
/// there is a text exactly when some field is set.
pub proof fn lemma_key_item_text_positions(l: Seq<DmsgValue>)
    ensures
        ({
            let t = text_at_spec(Some(l), "english"@);
            &&& t is Some <==> (exists|s: Seq<u8>| holds_text(l, 4, s)) || (exists|s: Seq<u8>| holds_text(l, 5, s))
                || (exists|s: Seq<u8>| holds_text(l, 6, s))
            &&& forall|s: Seq<u8>| #[trigger] holds_text(l, 4, s) ==> (t matches Some(v) && v.0 == Some(s))
            &&& forall|s: Seq<u8>| #[trigger] holds_text(l, 5, s) ==> (t matches Some(v) && v.1 == Some(s))
            &&& forall|s: Seq<u8>| #[trigger] holds_text(l, 6, s) ==> (t matches Some(v) && v.2 == Some(s))
            &&& t matches Some(v) ==> (v.0 matches Some(s) ==> holds_text(l, 4, s)) && (v.1 matches Some(s)
                ==> holds_text(l, 5, s)) && (v.2 matches Some(s) ==> holds_text(l, 6, s))
        }),
        ({
            let t = text_at_spec(Some(l), "japanese"@);
            &&& t is Some <==> (exists|s: Seq<u8>| holds_text(l, 1, s)) || (exists|s: Seq<u8>| holds_text(l, 2, s))
            &&& forall|s: Seq<u8>| #[trigger] holds_text(l, 1, s) ==> (t matches Some(v) && v.0 == Some(s))
            &&& forall|s: Seq<u8>| #[trigger] holds_text(l, 2, s) ==> (t matches Some(v) && v.2 == Some(s))
            &&& t matches Some(v) ==> (v.0 matches Some(s) ==> holds_text(l, 1, s)) && v.1 is None && (
            v.2 matches Some(s) ==> holds_text(l, 2, s))
        }),
{
    reveal_strlit("english");
    reveal_strlit("japanese");
    assert("english"@ != "japanese"@) by {
        assert("english"@.len() != "japanese"@.len());
    }
    assert forall|k: int| #![trigger string_at_spec(Some(l), k)] 0 <= k < l.len() implies (string_at_spec(Some(l), k)
        is Some <==> exists|s: Seq<u8>| holds_text(l, k, s)) && (string_at_spec(Some(l), k) matches Some(s)
        ==> holds_text(l, k, s)) by {
        if string_at_spec(Some(l), k) is Some {
            assert(holds_text(l, k, string_at_spec(Some(l), k)->0));
        }
    }
    assert(string_at_spec(Some(l), 1) is Some <==> exists|s: Seq<u8>| holds_text(l, 1, s));
    assert(string_at_spec(Some(l), 2) is Some <==> exists|s: Seq<u8>| holds_text(l, 2, s));
    assert(string_at_spec(Some(l), 4) is Some <==> exists|s: Seq<u8>| holds_text(l, 4, s));
    assert(string_at_spec(Some(l), 5) is Some <==> exists|s: Seq<u8>| holds_text(l, 5, s));
    assert(string_at_spec(Some(l), 6) is Some <==> exists|s: Seq<u8>| holds_text(l, 6, s));
}

/// A key item's ID is the number its list opens with: there is one exactly
/// when the first entry is a number, and it is that number.
pub proof fn lemma_key_item_id_position(l: Seq<DmsgValue>, n: u32)
    ensures
        id_at_spec(Some(l)) == Some(n) <==> (l.len() > 0 && l[0] == DmsgValue::Number(n)),
        id_at_spec(Some(l)) is None <==> (l.len() == 0 || l[0] is Text),
{
}

/// The string at `index` of the list, if it is a non-empty string.
pub fn string_at(list: Option<&DmsgEntryList>, index: usize) -> (r: Option<Vec<u8>>)
    ensures
        opt_bytes(r) == string_at_spec(
            match list {
                Some(l) => Some(list_view(*l)),
                None => None,
            },
            index as int,
        ),
{
    match list {
        None => None,
        Some(l) => {
            if index >= l.content.len() {
                return None;
            }
            assert(list_view(*l)[index as int] == l.content@[index as int]@);
            match &l.content[index] {
                DmsgContent::String(s) => {
                    if s.len() > 0 {
                        let c = copy_range(s.as_slice(), 0, s.len());
                        assert(c@ =~= s@);
                        Some(c)
                    } else {
                        None
                    }
                },
                DmsgContent::Number(_) => None,
            }
        },
    }
}

/// The number the list opens with, if it opens with one.
pub fn id_at(list: Option<&DmsgEntryList>) -> (r: Option<u32>)
    ensures
        r == id_at_spec(
            match list {
                Some(l) => Some(list_view(*l)),
                None => None,
            },
        ),
{
    match list {
        None => None,
        Some(l) => {
            if l.content.len() == 0 {
                return None;
            }
            assert(list_view(*l)[0] == l.content@[0]@);
            match &l.content[0] {
                DmsgContent::Number(n) => Some(*n),
                DmsgContent::String(_) => None,
            }
        },
    }
}

/// The text of a key item list in `language`.
pub fn text_at(list: Option<&DmsgEntryList>, language: &str) -> (r: Option<KeyItemText>)
    ensures
        opt_key_text_view(r) == text_at_spec(
            match list {
                Some(l) => Some(list_view(*l)),
                None => None,
            },
            language@,
        ),
{
    proof {
        reveal_strlit("english");
        reveal_strlit("japanese");
    }
    let (name_index, plural_index, description_index): (usize, Option<usize>, usize) = if str_equal(
        language,
        "english",
    ) {
        (4, Some(5), 6)
    } else if str_equal(language, "japanese") {
        (1, None, 2)
    } else {
        return None;
    };
    let text = KeyItemText {
        name: string_at(list, name_index),
        plural_name: match plural_index {
            Some(i) => string_at(list, i),
            None => None,
        },
        description: string_at(list, description_index),
    };
    if text.name.is_some() || text.plural_name.is_some() || text.description.is_some() {
        Some(text)
    } else {
        None
    }
}

/// Where one language's key item table was read from.
#[derive(Debug)]
pub struct KeyItemSource {
    pub language: String,
    pub dat_id: u32,
    pub logical_path: String,
    pub selected_path: String,
}

/// A decoded key item table and where it came from.
#[derive(Debug)]
pub struct DecodedSource {
    pub metadata: KeyItemSource,
    pub lists: Vec<(u32, DmsgEntryList)>,
}

/// Text of a key item in each language.
#[derive(Debug)]
pub struct LocalizedKeyItemText {
    pub english: Option<KeyItemText>,
    pub japanese: Option<KeyItemText>,
}

/// One exported key item; a missing ID stays `None`.
#[derive(Debug)]
pub struct KeyItemEntry {
    pub index: u32,
    pub id: Option<u32>,
    pub text: LocalizedKeyItemText,
}

/// The key items of both languages.
#[derive(Debug)]
pub struct KeyItemResource {
    pub name: String,
    pub sources: Vec<KeyItemSource>,
    pub entries: Vec<KeyItemEntry>,
}

/// Why the two languages' key item tables cannot be merged.
#[derive(Clone, Copy, Debug, PartialEq, Eq, Structural)]
pub enum KeyItemError {
    CountMismatch { english: usize, japanese: usize },
    IndexMismatch { english: u32, japanese: u32 },
    IdMismatch { index: u32, english: u32, japanese: u32 },
}

pub type EntryView = (
    u32,
    Option<u32>,
    Option<(Option<Seq<u8>>, Option<Seq<u8>>, Option<Seq<u8>>)>,
    Option<(Option<Seq<u8>>, Option<Seq<u8>>, Option<Seq<u8>>)>,
);

pub open spec fn entry_view(e: KeyItemEntry) -> EntryView {
    (e.index, e.id, opt_key_text_view(e.text.english), opt_key_text_view(e.text.japanese))
}

pub open spec fn lists_view(ls: Seq<(u32, DmsgEntryList)>) -> Seq<(u32, Seq<DmsgValue>)> {
    ls.map_values(|e: (u32, DmsgEntryList)| (e.0, list_view(e.1)))
}

/// The merged entry of the English and Japanese lists at one position: the
/// indexes must agree, and so must the IDs where both have one.
pub open spec fn merge_entry_spec(e: (u32, Seq<DmsgValue>), j: (u32, Seq<DmsgValue>)) -> Result<EntryView, KeyItemError> {
    if e.0 != j.0 {
        Err(KeyItemError::IndexMismatch { english: e.0, japanese: j.0 })
    } else {
        let ei = id_at_spec(Some(e.1));
        let ji = id_at_spec(Some(j.1));
        if ei is Some && ji is Some && ei != ji {
            Err(KeyItemError::IdMismatch { index: e.0, english: ei->0, japanese: ji->0 })
        } else {
            Ok(
                (
                    e.0,
                    if ei is Some {
                        ei
                    } else {
                        ji
                    },
                    text_at_spec(Some(e.1), "english"@),
                    text_at_spec(Some(j.1), "japanese"@),
                ),
            )
        }
    }
}

/// The merged entries of the first `n` positions, or the first error.
pub open spec fn merge_prefix(es: Seq<(u32, Seq<DmsgValue>)>, js: Seq<(u32, Seq<DmsgValue>)>, n: int) -> Result<Seq<EntryView>, KeyItemError>
    decreases n,
{
    if n <= 0 {
        Ok(Seq::empty())
    } else {
        match merge_prefix(es, js, n - 1) {
            Err(err) => Err(err),
            Ok(s) => match merge_entry_spec(es[n - 1], js[n - 1]) {
                Ok(v) => Ok(s.push(v)),
                Err(err) => Err(err),
            },
        }
    }
}

/// The merged key items, or why the tables do not match.
pub open spec fn merge_spec(es: Seq<(u32, Seq<DmsgValue>)>, js: Seq<(u32, Seq<DmsgValue>)>) -> Result<Seq<EntryView>, KeyItemError> {
    if es.len() != js.len() {
        Err(KeyItemError::CountMismatch { english: es.len() as usize, japanese: js.len() as usize })
    } else {
        merge_prefix(es, js, es.len() as int)
    }
}

/// The merge of the first `n` positions succeeds exactly when every one of
/// them merges, and then holds their merged entries.
proof fn lemma_prefix_pointwise(es: Seq<(u32, Seq<DmsgValue>)>, js: Seq<(u32, Seq<DmsgValue>)>, n: int)
    requires
        0 <= n,
    ensures
        merge_prefix(es, js, n) is Ok <==> forall|i: int| 0 <= i < n ==> (#[trigger] merge_entry_spec(es[i], js[i])) is Ok,
        merge_prefix(es, js, n) is Ok ==> merge_prefix(es, js, n)->Ok_0.len() == n && forall|i: int|
            0 <= i < n ==> merge_entry_spec(es[i], js[i]) == Ok::<EntryView, KeyItemError>(
                #[trigger] merge_prefix(es, js, n)->Ok_0[i],
            ),
    decreases n,
{
    if n > 0 {
        lemma_prefix_pointwise(es, js, n - 1);
        if merge_prefix(es, js, n) is Ok {
            let w = merge_prefix(es, js, n)->Ok_0;
            let v = merge_prefix(es, js, n - 1)->Ok_0;
            assert forall|i: int| 0 <= i < n - 1 implies w[i] == v[i] by {}
        } else if merge_prefix(es, js, n - 1) is Ok {
            assert(!(merge_entry_spec(es[n - 1], js[n - 1]) is Ok));
        }
    }
}

/// The key-item merge succeeds exactly when both tables have as many lists,
/// the list indexes agree position by position, and no position has two
/// different numeric IDs. Then it has an entry per English list, holding
/// that list's index, its ID or else the Japanese one (no ID, and still an
/// entry, when neither list opens with a number), and the two texts.
pub proof fn lemma_merge_key_items_pointwise(es: Seq<(u32, Seq<DmsgValue>)>, js: Seq<(u32, Seq<DmsgValue>)>)
    ensures
        merge_spec(es, js) is Ok <==> es.len() == js.len() && forall|i: int|
            0 <= i < es.len() ==> #[trigger] es[i].0 == js[i].0 && !(id_at_spec(Some(es[i].1)) is Some && id_at_spec(
                Some(js[i].1),
            ) is Some && id_at_spec(Some(es[i].1)) != id_at_spec(Some(js[i].1))),
        merge_spec(es, js) is Ok ==> ({
            let w = merge_spec(es, js)->Ok_0;
            &&& w.len() == es.len()
            &&& forall|i: int|
                0 <= i < es.len() ==> {
                    &&& (#[trigger] w[i]).0 == es[i].0
                    &&& w[i].1 == (if id_at_spec(Some(es[i].1)) is Some {
                        id_at_spec(Some(es[i].1))
                    } else {
                        id_at_spec(Some(js[i].1))
                    })
                    &&& w[i].2 == text_at_spec(Some(es[i].1), "english"@)
                    &&& w[i].3 == text_at_spec(Some(js[i].1), "japanese"@)
                }
        }),
{
    if es.len() == js.len() {
        lemma_prefix_pointwise(es, js, es.len() as int);
        if merge_spec(es, js) is Ok {
            let w = merge_spec(es, js)->Ok_0;
            assert forall|i: int| 0 <= i < es.len() implies #[trigger] es[i].0 == js[i].0 && !(id_at_spec(Some(es[i].1)) is Some
                && id_at_spec(Some(js[i].1)) is Some && id_at_spec(Some(es[i].1)) != id_at_spec(Some(js[i].1))) by {
                assert(merge_entry_spec(es[i], js[i]) is Ok);
            }
            assert forall|i: int| 0 <= i < es.len() implies (#[trigger] w[i]).0 == es[i].0 by {
                assert(merge_entry_spec(es[i], js[i]) == Ok::<EntryView, KeyItemError>(w[i]));
            }
        } else {
            let i = choose|i: int| 0 <= i < es.len() && !(#[trigger] merge_entry_spec(es[i], js[i]) is Ok);
            assert(!(es[i].0 == js[i].0 && !(id_at_spec(Some(es[i].1)) is Some && id_at_spec(Some(js[i].1)) is Some
                && id_at_spec(Some(es[i].1)) != id_at_spec(Some(js[i].1)))));
        }
    }
}

proof fn lemma_prefix_err(es: Seq<(u32, Seq<DmsgValue>)>, js: Seq<(u32, Seq<DmsgValue>)>, k: int, n: int)
    requires
        0 <= k <= n,
        merge_prefix(es, js, k) is Err,
    ensures
        merge_prefix(es, js, n) == merge_prefix(es, js, k),
    decreases n - k,
{
    if k < n {
        lemma_prefix_err(es, js, k, n - 1);
    }
}

impl KeyItemError {
    /// The message of the error.
    pub open spec fn message_spec(self) -> Seq<char> {
        match self {
            KeyItemError::CountMismatch { english, japanese } => "Key item language tables have different entry counts: "@
                + decimal_chars(english as nat) + " and "@ + decimal_chars(japanese as nat),
            KeyItemError::IndexMismatch { english, japanese } => "Key item language tables differ at entry indexes "@
                + decimal_chars(english as nat) + " and "@ + decimal_chars(japanese as nat),
            KeyItemError::IdMismatch { index, english, japanese } => "Key item language payloads differ at entry "@
                + decimal_chars(index as nat) + " (IDs "@ + decimal_chars(english as nat) + " and "@
                + decimal_chars(japanese as nat) + ")"@,
        }
    }

    /// The message of the error.
    pub fn message(&self) -> (s: String)
        ensures
            s@ == self.message_spec(),
    {
        match self {
            KeyItemError::CountMismatch { english, japanese } => {
                let mut s = String::from_str("Key item language tables have different entry counts: ");
                push_decimal(&mut s, *english as u64);
                s.append(" and ");
                push_decimal(&mut s, *japanese as u64);
                s
            },
            KeyItemError::IndexMismatch { english, japanese } => {
                let mut s = String::from_str("Key item language tables differ at entry indexes ");
                push_decimal(&mut s, *english as u64);
                s.append(" and ");
                push_decimal(&mut s, *japanese as u64);
                s
            },
            KeyItemError::IdMismatch { index, english, japanese } => {
                let mut s = String::from_str("Key item language payloads differ at entry ");
                push_decimal(&mut s, *index as u64);
                s.append(" (IDs ");
                push_decimal(&mut s, *english as u64);
                s.append(" and ");
                push_decimal(&mut s, *japanese as u64);
                s.append(")");
                s
            },
        }
    }
}

/// Pairs the English and Japanese key item tables position by position.
pub fn merge_entries(english: DecodedSource, japanese: DecodedSource) -> (r: Result<KeyItemResource, KeyItemError>)
    ensures
        match (r, merge_spec(lists_view(english.lists@), lists_view(japanese.lists@))) {
            (Ok(res), Ok(v)) => res.name@ == "key_items"@ && res.entries@.map_values(|e: KeyItemEntry| entry_view(e)) == v
                && res.sources@ == seq![english.metadata, japanese.metadata],
            (Err(e), Err(f)) => e == f,
            _ => false,
        },
{
    let ghost es = lists_view(english.lists@);
    let ghost js = lists_view(japanese.lists@);
    if english.lists.len() != japanese.lists.len() {
        return Err(KeyItemError::CountMismatch { english: english.lists.len(), japanese: japanese.lists.len() });
    }
    let mut entries: Vec<KeyItemEntry> = Vec::new();
    let mut i: usize = 0;
    assert(entries@.map_values(|e: KeyItemEntry| entry_view(e)) =~= Seq::<EntryView>::empty());
    while i < english.lists.len()
        invariant
            english.lists@.len() == japanese.lists@.len(),
            es == lists_view(english.lists@),
            js == lists_view(japanese.lists@),
            i <= english.lists@.len(),
            merge_prefix(es, js, i as int) == Ok::<Seq<EntryView>, KeyItemError>(
                entries@.map_values(|e: KeyItemEntry| entry_view(e)),
            ),
        decreases english.lists@.len() - i,
    {
        let (e_index, e_list) = &english.lists[i];
        let (j_index, j_list) = &japanese.lists[i];
        assert(es[i as int] == (*e_index, list_view(*e_list)));
        assert(js[i as int] == (*j_index, list_view(*j_list)));
        if *e_index != *j_index {
            proof {
                lemma_prefix_err(es, js, i + 1, es.len() as int);
            }
            return Err(KeyItemError::IndexMismatch { english: *e_index, japanese: *j_index });
        }
        let english_id = id_at(Some(e_list));
        let japanese_id = id_at(Some(j_list));
        match (english_id, japanese_id) {
            (Some(a), Some(b)) => {
                if a != b {
                    proof {
                        lemma_prefix_err(es, js, i + 1, es.len() as int);
                    }
                    return Err(KeyItemError::IdMismatch { index: *e_index, english: a, japanese: b });
                }
            },
            _ => {},
        }
        proof {
            reveal_strlit("english");
            reveal_strlit("japanese");
        }
        let entry = KeyItemEntry {
            index: *e_index,
            id: if english_id.is_some() {
                english_id
            } else {
                japanese_id
            },
            text: LocalizedKeyItemText {
                english: text_at(Some(e_list), "english"),
                japanese: text_at(Some(j_list), "japanese"),
            },
        };
        let ghost before = entries@;
        entries.push(entry);
        assert(entries@.map_values(|e: KeyItemEntry| entry_view(e)) =~= before.map_values(
            |e: KeyItemEntry| entry_view(e),
        ).push(entry_view(entries@.last())));
        i = i + 1;
    }
    let mut sources: Vec<KeyItemSource> = Vec::new();
    sources.push(english.metadata);
    sources.push(japanese.metadata);
    Ok(KeyItemResource { name: String::from_str("key_items"), sources, entries })
}

} // verus!
