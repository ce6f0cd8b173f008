use vstd::prelude::*;
use crate::bytes::{u32_at, u32_bytes, zeros, all_zero, spec_padding};

verus! {

/// Text of an item, as encoded bytes: English records hold five entries,
/// Japanese records two and some records only a name.
#[derive(Debug, PartialEq, Eq)]
pub enum ItemStrings {
    English {
        name: Vec<u8>,
        article_type: u32,
        singular_name: Vec<u8>,
        plural_name: Vec<u8>,
        description: Vec<u8>,
    },
    Japanese { name: Vec<u8>, description: Vec<u8> },
    Name { name: Vec<u8> },
}

pub enum ItemStringsModel {
    English {
        name: Seq<u8>,
        article_type: u32,
        singular_name: Seq<u8>,
        plural_name: Seq<u8>,
        description: Seq<u8>,
    },
    Japanese { name: Seq<u8>, description: Seq<u8> },
    Name { name: Seq<u8> },
}

impl View for ItemStrings {
    type V = ItemStringsModel;

    open spec fn view(&self) -> ItemStringsModel {
        match self {
            ItemStrings::English { name, article_type, singular_name, plural_name, description } =>
                ItemStringsModel::English {
                name: name@,
                article_type: *article_type,
                singular_name: singular_name@,
                plural_name: plural_name@,
                description: description@,
            },
            ItemStrings::Japanese { name, description } => ItemStringsModel::Japanese {
                name: name@,
                description: description@,
            },
            ItemStrings::Name { name } => ItemStringsModel::Name { name: name@ },
        }
    }
}

pub open spec fn opt_strings_view(s: Option<ItemStrings>) -> Option<ItemStringsModel> {
    match s {
        Some(s) => Some(s@),
        None => None,
    }
}

/// One entry of an item's string section: a number (the English article) or
/// a framed string block.
#[derive(Debug)]
pub enum ItemStringContent {
    Number(u32),
    StringBytes(Vec<u8>),
}

impl View for ItemStringContent {
    /// The entry's type code (1 for numbers, 0 for strings) and its bytes.
    type V = (u32, Seq<u8>);

    open spec fn view(&self) -> (u32, Seq<u8>) {
        match self {
            ItemStringContent::Number(n) => (1, u32_bytes(*n)),
            ItemStringContent::StringBytes(b) => (0, b@),
        }
    }
}

/// A string block: a one, six zero words, the text, its zero terminator and
/// zero padding up to a multiple of four bytes.
pub open spec fn string_block(text: Seq<u8>) -> Seq<u8> {
    u32_bytes(1) + zeros(24) + text + zeros((1 + spec_padding(text.len() + 1int)) as nat)
}

/// The bytes of all entries, one after another.
pub open spec fn contents_bytes(cs: Seq<(u32, Seq<u8>)>) -> Seq<u8>
    decreases cs.len(),
{
    if cs.len() == 0 {
        seq![]
    } else {
        contents_bytes(cs.drop_last()) + cs.last().1
    }
}

/// The (offset, type) words of all entries; offsets count from the start of
/// the section and the first entry starts at `base`.
pub open spec fn metas_bytes(cs: Seq<(u32, Seq<u8>)>, base: int) -> Seq<u8>
    decreases cs.len(),
{
    if cs.len() == 0 {
        seq![]
    } else {
        metas_bytes(cs.drop_last(), base) + u32_bytes(
            (base + contents_bytes(cs.drop_last()).len()) as u32,
        ) + u32_bytes(cs.last().0)
    }
}

/// A string section: entry count, entry metadata, then the entries.
#[verifier::opaque]
pub open spec fn section_bytes(cs: Seq<(u32, Seq<u8>)>) -> Seq<u8> {
    u32_bytes(cs.len() as u32) + metas_bytes(cs, 4 + 8 * cs.len() as int) + contents_bytes(cs)
}

/// The section entries that encode `strings`.
#[verifier::opaque]
pub open spec fn strings_contents(strings: Option<ItemStringsModel>) -> Seq<(u32, Seq<u8>)> {
    match strings {
        None => seq![],
        Some(ItemStringsModel::Name { name }) => seq![(0u32, string_block(name))],
        Some(ItemStringsModel::Japanese { name, description }) => seq![
            (0u32, string_block(name)),
            (0u32, string_block(description)),
        ],
        Some(
            ItemStringsModel::English { name, article_type, singular_name, plural_name, description },
        ) => seq![
            (0u32, string_block(name)),
            (1u32, u32_bytes(article_type)),
            (0u32, string_block(singular_name)),
            (0u32, string_block(plural_name)),
            (0u32, string_block(description)),
        ],
    }
}

impl ItemStringContent {
    /// Frames encoded text as a string block.
    pub fn from_bytes(bytes: &[u8]) -> (content: ItemStringContent)
        ensures
            content@ == (0u32, string_block(bytes@)),
    {
        let mut block: Vec<u8> = Vec::new();
        crate::bytes::push_u32(&mut block, 1);
        crate::bytes::push_zeros(&mut block, 24);
        crate::bytes::push_bytes(&mut block, bytes);
        let padding = crate::bytes::get_padding(bytes.len() % 4 + 1);
        crate::bytes::push_zeros(&mut block, 1 + padding);
        proof {
            assert(bytes@.len() == bytes.len());
            assert(spec_padding(bytes.len() % 4 + 1) == spec_padding(bytes.len() + 1));
            assert(block@ =~= string_block(bytes@));
        }
        ItemStringContent::StringBytes(block)
    }

    pub fn from_article(article: u32) -> (content: ItemStringContent)
        ensures
            content == ItemStringContent::Number(article),
    {
        ItemStringContent::Number(article)
    }
}

} // verus!

verus! {

/// The entry types of the string section shapes that items use, by count.
pub open spec fn shape_types(count: u32) -> Option<Seq<u32>> {
    if count == 0 {
        Some(seq![])
    } else if count == 1 {
        Some(seq![0u32])
    } else if count == 2 {
        Some(seq![0u32, 0u32])
    } else if count == 5 {
        Some(seq![0u32, 1u32, 0u32, 0u32, 0u32])
    } else {
        None
    }
}

/// The first index at or after `i` that holds a zero byte, or the length of
/// `d` when there is none.
pub open spec fn first_zero(d: Seq<u8>, i: int) -> int
    decreases d.len() - i,
{
    if i >= d.len() {
        d.len() as int
    } else if d[i] == 0 {
        i
    } else {
        first_zero(d, i + 1)
    }
}

pub proof fn lemma_first_zero(d: Seq<u8>, i: int)
    requires
        0 <= i <= d.len(),
    ensures
        i <= first_zero(d, i) <= d.len(),
        first_zero(d, i) < d.len() ==> d[first_zero(d, i)] == 0,
        forall|j: int| i <= j < first_zero(d, i) ==> d[j] != 0,
    decreases d.len() - i,
{
    if i < d.len() && d[i] != 0 {
        lemma_first_zero(d, i + 1);
    }
}

/// Reads a string block at `pos`: its text and the offset after it.
pub open spec fn parse_text_spec(d: Seq<u8>, pos: int) -> Option<(Seq<u8>, int)> {
    if pos + 28 > d.len() || u32_at(d, pos) != 1 || !all_zero(d, pos + 4, pos + 28) {
        None
    } else {
        let z = first_zero(d, pos + 28);
        let pad = spec_padding(z - (pos + 28) + 1);
        if z >= d.len() || z + 1 + pad > d.len() || !all_zero(d, z + 1, z + 1 + pad) {
            None
        } else {
            Some((d.subrange(pos + 28, z), z + 1 + pad))
        }
    }
}

/// A parsed section entry: its type code and its value (a number or text).
pub enum ParsedContentModel {
    Number(u32),
    Text(Seq<u8>),
}

/// Reads entry `i`, of type `t`, at `pos` of the section that starts at
/// `start`, after checking its metadata words.
#[verifier::opaque]
pub open spec fn parse_content_spec(d: Seq<u8>, start: int, i: int, t: u32, pos: int) -> Option<
    (ParsedContentModel, int),
> {
    if u32_at(d, start + 4 + 8 * i) != pos - start || u32_at(d, start + 8 + 8 * i) != t {
        None
    } else if t == 1 {
        if pos + 4 > d.len() {
            None
        } else {
            Some((ParsedContentModel::Number(u32_at(d, pos)), pos + 4))
        }
    } else {
        match parse_text_spec(d, pos) {
            Some((text, end)) => Some((ParsedContentModel::Text(text), end)),
            None => None,
        }
    }
}

/// Reads the first `n` entries of the section at `start` whose entry types
/// are `types`.
pub open spec fn parse_contents_spec(d: Seq<u8>, start: int, types: Seq<u32>, n: int) -> Option<
    (Seq<ParsedContentModel>, int),
>
    decreases n,
{
    if n <= 0 {
        Some((seq![], start + 4 + 8 * types.len()))
    } else {
        match parse_contents_spec(d, start, types, n - 1) {
            Some((cs, pos)) => match parse_content_spec(d, start, n - 1, types[n - 1], pos) {
                Some((c, end)) => Some((cs.push(c), end)),
                None => None,
            },
            None => None,
        }
    }
}

pub proof fn lemma_parse_contents_none(d: Seq<u8>, start: int, types: Seq<u32>, n: int, m: int)
    requires
        0 <= n <= m,
        parse_contents_spec(d, start, types, n) is None,
    ensures
        parse_contents_spec(d, start, types, m) is None,
    decreases m - n,
{
    if m > n {
        lemma_parse_contents_none(d, start, types, n, m - 1);
    }
}

pub open spec fn text_of(c: ParsedContentModel) -> Seq<u8> {
    match c {
        ParsedContentModel::Text(t) => t,
        ParsedContentModel::Number(_) => seq![],
    }
}

pub open spec fn number_of(c: ParsedContentModel) -> u32 {
    match c {
        ParsedContentModel::Number(n) => n,
        ParsedContentModel::Text(_) => 0,
    }
}

/// The item strings held by parsed entries of one of the known shapes.
pub open spec fn strings_of(cs: Seq<ParsedContentModel>) -> Option<ItemStringsModel> {
    if cs.len() == 1 {
        Some(ItemStringsModel::Name { name: text_of(cs[0]) })
    } else if cs.len() == 2 {
        Some(ItemStringsModel::Japanese { name: text_of(cs[0]), description: text_of(cs[1]) })
    } else if cs.len() == 5 {
        Some(
            ItemStringsModel::English {
                name: text_of(cs[0]),
                article_type: number_of(cs[1]),
                singular_name: text_of(cs[2]),
                plural_name: text_of(cs[3]),
                description: text_of(cs[4]),
            },
        )
    } else {
        None
    }
}

/// Reads the string section at `start` of `d`: the strings and the offset
/// after the section.
#[verifier::opaque]
pub open spec fn parse_strings_spec(d: Seq<u8>, start: int) -> Option<
    (Option<ItemStringsModel>, int),
> {
    if start + 4 > d.len() {
        None
    } else {
        let count = u32_at(d, start);
        if count > 9 || start + 4 + 8 * count > d.len() {
            None
        } else {
            match shape_types(count) {
                None => None,
                Some(types) => match parse_contents_spec(d, start, types, types.len() as int) {
                    Some((cs, end)) => Some((strings_of(cs), end)),
                    None => None,
                },
            }
        }
    }
}

/// Exec form of a parsed entry.
enum ParsedContent {
    Number(u32),
    Text(Vec<u8>),
}

impl View for ParsedContent {
    type V = ParsedContentModel;

    closed spec fn view(&self) -> ParsedContentModel {
        match self {
            ParsedContent::Number(n) => ParsedContentModel::Number(*n),
            ParsedContent::Text(t) => ParsedContentModel::Text(t@),
        }
    }
}

fn find_zero(d: &[u8], from: usize) -> (z: usize)
    requires
        from <= d@.len(),
    ensures
        z == first_zero(d@, from as int),
{
    let mut i = from;
    while i < d.len()
        invariant
            from <= i <= d@.len(),
            first_zero(d@, from as int) == first_zero(d@, i as int),
        decreases d@.len() - i,
    {
        if d[i] == 0 {
            return i;
        }
        i = i + 1;
    }
    i
}

fn parse_text(d: &[u8], pos: usize) -> (r: Option<(Vec<u8>, usize)>)
    requires
        d@.len() <= 640,
    ensures
        match r {
            Some((t, end)) => parse_text_spec(d@, pos as int) == Some((t@, end as int)) && end
                > pos,
            None => parse_text_spec(d@, pos as int) is None,
        },
{
    if pos > d.len() || d.len() - pos < 28 {
        return None;
    }
    match crate::bytes::read_u32(d, pos) {
        Some(one) => {
            if one != 1 {
                return None;
            }
        },
        None => {
            return None;
        },
    }
    if !crate::bytes::check_zero(d, pos + 4, pos + 28) {
        return None;
    }
    let z = find_zero(d, pos + 28);
    proof {
        lemma_first_zero(d@, pos + 28);
    }
    if z >= d.len() {
        return None;
    }
    let pad = crate::bytes::get_padding(z - (pos + 28) + 1);
    if z + 1 + pad > d.len() {
        return None;
    }
    if !crate::bytes::check_zero(d, z + 1, z + 1 + pad) {
        return None;
    }
    let text = crate::bytes::copy_range(d, pos + 28, z);
    Some((text, z + 1 + pad))
}

fn parse_content(d: &[u8], start: usize, i: usize, t: u32, pos: usize) -> (r: Option<
    (ParsedContent, usize),
>)
    requires
        d@.len() <= 640,
        start <= pos,
        start + 8 + 8 * i + 4 <= d@.len(),
    ensures
        match r {
            Some((c, end)) => parse_content_spec(d@, start as int, i as int, t, pos as int) == Some(
                (c@, end as int),
            ) && end > pos,
            None => parse_content_spec(d@, start as int, i as int, t, pos as int) is None,
        },
{
    reveal(parse_content_spec);
    let offset = crate::bytes::read_u32(d, start + 4 + 8 * i).unwrap();
    let kind = crate::bytes::read_u32(d, start + 8 + 8 * i).unwrap();
    if offset as usize != pos - start || kind != t {
        return None;
    }
    if t == 1 {
        match crate::bytes::read_u32(d, pos) {
            Some(n) => Some((ParsedContent::Number(n), pos + 4)),
            None => None,
        }
    } else {
        match parse_text(d, pos) {
            Some((text, end)) => Some((ParsedContent::Text(text), end)),
            None => None,
        }
    }
}

} // verus!

verus! {

fn shape_types_exec(count: u32) -> (r: Option<Vec<u32>>)
    ensures
        match r {
            Some(v) => shape_types(count) == Some(v@),
            None => shape_types(count) is None,
        },
{
    if count == 0 {
        Some(Vec::new())
    } else if count == 1 {
        Some(vec![0u32])
    } else if count == 2 {
        Some(vec![0u32, 0u32])
    } else if count == 5 {
        Some(vec![0u32, 1u32, 0u32, 0u32, 0u32])
    } else {
        None
    }
}

fn take_text(c: ParsedContent) -> (t: Vec<u8>)
    ensures
        t@ == text_of(c@),
{
    match c {
        ParsedContent::Text(t) => t,
        ParsedContent::Number(_) => Vec::new(),
    }
}

fn take_number(c: &ParsedContent) -> (n: u32)
    ensures
        n == number_of(c@),
{
    match c {
        ParsedContent::Number(n) => *n,
        ParsedContent::Text(_) => 0,
    }
}

fn strings_from_contents(cs: Vec<ParsedContent>) -> (r: Option<ItemStrings>)
    ensures
        opt_strings_view(r) == strings_of(cs@.map_values(|c: ParsedContent| c@)),
{
    let ghost model = cs@.map_values(|c: ParsedContent| c@);
    let mut cs = cs;
    if cs.len() == 1 {
        let name = take_text(cs.pop().unwrap());
        Some(ItemStrings::Name { name })
    } else if cs.len() == 2 {
        let description = take_text(cs.pop().unwrap());
        let name = take_text(cs.pop().unwrap());
        Some(ItemStrings::Japanese { name, description })
    } else if cs.len() == 5 {
        let description = take_text(cs.pop().unwrap());
        let plural_name = take_text(cs.pop().unwrap());
        let singular_name = take_text(cs.pop().unwrap());
        let article = cs.pop().unwrap();
        let article_type = take_number(&article);
        let name = take_text(cs.pop().unwrap());
        Some(ItemStrings::English { name, article_type, singular_name, plural_name, description })
    } else {
        None
    }
}

/// Reads the string section at `start` of the record data `d`.
pub fn parse_strings(d: &[u8], start: usize) -> (r: Option<(Option<ItemStrings>, usize)>)
    requires
        d@.len() <= 640,
    ensures
        match r {
            Some((s, end)) => parse_strings_spec(d@, start as int) == Some(
                (opt_strings_view(s), end as int),
            ),
            None => parse_strings_spec(d@, start as int) is None,
        },
{
    reveal(parse_strings_spec);
    if start > d.len() || d.len() - start < 4 {
        return None;
    }
    let count = crate::bytes::read_u32(d, start).unwrap();
    if count > 9 || start + 4 + 8 * (count as usize) > d.len() {
        return None;
    }
    let types = match shape_types_exec(count) {
        Some(types) => types,
        None => {
            return None;
        },
    };
    let mut cs: Vec<ParsedContent> = Vec::new();
    let mut pos: usize = start + 4 + 8 * types.len();
    let mut i: usize = 0;
    while i < types.len()
        invariant
            d@.len() <= 640,
            shape_types(count) == Some(types@),
            count == u32_at(d@, start as int),
            count <= 9,
            start + 4 <= d@.len(),
            types@.len() == count,
            start + 4 + 8 * count <= d@.len(),
            i <= types@.len(),
            start <= pos,
            parse_contents_spec(d@, start as int, types@, i as int) == Some(
                (cs@.map_values(|c: ParsedContent| c@), pos as int),
            ),
        decreases types@.len() - i,
    {
        match parse_content(d, start, i, types[i], pos) {
            Some((c, end)) => {
                let ghost old_cs = cs@.map_values(|c: ParsedContent| c@);
                proof {
                    assert(parse_contents_spec(d@, start as int, types@, i + 1) == Some(
                        (old_cs.push(c@), end as int),
                    ));
                }
                cs.push(c);
                pos = end;
                i = i + 1;
                assert(cs@.map_values(|c: ParsedContent| c@) =~= old_cs.push(c@));
            },
            None => {
                proof {
                    assert(parse_contents_spec(d@, start as int, types@, i + 1) is None);
                    lemma_parse_contents_none(d@, start as int, types@, i + 1, types@.len() as int);
                    reveal(parse_strings_spec);
                    assert(parse_strings_spec(d@, start as int) is None);
                }
                return None;
            },
        }
    }
    let strings = strings_from_contents(cs);
    Some((strings, pos))
}

} // verus!

verus! {

/// The section entry that a parsed entry is written back as.
pub open spec fn framed(c: ParsedContentModel) -> (u32, Seq<u8>) {
    match c {
        ParsedContentModel::Number(n) => (1u32, u32_bytes(n)),
        ParsedContentModel::Text(t) => (0u32, string_block(t)),
    }
}

pub open spec fn framed_all(cs: Seq<ParsedContentModel>) -> Seq<(u32, Seq<u8>)> {
    cs.map_values(|c: ParsedContentModel| framed(c))
}

proof fn lemma_parse_text_bytes(d: Seq<u8>, pos: int)
    requires
        0 <= pos,
        parse_text_spec(d, pos) is Some,
    ensures
        ({
            let (t, end) = parse_text_spec(d, pos)->0;
            &&& pos < end <= d.len()
            &&& (end - pos) % 4 == 0
            &&& string_block(t) == d.subrange(pos, end)
        }),
{
    let (t, end) = parse_text_spec(d, pos)->0;
    let z = first_zero(d, pos + 28);
    lemma_first_zero(d, pos + 28);
    let pad = spec_padding(z - (pos + 28) + 1);
    crate::bytes::lemma_u32_bytes_of_read(d, pos);
    assert(d.subrange(pos, pos + 4) == u32_bytes(1));
    assert(d.subrange(pos + 4, pos + 28) =~= zeros(24));
    assert(d.subrange(z, z + 1 + pad) =~= zeros((1 + pad) as nat));
    assert(t.len() == z - (pos + 28));
    assert(string_block(t) =~= d.subrange(pos, pos + 4) + d.subrange(pos + 4, pos + 28)
        + d.subrange(pos + 28, z) + d.subrange(z, z + 1 + pad));
    assert(string_block(t) =~= d.subrange(pos, end));
}

proof fn lemma_parse_content_bytes(d: Seq<u8>, start: int, i: int, t: u32, pos: int)
    requires
        0 <= start <= pos,
        0 <= i,
        start + 12 + 8 * i <= d.len(),
        t == 0 || t == 1,
        parse_content_spec(d, start, i, t, pos) is Some,
    ensures
        ({
            let (c, end) = parse_content_spec(d, start, i, t, pos)->0;
            &&& pos < end <= d.len()
            &&& (end - pos) % 4 == 0
            &&& framed(c).0 == t
            &&& framed(c).1 == d.subrange(pos, end)
            &&& d.subrange(start + 4 + 8 * i, start + 12 + 8 * i) == u32_bytes((pos - start) as u32)
                + u32_bytes(t)
        }),
{
    reveal(parse_content_spec);
    crate::bytes::lemma_u32_bytes_of_read(d, start + 4 + 8 * i);
    crate::bytes::lemma_u32_bytes_of_read(d, start + 8 + 8 * i);
    assert(d.subrange(start + 4 + 8 * i, start + 12 + 8 * i) =~= d.subrange(
        start + 4 + 8 * i,
        start + 8 + 8 * i,
    ) + d.subrange(start + 8 + 8 * i, start + 12 + 8 * i));
    if t == 1 {
        crate::bytes::lemma_u32_bytes_of_read(d, pos);
    } else {
        lemma_parse_text_bytes(d, pos);
    }
}

proof fn lemma_framed_push(cs: Seq<ParsedContentModel>, c: ParsedContentModel)
    ensures
        framed_all(cs.push(c)) == framed_all(cs).push(framed(c)),
        framed_all(cs).len() == cs.len(),
{
    assert(framed_all(cs.push(c)) =~= framed_all(cs).push(framed(c)));
}

proof fn lemma_sections_push(fs: Seq<(u32, Seq<u8>)>, f: (u32, Seq<u8>), base: int)
    ensures
        contents_bytes(fs.push(f)) == contents_bytes(fs) + f.1,
        metas_bytes(fs.push(f), base) == metas_bytes(fs, base) + u32_bytes(
            (base + contents_bytes(fs).len()) as u32,
        ) + u32_bytes(f.0),
{
    assert(fs.push(f).drop_last() =~= fs);
}

#[verifier::spinoff_prover]
#[verifier::rlimit(50)]
proof fn lemma_parse_contents_bytes(d: Seq<u8>, start: int, types: Seq<u32>, n: int)
    requires
        0 <= start,
        0 <= n <= types.len(),
        start + 4 + 8 * types.len() <= d.len(),
        forall|j: int| 0 <= j < types.len() ==> types[j] == 0 || types[j] == 1,
        parse_contents_spec(d, start, types, n) is Some,
    ensures
        ({
            let (cs, pos) = parse_contents_spec(d, start, types, n)->0;
            let k = types.len() as int;
            &&& cs.len() == n
            &&& start + 4 + 8 * k <= pos <= d.len()
            &&& (pos - start) % 4 == 0
            &&& forall|j: int| 0 <= j < n ==> (#[trigger] framed_all(cs)[j]).0 == types[j]
            &&& contents_bytes(framed_all(cs)) == d.subrange(start + 4 + 8 * k, pos)
            &&& metas_bytes(framed_all(cs), 4 + 8 * k) == d.subrange(start + 4, start + 4 + 8 * n)
        }),
    decreases n,
{
    let k = types.len() as int;
    let base = start + 4 + 8 * k;
    if n == 0 {
        let (cs, pos) = parse_contents_spec(d, start, types, n)->0;
        assert(framed_all(cs) =~= seq![]);
        assert(d.subrange(base, pos) =~= seq![]);
        assert(d.subrange(start + 4, start + 4) =~= seq![]);
    } else {
        lemma_parse_contents_bytes(d, start, types, n - 1);
        let (prev, pos) = parse_contents_spec(d, start, types, n - 1)->0;
        let (c, end) = parse_content_spec(d, start, n - 1, types[n - 1], pos)->0;
        lemma_parse_content_bytes(d, start, n - 1, types[n - 1], pos);
        let fprev = framed_all(prev);
        lemma_framed_push(prev, c);
        lemma_sections_push(fprev, framed(c), 4 + 8 * k);
        assert(d.subrange(base, end) =~= d.subrange(base, pos) + d.subrange(pos, end));
        assert(d.subrange(start + 4, start + 4 + 8 * n) =~= d.subrange(
            start + 4,
            start + 4 + 8 * (n - 1),
        ) + d.subrange(start + 4 + 8 * (n - 1), start + 12 + 8 * (n - 1)));
    }
}

/// What the string section reader accepts is written back byte for byte.
pub proof fn lemma_strings_section_round_trip(d: Seq<u8>, start: int)
    requires
        0 <= start,
        parse_strings_spec(d, start) is Some,
    ensures
        ({
            let (s, end) = parse_strings_spec(d, start)->0;
            &&& start < end <= d.len()
            &&& (end - start) % 4 == 0
            &&& section_bytes(strings_contents(s)) == d.subrange(start, end)
        }),
{
    reveal(parse_strings_spec);
    reveal(section_bytes);
    reveal(strings_contents);
    let count = u32_at(d, start);
    let types = shape_types(count)->0;
    lemma_parse_contents_bytes(d, start, types, types.len() as int);
    let (cs, end) = parse_contents_spec(d, start, types, types.len() as int)->0;
    let fs = framed_all(cs);
    assert(strings_contents(strings_of(cs)) =~= fs) by {
        if count == 5 {
            assert(fs[0].0 == 0 && fs[1].0 == 1 && fs[2].0 == 0 && fs[3].0 == 0 && fs[4].0 == 0);
            assert(cs[1] is Number);
            assert(cs[0] is Text);
            assert(cs[2] is Text);
            assert(cs[3] is Text);
            assert(cs[4] is Text);
        } else if count == 2 {
            assert(fs[0].0 == 0 && fs[1].0 == 0);
            assert(cs[0] is Text);
            assert(cs[1] is Text);
        } else if count == 1 {
            assert(fs[0].0 == 0);
            assert(cs[0] is Text);
        }
    }
    crate::bytes::lemma_u32_bytes_of_read(d, start);
    assert(fs.len() == count);
    assert(section_bytes(fs) =~= d.subrange(start, start + 4) + d.subrange(
        start + 4,
        start + 4 + 8 * count,
    ) + d.subrange(start + 4 + 8 * count, end));
    assert(section_bytes(fs) =~= d.subrange(start, end));
}

} // verus!


verus! {

pub open spec fn contents_view(cs: Seq<ItemStringContent>) -> Seq<(u32, Seq<u8>)> {
    cs.map_values(|c: ItemStringContent| c@)
}

/// The section entries that encode `strings`.
pub fn strings_to_contents(strings: &Option<ItemStrings>) -> (r: Vec<ItemStringContent>)
    ensures
        contents_view(r@) == strings_contents(opt_strings_view(*strings)),
{
    reveal(strings_contents);
    let mut r: Vec<ItemStringContent> = Vec::new();
    match strings {
        None => {},
        Some(ItemStrings::Name { name }) => {
            r.push(ItemStringContent::from_bytes(name.as_slice()));
        },
        Some(ItemStrings::Japanese { name, description }) => {
            r.push(ItemStringContent::from_bytes(name.as_slice()));
            r.push(ItemStringContent::from_bytes(description.as_slice()));
        },
        Some(
            ItemStrings::English { name, article_type, singular_name, plural_name, description },
        ) => {
            r.push(ItemStringContent::from_bytes(name.as_slice()));
            r.push(ItemStringContent::from_article(*article_type));
            r.push(ItemStringContent::from_bytes(singular_name.as_slice()));
            r.push(ItemStringContent::from_bytes(plural_name.as_slice()));
            r.push(ItemStringContent::from_bytes(description.as_slice()));
        },
    }
    assert(contents_view(r@) =~= strings_contents(opt_strings_view(*strings)));
    r
}

fn content_len(c: &ItemStringContent) -> (n: usize)
    ensures
        n == c@.1.len(),
{
    match c {
        ItemStringContent::Number(_) => 4,
        ItemStringContent::StringBytes(b) => b.len(),
    }
}

proof fn lemma_contents_push(cs: Seq<ItemStringContent>, c: ItemStringContent)
    ensures
        contents_view(cs.push(c)) == contents_view(cs).push(c@),
        contents_view(cs).len() == cs.len(),
{
    assert(contents_view(cs.push(c)) =~= contents_view(cs).push(c@));
}

proof fn lemma_section_push(fs: Seq<(u32, Seq<u8>)>, f: (u32, Seq<u8>), base: int)
    ensures
        contents_bytes(fs.push(f)) == contents_bytes(fs) + f.1,
        metas_bytes(fs.push(f), base) == metas_bytes(fs, base) + u32_bytes(
            (base + contents_bytes(fs).len()) as u32,
        ) + u32_bytes(f.0),
{
    assert(fs.push(f).drop_last() =~= fs);
}

pub proof fn lemma_metas_len(fs: Seq<(u32, Seq<u8>)>, base: int)
    ensures
        metas_bytes(fs, base).len() == 8 * fs.len(),
    decreases fs.len(),
{
    if fs.len() > 0 {
        lemma_metas_len(fs.drop_last(), base);
    }
}

/// Total size of the first `i` entries.
pub open spec fn lens_upto(cs: Seq<ItemStringContent>, i: int) -> int
    decreases i,
{
    if i <= 0 {
        0
    } else {
        lens_upto(cs, i - 1) + cs[i - 1]@.1.len()
    }
}

proof fn lemma_lens_upto(cs: Seq<ItemStringContent>, i: int)
    requires
        0 <= i <= cs.len(),
    ensures
        lens_upto(cs, i) == contents_bytes(contents_view(cs.subrange(0, i))).len(),
    decreases i,
{
    if i == 0 {
        assert(contents_view(cs.subrange(0, 0)) =~= seq![]);
    } else {
        lemma_lens_upto(cs, i - 1);
        assert(cs.subrange(0, i) =~= cs.subrange(0, i - 1).push(cs[i - 1]));
        lemma_contents_push(cs.subrange(0, i - 1), cs[i - 1]);
        lemma_section_push(contents_view(cs.subrange(0, i - 1)), cs[i - 1]@, 0);
    }
}

proof fn lemma_lens_upto_mono(cs: Seq<ItemStringContent>, i: int, j: int)
    requires
        0 <= i <= j <= cs.len(),
    ensures
        8 * i + lens_upto(cs, i) <= 8 * j + lens_upto(cs, j),
    decreases j - i,
{
    if i < j {
        lemma_lens_upto_mono(cs, i, j - 1);
    }
}

fn entries_total(contents: &Vec<ItemStringContent>, limit: usize) -> (n: Option<usize>)
    requires
        limit <= 65536,
    ensures
        match n {
            Some(n) => n == 4 + 8 * contents@.len() + lens_upto(contents@, contents@.len() as int)
                && n <= limit + 4,
            None => 4 + 8 * contents@.len() + lens_upto(contents@, contents@.len() as int) > limit,
        },
{
    let mut total: usize = 4;
    let mut i: usize = 0;
    while i < contents.len()
        invariant
            i <= contents@.len(),
            limit <= 65536,
            total <= limit + 4,
            total == 4 + 8 * i + lens_upto(contents@, i as int),
        decreases contents@.len() - i,
    {
        let len = content_len(&contents[i]);
        assert(lens_upto(contents@, i + 1) == lens_upto(contents@, i as int) + len);
        if len > limit || total + 8 > limit + 4 - len {
            proof {
                lemma_lens_upto_mono(contents@, i + 1, contents@.len() as int);
            }
            return None;
        }
        total = total + 8 + len;
        i = i + 1;
    }
    Some(total)
}

/// Total size of the section that holds `contents`, or `None` when it
/// exceeds `limit`.
pub fn section_len(contents: &Vec<ItemStringContent>, limit: usize) -> (n: Option<usize>)
    requires
        limit <= 65536,
    ensures
        match n {
            Some(n) => n == section_bytes(contents_view(contents@)).len() && n <= limit,
            None => section_bytes(contents_view(contents@)).len() > limit,
        },
{
    reveal(section_bytes);
    proof {
        lemma_metas_len(contents_view(contents@), 4 + 8 * contents@.len() as int);
        assert(contents_view(contents@).len() == contents@.len());
        lemma_lens_upto(contents@, contents@.len() as int);
        assert(contents@.subrange(0, contents@.len() as int) =~= contents@);
    }
    match entries_total(contents, limit) {
        Some(total) => {
            if total > limit {
                None
            } else {
                Some(total)
            }
        },
        None => None,
    }
}

} // verus!

verus! {

proof fn lemma_prefix_push(cs: Seq<ItemStringContent>, i: int)
    requires
        0 <= i < cs.len(),
    ensures
        contents_view(cs.subrange(0, i + 1)) == contents_view(cs.subrange(0, i)).push(cs[i]@),
{
    assert(cs.subrange(0, i + 1) =~= cs.subrange(0, i).push(cs[i]));
    lemma_contents_push(cs.subrange(0, i), cs[i]);
}

fn push_content(out: &mut Vec<u8>, c: &ItemStringContent)
    ensures
        final(out)@ == old(out)@ + c@.1,
{
    match c {
        ItemStringContent::Number(n) => crate::bytes::push_u32(out, *n),
        ItemStringContent::StringBytes(b) => crate::bytes::push_bytes(out, b.as_slice()),
    }
}

fn content_type(c: &ItemStringContent) -> (t: u32)
    ensures
        t == c@.0,
{
    match c {
        ItemStringContent::Number(_) => 1,
        ItemStringContent::StringBytes(_) => 0,
    }
}

/// Appends the string section that holds `contents`.
pub fn write_section(out: &mut Vec<u8>, contents: &Vec<ItemStringContent>)
    requires
        section_bytes(contents_view(contents@)).len() <= 65536,
    ensures
        final(out)@ == old(out)@ + section_bytes(contents_view(contents@)),
{
    reveal(section_bytes);
    let ghost start = out@;
    let ghost cv = contents_view(contents@);
    let n = contents.len();
    proof {
        lemma_metas_len(cv, 4 + 8 * n as int);
        assert(cv.len() == n);
        lemma_lens_upto(contents@, n as int);
        assert(contents@.subrange(0, n as int) =~= contents@);
    }
    crate::bytes::push_u32(out, n as u32);
    let base: u32 = 4 + 8 * (n as u32);
    let mut offset: u32 = base;
    let mut i: usize = 0;
    while i < n
        invariant
            n == contents@.len(),
            cv == contents_view(contents@),
            i <= n,
            base == 4 + 8 * n,
            lens_upto(contents@, n as int) == contents_bytes(cv).len(),
            4 + 8 * n + contents_bytes(cv).len() <= 65536,
            offset == base + lens_upto(contents@, i as int),
            out@ == start + u32_bytes(n as u32) + metas_bytes(
                contents_view(contents@.subrange(0, i as int)),
                base as int,
            ),
        decreases n - i,
    {
        proof {
            lemma_prefix_push(contents@, i as int);
            lemma_lens_upto(contents@, i as int);
            lemma_section_push(
                contents_view(contents@.subrange(0, i as int)),
                contents@[i as int]@,
                base as int,
            );
            lemma_lens_upto_mono(contents@, i + 1, n as int);
        }
        crate::bytes::push_u32(out, offset);
        crate::bytes::push_u32(out, content_type(&contents[i]));
        let len = content_len(&contents[i]);
        assert(lens_upto(contents@, i + 1) == lens_upto(contents@, i as int) + len);
        offset = offset + len as u32;
        i = i + 1;
        assert(out@ =~= start + u32_bytes(n as u32) + metas_bytes(
            contents_view(contents@.subrange(0, i as int)),
            base as int,
        ));
    }
    let ghost after_metas = out@;
    let mut j: usize = 0;
    while j < n
        invariant
            n == contents@.len(),
            cv == contents_view(contents@),
            j <= n,
            out@ == after_metas + contents_bytes(contents_view(contents@.subrange(0, j as int))),
        decreases n - j,
    {
        proof {
            lemma_prefix_push(contents@, j as int);
            lemma_section_push(
                contents_view(contents@.subrange(0, j as int)),
                contents@[j as int]@,
                0,
            );
        }
        push_content(out, &contents[j]);
        j = j + 1;
        assert(out@ =~= after_metas + contents_bytes(contents_view(contents@.subrange(0, j as int))));
    }
    assert(out@ =~= start + section_bytes(cv));
}

} // verus!
