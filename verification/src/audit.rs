use vstd::prelude::*;
use vstd::string::StringExecFns;
use crate::text::{decimal_chars, hex_chars, push_decimal, push_hex};
use crate::bytes::{rotate_seq, u16_at, u32_at};
use crate::error::DatError;
use crate::formats::dialog::{dialog_bytes, dialog_error, dialog_writable, parsed_dialog, valid_dialog, Dialog};
use crate::formats::entity_names::{
    entity_bytes, entity_error, entity_records, names_fit, none_marker, valid_entity_bytes, EntityNames,
};
use crate::formats::status_info::{infos_bytes, infos_writable, status_parse_spec, StatusInfoTable};
use crate::formats::item_info::{parse_entry_spec, parse_table_spec, ItemInfoTable, ENTRY_SIZE};
use crate::formats::xistring_table::{
    entry_count_of, nonzero_metadata, parsed_strings, table_bytes, table_writable, valid_xistring,
    xistring_error, xistring_magic, XiStringTable,
};

verus! {

/// The DAT formats an audit can recognise, in the order in which they are
/// tried.
#[derive(Clone, Copy, Debug, PartialEq, Eq, Structural, Hash, PartialOrd, Ord)]
pub enum FormatKind {
    AutoTranslate,
    Dialog,
    DmsgTable,
    EntityNames,
    Events,
    FurnitureData,
    ItemInfoTable,
    MenuTable,
    MeritCategoryTable,
    MeritTable,
    StatusInfoTable,
    StringTable,
    XiStringTable,
    ZoneData,
}

/// Number of recognised formats.
pub const FORMAT_COUNT: usize = 14;

/// The format at position `r` of the declaration order.
pub open spec fn kind_at(r: int) -> FormatKind {
    if r == 0 {
        FormatKind::AutoTranslate
    } else if r == 1 {
        FormatKind::Dialog
    } else if r == 2 {
        FormatKind::DmsgTable
    } else if r == 3 {
        FormatKind::EntityNames
    } else if r == 4 {
        FormatKind::Events
    } else if r == 5 {
        FormatKind::FurnitureData
    } else if r == 6 {
        FormatKind::ItemInfoTable
    } else if r == 7 {
        FormatKind::MenuTable
    } else if r == 8 {
        FormatKind::MeritCategoryTable
    } else if r == 9 {
        FormatKind::MeritTable
    } else if r == 10 {
        FormatKind::StatusInfoTable
    } else if r == 11 {
        FormatKind::StringTable
    } else if r == 12 {
        FormatKind::XiStringTable
    } else {
        FormatKind::ZoneData
    }
}

impl FormatKind {
    /// Position of the format in the declaration order.
    pub open spec fn rank(self) -> int {
        match self {
            FormatKind::AutoTranslate => 0,
            FormatKind::Dialog => 1,
            FormatKind::DmsgTable => 2,
            FormatKind::EntityNames => 3,
            FormatKind::Events => 4,
            FormatKind::FurnitureData => 5,
            FormatKind::ItemInfoTable => 6,
            FormatKind::MenuTable => 7,
            FormatKind::MeritCategoryTable => 8,
            FormatKind::MeritTable => 9,
            FormatKind::StatusInfoTable => 10,
            FormatKind::StringTable => 11,
            FormatKind::XiStringTable => 12,
            FormatKind::ZoneData => 13,
        }
    }

    /// The report name of the format.
    pub open spec fn name_chars(self) -> Seq<char> {
        match self {
            FormatKind::AutoTranslate => "auto_translate"@,
            FormatKind::Dialog => "dialog"@,
            FormatKind::DmsgTable => "dmsg_table"@,
            FormatKind::EntityNames => "entity_names"@,
            FormatKind::Events => "events"@,
            FormatKind::FurnitureData => "furniture_data"@,
            FormatKind::ItemInfoTable => "item_info_table"@,
            FormatKind::MenuTable => "menu_table"@,
            FormatKind::MeritCategoryTable => "merit_category_table"@,
            FormatKind::MeritTable => "merit_table"@,
            FormatKind::StatusInfoTable => "status_info_table"@,
            FormatKind::StringTable => "string_table"@,
            FormatKind::XiStringTable => "xi_string_table"@,
            FormatKind::ZoneData => "zone_data"@,
        }
    }

    pub fn index(self) -> (r: usize)
        ensures
            r as int == self.rank(),
            r < FORMAT_COUNT,
    {
        match self {
            FormatKind::AutoTranslate => 0,
            FormatKind::Dialog => 1,
            FormatKind::DmsgTable => 2,
            FormatKind::EntityNames => 3,
            FormatKind::Events => 4,
            FormatKind::FurnitureData => 5,
            FormatKind::ItemInfoTable => 6,
            FormatKind::MenuTable => 7,
            FormatKind::MeritCategoryTable => 8,
            FormatKind::MeritTable => 9,
            FormatKind::StatusInfoTable => 10,
            FormatKind::StringTable => 11,
            FormatKind::XiStringTable => 12,
            FormatKind::ZoneData => 13,
        }
    }

    pub fn from_index(r: usize) -> (f: FormatKind)
        requires
            r < FORMAT_COUNT,
        ensures
            f == kind_at(r as int),
            f.rank() == r as int,
    {
        if r == 0 {
            FormatKind::AutoTranslate
        } else if r == 1 {
            FormatKind::Dialog
        } else if r == 2 {
            FormatKind::DmsgTable
        } else if r == 3 {
            FormatKind::EntityNames
        } else if r == 4 {
            FormatKind::Events
        } else if r == 5 {
            FormatKind::FurnitureData
        } else if r == 6 {
            FormatKind::ItemInfoTable
        } else if r == 7 {
            FormatKind::MenuTable
        } else if r == 8 {
            FormatKind::MeritCategoryTable
        } else if r == 9 {
            FormatKind::MeritTable
        } else if r == 10 {
            FormatKind::StatusInfoTable
        } else if r == 11 {
            FormatKind::StringTable
        } else if r == 12 {
            FormatKind::XiStringTable
        } else {
            FormatKind::ZoneData
        }
    }

    /// The report name of the format.
    pub fn name(self) -> (s: &'static str)
        ensures
            s@ == self.name_chars(),
    {
        match self {
            FormatKind::AutoTranslate => "auto_translate",
            FormatKind::Dialog => "dialog",
            FormatKind::DmsgTable => "dmsg_table",
            FormatKind::EntityNames => "entity_names",
            FormatKind::Events => "events",
            FormatKind::FurnitureData => "furniture_data",
            FormatKind::ItemInfoTable => "item_info_table",
            FormatKind::MenuTable => "menu_table",
            FormatKind::MeritCategoryTable => "merit_category_table",
            FormatKind::MeritTable => "merit_table",
            FormatKind::StatusInfoTable => "status_info_table",
            FormatKind::StringTable => "string_table",
            FormatKind::XiStringTable => "xi_string_table",
            FormatKind::ZoneData => "zone_data",
        }
    }
}

/// Rank and declaration order agree both ways.
pub proof fn lemma_rank_kind(f: FormatKind, r: int)
    ensures
        kind_at(f.rank()) == f,
        0 <= r < 14 ==> kind_at(r).rank() == r,
        0 <= f.rank() < 14,
{
}

/// Every recognised format, in the order in which they are tried.
pub fn supported_formats() -> (r: Vec<FormatKind>)
    ensures
        r@.len() == FORMAT_COUNT,
        forall|i: int| 0 <= i < FORMAT_COUNT ==> #[trigger] r@[i] == kind_at(i),
{
    let mut r: Vec<FormatKind> = Vec::new();
    let mut i: usize = 0;
    while i < FORMAT_COUNT
        invariant
            i <= FORMAT_COUNT,
            r@.len() == i,
            forall|j: int| 0 <= j < i ==> #[trigger] r@[j] == kind_at(j),
        decreases FORMAT_COUNT - i,
    {
        r.push(FormatKind::from_index(i));
        i = i + 1;
    }
    r
}

/// What an audit concluded of one DAT.
#[derive(Clone, Copy, Debug, PartialEq, Eq, Structural)]
pub enum AuditStatus {
    Passed,
    Missing,
    Unrecognized,
    Failed,
}

/// Which step of an audit failed.
#[derive(Clone, Copy, Debug, PartialEq, Eq, Structural)]
pub enum FailureKind {
    Missing,
    Read,
    Parse,
    Write,
    RoundTrip,
}

/// The audit of one DAT.
#[derive(Clone, Debug)]
pub struct DatAuditFile {
    pub id: u32,
    pub path: String,
    pub status: AuditStatus,
    pub format: Option<String>,
    pub failure_kind: Option<FailureKind>,
    pub error: Option<String>,
}

/// Counts over the audited DATs.
#[derive(Clone, Copy, Debug, PartialEq, Eq, Structural)]
pub struct AuditSummary {
    pub total: usize,
    pub missing: usize,
    pub recognized: usize,
    pub round_trip_ok: usize,
    pub unrecognized: usize,
    pub failed: usize,
}

/// Number of audits in `files` with status `status`.
pub open spec fn count_status(files: Seq<DatAuditFile>, status: AuditStatus) -> nat
    decreases files.len(),
{
    if files.len() == 0 {
        0
    } else {
        count_status(files.drop_last(), status) + if files.last().status == status {
            1nat
        } else {
            0nat
        }
    }
}

/// Whether the audit recognised the DAT's format: it round-tripped, or it
/// failed after its format was known.
pub open spec fn is_recognized(file: DatAuditFile) -> bool {
    file.status == AuditStatus::Passed || (file.status == AuditStatus::Failed && file.format is Some)
}

/// Number of audits in `files` that recognised the format.
pub open spec fn count_recognized(files: Seq<DatAuditFile>) -> nat
    decreases files.len(),
{
    if files.len() == 0 {
        0
    } else {
        count_recognized(files.drop_last()) + if is_recognized(files.last()) {
            1nat
        } else {
            0nat
        }
    }
}

proof fn lemma_counts_bounded(files: Seq<DatAuditFile>, status: AuditStatus)
    ensures
        count_status(files, status) <= files.len(),
        count_recognized(files) <= files.len(),
    decreases files.len(),
{
    if files.len() > 0 {
        lemma_counts_bounded(files.drop_last(), status);
    }
}

/// Every audited DAT has exactly one status, so the four status counts of a
/// report add up to its total; the recognised DATs are those that passed and
/// those that failed after their format was known.
pub proof fn lemma_status_counts_partition(files: Seq<DatAuditFile>)
    ensures
        count_status(files, AuditStatus::Passed) + count_status(files, AuditStatus::Missing)
            + count_status(files, AuditStatus::Unrecognized) + count_status(files, AuditStatus::Failed)
            == files.len(),
        count_status(files, AuditStatus::Passed) <= count_recognized(files),
        count_recognized(files) <= count_status(files, AuditStatus::Passed) + count_status(
            files,
            AuditStatus::Failed,
        ),
    decreases files.len(),
{
    if files.len() > 0 {
        lemma_status_counts_partition(files.drop_last());
    }
}

/// Totals of an audit report.
pub fn summarize(files: &[DatAuditFile]) -> (summary: AuditSummary)
    ensures
        summary.total == files@.len(),
        summary.missing == count_status(files@, AuditStatus::Missing),
        summary.recognized == count_recognized(files@),
        summary.round_trip_ok == count_status(files@, AuditStatus::Passed),
        summary.unrecognized == count_status(files@, AuditStatus::Unrecognized),
        summary.failed == count_status(files@, AuditStatus::Failed),
{
    let mut summary = AuditSummary {
        total: files.len(),
        missing: 0,
        recognized: 0,
        round_trip_ok: 0,
        unrecognized: 0,
        failed: 0,
    };
    let mut i: usize = 0;
    while i < files.len()
        invariant
            i <= files@.len(),
            summary.total == files@.len(),
            summary.missing == count_status(files@.subrange(0, i as int), AuditStatus::Missing),
            summary.recognized == count_recognized(files@.subrange(0, i as int)),
            summary.round_trip_ok == count_status(files@.subrange(0, i as int), AuditStatus::Passed),
            summary.unrecognized == count_status(
                files@.subrange(0, i as int),
                AuditStatus::Unrecognized,
            ),
            summary.failed == count_status(files@.subrange(0, i as int), AuditStatus::Failed),
        decreases files@.len() - i,
    {
        let ghost prefix = files@.subrange(0, i + 1);
        proof {
            assert(prefix.drop_last() =~= files@.subrange(0, i as int));
            lemma_counts_bounded(prefix, AuditStatus::Passed);
            lemma_counts_bounded(prefix, AuditStatus::Missing);
            lemma_counts_bounded(prefix, AuditStatus::Unrecognized);
            lemma_counts_bounded(prefix, AuditStatus::Failed);
        }
        let file = &files[i];
        match file.status {
            AuditStatus::Passed => {
                summary.recognized = summary.recognized + 1;
                summary.round_trip_ok = summary.round_trip_ok + 1;
            },
            AuditStatus::Missing => {
                summary.missing = summary.missing + 1;
            },
            AuditStatus::Unrecognized => {
                summary.unrecognized = summary.unrecognized + 1;
            },
            AuditStatus::Failed => {
                summary.failed = summary.failed + 1;
                if file.format.is_some() {
                    summary.recognized = summary.recognized + 1;
                }
            },
        }
        i = i + 1;
    }
    assert(files@.subrange(0, files@.len() as int) =~= files@);
    summary
}

/// The audit of a DAT that failed before its format was known.
pub fn failed_file(id: u32, path: String, kind: FailureKind, error: String) -> (file: DatAuditFile)
    ensures
        file.id == id,
        file.path@ == path@,
        file.status == AuditStatus::Failed,
        file.format is None,
        file.failure_kind == Some(kind),
        file.error matches Some(e) && e@ == error@,
{
    DatAuditFile {
        id,
        path,
        status: AuditStatus::Failed,
        format: None,
        failure_kind: Some(kind),
        error: Some(error),
    }
}

/// The audit of a DAT that failed after its format was recognised.
pub fn failed_recognized_file(
    id: u32,
    path: String,
    format: FormatKind,
    kind: FailureKind,
    error: String,
) -> (file: DatAuditFile)
    ensures
        file.id == id,
        file.path@ == path@,
        file.status == AuditStatus::Failed,
        file.format matches Some(f) && f@ == format.name_chars(),
        file.failure_kind == Some(kind),
        file.error matches Some(e) && e@ == error@,
{
    DatAuditFile {
        id,
        path,
        status: AuditStatus::Failed,
        format: Some(String::from_str(format.name())),
        failure_kind: Some(kind),
        error: Some(error),
    }
}


/// The audit of a DAT that is not on disk.
pub fn missing_file(id: u32, path: String, error: String) -> (file: DatAuditFile)
    ensures
        file.id == id,
        file.path@ == path@,
        file.status == AuditStatus::Missing,
        file.format is None,
        file.failure_kind == Some(FailureKind::Missing),
        file.error matches Some(e) && e@ == error@,
{
    DatAuditFile {
        id,
        path,
        status: AuditStatus::Missing,
        format: None,
        failure_kind: Some(FailureKind::Missing),
        error: Some(error),
    }
}

/// The audit of a DAT whose format no probe recognised.
pub fn unrecognized_file(id: u32, path: String) -> (file: DatAuditFile)
    ensures
        file.id == id,
        file.path@ == path@,
        file.status == AuditStatus::Unrecognized,
        file.format is None,
        file.failure_kind is None,
        file.error is None,
{
    DatAuditFile {
        id,
        path,
        status: AuditStatus::Unrecognized,
        format: None,
        failure_kind: None,
        error: None,
    }
}

/// The first index at which `a` and `b` differ, or the shorter length when
/// one is a prefix of the other.
pub open spec fn first_difference_spec(a: Seq<u8>, b: Seq<u8>) -> int
    decreases a.len(),
{
    if a.len() == 0 || b.len() == 0 || a[0] != b[0] {
        0
    } else {
        1 + first_difference_spec(a.drop_first(), b.drop_first())
    }
}

/// The first index at which `a` and `b` differ, or the shorter length when
/// one is a prefix of the other.
pub fn first_difference(a: &[u8], b: &[u8]) -> (k: usize)
    ensures
        k == first_difference_spec(a@, b@),
        k <= a@.len(),
        k <= b@.len(),
        forall|i: int| 0 <= i < k ==> a@[i] == b@[i],
        k < a@.len() && k < b@.len() ==> a@[k as int] != b@[k as int],
{
    let mut k: usize = 0;
    assert(a@.subrange(0, a@.len() as int) =~= a@);
    assert(b@.subrange(0, b@.len() as int) =~= b@);
    while k < a.len() && k < b.len() && a[k] == b[k]
        invariant
            k <= a@.len(),
            k <= b@.len(),
            forall|i: int| 0 <= i < k ==> a@[i] == b@[i],
            first_difference_spec(a@, b@) == k + first_difference_spec(
                a@.subrange(k as int, a@.len() as int),
                b@.subrange(k as int, b@.len() as int),
            ),
        decreases a@.len() - k,
    {
        proof {
            let sa = a@.subrange(k as int, a@.len() as int);
            let sb = b@.subrange(k as int, b@.len() as int);
            assert(sa.drop_first() =~= a@.subrange(k + 1, a@.len() as int));
            assert(sb.drop_first() =~= b@.subrange(k + 1, b@.len() as int));
        }
        k = k + 1;
    }
    k
}

/// The message of a round trip that changed the bytes.
pub open spec fn difference_message(original: Seq<u8>, encoded: Seq<u8>) -> Seq<char> {
    "encoded bytes differ (original length "@ + decimal_chars(original.len()) + ", encoded length "@
        + decimal_chars(encoded.len()) + ", first difference "@ + decimal_chars(
        first_difference_spec(original, encoded) as nat,
    ) + ")"@
}

/// The audit of a recognised DAT from the bytes read and the bytes its
/// format wrote back: it passes when they are equal, and fails as a round
/// trip otherwise, saying where they first differ.
pub fn round_trip_verdict(
    id: u32,
    path: String,
    format: FormatKind,
    original: &[u8],
    encoded: &[u8],
) -> (file: DatAuditFile)
    ensures
        file.id == id,
        file.path@ == path@,
        file.format matches Some(f) && f@ == format.name_chars(),
        original@ == encoded@ ==> file.status == AuditStatus::Passed && file.failure_kind is None
            && file.error is None,
        original@ != encoded@ ==> file.status == AuditStatus::Failed && file.failure_kind == Some(
            FailureKind::RoundTrip,
        ) && (file.error matches Some(e) && e@ == difference_message(original@, encoded@)),
{
    let k = first_difference(original, encoded);
    if original.len() == encoded.len() && k == original.len() {
        assert(original@ =~= encoded@);
        return DatAuditFile {
            id,
            path,
            status: AuditStatus::Passed,
            format: Some(String::from_str(format.name())),
            failure_kind: None,
            error: None,
        };
    }
    let mut message = String::from_str("encoded bytes differ (original length ");
    push_decimal(&mut message, original.len() as u64);
    message.append(", encoded length ");
    push_decimal(&mut message, encoded.len() as u64);
    message.append(", first difference ");
    push_decimal(&mut message, k as u64);
    message.append(")");
    failed_recognized_file(id, path, format, FailureKind::RoundTrip, message)
}


/// A round trip that did not get back to bytes: the step that failed and why.
#[derive(Clone, Debug)]
pub struct RoundTripError {
    pub kind: FailureKind,
    pub message: String,
}

impl RoundTripError {
    pub fn new(kind: FailureKind, message: String) -> (e: RoundTripError)
        ensures
            e.kind == kind,
            e.message@ == message@,
    {
        RoundTripError { kind, message }
    }
}

/// What a codec's error says.
pub open spec fn dat_error_message(e: DatError) -> Seq<char> {
    match e {
        DatError::Malformed => "the bytes do not hold a well-formed DAT of this format"@,
        DatError::Unwritable => "the value cannot be written in this format"@,
        DatError::ItemTableLength(n) => "Length does not match an item info DAT: "@ + decimal_chars(n as nat),
        DatError::StatusInfoLength(n) => "Status info length "@ + decimal_chars(n as nat)
            + " does not match a supported layout: "@,
        DatError::StatusInfoLayouts(n) => "Status info length "@ + decimal_chars(n as nat)
            + " matches multiple supported layouts."@,
        DatError::EntityRecords => "Entity-name DAT must contain a 28-byte header and complete 28-byte records."@,
        DatError::XiStringHeader => "Invalid header values."@,
        DatError::XiStringUnknown1(u) => "unknown1 is "@ + decimal_chars(u as nat),
        DatError::DialogEmptyMarker(m) => "Invalid empty dialog marker 0x"@ + hex_chars(m as nat, 8) + "."@,
        DatError::DialogEmpty => "Possible empty dialog DAT."@,
        DatError::DialogFileSize(size, len) => "Invalid file size "@ + decimal_chars(size as nat)
            + " with byte count "@ + decimal_chars(len as nat) + "."@,
        DatError::DialogStringCount(count, len) => "Invalid shifted string count "@ + decimal_chars(
            count as nat,
        ) + " with byte count "@ + decimal_chars(len as nat) + "."@,
    }
}

/// The codec error of a failed round trip of `b` through format `f`, at
/// step `kind`.
pub open spec fn round_trip_error(f: FormatKind, b: Seq<u8>, kind: FailureKind) -> DatError {
    if kind == FailureKind::Write {
        DatError::Unwritable
    } else if f == FormatKind::Dialog {
        dialog_error(b)
    } else if f == FormatKind::EntityNames {
        entity_error(b)
    } else if f == FormatKind::XiStringTable {
        xistring_error(b)
    } else if f == FormatKind::StatusInfoTable {
        match status_parse_spec(b) {
            Err(e) => e,
            Ok(_) => DatError::Malformed,
        }
    } else if f == FormatKind::ItemInfoTable && b.len() % (ENTRY_SIZE as nat) != 0 {
        DatError::ItemTableLength(b.len() as usize)
    } else {
        DatError::Malformed
    }
}

fn dat_error_text(e: DatError) -> (s: String)
    ensures
        s@ == dat_error_message(e),
{
    match e {
        DatError::Malformed => String::from_str("the bytes do not hold a well-formed DAT of this format"),
        DatError::Unwritable => String::from_str("the value cannot be written in this format"),
        DatError::ItemTableLength(n) => {
            let mut s = String::from_str("Length does not match an item info DAT: ");
            push_decimal(&mut s, n as u64);
            s
        },
        DatError::StatusInfoLength(n) => {
            let mut s = String::from_str("Status info length ");
            push_decimal(&mut s, n as u64);
            s.append(" does not match a supported layout: ");
            s
        },
        DatError::StatusInfoLayouts(n) => {
            let mut s = String::from_str("Status info length ");
            push_decimal(&mut s, n as u64);
            s.append(" matches multiple supported layouts.");
            s
        },
        DatError::EntityRecords => String::from_str(
            "Entity-name DAT must contain a 28-byte header and complete 28-byte records.",
        ),
        DatError::XiStringHeader => String::from_str("Invalid header values."),
        DatError::XiStringUnknown1(u) => {
            let mut s = String::from_str("unknown1 is ");
            push_decimal(&mut s, u as u64);
            s
        },
        DatError::DialogEmptyMarker(m) => {
            let mut s = String::from_str("Invalid empty dialog marker 0x");
            push_hex(&mut s, m as u64, 8);
            s.append(".");
            s
        },
        DatError::DialogEmpty => String::from_str("Possible empty dialog DAT."),
        DatError::DialogFileSize(size, len) => {
            let mut s = String::from_str("Invalid file size ");
            push_decimal(&mut s, size);
            s.append(" with byte count ");
            push_decimal(&mut s, len as u64);
            s.append(".");
            s
        },
        DatError::DialogStringCount(count, len) => {
            let mut s = String::from_str("Invalid shifted string count ");
            push_decimal(&mut s, count as u64);
            s.append(" with byte count ");
            push_decimal(&mut s, len as u64);
            s.append(".");
            s
        },
    }
}

/// What the probe of format `f` says of the bytes `b`: dialogs must read,
/// entity names open with `none`, item tables hold whole records of which
/// the first reads, string tables open with their magic and version 2,
/// status info tables must read.
pub open spec fn probe_spec(f: FormatKind, b: Seq<u8>) -> bool {
    match f {
        FormatKind::StatusInfoTable => status_parse_spec(b) is Ok,
        FormatKind::Dialog => valid_dialog(b),
        FormatKind::EntityNames => b.len() >= 4 && b.subrange(0, 4) == none_marker(),
        FormatKind::ItemInfoTable => b.len() % (ENTRY_SIZE as nat) == 0 && b.len() >= ENTRY_SIZE
            && parse_entry_spec(rotate_seq(b.subrange(0, ENTRY_SIZE as int), 5)) is Some,
        FormatKind::XiStringTable => b.len() >= 12 && b.subrange(0, 10) == xistring_magic() && u16_at(b, 10)
            == 2,
        _ => false,
    }
}

/// What a round trip through the codec of `f` gives for the bytes `b`: the
/// bytes written back, or the step that failed.
pub open spec fn round_trip_spec(f: FormatKind, b: Seq<u8>) -> Option<Result<Seq<u8>, FailureKind>> {
    match f {
        FormatKind::Dialog => Some(
            if !valid_dialog(b) {
                Err(FailureKind::Parse)
            } else if parsed_dialog(b).len() > 0 && !dialog_writable(parsed_dialog(b)) {
                Err(FailureKind::Write)
            } else {
                Ok(dialog_bytes(parsed_dialog(b)))
            },
        ),
        FormatKind::EntityNames => Some(
            if !valid_entity_bytes(b) {
                Err(FailureKind::Parse)
            } else if !names_fit(entity_records(b)) {
                Err(FailureKind::Write)
            } else {
                Ok(entity_bytes(entity_records(b)))
            },
        ),
        FormatKind::ItemInfoTable => Some(
            if parse_table_spec(b) is None {
                Err(FailureKind::Parse)
            } else {
                Ok(b)
            },
        ),
        FormatKind::StatusInfoTable => Some(
            match status_parse_spec(b) {
                Err(_) => Err(FailureKind::Parse),
                Ok((l, infos)) => if infos_writable(infos, l.entry_size_spec() as int) {
                    Ok(infos_bytes(infos, l.entry_size_spec() as int))
                } else {
                    Err(FailureKind::Write)
                },
            },
        ),
        FormatKind::XiStringTable => Some(
            if !valid_xistring(b) {
                Err(FailureKind::Parse)
            } else if !table_writable(parsed_strings(b)) {
                Err(FailureKind::Write)
            } else {
                Ok(table_bytes(u32_at(b, 52), parsed_strings(b), nonzero_metadata(b, entry_count_of(b))))
            },
        ),
        _ => None,
    }
}

impl FormatKind {
    /// Whether the probe of the format accepts `bytes`; no probe of a format
    /// without a codec here accepts anything.
    pub fn check_bytes(self, bytes: &[u8]) -> (r: bool)
        ensures
            r == probe_spec(self, bytes@),
    {
        match self {
            FormatKind::Dialog => Dialog::check_type(bytes),
            FormatKind::EntityNames => EntityNames::check_type(bytes),
            FormatKind::ItemInfoTable => ItemInfoTable::check_type(bytes),
            FormatKind::XiStringTable => XiStringTable::check_type(bytes),
            FormatKind::StatusInfoTable => StatusInfoTable::check_type(bytes),
            _ => false,
        }
    }

    /// Reads `bytes` in the format and writes what was read back; `None` for a
    /// format without a codec here. A failure names the step, with the
    /// codec's message.
    pub fn round_trip(self, bytes: &[u8]) -> (r: Option<Result<Vec<u8>, RoundTripError>>)
        ensures
            match (r, round_trip_spec(self, bytes@)) {
                (None, None) => true,
                (Some(Ok(out)), Some(Ok(expected))) => out@ == expected,
                (Some(Err(e)), Some(Err(kind))) => e.kind == kind && e.message@ == dat_error_message(round_trip_error(self, bytes@, kind)),
                _ => false,
            },
    {
        match self {
            FormatKind::Dialog => Some(
                match Dialog::parse(bytes) {
                    Err(e) => Err(RoundTripError::new(FailureKind::Parse, dat_error_text(e))),
                    Ok(d) => match d.write() {
                        Ok(out) => Ok(out),
                        Err(e) => Err(RoundTripError::new(FailureKind::Write, dat_error_text(e))),
                    },
                },
            ),
            FormatKind::EntityNames => Some(
                match EntityNames::parse(bytes) {
                    Err(e) => Err(RoundTripError::new(FailureKind::Parse, dat_error_text(e))),
                    Ok(names) => match names.write() {
                        Ok(out) => Ok(out),
                        Err(e) => Err(RoundTripError::new(FailureKind::Write, dat_error_text(e))),
                    },
                },
            ),
            FormatKind::ItemInfoTable => Some(
                match ItemInfoTable::parse(bytes) {
                    Err(e) => Err(RoundTripError::new(FailureKind::Parse, dat_error_text(e))),
                    Ok(table) => {
                        proof {
                            crate::formats::item_info::lemma_item_table_round_trip(bytes@);
                            assert forall|i: int| 0 <= i < table.items@.len() implies crate::formats::item_info::writable(
                                #[trigger] table.items@[i]@,
                            ) by {
                                assert(table@[i] == table.items@[i]@);
                            }
                        }
                        match table.write() {
                            Ok(out) => Ok(out),
                            Err(e) => Err(RoundTripError::new(FailureKind::Write, dat_error_text(e))),
                        }
                    },
                },
            ),
            FormatKind::StatusInfoTable => Some(
                match StatusInfoTable::parse(bytes) {
                    Err(e) => Err(RoundTripError::new(FailureKind::Parse, dat_error_text(e))),
                    Ok(table) => match table.write() {
                        Ok(out) => Ok(out),
                        Err(e) => Err(RoundTripError::new(FailureKind::Write, dat_error_text(e))),
                    },
                },
            ),
            FormatKind::XiStringTable => Some(
                match XiStringTable::parse(bytes) {
                    Err(e) => Err(RoundTripError::new(FailureKind::Parse, dat_error_text(e))),
                    Ok(table) => match table.write() {
                        Ok(out) => Ok(out),
                        Err(e) => Err(RoundTripError::new(FailureKind::Write, dat_error_text(e))),
                    },
                },
            ),
            _ => None,
        }
    }
}

} // verus!
