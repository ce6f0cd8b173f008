use vstd::prelude::*;
use vstd::string::{StrSliceExecFns, StringExecFns};
use crate::dat_path::{logical_path_chars, DatPath};
use crate::text::{lower_char, str_equal};

verus! {

/// Whether `c` is an ASCII upper-case letter.
pub open spec fn is_upper(c: char) -> bool {
    'A' <= c <= 'Z'
}

/// `name` in snake case: each ASCII upper-case letter lower-cased, and
/// preceded by `_` unless it opens the name.
pub open spec fn snake_case_spec(name: Seq<char>) -> Seq<char>
    decreases name.len(),
{
    if name.len() == 0 {
        Seq::empty()
    } else {
        let c = name.last();
        let rest = snake_case_spec(name.drop_last());
        if is_upper(c) {
            if name.len() > 1 {
                rest + seq!['_', lower_char(c)]
            } else {
                rest + seq![lower_char(c)]
            }
        } else {
            rest.push(c)
        }
    }
}

/// The resource name of a descriptor name, in snake case.
pub fn snake_case(name: &str) -> (r: String)
    ensures
        r@ == snake_case_spec(name@),
{
    let n = name.unicode_len();
    let mut out = String::new();
    let mut i: usize = 0;
    while i < n
        invariant
            n == name@.len(),
            i <= n,
            out@ == snake_case_spec(name@.subrange(0, i as int)),
        decreases n - i,
    {
        let c = name.get_char(i);
        let ghost before = out@;
        assert(name@.subrange(0, i + 1).drop_last() =~= name@.subrange(0, i as int));
        assert(name@.subrange(0, i + 1).last() == c);
        if 'A' <= c && c <= 'Z' {
            if i > 0 {
                proof {
                    reveal_strlit("_");
                }
                out.append("_");
            }
            let piece = name.substring_char(i, i + 1);
            let lowered = crate::text::ascii_lowercase(piece);
            assert(piece@ =~= seq![c]);
            assert(lowered@ =~= seq![lower_char(c)]);
            out.append(lowered.as_str());
        } else {
            let piece = name.substring_char(i, i + 1);
            assert(piece@ =~= seq![c]);
            out.append(piece);
        }
        assert(out@ =~= snake_case_spec(name@.subrange(0, i + 1)));
        i = i + 1;
    }
    assert(name@.subrange(0, n as int) =~= name@);
    out
}

/// Whether a resource's text is exported in the item catalogue instead.
pub open spec fn in_item_catalog(name: Seq<char>) -> bool {
    name == "GeneralItems"@ || name == "UsableItems"@ || name == "Weapons"@ || name == "Armor"@
        || name == "PuppetItems"@ || name == "Currency"@
}

/// The catalogue a resource's text is exported in, if it is not exported
/// with the resource.
pub fn normalized_catalog(resource_name: &str) -> (r: Option<&'static str>)
    ensures
        match r {
            Some(c) => in_item_catalog(resource_name@) && c@ == "items.json"@,
            None => !in_item_catalog(resource_name@),
        },
{
    if str_equal(resource_name, "GeneralItems") || str_equal(resource_name, "UsableItems")
        || str_equal(resource_name, "Weapons") || str_equal(resource_name, "Armor")
        || str_equal(resource_name, "PuppetItems") || str_equal(resource_name, "Currency") {
        Some("items.json")
    } else {
        None
    }
}

/// How a language source of a client resource came out.
#[derive(Clone, Copy, Debug, PartialEq, Eq, Structural)]
pub enum SourceStatus {
    /// The client's package holds the DAT (and it decoded, where decoded).
    Selected,
    /// The client's tables map the DAT, but no package file holds it.
    Missing,
    /// The client's tables do not hold the DAT ID.
    Absent,
    /// The DAT is there but did not decode.
    DecodeFailed,
}

/// One language source of a client resource: the DAT ID, where it lies and
/// how it came out. Where `has_data`, the decoded resource goes with it.
#[derive(Debug)]
pub struct ResourceSource {
    pub japanese: bool,
    pub dat_id: u32,
    pub status: SourceStatus,
    pub logical_path: Option<String>,
    pub selected_path: Option<String>,
    pub has_data: bool,
    pub error: Option<String>,
    pub normalized_catalog: Option<&'static str>,
}

impl ResourceSource {
    /// The language of the source.
    pub fn language(&self) -> (s: &'static str)
        ensures
            s@ == (if self.japanese { "japanese"@ } else { "english"@ }),
    {
        if self.japanese {
            proof {
                reveal_strlit("japanese");
            }
            "japanese"
        } else {
            proof {
                reveal_strlit("english");
            }
            "english"
        }
    }
}

/// Whether a source is decoded: the client holds it, and its text is not
/// exported in another catalogue.
pub fn needs_decode(logical_path: Option<DatPath>, selected_path: &Option<String>, normalized_catalog: Option<&'static str>) -> (r: bool)
    ensures
        r == (logical_path is Some && selected_path is Some && normalized_catalog is None),
{
    logical_path.is_some() && selected_path.is_some() && normalized_catalog.is_none()
}

/// The record of one language source, from what the lookups found: the DAT
/// path the client's tables give its ID (`None`: absent), the package file
/// that holds it (`None`: missing) and, where it was decoded, the decoder's
/// error (`None`: it decoded).
pub fn resource_source(
    japanese: bool,
    dat_id: u32,
    logical_path: Option<DatPath>,
    selected_path: Option<String>,
    normalized_catalog: Option<&'static str>,
    decode_error: Option<String>,
) -> (r: ResourceSource)
    ensures
        r.japanese == japanese,
        r.dat_id == dat_id,
        r.normalized_catalog == normalized_catalog,
        match logical_path {
            None => r.status == SourceStatus::Absent && r.logical_path is None && r.selected_path is None
                && !r.has_data && r.error is None,
            Some(p) => (r.logical_path matches Some(l) && l@ == logical_path_chars(p)) && match selected_path {
                None => r.status == SourceStatus::Missing && r.selected_path is None && !r.has_data
                    && r.error is None,
                Some(sel) => (r.selected_path matches Some(t) && t@ == sel@) && if normalized_catalog is Some {
                    r.status == SourceStatus::Selected && !r.has_data && r.error is None
                } else {
                    match decode_error {
                        None => r.status == SourceStatus::Selected && r.has_data && r.error is None,
                        Some(e) => r.status == SourceStatus::DecodeFailed && !r.has_data && (
                        r.error matches Some(t) && t@ == e@),
                    }
                },
            },
        },
{
    match logical_path {
        None => ResourceSource {
            japanese,
            dat_id,
            status: SourceStatus::Absent,
            logical_path: None,
            selected_path: None,
            has_data: false,
            error: None,
            normalized_catalog,
        },
        Some(p) => {
            let logical = p.logical_path();
            match selected_path {
                None => ResourceSource {
                    japanese,
                    dat_id,
                    status: SourceStatus::Missing,
                    logical_path: Some(logical),
                    selected_path: None,
                    has_data: false,
                    error: None,
                    normalized_catalog,
                },
                Some(sel) => {
                    if normalized_catalog.is_some() {
                        ResourceSource {
                            japanese,
                            dat_id,
                            status: SourceStatus::Selected,
                            logical_path: Some(logical),
                            selected_path: Some(sel),
                            has_data: false,
                            error: None,
                            normalized_catalog,
                        }
                    } else {
                        match decode_error {
                            None => ResourceSource {
                                japanese,
                                dat_id,
                                status: SourceStatus::Selected,
                                logical_path: Some(logical),
                                selected_path: Some(sel),
                                has_data: true,
                                error: None,
                                normalized_catalog,
                            },
                            Some(e) => ResourceSource {
                                japanese,
                                dat_id,
                                status: SourceStatus::DecodeFailed,
                                logical_path: Some(logical),
                                selected_path: Some(sel),
                                has_data: false,
                                error: Some(e),
                                normalized_catalog,
                            },
                        }
                    }
                },
            }
        },
    }
}

} // verus!
