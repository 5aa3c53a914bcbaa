//! `cx infra resources`: validation of the command-line inputs (page window,
//! resource ids, attribute filters, configuration-change windows) and the
//! shaping of API answers into tables and summaries.

use vstd::prelude::*;
use crate::text::{
    decimal, decimal_i64, decimal_nat, decimal_usize, join, join_strings, lex_lt, str_lt,
    trim, trim_ref, views,
};
use crate::timestamp::{nanos_outcome, parse_timestamp_nanos, TimestampError};

pub mod api;
pub mod filter;
pub mod legacy;
pub mod rows;
pub mod table;

verus! {

/// The most resource ids the API reads in one request; it drops the rest
/// without saying so, so a longer list is refused.
pub const MAX_RESOURCE_IDS: usize = 100;

/// The `--start-row` / `--end-row` page window of `list`.
#[derive(Debug, Clone, Copy)]
pub struct PageWindow {
    pub start_row: Option<i64>,
    pub end_row: Option<i64>,
}

/// Per-profile row counts for one `list` invocation. `total_count` is the
/// profile's fleet-wide match count, independent of the page window.
#[derive(Debug, Clone)]
pub struct ProfileCounts {
    pub profile: String,
    pub total_count: i64,
    pub returned_count: usize,
}

// ── Errors ───────────────────────────────────────────────────────────────────

/// Why an infra command refused its input.
#[derive(Debug)]
pub enum InfraError {
    /// A required value was empty once trimmed.
    Empty { field: String },
    NegativeStartRow { start: i64 },
    NegativeEndRow { end: i64 },
    /// `--end-row` at or before `--start-row`.
    EmptyWindow { start: i64, end: i64 },
    MatchMissingEquals { flag: String, entry: String },
    MatchEmptyName { flag: String, entry: String },
    MatchEmptyValue { flag: String, entry: String },
    MatchRepeated { flag: String, field: String },
    MatchInBothGroups { field: String },
    NoResourceIds,
    TooManyResourceIds { given: usize },
    NoProfile { subcommand: String },
    SeveralProfiles { subcommand: String, given: usize },
    ToBeforeFrom { from: String, to: String },
    Timestamp(TimestampError),
    NothingToNarrow,
    LegacyNeedsCategoryAndType,
    ScopeMissingEquals { raw: String },
    ScopeUnknownKey { key: String },
    ScopeEmptyValue { raw: String },
    ScopeRepeated { key: String, existing: String, value: String },
}

impl InfraError {
    pub open spec fn spec_message(&self) -> Seq<char> {
        match self {
            InfraError::Empty { field } => field@ + " must not be empty"@,
            InfraError::NegativeStartRow { start } => "--start-row must not be negative (got "@
                + decimal(*start as int) + "); rows are 0-based"@,
            InfraError::NegativeEndRow { end } => "--end-row must not be negative (got "@
                + decimal(*end as int) + ")"@,
            InfraError::EmptyWindow { start, end } => "--end-row ("@ + decimal(*end as int)
                + ") must be greater than --start-row ("@ + decimal(*start as int)
                + "); --end-row is exclusive, so this window selects no rows"@,
            InfraError::MatchMissingEquals { flag, entry } => "invalid "@ + flag@ + " '"@
                + entry@ + "': expected NAME=VALUE"@,
            InfraError::MatchEmptyName { flag, entry } => "invalid "@ + flag@ + " '"@ + entry@
                + "': attribute name must not be empty"@,
            InfraError::MatchEmptyValue { flag, entry } => "invalid "@ + flag@ + " '"@ + entry@
                + "': value must not be empty"@,
            InfraError::MatchRepeated { flag, field } => flag@ + " attribute '"@ + field@
                + "' given more than once; list its values on one flag instead - "@ + flag@
                + " "@ + field@ + "=a,b"@,
            InfraError::MatchInBothGroups { field } => "attribute '"@ + field@
                + "' appears in both --match-all and --match-any; an attribute belongs to one of them - require it with --match-all, or make it one alternative with --match-any"@,
            InfraError::NoResourceIds => "at least one resource id is required"@,
            InfraError::TooManyResourceIds { given } => decimal_nat(*given as nat)
                + " resource ids given, but the API reads at most 100 per request and drops the rest without saying so. Split the list and re-run."@,
            InfraError::NoProfile { subcommand } => "no profile resolved for `cx infra resources "@
                + subcommand@ + "`"@,
            InfraError::SeveralProfiles { subcommand, given } => "`cx infra resources "@
                + subcommand@ + "` accepts a single profile, but "@ + decimal_nat(*given as nat)
                + " were given; a resource id is scoped to one team and cannot resolve in another profile. Re-run once per profile with a single -p."@,
            InfraError::ToBeforeFrom { from, to } => "--to ("@ + to@ + ") is earlier than --from ("@
                + from@ + ")"@,
            InfraError::Timestamp(e) => e.spec_message(),
            InfraError::NothingToNarrow =>
                "nothing to narrow by; pass at least one of --category, --type, --match-all or --match-any - `cx infra resources filters` lists the attributes this tenant can filter on"@,
            InfraError::LegacyNeedsCategoryAndType =>
                "--name-filter and --scope require both --category and --type"@,
            InfraError::ScopeMissingEquals { raw } => "invalid --scope '"@ + raw@
                + "': expected key=value"@,
            InfraError::ScopeUnknownKey { key } => "unknown --scope key '"@ + key@
                + "'; allowed keys: service, environment, team"@,
            InfraError::ScopeEmptyValue { raw } => "invalid --scope '"@ + raw@
                + "': value must not be empty"@,
            InfraError::ScopeRepeated { key, existing, value } => "--scope key '"@ + key@
                + "' given more than once ('"@ + existing@ + "' then '"@ + value@
                + "'); each scope key accepts a single value and different keys combine with AND, so repeating one cannot match either value - run one query per value"@,
        }
    }

    /// The error as the user reads it.
    pub fn message(&self) -> (r: String)
        ensures
            r@ == self.spec_message(),
    {
        let mut r = String::new();
        match self {
            InfraError::Empty { field } => {
                r.append(field.as_str());
                r.append(" must not be empty");
            },
            InfraError::NegativeStartRow { start } => {
                r.append("--start-row must not be negative (got ");
                r.append(decimal_i64(*start).as_str());
                r.append("); rows are 0-based");
            },
            InfraError::NegativeEndRow { end } => {
                r.append("--end-row must not be negative (got ");
                r.append(decimal_i64(*end).as_str());
                r.append(")");
            },
            InfraError::EmptyWindow { start, end } => {
                r.append("--end-row (");
                r.append(decimal_i64(*end).as_str());
                r.append(") must be greater than --start-row (");
                r.append(decimal_i64(*start).as_str());
                r.append("); --end-row is exclusive, so this window selects no rows");
            },
            InfraError::MatchMissingEquals { flag, entry } => {
                r.append("invalid ");
                r.append(flag.as_str());
                r.append(" '");
                r.append(entry.as_str());
                r.append("': expected NAME=VALUE");
            },
            InfraError::MatchEmptyName { flag, entry } => {
                r.append("invalid ");
                r.append(flag.as_str());
                r.append(" '");
                r.append(entry.as_str());
                r.append("': attribute name must not be empty");
            },
            InfraError::MatchEmptyValue { flag, entry } => {
                r.append("invalid ");
                r.append(flag.as_str());
                r.append(" '");
                r.append(entry.as_str());
                r.append("': value must not be empty");
            },
            InfraError::MatchRepeated { flag, field } => {
                r.append(flag.as_str());
                r.append(" attribute '");
                r.append(field.as_str());
                r.append("' given more than once; list its values on one flag instead - ");
                r.append(flag.as_str());
                r.append(" ");
                r.append(field.as_str());
                r.append("=a,b");
            },
            InfraError::MatchInBothGroups { field } => {
                r.append("attribute '");
                r.append(field.as_str());
                r.append(
                    "' appears in both --match-all and --match-any; an attribute belongs to one of them - require it with --match-all, or make it one alternative with --match-any",
                );
            },
            InfraError::NoResourceIds => {
                r.append("at least one resource id is required");
            },
            InfraError::TooManyResourceIds { given } => {
                r.append(decimal_usize(*given).as_str());
                r.append(
                    " resource ids given, but the API reads at most 100 per request and drops the rest without saying so. Split the list and re-run.",
                );
            },
            InfraError::NoProfile { subcommand } => {
                r.append("no profile resolved for `cx infra resources ");
                r.append(subcommand.as_str());
                r.append("`");
            },
            InfraError::SeveralProfiles { subcommand, given } => {
                r.append("`cx infra resources ");
                r.append(subcommand.as_str());
                r.append("` accepts a single profile, but ");
                r.append(decimal_usize(*given).as_str());
                r.append(
                    " were given; a resource id is scoped to one team and cannot resolve in another profile. Re-run once per profile with a single -p.",
                );
            },
            InfraError::ToBeforeFrom { from, to } => {
                r.append("--to (");
                r.append(to.as_str());
                r.append(") is earlier than --from (");
                r.append(from.as_str());
                r.append(")");
            },
            InfraError::Timestamp(e) => {
                r = e.message();
            },
            InfraError::NothingToNarrow => {
                r.append(
                    "nothing to narrow by; pass at least one of --category, --type, --match-all or --match-any - `cx infra resources filters` lists the attributes this tenant can filter on",
                );
            },
            InfraError::LegacyNeedsCategoryAndType => {
                r.append("--name-filter and --scope require both --category and --type");
            },
            InfraError::ScopeMissingEquals { raw } => {
                r.append("invalid --scope '");
                r.append(raw.as_str());
                r.append("': expected key=value");
            },
            InfraError::ScopeUnknownKey { key } => {
                r.append("unknown --scope key '");
                r.append(key.as_str());
                r.append("'; allowed keys: service, environment, team");
            },
            InfraError::ScopeEmptyValue { raw } => {
                r.append("invalid --scope '");
                r.append(raw.as_str());
                r.append("': value must not be empty");
            },
            InfraError::ScopeRepeated { key, existing, value } => {
                r.append("--scope key '");
                r.append(key.as_str());
                r.append("' given more than once ('");
                r.append(existing.as_str());
                r.append("' then '");
                r.append(value.as_str());
                r.append(
                    "'); each scope key accepts a single value and different keys combine with AND, so repeating one cannot match either value - run one query per value",
                );
            },
        }
        r
    }
}

/// `r` is an `Empty` error naming `field`.
pub open spec fn is_empty_error<T>(r: Result<T, InfraError>, field: Seq<char>) -> bool {
    match r {
        Err(InfraError::Empty { field: f }) => f@ == field,
        _ => false,
    }
}

// ── Input validation ─────────────────────────────────────────────────────────

/// Trims a required value and refuses it when nothing remains, so an empty
/// `--category ""` fails fast instead of sending an empty query parameter.
pub fn require_non_empty<'v>(value: &'v str, field_name: &str) -> (r: Result<&'v str, InfraError>)
    ensures
        trim(value@).len() == 0 ==> is_empty_error(r, field_name@),
        trim(value@).len() > 0 ==> (r matches Ok(t) && t@ == trim(value@)),
{
    let trimmed = trim_ref(value);
    if trimmed.unicode_len() == 0 {
        return Err(InfraError::Empty { field: crate::text::owned(field_name) });
    }
    Ok(trimmed)
}

impl PageWindow {
    /// Validates the page window. The API coerces a bad window rather than
    /// rejecting it (a negative start is clamped to 0, an end at or before the
    /// start yields no rows), so both are refused here. The service's ceiling
    /// on `startRow + rows` is deliberately not checked.
    pub fn validate(self) -> (r: Result<(), InfraError>)
        ensures
            self.spec_negative_start() ==> r == Err::<(), InfraError>(
                InfraError::NegativeStartRow { start: self.start_row->0 },
            ),
            !self.spec_negative_start() && self.spec_negative_end() ==> r == Err::<(), InfraError>(
                InfraError::NegativeEndRow { end: self.end_row->0 },
            ),
            !self.spec_negative_start() && !self.spec_negative_end() && self.spec_inverted()
                ==> r == Err::<(), InfraError>(
                InfraError::EmptyWindow { start: self.start_row->0, end: self.end_row->0 },
            ),
            r is Ok <==> self.spec_valid(),
    {
        if let Some(start) = self.start_row {
            if start < 0 {
                return Err(InfraError::NegativeStartRow { start });
            }
        }
        if let Some(end) = self.end_row {
            if end < 0 {
                return Err(InfraError::NegativeEndRow { end });
            }
        }
        if let (Some(start), Some(end)) = (self.start_row, self.end_row) {
            if end <= start {
                return Err(InfraError::EmptyWindow { start, end });
            }
        }
        Ok(())
    }

    /// A window is valid when neither end is negative and, when both are
    /// given, the end lies after the start.
    /// The refusal of an invalid window, in the order `validate` checks.
    pub open spec fn spec_error(self) -> InfraError {
        if self.spec_negative_start() {
            InfraError::NegativeStartRow { start: self.start_row->0 }
        } else if self.spec_negative_end() {
            InfraError::NegativeEndRow { end: self.end_row->0 }
        } else {
            InfraError::EmptyWindow { start: self.start_row->0, end: self.end_row->0 }
        }
    }

    pub open spec fn spec_valid(self) -> bool {
        !self.spec_negative_start() && !self.spec_negative_end() && !self.spec_inverted()
    }

    pub open spec fn spec_negative_start(self) -> bool {
        match self.start_row {
            Some(s) => s < 0,
            None => false,
        }
    }

    pub open spec fn spec_negative_end(self) -> bool {
        match self.end_row {
            Some(e) => e < 0,
            None => false,
        }
    }

    /// Both ends given, and the end at or before the start.
    pub open spec fn spec_inverted(self) -> bool {
        match (self.start_row, self.end_row) {
            (Some(s), Some(e)) => e <= s,
            _ => false,
        }
    }
}

/// The trimmed resource ids, refusing an empty list, a list longer than the
/// API reads, and a blank id.
pub fn require_resource_ids(resource_ids: &[String]) -> (r: Result<Vec<&str>, InfraError>)
    ensures
        resource_ids@.len() == 0 ==> r matches Err(InfraError::NoResourceIds),
        resource_ids@.len() > MAX_RESOURCE_IDS ==> r == Err::<Vec<&str>, InfraError>(
            InfraError::TooManyResourceIds { given: resource_ids@.len() as usize },
        ),
        0 < resource_ids@.len() <= MAX_RESOURCE_IDS ==> {
            ||| (exists|i: int|
                0 <= i < resource_ids@.len() && trim(resource_ids@[i]@).len() == 0)
                && is_empty_error(r, "resource id"@)
            ||| (forall|i: int|
                0 <= i < resource_ids@.len() ==> trim(#[trigger] resource_ids@[i]@).len() > 0)
                && (r matches Ok(ids) && trimmed_ids(resource_ids@, ids@))
        },
{
    if resource_ids.len() == 0 {
        return Err(InfraError::NoResourceIds);
    }
    if resource_ids.len() > MAX_RESOURCE_IDS {
        return Err(InfraError::TooManyResourceIds { given: resource_ids.len() });
    }
    let mut ids: Vec<&str> = Vec::new();
    let n = resource_ids.len();
    for i in 0..n
        invariant
            n == resource_ids@.len(),
            0 < n <= MAX_RESOURCE_IDS,
            ids@.len() == i,
            forall|j: int| 0 <= j < i ==> trim(#[trigger] resource_ids@[j]@).len() > 0,
            forall|j: int| 0 <= j < i ==> #[trigger] ids@[j]@ == trim(resource_ids@[j]@),
    {
        match require_non_empty(resource_ids[i].as_str(), "resource id") {
            Ok(t) => ids.push(t),
            Err(e) => {
                return Err(e);
            },
        }
    }
    Ok(ids)
}

/// Resolves the single target that the resource-id subcommands run against:
/// a resource id is scoped to one team, so fanning out is refused.
pub fn single_target<'t, T>(targets: &'t [T], subcommand: &str) -> (r: Result<&'t T, InfraError>)
    ensures
        targets@.len() == 1 ==> (r matches Ok(t) && *t == targets@[0]),
        targets@.len() == 0 ==> (r matches Err(InfraError::NoProfile { subcommand: s }) && s@
            == subcommand@),
        targets@.len() > 1 ==> (r matches Err(InfraError::SeveralProfiles { subcommand: s, given })
            && s@ == subcommand@ && given == targets@.len()),
{
    if targets.len() == 1 {
        Ok(&targets[0])
    } else if targets.len() == 0 {
        Err(InfraError::NoProfile { subcommand: crate::text::owned(subcommand) })
    } else {
        Err(
            InfraError::SeveralProfiles {
                subcommand: crate::text::owned(subcommand),
                given: targets.len(),
            },
        )
    }
}

/// `ids` are the trimmed `resource_ids`, in order.
pub open spec fn trimmed_ids(resource_ids: Seq<String>, ids: Seq<&str>) -> bool {
    &&& ids.len() == resource_ids.len()
    &&& forall|i: int| 0 <= i < ids.len() ==> #[trigger] ids[i]@ == trim(resource_ids[i]@)
}

/// Whether the ids would be accepted: between one and the most the API
/// reads, none blank.
pub open spec fn ids_accepted(resource_ids: Seq<String>) -> bool {
    &&& 0 < resource_ids.len() <= MAX_RESOURCE_IDS
    &&& forall|i: int| 0 <= i < resource_ids.len() ==> trim(#[trigger] resource_ids[i]@).len() > 0
}

/// The text the end of the window is resolved from: the trimmed `--to`, or
/// `now`.
pub open spec fn to_input(to: Option<Seq<char>>) -> Seq<char> {
    match to {
        Some(t) => trim(t),
        None => "now"@,
    }
}

/// `input` resolves to `x`.
pub open spec fn resolves_to(input: Seq<char>, x: String) -> bool {
    nanos_outcome(input, Ok(x))
}

/// `input` is refused with `e`.
pub open spec fn refused_with(input: Seq<char>, e: TimestampError) -> bool {
    nanos_outcome(input, Err(e))
}

/// What `change_window` answers once the ids are accepted and `--from` (and
/// `--to`, when given) are not blank: the trimmed ids with both resolved
/// ends when `to` is not before `from`, `ToBeforeFrom` with both when it
/// is, or the refusal of the first end that does not resolve.
pub open spec fn window_answer(
    resource_ids: Seq<String>,
    from: Seq<char>,
    to: Option<Seq<char>>,
    r: Result<(Vec<&str>, String, String), InfraError>,
) -> bool {
    ||| (r matches Ok((ids, f, t)) && trimmed_ids(resource_ids, ids@) && resolves_to(trim(from), f)
        && resolves_to(to_input(to), t) && !lex_lt(t@, f@))
    ||| (r matches Err(InfraError::ToBeforeFrom { from: f, to: t }) && resolves_to(trim(from), f)
        && resolves_to(to_input(to), t) && lex_lt(t@, f@))
    ||| (r matches Err(InfraError::Timestamp(e)) && refused_with(trim(from), e))
    ||| (r matches Err(InfraError::Timestamp(e)) && (exists|f: String| resolves_to(trim(from), f))
        && refused_with(to_input(to), e))
}

/// `input`, once trimmed, is an absolute time that chrono reads as `x`.
pub open spec fn absolute_time(input: Seq<char>, x: Seq<char>) -> bool {
    &&& !crate::timestamp::is_relative(trim(input))
    &&& crate::timestamp::spec_rfc3339_utc_nanos(trim(input)) == Some(x)
}

/// With accepted ids and two absolute times, the window is decided by the
/// times alone: the trimmed ids with both times when `to` is not before
/// `from` (a window of zero width included), else `ToBeforeFrom` with both.
pub proof fn lemma_window_of_absolute_times(
    resource_ids: Seq<String>,
    from: Seq<char>,
    to: Seq<char>,
    f: Seq<char>,
    t: Seq<char>,
    r: Result<(Vec<&str>, String, String), InfraError>,
)
    requires
        window_answer(resource_ids, from, Some(to), r),
        absolute_time(from, f),
        absolute_time(to, t),
    ensures
        !lex_lt(t, f) ==> (r matches Ok((ids, f2, t2)) && trimmed_ids(resource_ids, ids@) && f2@ == f
            && t2@ == t),
        lex_lt(t, f) ==> (r matches Err(InfraError::ToBeforeFrom { from: f2, to: t2 }) && f2@ == f
            && t2@ == t),
{
    crate::text::lemma_trim_ends(from);
    crate::text::lemma_trim_clean(trim(from));
    crate::text::lemma_trim_ends(to);
    crate::text::lemma_trim_clean(trim(to));
}

/// Validates the resources and the window that the two configuration-change
/// endpoints share; `to` defaults to now. The ids are checked first, then
/// `--from` (blank, then resolved), then `--to` (blank, then resolved). The
/// window is refused when `to` resolves earlier than `from`; both resolve
/// to the same fixed-width UTC form, so string order is time order.
pub fn change_window<'i>(resource_ids: &'i [String], from: &str, to: Option<&str>) -> (r: Result<
    (Vec<&'i str>, String, String),
    InfraError,
>)
    ensures
        resource_ids@.len() == 0 ==> r matches Err(InfraError::NoResourceIds),
        resource_ids@.len() > MAX_RESOURCE_IDS ==> r == Err::<(Vec<&str>, String, String), InfraError>(
            InfraError::TooManyResourceIds { given: resource_ids@.len() as usize },
        ),
        0 < resource_ids@.len() <= MAX_RESOURCE_IDS && !ids_accepted(resource_ids@) ==> is_empty_error(
            r,
            "resource id"@,
        ),
        ids_accepted(resource_ids@) && trim(from@).len() == 0 ==> is_empty_error(r, "--from"@),
        ids_accepted(resource_ids@) && trim(from@).len() > 0 && (to matches Some(t) && trim(t@).len()
            == 0) ==> {
            ||| (is_empty_error(r, "--to"@) && exists|f: String| resolves_to(trim(from@), f))
            ||| (r matches Err(InfraError::Timestamp(e)) && refused_with(trim(from@), e))
        },
        ids_accepted(resource_ids@) && trim(from@).len() > 0 && !(to matches Some(t) && trim(t@).len()
            == 0) ==> window_answer(
            resource_ids@,
            from@,
            match to {
                Some(t) => Some(t@),
                None => None,
            },
            r,
        ),
{
    let ids = require_resource_ids(resource_ids)?;
    let from_trimmed = require_non_empty(from, "--from")?;
    let from_resolved = match parse_timestamp_nanos(from_trimmed) {
        Ok(x) => x,
        Err(e) => {
            return Err(InfraError::Timestamp(e));
        },
    };
    assert(resolves_to(trim(from@), from_resolved));
    let ghost to_view: Option<Seq<char>> = match to {
        Some(t) => Some(t@),
        None => None,
    };
    let to_resolved = match to {
        Some(to) => {
            let to_trimmed = require_non_empty(to, "--to")?;
            match parse_timestamp_nanos(to_trimmed) {
                Ok(x) => x,
                Err(e) => {
                    assert(refused_with(to_input(to_view), e));
                    return Err(InfraError::Timestamp(e));
                },
            }
        },
        None => match parse_timestamp_nanos("now") {
            Ok(x) => x,
            Err(e) => {
                proof {
                    reveal_strlit("now");
                }
                assert(refused_with(to_input(to_view), e));
                return Err(InfraError::Timestamp(e));
            },
        },
    };
    proof {
        reveal_strlit("now");
    }
    assert(resolves_to(to_input(to_view), to_resolved));
    if str_lt(to_resolved.as_str(), from_resolved.as_str()) {
        return Err(InfraError::ToBeforeFrom { from: from_resolved, to: to_resolved });
    }
    Ok((ids, from_resolved, to_resolved))
}

/// Validates the inputs of `raw-data`: a resource id that is not blank
/// (trimmed), and an optional `--timestamp` that is not blank and resolves
/// to RFC 3339.
pub fn raw_data_inputs<'i>(resource_id: &'i str, timestamp: Option<&str>) -> (r: Result<
    (&'i str, Option<String>),
    InfraError,
>)
    ensures
        trim(resource_id@).len() == 0 ==> is_empty_error(r, "resource id"@),
        trim(resource_id@).len() > 0 && timestamp is None ==> (r matches Ok((id, t)) && id@ == trim(
            resource_id@,
        ) && t is None),
        timestamp matches Some(ts) ==> (trim(resource_id@).len() > 0 && trim(ts@).len() == 0
            ==> is_empty_error(r, "--timestamp"@)),
        timestamp matches Some(ts) ==> (trim(resource_id@).len() > 0 && trim(ts@).len() > 0 ==> {
            ||| (r matches Ok((id, Some(x))) && id@ == trim(resource_id@) && resolves_to(trim(ts@), x))
            ||| (r matches Err(InfraError::Timestamp(e)) && refused_with(trim(ts@), e))
        }),
{
    let id = require_non_empty(resource_id, "resource id")?;
    let resolved = match timestamp {
        Some(t) => {
            let trimmed = require_non_empty(t, "--timestamp")?;
            match parse_timestamp_nanos(trimmed) {
                Ok(x) => Some(x),
                Err(e) => {
                    return Err(InfraError::Timestamp(e));
                },
            }
        },
        None => None,
    };
    Ok((id, resolved))
}

// ── Counting ─────────────────────────────────────────────────────────────────

/// `a + b` clamped to the `i64` range.
pub open spec fn sat_add(a: int, b: int) -> int {
    if a + b > i64::MAX {
        i64::MAX as int
    } else if a + b < i64::MIN {
        i64::MIN as int
    } else {
        a + b
    }
}

/// The per-profile totals folded with saturating addition from 0.
pub open spec fn spec_aggregate_total(counts: Seq<ProfileCounts>) -> int
    decreases counts.len(),
{
    if counts.len() == 0 {
        0
    } else {
        sat_add(spec_aggregate_total(counts.drop_last()), counts.last().total_count as int)
    }
}

/// Sums the per-profile totals. Saturating: totals that sum past `i64::MAX`
/// clamp rather than wrap into a negative.
pub fn aggregate_total(counts: &[ProfileCounts]) -> (r: i64)
    ensures
        r == spec_aggregate_total(counts@),
{
    let mut acc: i64 = 0;
    let n = counts.len();
    for i in 0..n
        invariant
            n == counts@.len(),
            acc == spec_aggregate_total(counts@.take(i as int)),
    {
        assert(counts@.take((i + 1) as int).drop_last() =~= counts@.take(i as int));
        let x = counts[i].total_count;
        acc = match acc.checked_add(x) {
            Some(v) => v,
            None => if x > 0 {
                i64::MAX
            } else {
                i64::MIN
            },
        };
    }
    assert(counts@.take(n as int) =~= counts@);
    acc
}

/// The figures of one profile's counts.
pub open spec fn count_view(c: ProfileCounts) -> (Seq<char>, i64, usize) {
    (c.profile@, c.total_count, c.returned_count)
}

/// The figures of a list of counts.
pub open spec fn counts_view(cs: Seq<ProfileCounts>) -> Seq<(Seq<char>, i64, usize)> {
    cs.map_values(|c: ProfileCounts| count_view(c))
}

/// The `list` result envelope. `list` alone wraps its rows, because the page
/// window makes the caller responsible for paging and `total_count` is its
/// only stop condition. The fields come in the order they are written out:
/// the counts before `resources`, so a consumer reading a truncated stream
/// still sees the stop condition before the rows.
#[derive(Debug)]
pub struct ListEnvelope {
    pub total_count: i64,
    pub returned_count: usize,
    pub counts_by_profile: Option<Vec<ProfileCounts>>,
    pub resources: Vec<serde_json::Value>,
}

fn copy_counts(counts: &[ProfileCounts]) -> (r: Vec<ProfileCounts>)
    ensures
        counts_view(r@) == counts_view(counts@),
{
    let mut out: Vec<ProfileCounts> = Vec::new();
    let n = counts.len();
    for i in 0..n
        invariant
            n == counts@.len(),
            counts_view(out@) == counts_view(counts@.take(i as int)),
    {
        let c = ProfileCounts {
            profile: crate::text::owned(counts[i].profile.as_str()),
            total_count: counts[i].total_count,
            returned_count: counts[i].returned_count,
        };
        let ghost before = out@;
        out.push(c);
        assert(counts@.take(i + 1) =~= counts@.take(i as int).push(counts@[i as int]));
        assert(counts_view(out@) =~= counts_view(before).push(count_view(c)));
        assert(counts_view(out@) =~= counts_view(counts@.take(i + 1)));
    }
    assert(counts@.take(n as int) =~= counts@);
    out
}

/// Builds the `list` result envelope: the total, the number of rows
/// actually returned (the merged count across profiles under fan-out), the
/// per-profile counts only when fanning out, then the rows.
pub fn build_list_envelope(
    total_count: i64,
    rows: Vec<serde_json::Value>,
    counts: &[ProfileCounts],
    include_profile: bool,
) -> (r: ListEnvelope)
    ensures
        r.total_count == total_count,
        r.returned_count == rows@.len(),
        r.resources@ == rows@,
        include_profile ==> (r.counts_by_profile matches Some(c) && counts_view(c@) == counts_view(
            counts@,
        )),
        !include_profile ==> r.counts_by_profile is None,
{
    let returned_count = rows.len();
    let counts_by_profile = if include_profile {
        Some(copy_counts(counts))
    } else {
        None
    };
    ListEnvelope { total_count, returned_count, counts_by_profile, resources: rows }
}

/// The answers of the profiles that answered a `list`, as the list shows
/// them: one set of counts per profile, every resource behind its
/// profile's name, and the total over all profiles.
pub struct CollectedResources {
    pub counts: Vec<ProfileCounts>,
    pub resources: Vec<(String, api::ResourceData)>,
    pub total_count: i64,
}

/// The counts of each answer: its profile, its total, how many it returned.
pub open spec fn answer_counts(answers: Seq<(String, api::GetResourcesResponse)>) -> Seq<
    (Seq<char>, i64, usize),
> {
    answers.map_values(
        |a: (String, api::GetResourcesResponse)| (a.0@, a.1.total_count, a.1.resources.len()),
    )
}

/// Every resource of `answers`, behind its profile's name, in order.
pub open spec fn listed_resources(answers: Seq<(String, api::GetResourcesResponse)>) -> Seq<
    (Seq<char>, api::ResourceData),
>
    decreases answers.len(),
{
    if answers.len() == 0 {
        seq![]
    } else {
        let (profile, resp) = answers.last();
        listed_resources(answers.drop_last()) + resp.resources@.map_values(
            |x: api::ResourceData| (profile@, x),
        )
    }
}

/// The rows returned over all profiles, by their counts.
pub open spec fn returned_sum(counts: Seq<(Seq<char>, i64, usize)>) -> nat
    decreases counts.len(),
{
    if counts.len() == 0 {
        0
    } else {
        returned_sum(counts.drop_last()) + counts.last().2 as nat
    }
}

/// The per-profile returned counts add up to the rows the list shows.
pub proof fn lemma_returned_counts_add_up(answers: Seq<(String, api::GetResourcesResponse)>)
    ensures
        returned_sum(answer_counts(answers)) == listed_resources(answers).len(),
    decreases answers.len(),
{
    if answers.len() > 0 {
        lemma_returned_counts_add_up(answers.drop_last());
        assert(answer_counts(answers).drop_last() =~= answer_counts(answers.drop_last()));
    }
}

/// Lays out the answers of the profiles that answered a `list`: their
/// counts in order, all their resources behind their names, and the
/// saturating sum of their totals.
pub fn collect_resources(answers: Vec<(String, api::GetResourcesResponse)>) -> (r: CollectedResources)
    ensures
        counts_view(r.counts@) == answer_counts(answers@),
        r.resources@.map_values(|p: (String, api::ResourceData)| crate::answers::item_view(p))
            == listed_resources(answers@),
        r.total_count == spec_aggregate_total(r.counts@),
{
    let ghost all = answers@;
    let n = answers.len();
    let mut rest = answers;
    let mut counts: Vec<ProfileCounts> = Vec::new();
    let mut resources: Vec<(String, api::ResourceData)> = Vec::new();
    let mut k: usize = 0;
    while k < n
        invariant
            n == all.len(),
            k <= n,
            rest@ == all.subrange(k as int, n as int),
            counts_view(counts@) == answer_counts(all.subrange(0, k as int)),
            resources@.map_values(|p: (String, api::ResourceData)| crate::answers::item_view(p))
                == listed_resources(all.subrange(0, k as int)),
        decreases n - k,
    {
        let (profile, resp) = rest.remove(0);
        proof {
            let pre = all.subrange(0, k + 1);
            assert(pre.drop_last() =~= all.subrange(0, k as int));
            assert(pre.last() == all[k as int]);
            assert(rest@ =~= all.subrange(k + 1, n as int));
        }
        let c = ProfileCounts {
            profile: crate::text::owned(profile.as_str()),
            total_count: resp.total_count,
            returned_count: resp.resources.len(),
        };
        let ghost before_counts = counts@;
        counts.push(c);
        assert(counts_view(counts@) =~= counts_view(before_counts).push(count_view(c)));
        assert(answer_counts(all.subrange(0, k + 1)) =~= answer_counts(all.subrange(0, k as int)).push(
            (profile@, resp.total_count, resp.resources.len()),
        ));
        let api::GetResourcesResponse { resources: found, total_count: _ } = resp;
        let mut tagged = crate::answers::behind_profile(found, &profile);
        let ghost before = resources@;
        let ghost added = tagged@;
        resources.append(&mut tagged);
        assert(resources@ =~= before + added);
        assert(resources@.map_values(|p: (String, api::ResourceData)| crate::answers::item_view(p))
            =~= before.map_values(|p: (String, api::ResourceData)| crate::answers::item_view(p))
            + added.map_values(|p: (String, api::ResourceData)| crate::answers::item_view(p)));
        k = k + 1;
    }
    assert(all.subrange(0, n as int) =~= all);
    let total_count = aggregate_total(&counts);
    CollectedResources { counts, resources, total_count }
}

/// The warning shown when fewer resources answered than were asked for;
/// none when all did.
pub fn missing_resources_note(asked: usize, answered: usize) -> (r: Option<String>)
    ensures
        answered >= asked ==> r is None,
        answered < asked ==> (r matches Some(s) && s@ == decimal_nat(answered as nat) + " of "@
            + decimal_nat(asked as nat)
            + " resource(s) answered; the rest were not recognised or were repeats"@),
{
    if answered < asked {
        let mut s = decimal_usize(answered);
        s.append(" of ");
        s.append(decimal_usize(asked).as_str());
        s.append(" resource(s) answered; the rest were not recognised or were repeats");
        Some(s)
    } else {
        None
    }
}

/// The per-profile lines of the count summary.
pub open spec fn count_lines(counts: Seq<ProfileCounts>) -> Seq<char>
    decreases counts.len(),
{
    if counts.len() == 0 {
        seq![]
    } else {
        let c = counts.last();
        count_lines(counts.drop_last()) + "\n  "@ + c.profile@ + ": "@ + decimal_nat(
            c.returned_count as nat,
        ) + " of "@ + decimal(c.total_count as int)
    }
}

/// The summary line under the text table: the returned and total counts,
/// then, when fanning out, one line per profile with its own figures.
pub open spec fn spec_count_summary(
    returned: usize,
    total: i64,
    counts: Seq<ProfileCounts>,
    include_profile: bool,
) -> Seq<char> {
    "Showing "@ + decimal_nat(returned as nat) + " of "@ + decimal(total as int)
        + " total resources"@ + if include_profile {
        count_lines(counts)
    } else {
        seq![]
    }
}

/// Formats the summary line under the text-mode table. When fanning out,
/// each profile's line shows its own returned-vs-total figures: the window
/// applies per profile.
pub fn format_count_summary(
    returned: usize,
    total: i64,
    counts: &[ProfileCounts],
    include_profile: bool,
) -> (r: String)
    ensures
        r@ == spec_count_summary(returned, total, counts@, include_profile),
{
    let mut out = String::new();
    out.append("Showing ");
    out.append(decimal_usize(returned).as_str());
    out.append(" of ");
    out.append(decimal_i64(total).as_str());
    out.append(" total resources");
    let ghost head = out@;
    if include_profile {
        let n = counts.len();
        for i in 0..n
            invariant
                n == counts@.len(),
                out@ == head + count_lines(counts@.take(i as int)),
        {
            assert(counts@.take((i + 1) as int).drop_last() =~= counts@.take(i as int));
            out.append("\n  ");
            out.append(counts[i].profile.as_str());
            out.append(": ");
            out.append(decimal_usize(counts[i].returned_count).as_str());
            out.append(" of ");
            out.append(decimal_i64(counts[i].total_count).as_str());
        }
        assert(counts@.take(n as int) =~= counts@);
    } else {
        assert(out@ =~= head + Seq::<char>::empty());
    }
    out
}

// ── Display helpers ──────────────────────────────────────────────────────────

/// The value shown in a table cell for an optional text: a dash when it is
/// absent or empty.
pub open spec fn or_dash(value: Option<Seq<char>>) -> Seq<char> {
    match value {
        Some(s) => if s.len() > 0 {
            s
        } else {
            "-"@
        },
        None => "-"@,
    }
}

/// The view of an optional `&str`.
pub open spec fn opt_view(value: Option<&str>) -> Option<Seq<char>> {
    match value {
        Some(s) => Some(s@),
        None => None,
    }
}

/// The view of an optional `String`.
pub open spec fn opt_string_view(value: Option<String>) -> Option<Seq<char>> {
    match value {
        Some(s) => Some(s@),
        None => None,
    }
}

/// A table cell: the value, or a dash when it is absent or empty.
pub fn display_or_dash(value: Option<&str>) -> (r: String)
    ensures
        r@ == or_dash(opt_view(value)),
{
    match value {
        Some(s) => {
            if s.unicode_len() > 0 {
                crate::text::owned(s)
            } else {
                crate::text::owned("-")
            }
        },
        None => crate::text::owned("-"),
    }
}

/// `display_or_dash` of an optional owned string.
pub fn string_or_dash(value: &Option<String>) -> (r: String)
    ensures
        r@ == or_dash(opt_string_view(*value)),
{
    match value {
        Some(s) => display_or_dash(Some(s.as_str())),
        None => display_or_dash(None),
    }
}

/// The values joined with `", "`, or a dash when there are none.
pub open spec fn spec_join_or_dash(values: Seq<Seq<char>>) -> Seq<char> {
    if values.len() == 0 {
        "-"@
    } else {
        join(values, ", "@)
    }
}

/// Joins the values with `", "`, or a dash when there are none.
pub fn join_or_dash(values: &[String]) -> (r: String)
    ensures
        r@ == spec_join_or_dash(views(values@)),
{
    if values.len() == 0 {
        crate::text::owned("-")
    } else {
        join_strings(values, ", ")
    }
}

// ── Planning `list` ──────────────────────────────────────────────────────────

/// The validated inputs of `list`.
#[derive(Debug)]
pub struct ListPlan {
    pub category: Option<String>,
    pub resource_type: Option<String>,
    pub filter: Option<api::Filter>,
}

/// The trimmed optional value, or the error for an empty one.
pub open spec fn optional_ok(value: Option<&str>, out: Option<String>) -> bool {
    match value {
        Some(v) => out matches Some(o) && o@ == trim(v@) && o@.len() > 0,
        None => out is None,
    }
}

/// Whether an optional value is given but empty once trimmed.
pub open spec fn optional_empty(value: Option<&str>) -> bool {
    match value {
        Some(v) => trim(v@).len() == 0,
        None => false,
    }
}

/// Whether `list` has everything it needs but a valid window: the category
/// and type, when given, are not blank, both flag groups parse with no
/// attribute in both, and at least one narrowing flag is given.
pub open spec fn list_plan_owed(
    category: Option<&str>,
    resource_type: Option<&str>,
    match_all: Seq<String>,
    match_any: Seq<String>,
) -> bool {
    &&& !optional_empty(category)
    &&& !optional_empty(resource_type)
    &&& filter::spec_matches(views(match_all)) matches Some(a)
    &&& filter::spec_matches(views(match_any)) matches Some(b)
    &&& filter::first_conflict(a, b) is None
    &&& (category is Some || resource_type is Some || match_all.len() > 0 || match_any.len() > 0)
}

/// Validates the inputs of `list`: the category and type are trimmed and must
/// not be empty when given, the attribute filter is built, at least one of
/// the four narrowing flags must be present, and the page window is checked.
pub fn plan_list(
    category: Option<&str>,
    resource_type: Option<&str>,
    match_all: &[String],
    match_any: &[String],
    window: PageWindow,
) -> (r: Result<ListPlan, InfraError>)
    ensures
        optional_empty(category) ==> is_empty_error(r, "--category"@),
        !optional_empty(category) && optional_empty(resource_type) ==> is_empty_error(
            r,
            "--type"@,
        ),
        r matches Ok(p) ==> {
            &&& optional_ok(category, p.category)
            &&& optional_ok(resource_type, p.resource_type)
            &&& (p.category is Some || p.resource_type is Some || p.filter is Some)
            &&& window.spec_valid()
            &&& filter::spec_matches(views(match_all@)) matches Some(a)
            &&& filter::spec_matches(views(match_any@)) matches Some(b)
            &&& filter::first_conflict(a, b) is None
            &&& filter::filter_shape(p.filter, filter::expand(a), b)
        },
        (!optional_empty(category) && !optional_empty(resource_type) && (filter::spec_matches(
            views(match_all@),
        ) matches Some(a) && filter::spec_matches(views(match_any@)) matches Some(b)
            && filter::first_conflict(a, b) is None) && category is None && resource_type is None
            && match_all@.len() == 0 && match_any@.len() == 0) ==> r matches Err(
            InfraError::NothingToNarrow,
        ),
        !optional_empty(category) && !optional_empty(resource_type) && filter::spec_matches(
            views(match_all@),
        ) is None ==> (r matches Err(e) && exists|i: int|
            0 <= i < match_all@.len() && filter::first_bad_entry(views(match_all@), i)
                && filter::entry_error(e, "--match-all"@, match_all@[i]@)),
        !optional_empty(category) && !optional_empty(resource_type) && filter::spec_matches(
            views(match_all@),
        ) is Some && filter::spec_matches(views(match_any@)) is None ==> (r matches Err(e) && exists|
            i: int,
        |
            0 <= i < match_any@.len() && filter::first_bad_entry(views(match_any@), i)
                && filter::entry_error(e, "--match-any"@, match_any@[i]@)),
        !optional_empty(category) && !optional_empty(resource_type) ==> (filter::spec_matches(
            views(match_all@),
        ) matches Some(a) ==> (filter::spec_matches(views(match_any@)) matches Some(b) ==> (
        filter::first_conflict(a, b) matches Some(f) ==> (r matches Err(
            InfraError::MatchInBothGroups { field },
        ) && field@ == f)))),
        list_plan_owed(category, resource_type, match_all@, match_any@) && window.spec_valid() ==> r is Ok,
        list_plan_owed(category, resource_type, match_all@, match_any@) && !window.spec_valid() ==> r
            == Err::<ListPlan, InfraError>(window.spec_error()),
{
    let category = match category {
        Some(c) => Some(crate::text::owned(require_non_empty(c, "--category")?)),
        None => None,
    };
    let resource_type = match resource_type {
        Some(t) => Some(crate::text::owned(require_non_empty(t, "--type")?)),
        None => None,
    };
    let filter = filter::build_filter(match_all, match_any)?;
    if category.is_none() && resource_type.is_none() && filter.is_none() {
        return Err(InfraError::NothingToNarrow);
    }
    window.validate()?;
    Ok(ListPlan { category, resource_type, filter })
}

} // verus!
