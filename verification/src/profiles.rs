//! `cx profiles`: regions and output formats, the region picker, the
//! `--region` / `--url` flags, and the decisions `profiles add` takes
//! between its prompts.

use vstd::prelude::*;
use crate::text::{
    ascii_lower, chars_eq_str, chars_of, contains, field_view, first_index_of, is_ws, lower_chars,
    string_of, trim, trim_end_char, views,
};

verus! {

// ── Regions ──────────────────────────────────────────────────────────────────

/// A Coralogix region, or a custom API endpoint (BYOC / private link).
#[derive(Debug, Clone, PartialEq, Eq)]
pub enum Region {
    Us1,
    Us2,
    Us3,
    Eu1,
    Eu2,
    Ap1,
    Ap2,
    Ap3,
    Custom(String),
}

/// The short name of a region (`eu2`), or the endpoint of a custom one.
pub open spec fn region_name(r: Region) -> Seq<char> {
    match r {
        Region::Us1 => "us1"@,
        Region::Us2 => "us2"@,
        Region::Us3 => "us3"@,
        Region::Eu1 => "eu1"@,
        Region::Eu2 => "eu2"@,
        Region::Ap1 => "ap1"@,
        Region::Ap2 => "ap2"@,
        Region::Ap3 => "ap3"@,
        Region::Custom(url) => url@,
    }
}

/// The console host of a region, as users see it in the browser.
pub open spec fn region_template(r: Region) -> Option<Seq<char>> {
    match r {
        Region::Us1 => Some("app.coralogix.us"@),
        Region::Us2 => Some("app.cx498.coralogix.com"@),
        Region::Us3 => Some("app.us3.coralogix.com"@),
        Region::Eu1 => Some("app.coralogix.com"@),
        Region::Eu2 => Some("app.eu2.coralogix.com"@),
        Region::Ap1 => Some("app.coralogix.in"@),
        Region::Ap2 => Some("app.coralogixsg.com"@),
        Region::Ap3 => Some("app.ap3.coralogix.com"@),
        Region::Custom(_) => None,
    }
}

/// Whether `l` is the short name of a known region.
pub open spec fn is_known_name(l: Seq<char>) -> bool {
    ||| l == "us1"@
    ||| l == "us2"@
    ||| l == "us3"@
    ||| l == "eu1"@
    ||| l == "eu2"@
    ||| l == "ap1"@
    ||| l == "ap2"@
    ||| l == "ap3"@
}

/// The region a text denotes, by its view: a known short name in any ASCII
/// case is that region; anything else is a custom endpoint holding the
/// text as given.
pub open spec fn parse_region(raw: Seq<char>) -> (bool, Seq<char>) {
    if is_known_name(ascii_lower(raw)) {
        (false, ascii_lower(raw))
    } else {
        (true, raw)
    }
}

/// The view of a region: its name, and whether it is custom.
pub open spec fn region_view(r: Region) -> (bool, Seq<char>) {
    (r is Custom, region_name(r))
}

impl Region {
    /// The short name (`eu2`), or the endpoint of a custom region.
    pub fn as_str(&self) -> (r: &str)
        ensures
            r@ == region_name(*self),
    {
        match self {
            Region::Us1 => "us1",
            Region::Us2 => "us2",
            Region::Us3 => "us3",
            Region::Eu1 => "eu1",
            Region::Eu2 => "eu2",
            Region::Ap1 => "ap1",
            Region::Ap2 => "ap2",
            Region::Ap3 => "ap3",
            Region::Custom(url) => url.as_str(),
        }
    }

    /// The console host users see in the browser; `None` for a custom
    /// endpoint.
    pub fn app_url_template(&self) -> (r: Option<&'static str>)
        ensures
            match r {
                Some(t) => region_template(*self) == Some(t@),
                None => region_template(*self) is None,
            },
    {
        match self {
            Region::Us1 => Some("app.coralogix.us"),
            Region::Us2 => Some("app.cx498.coralogix.com"),
            Region::Us3 => Some("app.us3.coralogix.com"),
            Region::Eu1 => Some("app.coralogix.com"),
            Region::Eu2 => Some("app.eu2.coralogix.com"),
            Region::Ap1 => Some("app.coralogix.in"),
            Region::Ap2 => Some("app.coralogixsg.com"),
            Region::Ap3 => Some("app.ap3.coralogix.com"),
            Region::Custom(_) => None,
        }
    }

    /// Reads a region short name in any ASCII case; anything else becomes a
    /// custom endpoint holding the input.
    pub fn parse(raw: &str) -> (r: Region)
        ensures
            region_view(r) == parse_region(raw@),
    {
        let l = lower_chars(&chars_of(raw));
        if chars_eq_str(&l, "us1") {
            Region::Us1
        } else if chars_eq_str(&l, "us2") {
            Region::Us2
        } else if chars_eq_str(&l, "us3") {
            Region::Us3
        } else if chars_eq_str(&l, "eu1") {
            Region::Eu1
        } else if chars_eq_str(&l, "eu2") {
            Region::Eu2
        } else if chars_eq_str(&l, "ap1") {
            Region::Ap1
        } else if chars_eq_str(&l, "ap2") {
            Region::Ap2
        } else if chars_eq_str(&l, "ap3") {
            Region::Ap3
        } else {
            Region::Custom(crate::text::owned(raw))
        }
    }
}

/// Label of the manual custom-endpoint (BYOC / private-link) option.
pub const CUSTOM_ENDPOINT_OPTION: &'static str = "Custom endpoint (BYOC / private link)";

/// Zero-based cursor position of `eu2` among the picker regions (the
/// default).
pub const REGION_DEFAULT_CURSOR: usize = 4;

/// The known regions shown in the picker, in display order.
pub open spec fn spec_picker_regions() -> Seq<Region> {
    seq![
        Region::Us1,
        Region::Us2,
        Region::Us3,
        Region::Eu1,
        Region::Eu2,
        Region::Ap1,
        Region::Ap2,
        Region::Ap3,
    ]
}

/// The known regions shown in the picker, in display order. The URL-paste
/// and custom-endpoint escape hatches come after them.
pub fn picker_regions() -> (r: Vec<Region>)
    ensures
        r@ == spec_picker_regions(),
{
    let r = vec![
        Region::Us1,
        Region::Us2,
        Region::Us3,
        Region::Eu1,
        Region::Eu2,
        Region::Ap1,
        Region::Ap2,
        Region::Ap3,
    ];
    assert(r@ =~= spec_picker_regions());
    r
}

/// Picker label: `({short-name}) {console host}`, or the name alone when
/// the region has no console host.
pub open spec fn spec_region_option_label(r: Region) -> Seq<char> {
    match region_template(r) {
        Some(t) => "("@ + region_name(r) + ") "@ + t,
        None => region_name(r),
    }
}

/// Picker label: `(eu2) app.eu2.coralogix.com`.
pub fn region_option_label(region: &Region) -> (r: String)
    ensures
        r@ == spec_region_option_label(*region),
{
    match region.app_url_template() {
        Some(template) => {
            let mut s = crate::text::owned("(");
            s.append(region.as_str());
            s.append(") ");
            s.append(template);
            s
        },
        None => crate::text::owned(region.as_str()),
    }
}

/// Every picker label, then the custom-endpoint option.
pub fn region_picker_options() -> (r: Vec<String>)
    ensures
        r@.len() == spec_picker_regions().len() + 1,
        forall|i: int|
            0 <= i < spec_picker_regions().len() ==> #[trigger] r@[i]@
                == spec_region_option_label(spec_picker_regions()[i]),
        r@.last()@ == CUSTOM_ENDPOINT_OPTION@,
{
    let regions = picker_regions();
    let mut out: Vec<String> = Vec::new();
    let n = regions.len();
    for i in 0..n
        invariant
            n == regions@.len(),
            regions@ == spec_picker_regions(),
            out@.len() == i,
            forall|k: int|
                0 <= k < i ==> #[trigger] out@[k]@ == spec_region_option_label(regions@[k]),
    {
        out.push(region_option_label(&regions[i]));
    }
    out.push(crate::text::owned(CUSTOM_ENDPOINT_OPTION));
    out
}

/// Whether the picker lists the region: every known region, no custom one.
pub fn is_picker_region(region: &Region) -> (r: bool)
    ensures
        r == spec_picker_regions().contains(*region),
        r == !(*region is Custom),
{
    proof {
        if spec_picker_regions().contains(*region) {
            let i = choose|i: int|
                0 <= i < spec_picker_regions().len() && spec_picker_regions()[i] == *region;
        }
        if !(*region is Custom) {
            let k: int = match *region {
                Region::Us1 => 0,
                Region::Us2 => 1,
                Region::Us3 => 2,
                Region::Eu1 => 3,
                Region::Eu2 => 4,
                Region::Ap1 => 5,
                Region::Ap2 => 6,
                Region::Ap3 => 7,
                Region::Custom(_) => 0,
            };
            assert(spec_picker_regions()[k] == *region);
        }
    }
    match region {
        Region::Custom(_) => false,
        _ => true,
    }
}

/// The picker region whose label is `label`.
pub fn region_for_label(label: &str) -> (r: Option<Region>)
    ensures
        match r {
            Some(reg) => spec_picker_regions().contains(reg) && spec_region_option_label(reg)
                == label@,
            None => forall|i: int|
                0 <= i < spec_picker_regions().len() ==> spec_region_option_label(
                    #[trigger] spec_picker_regions()[i],
                ) != label@,
        },
{
    let regions = picker_regions();
    let n = regions.len();
    let lv = chars_of(label);
    let mut i: usize = 0;
    while i < n
        invariant
            n == regions@.len(),
            regions@ == spec_picker_regions(),
            lv@ == label@,
            i <= n,
            forall|k: int| 0 <= k < i ==> spec_region_option_label(regions@[k]) != label@,
        decreases n - i,
    {
        let l = region_option_label(&regions[i]);
        if chars_eq_str(&lv, l.as_str()) {
            let r = regions[i].clone();
            assert(regions@[i as int] == spec_picker_regions()[i as int]);
            proof {
                assert(spec_picker_regions()[i as int] is Custom == false);
            }
            return Some(
                match &regions[i] {
                    Region::Us1 => Region::Us1,
                    Region::Us2 => Region::Us2,
                    Region::Us3 => Region::Us3,
                    Region::Eu1 => Region::Eu1,
                    Region::Eu2 => Region::Eu2,
                    Region::Ap1 => Region::Ap1,
                    Region::Ap2 => Region::Ap2,
                    Region::Ap3 => Region::Ap3,
                    Region::Custom(_) => r,
                },
            );
        }
        i = i + 1;
    }
    None
}

// ── URLs ─────────────────────────────────────────────────────────────────────

/// The host of a URL: after the scheme's `://` (a URL without one is read
/// as if `https://` came first), up to the first `/`, `?` or `#`, after any
/// `user@`, before any `:port`. `None` when that host is empty or holds
/// whitespace.
pub open spec fn spec_extract_host(url: Seq<char>) -> Option<Seq<char>> {
    let rest = after_scheme(url);
    let host = host_of(after_last_at(rest.take(authority_len(rest))));
    if host.len() > 0 && no_ws(host) {
        Some(host)
    } else {
        None
    }
}

/// Index of the first `://`.
pub open spec fn scheme_end(url: Seq<char>) -> Option<int> {
    if contains(url, "://"@) {
        Some(
            choose|i: int|
                crate::text::occurs_at(url, "://"@, i) && forall|j: int|
                    0 <= j < i ==> !crate::text::occurs_at(url, "://"@, j),
        )
    } else {
        None
    }
}

/// Whether `c` ends the authority part of a URL.
pub open spec fn ends_authority(c: char) -> bool {
    c == '/' || c == '?' || c == '#'
}

/// Length of the authority: up to the first `/`, `?` or `#`.
pub open spec fn authority_len(s: Seq<char>) -> int
    decreases s.len(),
{
    if s.len() == 0 || ends_authority(s[0]) {
        0
    } else {
        1 + authority_len(s.drop_first())
    }
}

/// The text after the last `@`, or all of it.
pub open spec fn after_last_at(s: Seq<char>) -> Seq<char>
    decreases s.len(),
{
    if s.len() == 0 {
        s
    } else if s.last() == '@' {
        seq![]
    } else {
        after_last_at(s.drop_last()).push(s.last())
    }
}

proof fn lemma_authority_len_bounds(s: Seq<char>)
    ensures
        0 <= authority_len(s) <= s.len(),
        forall|k: int| 0 <= k < authority_len(s) ==> !ends_authority(#[trigger] s[k]),
        authority_len(s) < s.len() ==> ends_authority(s[authority_len(s)]),
    decreases s.len(),
{
    if s.len() > 0 && !ends_authority(s[0]) {
        lemma_authority_len_bounds(s.drop_first());
        assert forall|k: int| 0 <= k < authority_len(s) implies !ends_authority(#[trigger] s[k]) by {
            if k > 0 {
                assert(s[k] == s.drop_first()[k - 1]);
            }
        }
    }
}

fn authority_len_exec(v: &[char]) -> (r: usize)
    ensures
        r == authority_len(v@),
{
    let n = v.len();
    let mut i: usize = 0;
    proof {
        lemma_authority_len_bounds(v@);
    }
    while i < n && !(v[i] == '/' || v[i] == '?' || v[i] == '#')
        invariant
            n == v@.len(),
            i <= n,
            i <= authority_len(v@),
            0 <= authority_len(v@) <= v@.len(),
            forall|k: int| 0 <= k < authority_len(v@) ==> !ends_authority(#[trigger] v@[k]),
            authority_len(v@) < v@.len() ==> ends_authority(v@[authority_len(v@)]),
        decreases n - i,
    {
        i = i + 1;
    }
    i
}

fn after_last_at_exec(v: &[char]) -> (r: Vec<char>)
    ensures
        r@ == after_last_at(v@),
{
    let mut out: Vec<char> = Vec::new();
    let n = v.len();
    for i in 0..n
        invariant
            n == v@.len(),
            out@ == after_last_at(v@.take(i as int)),
    {
        assert(v@.take(i + 1).drop_last() =~= v@.take(i as int));
        assert(v@.take(i + 1).last() == v@[i as int]);
        if v[i] == '@' {
            out = Vec::new();
            assert(out@ =~= after_last_at(v@.take(i + 1)));
        } else {
            out.push(v[i]);
        }
    }
    assert(v@.take(n as int) =~= v@);
    out
}

/// The URL after its scheme's `://`, or all of it.
pub open spec fn after_scheme(url: Seq<char>) -> Seq<char> {
    match scheme_end(url) {
        Some(i) => url.skip(i + 3),
        None => url,
    }
}

/// The host part of `host[:port]`.
pub open spec fn host_of(hostport: Seq<char>) -> Seq<char> {
    match first_index_of(hostport, ':') {
        Some(i) => hostport.take(i),
        None => hostport,
    }
}

/// Whether no character of `s` is whitespace.
pub open spec fn no_ws(s: Seq<char>) -> bool {
    forall|k: int| 0 <= k < s.len() ==> !is_ws(#[trigger] s[k])
}

fn after_scheme_exec(v: &[char]) -> (r: Vec<char>)
    ensures
        r@ == after_scheme(v@),
{
    proof {
        reveal_strlit("://");
    }
    let sep = chars_of("://");
    assert(sep@.len() == 3);
    match crate::text::find_sub(v, &sep) {
        Some(i) => {
            let n = v.len();
            assert(crate::text::occurs_at(v@, sep@, i as int));
            assert(i + 3 <= n);
            proof {
                assert(contains(v@, "://"@));
                let c = choose|j: int|
                    crate::text::occurs_at(v@, "://"@, j) && forall|k: int|
                        0 <= k < j ==> !crate::text::occurs_at(v@, "://"@, k);
                assert(c == i);
            }
            let r = crate::text::slice_range(v, i + 3, n);
            assert(r@ =~= v@.skip(i + 3));
            r
        },
        None => {
            let r = crate::text::slice_range(v, 0, v.len());
            assert(r@ =~= v@);
            r
        },
    }
}

fn host_of_exec(hostport: &[char]) -> (r: Vec<char>)
    ensures
        r@ == host_of(hostport@),
{
    match crate::text::find_char(hostport, ':') {
        Some(i) => {
            let h = crate::text::slice_range(hostport, 0, i);
            assert(h@ =~= hostport@.take(i as int));
            h
        },
        None => crate::text::slice_range(hostport, 0, hostport.len()),
    }
}

fn no_ws_exec(v: &[char]) -> (r: bool)
    ensures
        r == no_ws(v@),
{
    let m = v.len();
    for k in 0..m
        invariant
            m == v@.len(),
            forall|j: int| 0 <= j < k ==> !is_ws(#[trigger] v@[j]),
    {
        if crate::text::is_ws_char(v[k]) {
            return false;
        }
    }
    true
}

/// The host of a URL (see [`spec_extract_host`]).
pub fn extract_host(url: &str) -> (r: Option<String>)
    ensures
        field_view(r) == spec_extract_host(url@),
{
    let v = chars_of(url);
    let rest = after_scheme_exec(&v);
    let alen = authority_len_exec(&rest);
    proof {
        lemma_authority_len_bounds(rest@);
    }
    let authority = crate::text::slice_range(&rest, 0, alen);
    assert(authority@ =~= rest@.take(alen as int));
    let hostport = after_last_at_exec(&authority);
    let host = host_of_exec(&hostport);
    if host.len() > 0 && no_ws_exec(&host) {
        Some(string_of(&host))
    } else {
        None
    }
}

/// The custom base URL a raw URL gives: trimmed, trailing slashes removed,
/// and `https://` put first when it has no scheme; `None` when nothing is
/// left or it has no host.
pub open spec fn spec_custom_base_url(raw: Seq<char>) -> Option<Seq<char>> {
    let cleaned = trim_end_char(trim(raw), '/');
    let with_scheme = if contains(cleaned, "://"@) {
        cleaned
    } else {
        "https://"@ + cleaned
    };
    if cleaned.len() == 0 {
        None
    } else if spec_extract_host(with_scheme) is Some {
        Some(with_scheme)
    } else {
        None
    }
}

/// Normalises a raw URL into a custom base URL: trailing slash stripped and
/// an `https://` scheme added when the input has none. `None` when the
/// input has no host. The scheme is mandatory: a stored endpoint without one
/// would produce invalid request URLs later.
pub fn custom_base_url_from(raw: &str) -> (r: Option<String>)
    ensures
        field_view(r) == spec_custom_base_url(raw@),
{
    let t = crate::text::trim_chars(&chars_of(raw));
    let cleaned = crate::text::trim_end_char_exec(&t, '/');
    if cleaned.len() == 0 {
        return None;
    }
    let with_scheme: String = if crate::text::contains_exec(&cleaned, "://") {
        string_of(&cleaned)
    } else {
        let mut s = crate::text::owned("https://");
        s.append(string_of(&cleaned).as_str());
        s
    };
    match extract_host(with_scheme.as_str()) {
        Some(_) => Some(with_scheme),
        None => None,
    }
}

/// Whether a host is a region's console host or a team subdomain of it.
pub open spec fn host_names(host: Seq<char>, template: Seq<char>) -> bool {
    host == template || crate::text::ends_with(host, "."@ + template)
}

/// The first of `regions` whose console host `host` names.
pub open spec fn region_for_host(host: Seq<char>, regions: Seq<Region>) -> Option<Region>
    decreases regions.len(),
{
    if regions.len() == 0 {
        None
    } else {
        match region_template(regions[0]) {
            Some(t) => if host_names(host, t) {
                Some(regions[0])
            } else {
                region_for_host(host, regions.drop_first())
            },
            None => region_for_host(host, regions.drop_first()),
        }
    }
}

/// The picker region a URL points at: the one whose console host its host
/// (in ASCII lower case) is, or is a team subdomain of.
pub open spec fn spec_region_from_url(url: Seq<char>) -> Option<Region> {
    match spec_extract_host(url) {
        Some(h) => region_for_host(ascii_lower(h), spec_picker_regions()),
        None => None,
    }
}

/// A copy of a known region.
fn copy_region(r: &Region) -> (c: Region)
    requires
        !(*r is Custom),
    ensures
        c == *r,
{
    match r {
        Region::Us1 => Region::Us1,
        Region::Us2 => Region::Us2,
        Region::Us3 => Region::Us3,
        Region::Eu1 => Region::Eu1,
        Region::Eu2 => Region::Eu2,
        Region::Ap1 => Region::Ap1,
        Region::Ap2 => Region::Ap2,
        Region::Ap3 => Region::Ap3,
        Region::Custom(_) => Region::Custom(String::new()),
    }
}

/// The picker region a Coralogix URL points at, such as `eu2` for
/// `https://myteam.app.eu2.coralogix.com`; `None` for any other URL.
pub fn region_from_url(url: &str) -> (r: Option<Region>)
    ensures
        r == spec_region_from_url(url@),
{
    let host = match extract_host(url) {
        Some(h) => h,
        None => return None,
    };
    let hv = lower_chars(&chars_of(host.as_str()));
    let regions = picker_regions();
    let n = regions.len();
    let mut i: usize = 0;
    assert(regions@.skip(0) =~= regions@);
    while i < n
        invariant
            n == regions@.len(),
            regions@ == spec_picker_regions(),
            i <= n,
            hv@ == ascii_lower(host@),
            spec_extract_host(url@) == Some(host@),
            region_for_host(hv@, regions@) == region_for_host(hv@, regions@.skip(i as int)),
        decreases n - i,
    {
        assert(regions@.skip(i as int).drop_first() =~= regions@.skip(i + 1));
        assert(regions@.skip(i as int)[0] == regions@[i as int]);
        match regions[i].app_url_template() {
            Some(t) => {
                let tv = chars_of(t);
                let mut dotted = chars_of(".");
                let mut tv2 = chars_of(t);
                dotted.append(&mut tv2);
                proof {
                    reveal_strlit(".");
                }
                assert(dotted@ =~= "."@ + t@);
                if crate::text::chars_eq(&hv, &tv) || crate::metrics::ends_with_chars(&hv, &dotted) {
                    assert(!(spec_picker_regions()[i as int] is Custom));
                    return Some(copy_region(&regions[i]));
                }
            },
            None => {},
        }
        i = i + 1;
    }
    None
}

// ── Errors ───────────────────────────────────────────────────────────────────

/// Why `profiles add` refused its input.
#[derive(Debug)]
pub enum ProfileError {
    /// A `--region` value that names no known region.
    UnknownRegion { raw: String },
    /// `--profile ""`.
    EmptyName,
    /// The profile exists and `--force` was not given on a run without a
    /// terminal.
    AlreadyExists { name: String },
    /// A run without a terminal lacks answers it cannot prompt for.
    Missing { region: bool, api_key: bool },
    /// A run without a terminal and without a region for OAuth.
    NoRegion,
    /// A custom endpoint with OAuth needs a client id, only ever prompted.
    CustomEndpointNeedsTerminal,
    /// A `--url` value without a host.
    InvalidUrl { raw: String },
}

pub const MISSING_REGION: &'static str = "no region — pass --url or --region";

pub const MISSING_API_KEY: &'static str = "no API key — pass --api-key or set CX_API_KEY";

impl ProfileError {
    pub open spec fn spec_message(&self) -> Seq<char> {
        match self {
            ProfileError::UnknownRegion { raw } => "unknown region '"@ + raw@
                + "' — expected one of us1, us2, us3, eu1, eu2, ap1, ap2, ap3, or pass --url with your Coralogix URL"@,
            ProfileError::EmptyName => "Profile name cannot be empty."@,
            ProfileError::AlreadyExists { name } => "profile '"@ + name@
                + "' already exists — pass --force to overwrite"@,
            ProfileError::Missing { region, api_key } => if *region && *api_key {
                MISSING_REGION@ + "\n"@ + MISSING_API_KEY@
            } else if *region {
                MISSING_REGION@
            } else {
                MISSING_API_KEY@
            },
            ProfileError::NoRegion => MISSING_REGION@,
            ProfileError::CustomEndpointNeedsTerminal =>
                "a custom endpoint needs an OAuth client ID, which is prompted interactively — run on a terminal, or use --api-key/CX_API_KEY"@,
            ProfileError::InvalidUrl { raw } => "'--url "@ + raw@
                + "' is not a valid URL — pass your Coralogix URL (e.g. https://myteam.app.eu2.coralogix.com) or use --region"@,
        }
    }

    /// The message shown to the user.
    pub fn message(&self) -> (r: String)
        ensures
            r@ == self.spec_message(),
    {
        match self {
            ProfileError::UnknownRegion { raw } => {
                let mut s = crate::text::owned("unknown region '");
                s.append(raw.as_str());
                s.append(
                    "' — expected one of us1, us2, us3, eu1, eu2, ap1, ap2, ap3, or pass --url with your Coralogix URL",
                );
                s
            },
            ProfileError::EmptyName => crate::text::owned("Profile name cannot be empty."),
            ProfileError::AlreadyExists { name } => {
                let mut s = crate::text::owned("profile '");
                s.append(name.as_str());
                s.append("' already exists — pass --force to overwrite");
                s
            },
            ProfileError::Missing { region, api_key } => {
                if *region && *api_key {
                    let mut s = crate::text::owned(MISSING_REGION);
                    s.append("\n");
                    s.append(MISSING_API_KEY);
                    s
                } else if *region {
                    crate::text::owned(MISSING_REGION)
                } else {
                    crate::text::owned(MISSING_API_KEY)
                }
            },
            ProfileError::NoRegion => crate::text::owned(MISSING_REGION),
            ProfileError::CustomEndpointNeedsTerminal => crate::text::owned(
                "a custom endpoint needs an OAuth client ID, which is prompted interactively — run on a terminal, or use --api-key/CX_API_KEY",
            ),
            ProfileError::InvalidUrl { raw } => {
                let mut s = crate::text::owned("'--url ");
                s.append(raw.as_str());
                s.append(
                    "' is not a valid URL — pass your Coralogix URL (e.g. https://myteam.app.eu2.coralogix.com) or use --region",
                );
                s
            },
        }
    }
}

// ── Flags ────────────────────────────────────────────────────────────────────

/// Reads a `--region` flag value, refusing anything that is not a known
/// region short name (a typo must not become a custom endpoint).
pub fn parse_region_flag(raw: &str) -> (r: Result<Region, ProfileError>)
    ensures
        parse_region(raw@).0 ==> (r matches Err(ProfileError::UnknownRegion { raw: x }) && x@
            == raw@),
        !parse_region(raw@).0 ==> (r matches Ok(got) && region_view(got) == parse_region(raw@)),
{
    let region = Region::parse(raw);
    match region {
        Region::Custom(_) => Err(ProfileError::UnknownRegion { raw: crate::text::owned(raw) }),
        _ => Ok(region),
    }
}

/// What the region prompt, or the region flags, came to.
#[derive(Debug)]
pub enum RegionChoice {
    /// A known region, picked from the list or derived from a URL.
    Known(Region),
    /// A manually entered custom endpoint, without a trailing slash.
    Custom { base_url: String },
}

/// A `--url` value used verbatim as a custom endpoint: trimmed, trailing
/// slashes removed, no scheme added.
pub open spec fn verbatim_endpoint(raw: Seq<char>) -> Seq<char> {
    trim_end_char(trim(raw), '/')
}

/// Resolves the `--url` / `--region` flags into a region choice, if either
/// was given. `--region` must name a known region. A `--url` pointing at a
/// picker region gives that region; any other URL with a host is used
/// verbatim as a custom API endpoint (BYOC / private link / staging), and
/// one without a host is refused.
pub fn resolve_region_flags(url: Option<&str>, region: Option<&str>) -> (r: Result<
    Option<RegionChoice>,
    ProfileError,
>)
    ensures
        match region {
            Some(raw) => if parse_region(raw@).0 {
                r matches Err(ProfileError::UnknownRegion { raw: x }) && x@ == raw@
            } else {
                r matches Ok(Some(RegionChoice::Known(got))) && region_view(got) == parse_region(
                    raw@,
                )
            },
            None => match url {
                None => r matches Ok(None),
                Some(raw) => match spec_region_from_url(raw@) {
                    Some(reg) => r matches Ok(Some(RegionChoice::Known(got))) && got == reg,
                    None => if spec_extract_host(raw@) is None {
                        r matches Err(ProfileError::InvalidUrl { raw: x }) && x@ == raw@
                    } else {
                        r matches Ok(Some(RegionChoice::Custom { base_url })) && base_url@
                            == verbatim_endpoint(raw@)
                    },
                },
            },
        },
{
    if let Some(raw) = region {
        return match parse_region_flag(raw) {
            Ok(reg) => Ok(Some(RegionChoice::Known(reg))),
            Err(e) => Err(e),
        };
    }
    let raw = match url {
        Some(raw) => raw,
        None => return Ok(None),
    };
    match region_from_url(raw) {
        Some(reg) => Ok(Some(RegionChoice::Known(reg))),
        None => {
            if extract_host(raw).is_none() {
                return Err(ProfileError::InvalidUrl { raw: crate::text::owned(raw) });
            }
            let t = crate::text::trim_chars(&chars_of(raw));
            let cleaned = crate::text::trim_end_char_exec(&t, '/');
            Ok(Some(RegionChoice::Custom { base_url: string_of(&cleaned) }))
        },
    }
}

/// Resolves a URL pasted into the region picker without further prompting:
/// a URL pointing at a picker region gives that region; any other URL with
/// a host becomes a custom endpoint (see [`custom_base_url_from`]). `None`
/// when it has no host, and the endpoint must be asked for.
pub fn resolve_url_choice(raw: &str) -> (r: Option<RegionChoice>)
    ensures
        match spec_region_from_url(raw@) {
            Some(reg) => r matches Some(RegionChoice::Known(got)) && got == reg,
            None => match spec_custom_base_url(raw@) {
                Some(b) => r matches Some(RegionChoice::Custom { base_url }) && base_url@ == b,
                None => r is None,
            },
        },
{
    match region_from_url(raw) {
        Some(reg) => Some(RegionChoice::Known(reg)),
        None => match custom_base_url_from(raw) {
            Some(base_url) => Some(RegionChoice::Custom { base_url }),
            None => None,
        },
    }
}

/// Flag surface for `cx profiles add`: flags answer questions, unanswered
/// questions get prompted, and without a terminal unanswered questions are
/// errors.
pub struct AddArgs {
    /// Profile name (positional or `--profile`). Without a terminal: `default`.
    pub name: Option<String>,
    /// `--url`: Coralogix URL the region is derived from.
    pub url: Option<String>,
    /// `--region`: region short name, alternative to `--url`.
    pub region: Option<String>,
    /// `--api-key` / `CX_API_KEY`.
    pub api_key: Option<String>,
    /// `--oauth`: browser login, skipping the auth-method prompt.
    pub oauth: bool,
    /// `--force`: overwrite an existing profile without prompting.
    pub force: bool,
    /// `--set-default`: make the profile the default without prompting.
    pub set_default: bool,
}

// ── Output formats ───────────────────────────────────────────────────────────

/// The output formats of the CLI.
#[derive(Debug, Clone, Copy, PartialEq, Eq, Structural)]
pub enum OutputFormat {
    Text,
    Json,
    Toon,
}

pub open spec fn format_name(f: OutputFormat) -> Seq<char> {
    match f {
        OutputFormat::Text => "text"@,
        OutputFormat::Json => "json"@,
        OutputFormat::Toon => "toon"@,
    }
}

impl OutputFormat {
    /// The canonical name of the format.
    pub fn as_str(&self) -> (r: &'static str)
        ensures
            r@ == format_name(*self),
    {
        match self {
            OutputFormat::Text => "text",
            OutputFormat::Json => "json",
            OutputFormat::Toon => "toon",
        }
    }

    /// Every format.
    pub fn all() -> (r: Vec<OutputFormat>)
        ensures
            r@ == seq![OutputFormat::Text, OutputFormat::Json, OutputFormat::Toon],
    {
        let r = vec![OutputFormat::Text, OutputFormat::Json, OutputFormat::Toon];
        assert(r@ =~= seq![OutputFormat::Text, OutputFormat::Json, OutputFormat::Toon]);
        r
    }
}

/// The labels of the output-format picker, in order.
pub open spec fn spec_output_formats() -> Seq<Seq<char>> {
    seq!["text"@, "json"@, "toon"@]
}

/// The labels of the output-format picker, in order.
pub fn output_formats() -> (r: Vec<&'static str>)
    ensures
        r@.len() == 3,
        forall|i: int| 0 <= i < 3 ==> #[trigger] r@[i]@ == spec_output_formats()[i],
{
    vec!["text", "json", "toon"]
}

/// Where the output-format picker starts: at the current format.
pub fn output_format_cursor(current: OutputFormat) -> (r: usize)
    ensures
        r < 3,
        spec_output_formats()[r as int] == format_name(current),
{
    match current {
        OutputFormat::Text => 0,
        OutputFormat::Json => 1,
        OutputFormat::Toon => 2,
    }
}

/// The format a picker label stands for (`text` for anything else).
pub fn output_format_from_label(label: &str) -> (r: OutputFormat)
    ensures
        label@ == "json"@ ==> r == OutputFormat::Json,
        label@ == "toon"@ ==> r == OutputFormat::Toon,
        label@ != "json"@ && label@ != "toon"@ ==> r == OutputFormat::Text,
{
    proof {
        reveal_strlit("json");
        reveal_strlit("toon");
        assert("json"@[0] != "toon"@[0]);
    }
    let l = chars_of(label);
    if chars_eq_str(&l, "json") {
        OutputFormat::Json
    } else if chars_eq_str(&l, "toon") {
        OutputFormat::Toon
    } else {
        OutputFormat::Text
    }
}

// ── Profiles ─────────────────────────────────────────────────────────────────

#[derive(Debug, Clone, Copy, PartialEq, Eq, Structural)]
pub enum AuthKind {
    ApiKey,
    OAuth,
}

#[derive(Debug, Clone, Copy, PartialEq, Eq, Structural)]
pub enum CredentialStorage {
    File,
    OsStore,
}

/// What `profiles add` writes for a new profile; the fields it leaves unset
/// start empty.
#[derive(Debug)]
pub struct NewProfile {
    pub auth: AuthKind,
    pub credential_storage: CredentialStorage,
    pub api_key: Option<String>,
    pub region: Region,
    pub label: Option<String>,
    pub oauth_client_id: Option<String>,
    pub oauth_base_url: Option<String>,
}

/// The region of a choice: the known region, or a custom one at the URL.
pub open spec fn choice_region(c: RegionChoice) -> (bool, Seq<char>) {
    match c {
        RegionChoice::Known(r) => region_view(r),
        RegionChoice::Custom { base_url } => (true, base_url@),
    }
}

/// Turns a region choice into the profile's region.
pub fn region_of_choice(choice: RegionChoice) -> (r: Region)
    ensures
        region_view(r) == choice_region(choice),
{
    match choice {
        RegionChoice::Known(region) => region,
        RegionChoice::Custom { base_url } => Region::Custom(base_url),
    }
}

pub const PROFILE_FILE_STORAGE: &'static str = "profile file";

/// Builds an API-key profile from flags alone, with no terminal: a missing
/// API key or region is an error naming the flags to add, never invented.
/// The key goes to the profile file.
pub fn build_profile_non_interactive(
    api_key: Option<String>,
    region_choice: Option<RegionChoice>,
) -> (r: Result<(NewProfile, &'static str), ProfileError>)
    ensures
        (region_choice is None || api_key is None) ==> (r matches Err(ProfileError::Missing {
            region,
            api_key: k,
        }) && region == (region_choice is None) && k == (api_key is None)),
        (region_choice is Some && api_key is Some) ==> (r matches Ok((p, desc)) && {
            &&& p.auth == AuthKind::ApiKey
            &&& p.credential_storage == CredentialStorage::File
            &&& field_view(p.api_key) == field_view(api_key)
            &&& region_view(p.region) == choice_region(region_choice->0)
            &&& p.label is None && p.oauth_client_id is None && p.oauth_base_url is None
            &&& desc@ == PROFILE_FILE_STORAGE@
        }),
{
    if region_choice.is_none() || api_key.is_none() {
        return Err(
            ProfileError::Missing { region: region_choice.is_none(), api_key: api_key.is_none() },
        );
    }
    let key = api_key.unwrap();
    let choice = region_choice.unwrap();
    let region = region_of_choice(choice);
    Ok(
        (
            NewProfile {
                auth: AuthKind::ApiKey,
                credential_storage: CredentialStorage::File,
                api_key: Some(key),
                region,
                label: None,
                oauth_client_id: None,
                oauth_base_url: None,
            },
            PROFILE_FILE_STORAGE,
        ),
    )
}

// ── The steps of `profiles add` ──────────────────────────────────────────────

/// The API key to use: a blank one counts as missing, and `--oauth` takes
/// precedence over a key (which often comes from the environment).
pub fn effective_api_key(api_key: Option<String>, oauth: bool) -> (r: Option<String>)
    ensures
        field_view(r) == (if oauth {
            None
        } else {
            match api_key {
                Some(k) => if trim(k@).len() > 0 {
                    Some(k@)
                } else {
                    None
                },
                None => None,
            }
        }),
{
    if oauth {
        return None;
    }
    match api_key {
        Some(k) => {
            if crate::text::trim_ref(k.as_str()).unicode_len() > 0 {
                Some(k)
            } else {
                None
            }
        },
        None => None,
    }
}

/// Whether `profiles add` prompts: only on a terminal, and never when the
/// key and the region are both given.
pub fn is_interactive(stdin_is_terminal: bool, has_api_key: bool, has_region: bool) -> (r: bool)
    ensures
        r == (stdin_is_terminal && !(has_api_key && has_region)),
{
    stdin_is_terminal && !(has_api_key && has_region)
}

/// How the profile name is settled.
#[derive(Debug)]
pub enum NameStep {
    /// This name.
    Use(String),
    /// Ask, offering `default` when this is the first profile.
    Prompt { offer_default: bool },
}

pub const DEFAULT_PROFILE_NAME: &'static str = "default";

/// Settles the profile name: a given name must not be empty; without one,
/// a terminal asks and no terminal means `default`.
pub fn resolve_profile_name(name: Option<String>, interactive: bool, is_first_profile: bool) -> (r:
    Result<NameStep, ProfileError>)
    ensures
        match name {
            Some(n) => if n@.len() == 0 {
                r matches Err(ProfileError::EmptyName)
            } else {
                r matches Ok(NameStep::Use(x)) && x@ == n@
            },
            None => if interactive {
                r matches Ok(NameStep::Prompt { offer_default }) && offer_default
                    == is_first_profile
            } else {
                r matches Ok(NameStep::Use(x)) && x@ == DEFAULT_PROFILE_NAME@
            },
        },
{
    match name {
        Some(n) => {
            if n.unicode_len() == 0 {
                Err(ProfileError::EmptyName)
            } else {
                Ok(NameStep::Use(n))
            }
        },
        None => {
            if interactive {
                Ok(NameStep::Prompt { offer_default: is_first_profile })
            } else {
                Ok(NameStep::Use(crate::text::owned(DEFAULT_PROFILE_NAME)))
            }
        },
    }
}

/// What to do when the profile may already exist.
#[derive(Debug, PartialEq, Eq, Structural)]
pub enum ExistingStep {
    /// Write the profile.
    Proceed,
    /// Ask before replacing it.
    Confirm,
}

/// An existing profile is replaced with `--force`, after a confirmation on
/// a terminal, and refused otherwise.
pub fn existing_profile_step(name: &str, already_exists: bool, force: bool, interactive: bool) -> (r:
    Result<ExistingStep, ProfileError>)
    ensures
        !already_exists || force ==> r matches Ok(ExistingStep::Proceed),
        already_exists && !force && interactive ==> r matches Ok(ExistingStep::Confirm),
        already_exists && !force && !interactive ==> (r matches Err(ProfileError::AlreadyExists { name: n })
            && n@ == name@),
{
    if !already_exists || force {
        Ok(ExistingStep::Proceed)
    } else if interactive {
        Ok(ExistingStep::Confirm)
    } else {
        Err(ProfileError::AlreadyExists { name: crate::text::owned(name) })
    }
}

/// How the profile authenticates.
#[derive(Debug, PartialEq, Eq, Structural)]
pub enum AuthPath {
    /// Browser login.
    OAuth,
    /// From the flags alone, without a terminal.
    NonInteractive,
    /// With the given API key, prompting for the rest.
    ApiKey,
    /// Ask for the method.
    Ask,
}

/// `--oauth` goes to the browser login; without a terminal the flags must
/// answer everything; a given key answers the method question.
pub fn auth_path(oauth: bool, interactive: bool, has_api_key: bool) -> (r: AuthPath)
    ensures
        oauth ==> r == AuthPath::OAuth,
        !oauth && !interactive ==> r == AuthPath::NonInteractive,
        !oauth && interactive && has_api_key ==> r == AuthPath::ApiKey,
        !oauth && interactive && !has_api_key ==> r == AuthPath::Ask,
{
    if oauth {
        AuthPath::OAuth
    } else if !interactive {
        AuthPath::NonInteractive
    } else if has_api_key {
        AuthPath::ApiKey
    } else {
        AuthPath::Ask
    }
}

/// The authentication methods offered, OAuth first (the default).
pub fn auth_methods() -> (r: Vec<&'static str>)
    ensures
        r@.len() == 2,
        r@[0]@ == "OAuth (browser login)"@,
        r@[1]@ == "API key (paste manually)"@,
{
    vec!["OAuth (browser login)", "API key (paste manually)"]
}

/// Whether the chosen method label is the OAuth one.
pub fn chose_oauth(label: &str) -> (r: bool)
    ensures
        r == crate::text::starts_with(label@, "OAuth"@),
{
    let v = chars_of(label);
    let p = chars_of("OAuth");
    if p.len() > v.len() {
        return false;
    }
    let head = crate::text::slice_range(&v, 0, p.len());
    assert(head@ =~= v@.take(p@.len() as int));
    crate::text::chars_eq(&head, &p)
}

/// Whether the new profile becomes the default.
#[derive(Debug, PartialEq, Eq, Structural)]
pub enum DefaultStep {
    Make,
    Ask,
    Keep,
}

/// The first profile always becomes the default; a later one with
/// `--set-default`, or when the user says so on a terminal.
pub fn default_profile_step(is_first_profile: bool, set_default: bool, interactive: bool) -> (r:
    DefaultStep)
    ensures
        is_first_profile || set_default ==> r == DefaultStep::Make,
        !is_first_profile && !set_default && interactive ==> r == DefaultStep::Ask,
        !is_first_profile && !set_default && !interactive ==> r == DefaultStep::Keep,
{
    if is_first_profile || set_default {
        DefaultStep::Make
    } else if interactive {
        DefaultStep::Ask
    } else {
        DefaultStep::Keep
    }
}

// ── OAuth and API-key paths ──────────────────────────────────────────────────

/// Where the OAuth path takes its region from.
#[derive(Debug)]
pub enum OAuthRegion {
    /// Ask with the region picker.
    Prompt,
    /// A known region; its client id is built in.
    Known(Region),
    /// A custom endpoint; its client id is asked for.
    Custom { base_url: String },
}

/// The region step of the OAuth path: the flags' choice, else the picker on
/// a terminal; without a terminal a missing region, or a custom endpoint
/// (whose client id can only be prompted), is refused.
pub fn oauth_region_step(region_choice: Option<RegionChoice>, interactive: bool) -> (r: Result<
    OAuthRegion,
    ProfileError,
>)
    ensures
        match region_choice {
            None => if interactive {
                r matches Ok(OAuthRegion::Prompt)
            } else {
                r matches Err(ProfileError::NoRegion)
            },
            Some(RegionChoice::Known(reg)) => r matches Ok(OAuthRegion::Known(x)) && region_view(x)
                == region_view(reg),
            Some(RegionChoice::Custom { base_url }) => if interactive {
                r matches Ok(OAuthRegion::Custom { base_url: b }) && b@ == base_url@
            } else {
                r matches Err(ProfileError::CustomEndpointNeedsTerminal)
            },
        },
{
    match region_choice {
        None => {
            if interactive {
                Ok(OAuthRegion::Prompt)
            } else {
                Err(ProfileError::NoRegion)
            }
        },
        Some(RegionChoice::Known(region)) => Ok(OAuthRegion::Known(region)),
        Some(RegionChoice::Custom { base_url }) => {
            if interactive {
                Ok(OAuthRegion::Custom { base_url })
            } else {
                Err(ProfileError::CustomEndpointNeedsTerminal)
            }
        },
    }
}

/// Where the OAuth tokens go, and how that is described: in the profile
/// file, or in the OS credential store.
pub fn oauth_storage_desc(storage: CredentialStorage) -> (r: (bool, &'static str))
    ensures
        storage == CredentialStorage::File ==> r.0 && r.1@ == "profile file (OAuth tokens)"@,
        storage == CredentialStorage::OsStore ==> !r.0 && r.1@
            == "OS credential store (OAuth tokens)"@,
{
    match storage {
        CredentialStorage::File => (true, "profile file (OAuth tokens)"),
        CredentialStorage::OsStore => (false, "OS credential store (OAuth tokens)"),
    }
}

/// Where an API key goes: into the profile file, or into the OS credential
/// store (then the profile holds none).
pub fn api_key_placement(storage: CredentialStorage, api_key: String) -> (r: (
    Option<String>,
    &'static str,
))
    ensures
        storage == CredentialStorage::File ==> field_view(r.0) == Some(api_key@) && r.1@
            == PROFILE_FILE_STORAGE@,
        storage == CredentialStorage::OsStore ==> r.0 is None && r.1@ == "OS credential store"@,
{
    match storage {
        CredentialStorage::File => (Some(api_key), PROFILE_FILE_STORAGE),
        CredentialStorage::OsStore => (None, "OS credential store"),
    }
}

/// A label counts only when it is not empty.
pub fn non_empty_label(label: Option<String>) -> (r: Option<String>)
    ensures
        field_view(r) == match label {
            Some(l) => if l@.len() > 0 {
                Some(l@)
            } else {
                None
            },
            None => None,
        },
{
    match label {
        Some(l) => {
            if l.unicode_len() > 0 {
                Some(l)
            } else {
                None
            }
        },
        None => None,
    }
}

// ── Laws ─────────────────────────────────────────────────────────────────────

/// A text without ASCII capitals is its own ASCII lower-casing.
proof fn lemma_lower_of_lowercase(s: Seq<char>)
    requires
        forall|i: int| 0 <= i < s.len() ==> !('A' <= #[trigger] s[i] && s[i] <= 'Z'),
    ensures
        ascii_lower(s) == s,
{
    assert(ascii_lower(s) =~= s);
}

/// The short name of every known region reads back, as a `--region` value,
/// as that region.
pub proof fn lemma_region_name_round_trip(r: Region)
    requires
        !(r is Custom),
    ensures
        parse_region(region_name(r)) == region_view(r),
{
    reveal_strlit("us1");
    reveal_strlit("us2");
    reveal_strlit("us3");
    reveal_strlit("eu1");
    reveal_strlit("eu2");
    reveal_strlit("ap1");
    reveal_strlit("ap2");
    reveal_strlit("ap3");
    lemma_lower_of_lowercase(region_name(r));
}

/// The picker label of a known region holds its short name right after the
/// opening parenthesis.
proof fn lemma_label_holds_name(r: Region)
    requires
        !(r is Custom),
    ensures
        region_name(r).len() == 3,
        spec_region_option_label(r).subrange(1, 4) == region_name(r),
{
    reveal_strlit("us1");
    reveal_strlit("us2");
    reveal_strlit("us3");
    reveal_strlit("eu1");
    reveal_strlit("eu2");
    reveal_strlit("ap1");
    reveal_strlit("ap2");
    reveal_strlit("ap3");
    reveal_strlit("(");
    let t = region_template(r)->0;
    assert(spec_region_option_label(r) == "("@ + region_name(r) + ") "@ + t);
    assert(spec_region_option_label(r).subrange(1, 4) =~= region_name(r));
}

/// The picker labels are pairwise distinct, so a chosen label names exactly
/// one region.
#[verifier::spinoff_prover]
#[verifier::rlimit(40)]
pub proof fn lemma_picker_labels_are_distinct(i: int, j: int)
    requires
        0 <= i < j < spec_picker_regions().len(),
    ensures
        spec_region_option_label(spec_picker_regions()[i]) != spec_region_option_label(
            spec_picker_regions()[j],
        ),
{
    let a = spec_picker_regions()[i];
    let b = spec_picker_regions()[j];
    lemma_label_holds_name(a);
    lemma_label_holds_name(b);
    reveal_strlit("us1");
    reveal_strlit("us2");
    reveal_strlit("us3");
    reveal_strlit("eu1");
    reveal_strlit("eu2");
    reveal_strlit("ap1");
    reveal_strlit("ap2");
    reveal_strlit("ap3");
    assert(region_name(a) != region_name(b)) by {
        assert(region_name(a)[0] != region_name(b)[0] || region_name(a)[1] != region_name(b)[1]
            || region_name(a)[2] != region_name(b)[2]);
    }
}


// ── The profile list ─────────────────────────────────────────────────────────

/// One saved profile as `profiles list` shows it.
#[derive(Debug)]
pub struct ProfileEntry {
    pub name: String,
    pub label: Option<String>,
    pub region: Region,
    pub auth: AuthKind,
    pub output: Option<OutputFormat>,
}

/// The width a text takes in the list's column arithmetic: its length in
/// UTF-8 bytes, as the `usize` that `str::len` gives.
pub open spec fn byte_width(s: Seq<char>) -> nat {
    (vstd::utf8::encode_utf8(s).len() as usize) as nat
}

/// The label cell: the label, or `-`.
pub open spec fn label_cell(e: ProfileEntry) -> Seq<char> {
    crate::text::value_or_dash(field_view(e.label))
}

/// The auth cell.
pub open spec fn auth_cell(a: AuthKind) -> Seq<char> {
    match a {
        AuthKind::OAuth => "oauth"@,
        AuthKind::ApiKey => "api-key"@,
    }
}

/// The output cell: the profile's default format, or `-`.
pub open spec fn output_cell(o: Option<OutputFormat>) -> Seq<char> {
    match o {
        Some(f) => format_name(f),
        None => "-"@,
    }
}

/// The widest of `texts` by `byte_width`, and at least `least`.
pub open spec fn widest(texts: Seq<Seq<char>>, least: nat) -> nat
    decreases texts.len(),
{
    if texts.len() == 0 {
        least
    } else {
        let w = widest(texts.drop_last(), least);
        if byte_width(texts.last()) > w {
            byte_width(texts.last())
        } else {
            w
        }
    }
}

/// `n` copies of `c`.
pub open spec fn run_of(c: char, n: nat) -> Seq<char> {
    Seq::new(n, |i: int| c)
}

/// `s` padded on the right with spaces to `w` characters, as `{:<w$}` does.
pub open spec fn pad(s: Seq<char>, w: nat) -> Seq<char> {
    if s.len() < w {
        s + run_of(' ', (w - s.len()) as nat)
    } else {
        s
    }
}

/// The widths of the name, label and region columns.
pub open spec fn list_widths(entries: Seq<ProfileEntry>) -> (nat, nat, nat) {
    (
        widest(entries.map_values(|e: ProfileEntry| e.name@), 4),
        widest(entries.map_values(|e: ProfileEntry| label_cell(e)), 5),
        widest(entries.map_values(|e: ProfileEntry| region_name(e.region)), 6),
    )
}

/// A line of the list from its six cells and the three widths.
pub open spec fn list_line(cells: Seq<Seq<char>>, w: (nat, nat, nat)) -> Seq<char> {
    pad(cells[0], w.0) + "  "@ + pad(cells[1], w.1) + "  "@ + pad(cells[2], w.2) + "  "@ + pad(cells[3], 8)
        + "  "@ + pad(cells[4], 6) + "  "@ + cells[5]
}

/// The header line.
pub open spec fn list_header(w: (nat, nat, nat)) -> Seq<char> {
    list_line(seq!["NAME"@, "LABEL"@, "REGION"@, "AUTH"@, "OUTPUT"@, "DEFAULT"@], w)
}

/// The line under the header.
pub open spec fn list_rule(w: (nat, nat, nat)) -> Seq<char> {
    list_line(
        seq![run_of('-', w.0), run_of('-', w.1), run_of('-', w.2), "--------"@, run_of('-', 6), "-------"@],
        w,
    )
}

/// The line of one profile; `yes` in the last column for the default one.
pub open spec fn list_row(e: ProfileEntry, default_profile: Seq<char>, w: (nat, nat, nat)) -> Seq<char> {
    list_line(
        seq![
            e.name@,
            label_cell(e),
            region_name(e.region),
            auth_cell(e.auth),
            output_cell(e.output),
            if e.name@ == default_profile { "yes"@ } else { Seq::empty() },
        ],
        w,
    )
}

/// What `profiles list` prints: a note when no profile is saved, else the
/// header, the rule and one line per profile in order, the columns as wide
/// as their widest cell (at least as wide as their header).
pub open spec fn spec_profile_list(entries: Seq<ProfileEntry>, default_profile: Seq<char>) -> Seq<Seq<char>> {
    if entries.len() == 0 {
        seq!["No profiles configured. Run `cx profiles add` to create one."@]
    } else {
        let w = list_widths(entries);
        seq![list_header(w), list_rule(w)] + entries.map_values(
            |e: ProfileEntry| list_row(e, default_profile, w),
        )
    }
}

/// The widest of the cells by `byte_width`, at least `least`.
fn widest_of(cells: &Vec<String>, least: usize) -> (r: usize)
    ensures
        r as nat == widest(views(cells@), least as nat),
{
    let mut w = least;
    let n = cells.len();
    for i in 0..n
        invariant
            n == cells@.len(),
            w as nat == widest(views(cells@).take(i as int), least as nat),
    {
        proof {
            let t = views(cells@).take(i + 1);
            assert(t.drop_last() =~= views(cells@).take(i as int));
            assert(t.last() == cells@[i as int]@);
        }
        let b = cells[i].as_str().len();
        if b > w {
            w = b;
        }
    }
    assert(views(cells@).take(n as int) =~= views(cells@));
    w
}

/// Appends `s` padded with spaces to `w` characters.
fn push_padded(out: &mut String, s: &str, w: usize)
    ensures
        final(out)@ == old(out)@ + pad(s@, w as nat),
{
    crate::text::push_str(out, s);
    let n = chars_of(s).len();
    let ghost start = old(out)@ + s@;
    let mut k = n;
    while k < w
        invariant
            n == s@.len(),
            n <= k,
            k <= w || n >= w,
            n >= w ==> k == n,
            out@ == start + run_of(' ', (k - n) as nat),
        decreases w - k,
    {
        crate::text::push_char(out, ' ');
        assert(run_of(' ', (k - n) as nat).push(' ') =~= run_of(' ', (k + 1 - n) as nat));
        k = k + 1;
    }
    if n < w {
        assert(out@ =~= old(out)@ + pad(s@, w as nat));
    } else {
        assert(run_of(' ', 0) =~= Seq::<char>::empty());
        assert(out@ =~= old(out)@ + pad(s@, w as nat));
    }
}

/// `n` copies of `c`, as a string.
fn run_string(c: char, n: usize) -> (r: String)
    ensures
        r@ == run_of(c, n as nat),
{
    let mut s = String::new();
    let mut k: usize = 0;
    while k < n
        invariant
            k <= n,
            s@ == run_of(c, k as nat),
        decreases n - k,
    {
        crate::text::push_char(&mut s, c);
        assert(run_of(c, k as nat).push(c) =~= run_of(c, (k + 1) as nat));
        k = k + 1;
    }
    s
}

/// A line from its six cells and the three widths.
fn line_of(cells: [&str; 6], w: (usize, usize, usize)) -> (r: String)
    ensures
        r@ == list_line(seq![cells[0]@, cells[1]@, cells[2]@, cells[3]@, cells[4]@, cells[5]@], (w.0 as nat, w.1 as nat, w.2 as nat)),
{
    let mut s = String::new();
    push_padded(&mut s, cells[0], w.0);
    crate::text::push_str(&mut s, "  ");
    push_padded(&mut s, cells[1], w.1);
    crate::text::push_str(&mut s, "  ");
    push_padded(&mut s, cells[2], w.2);
    crate::text::push_str(&mut s, "  ");
    push_padded(&mut s, cells[3], 8);
    crate::text::push_str(&mut s, "  ");
    push_padded(&mut s, cells[4], 6);
    crate::text::push_str(&mut s, "  ");
    crate::text::push_str(&mut s, cells[5]);
    s
}

/// The lines `profiles list` prints for the saved profiles, `default_profile`
/// marked as the default.
pub fn profile_list(entries: &[ProfileEntry], default_profile: &str) -> (r: Vec<String>)
    ensures
        views(r@) == spec_profile_list(entries@, default_profile@),
{
    if entries.len() == 0 {
        let r = vec![crate::text::owned("No profiles configured. Run `cx profiles add` to create one.")];
        assert(views(r@) =~= spec_profile_list(entries@, default_profile@));
        return r;
    }
    let n = entries.len();
    let mut names: Vec<String> = Vec::new();
    let mut labels: Vec<String> = Vec::new();
    let mut regions: Vec<String> = Vec::new();
    for i in 0..n
        invariant
            n == entries@.len(),
            views(names@) == entries@.take(i as int).map_values(|e: ProfileEntry| e.name@),
            views(labels@) == entries@.take(i as int).map_values(|e: ProfileEntry| label_cell(e)),
            views(regions@) == entries@.take(i as int).map_values(|e: ProfileEntry| region_name(e.region)),
    {
        let e = &entries[i];
        let name = crate::text::owned(e.name.as_str());
        let label = crate::text::owned(crate::text::field_or_dash(&e.label));
        let region = crate::text::owned(e.region.as_str());
        proof {
            crate::text::lemma_views_push(names@, name);
            crate::text::lemma_views_push(labels@, label);
            crate::text::lemma_views_push(regions@, region);
            assert(entries@.take(i + 1) =~= entries@.take(i as int).push(entries@[i as int]));
        }
        names.push(name);
        labels.push(label);
        regions.push(region);
        assert(views(names@) =~= entries@.take(i + 1).map_values(|e: ProfileEntry| e.name@));
        assert(views(labels@) =~= entries@.take(i + 1).map_values(|e: ProfileEntry| label_cell(e)));
        assert(views(regions@) =~= entries@.take(i + 1).map_values(|e: ProfileEntry| region_name(e.region)));
    }
    assert(entries@.take(n as int) =~= entries@);
    let w = (widest_of(&names, 4), widest_of(&labels, 5), widest_of(&regions, 6));
    let ghost wv = (w.0 as nat, w.1 as nat, w.2 as nat);
    assert(wv == list_widths(entries@));
    let d0 = run_string('-', w.0);
    let d1 = run_string('-', w.1);
    let d2 = run_string('-', w.2);
    let d4 = run_string('-', 6);
    let mut out: Vec<String> = Vec::new();
    let header = line_of(["NAME", "LABEL", "REGION", "AUTH", "OUTPUT", "DEFAULT"], w);
    let rule = line_of([d0.as_str(), d1.as_str(), d2.as_str(), "--------", d4.as_str(), "-------"], w);
    proof {
        reveal_strlit("NAME");
        reveal_strlit("LABEL");
        reveal_strlit("REGION");
        reveal_strlit("AUTH");
        reveal_strlit("OUTPUT");
        reveal_strlit("DEFAULT");
        assert(seq!["NAME"@, "LABEL"@, "REGION"@, "AUTH"@, "OUTPUT"@, "DEFAULT"@] =~= seq![
            "NAME"@, "LABEL"@, "REGION"@, "AUTH"@, "OUTPUT"@, "DEFAULT"@,
        ]);
    }
    out.push(header);
    out.push(rule);
    assert(views(out@) =~= seq![list_header(wv), list_rule(wv)]);
    for i in 0..n
        invariant
            n == entries@.len(),
            wv == list_widths(entries@),
            wv == (w.0 as nat, w.1 as nat, w.2 as nat),
            views(out@) == seq![list_header(wv), list_rule(wv)] + entries@.take(i as int).map_values(
                |e: ProfileEntry| list_row(e, default_profile@, wv),
            ),
    {
        let e = &entries[i];
        let auth = match e.auth {
            AuthKind::OAuth => "oauth",
            AuthKind::ApiKey => "api-key",
        };
        let output = match e.output {
            Some(f) => f.as_str(),
            None => "-",
        };
        let is_default = if chars_eq_str(&chars_of(e.name.as_str()), default_profile) { "yes" } else { "" };
        let line = line_of(
            [e.name.as_str(), crate::text::field_or_dash(&e.label), e.region.as_str(), auth, output, is_default],
            w,
        );
        proof {
            reveal_strlit("oauth");
            reveal_strlit("api-key");
            reveal_strlit("-");
            reveal_strlit("yes");
            reveal_strlit("");
            crate::text::lemma_views_push(out@, line);
            assert(entries@.take(i + 1) =~= entries@.take(i as int).push(entries@[i as int]));
        }
        out.push(line);
        assert(views(out@) =~= seq![list_header(wv), list_rule(wv)] + entries@.take(i + 1).map_values(
            |e: ProfileEntry| list_row(e, default_profile@, wv),
        ));
    }
    assert(entries@.take(n as int) =~= entries@);
    out
}

} // verus!
