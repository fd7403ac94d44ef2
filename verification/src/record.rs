//! Decoding one JSON object — the byte span of one array element — into a
//! typed playback record under a strict schema: every required field must be
//! present, no field outside the schema may appear, no field may appear
//! twice, and each value must have the field's type. The member list of the
//! object is split by the scanner of [`crate::json`]; string unescaping and
//! timestamp parsing are delegated (see the trusted items below).

use vstd::prelude::*;
use vstd::utf8::encode_utf8;
use vstd::slice::slice_subrange;
use vstd::slice::slice_to_vec;
use vstd::string::StringSliceAdditionalSpecFns;
use crate::json::error_of;
use crate::json::spans_of;

verus! {

/// The UTF-8 bytes of a string: field names and literals of the wire format
/// are compared at the byte level.
pub open spec fn lit_bytes(s: Seq<char>) -> Seq<u8> {
    encode_utf8(s)
}

/// Why one element failed to decode. Field names are carried as the raw key
/// bytes out of the element span.
#[derive(Debug, Clone, PartialEq, Eq)]
pub enum DecodeError {
    /// The element is not one JSON object of members, or a member is not a
    /// quoted key, a colon and a value.
    Syntax,
    /// A member's key belongs to no field of the schema.
    UnknownField(Vec<u8>),
    /// A member's key appeared more than once.
    DuplicateField(Vec<u8>),
    /// A required field has no member.
    MissingField(Vec<u8>),
    /// A member's value does not decode at the field's type.
    BadField(Vec<u8>),
}

/// The mathematical shape of a [`DecodeError`].
#[verifier::ext_equal]
pub enum SpecDecodeError {
    Syntax,
    UnknownField(Seq<u8>),
    DuplicateField(Seq<u8>),
    MissingField(Seq<u8>),
    BadField(Seq<u8>),
}

impl View for DecodeError {
    type V = SpecDecodeError;

    open spec fn view(&self) -> SpecDecodeError {
        match self {
            DecodeError::Syntax => SpecDecodeError::Syntax,
            DecodeError::UnknownField(k) => SpecDecodeError::UnknownField(k@),
            DecodeError::DuplicateField(k) => SpecDecodeError::DuplicateField(k@),
            DecodeError::MissingField(k) => SpecDecodeError::MissingField(k@),
            DecodeError::BadField(k) => SpecDecodeError::BadField(k@),
        }
    }
}

/// One playback record, as decoded from one element of the export. Times
/// are unix timestamps in nanoseconds; an absent optional field is `None`.
#[derive(Debug, Clone, PartialEq)]
pub struct Stream {
    /// When the stream ended, as unix nanoseconds out of the RFC-3339 text.
    pub ts: i128,
    pub username: String,
    pub platform: String,
    /// Number of milliseconds the stream was played.
    pub ms_played: u64,
    /// Country code of where the stream was played.
    pub conn_country: String,
    /// IP address of where the stream was played, kept as its text.
    pub ip_addr_decrypted: Option<String>,
    pub user_agent_decrypted: Option<String>,
    /// The name of the track that was played.
    pub master_metadata_track_name: Option<String>,
    /// The name of the artist, band or podcast.
    pub master_metadata_album_artist_name: Option<String>,
    /// The name of the album.
    pub master_metadata_album_album_name: Option<String>,
    pub spotify_track_uri: Option<String>,
    /// Podcast episode name.
    pub episode_name: Option<String>,
    /// Podcast show name.
    pub episode_show_name: Option<String>,
    pub spotify_episode_uri: Option<String>,
    pub reason_start: Option<String>,
    pub reason_end: Option<String>,
    pub shuffle: Option<bool>,
    pub skipped: Option<bool>,
    pub offline: Option<bool>,
    /// When the stream was played offline, in unix nanoseconds; the wire
    /// carries a millisecond count whose value zero means "absent".
    pub offline_timestamp: Option<i128>,
    pub incognito_mode: Option<bool>,
}

/// The mathematical shape of a [`Stream`].
#[verifier::ext_equal]
pub struct SpecStream {
    pub ts: int,
    pub username: Seq<char>,
    pub platform: Seq<char>,
    pub ms_played: u64,
    pub conn_country: Seq<char>,
    pub ip_addr_decrypted: Option<Seq<char>>,
    pub user_agent_decrypted: Option<Seq<char>>,
    pub master_metadata_track_name: Option<Seq<char>>,
    pub master_metadata_album_artist_name: Option<Seq<char>>,
    pub master_metadata_album_album_name: Option<Seq<char>>,
    pub spotify_track_uri: Option<Seq<char>>,
    pub episode_name: Option<Seq<char>>,
    pub episode_show_name: Option<Seq<char>>,
    pub spotify_episode_uri: Option<Seq<char>>,
    pub reason_start: Option<Seq<char>>,
    pub reason_end: Option<Seq<char>>,
    pub shuffle: Option<bool>,
    pub skipped: Option<bool>,
    pub offline: Option<bool>,
    pub offline_timestamp: Option<int>,
    pub incognito_mode: Option<bool>,
}

pub open spec fn opt_str_view(o: Option<String>) -> Option<Seq<char>> {
    match o {
        Some(s) => Some(s@),
        None => None,
    }
}

pub open spec fn opt_i128_view(o: Option<i128>) -> Option<int> {
    match o {
        Some(x) => Some(x as int),
        None => None,
    }
}

impl View for Stream {
    type V = SpecStream;

    open spec fn view(&self) -> SpecStream {
        SpecStream {
            ts: self.ts as int,
            username: self.username@,
            platform: self.platform@,
            ms_played: self.ms_played,
            conn_country: self.conn_country@,
            ip_addr_decrypted: opt_str_view(self.ip_addr_decrypted),
            user_agent_decrypted: opt_str_view(self.user_agent_decrypted),
            master_metadata_track_name: opt_str_view(self.master_metadata_track_name),
            master_metadata_album_artist_name: opt_str_view(
                self.master_metadata_album_artist_name,
            ),
            master_metadata_album_album_name: opt_str_view(self.master_metadata_album_album_name),
            spotify_track_uri: opt_str_view(self.spotify_track_uri),
            episode_name: opt_str_view(self.episode_name),
            episode_show_name: opt_str_view(self.episode_show_name),
            spotify_episode_uri: opt_str_view(self.spotify_episode_uri),
            reason_start: opt_str_view(self.reason_start),
            reason_end: opt_str_view(self.reason_end),
            shuffle: self.shuffle,
            skipped: self.skipped,
            offline: self.offline,
            offline_timestamp: opt_i128_view(self.offline_timestamp),
            incognito_mode: self.incognito_mode,
        }
    }
}

// ---------------------------------------------------------------------------
// Trusted items: what the outside crates do for the decoder.
// ---------------------------------------------------------------------------

/// What decoding one JSON string literal (the quotes, the escapes and the
/// UTF-8 inside them) yields, or `None` where the span is not one JSON
/// string. The result depends on the bytes alone.
pub uninterp spec fn json_string_of(span: Seq<u8>) -> Option<Seq<char>>;

/// A span that is a quoted run of plain printable ASCII with no escape:
/// on such a span a JSON string decoder returns the bytes between the
/// quotes, read as characters.
pub open spec fn plain_json_string(v: Seq<u8>) -> bool {
    &&& v.len() >= 2
    &&& v[0] == 34
    &&& v[v.len() - 1] == 34
    &&& forall|i: int|
        1 <= i < v.len() - 1 ==> (32 <= #[trigger] v[i] < 127 && v[i] != 34 && v[i] != 92)
}

/// The characters between the quotes of a plain ASCII string span.
pub open spec fn plain_chars(v: Seq<u8>) -> Seq<char> {
    v.subrange(1, v.len() - 1).map(|i: int, b: u8| b as char)
}

/// Relies on serde_json::from_slice::<String>: it decodes exactly one JSON
/// string literal out of `span` (trailing whitespace tolerated, any other
/// trailing byte refused), and on a quoted run of plain printable ASCII it
/// returns the bytes between the quotes.
#[verifier::external_body]
fn json_string(span: &Vec<u8>) -> (r: Option<String>)
    ensures
        r is Some <==> json_string_of(span@) is Some,
        r is Some ==> r->0@ == json_string_of(span@)->0,
        plain_json_string(span@) ==> (r is Some && r->0@ == plain_chars(span@)),
{
    serde_json::from_slice::<String>(span.as_slice()).ok()
}

/// What parsing a string as an RFC-3339 timestamp yields, as unix
/// nanoseconds, or `None` where the string is not a valid RFC-3339 instant.
/// The result depends on the characters alone.
pub uninterp spec fn rfc3339_nanos_of(s: Seq<char>) -> Option<int>;

/// Relies on time::OffsetDateTime::parse with the RFC-3339 well-known
/// format, and on time::OffsetDateTime::unix_timestamp_nanos, which reads
/// the parsed instant back out as unix nanoseconds.
#[verifier::external_body]
fn parse_rfc3339(s: &str) -> (r: Option<i128>)
    ensures
        r is Some <==> rfc3339_nanos_of(s@) is Some,
        r is Some ==> r->0 as int == rfc3339_nanos_of(s@)->0,
{
    time::OffsetDateTime::parse(s, &time::format_description::well_known::Rfc3339)
        .ok()
        .map(|t| t.unix_timestamp_nanos())
}

/// Whether a unix-nanosecond count names an instant the `time` crate can
/// represent. Depends on the count alone.
pub uninterp spec fn odt_nanos_in_range(ns: int) -> bool;

/// Relies on time::OffsetDateTime::from_unix_timestamp_nanos: it returns
/// `Ok` exactly when the instant is representable.
#[verifier::external_body]
fn nanos_representable(ns: i128) -> (r: bool)
    ensures
        r == odt_nanos_in_range(ns as int),
{
    time::OffsetDateTime::from_unix_timestamp_nanos(ns).is_ok()
}

/// Whether a string is the text of an IP address (v4 or v6). Depends on
/// the characters alone.
pub uninterp spec fn ip_parses(s: Seq<char>) -> bool;

/// Relies on core::net::IpAddr's FromStr impl: a pure syntactic parse of
/// the characters, no I/O and no environment.
#[verifier::external_body]
fn is_ip_text(s: &str) -> (r: bool)
    ensures
        r == ip_parses(s@),
{
    s.parse::<core::net::IpAddr>().is_ok()
}

// ---------------------------------------------------------------------------
// The wire grammar of single values.
// ---------------------------------------------------------------------------

pub open spec fn is_digit(b: u8) -> bool {
    48 <= b <= 57
}

pub open spec fn all_digits(v: Seq<u8>) -> bool {
    forall|i: int| 0 <= i < v.len() ==> is_digit(#[trigger] v[i])
}

/// The number the digit bytes spell in base ten.
pub open spec fn digits_val(v: Seq<u8>) -> int
    decreases v.len(),
{
    if v.len() == 0 {
        0
    } else {
        digits_val(v.drop_last()) * 10 + (v.last() - 48)
    }
}

/// A JSON integer literal body: at least one digit, and no leading zero
/// unless the number is zero itself.
pub open spec fn is_canon_digits(v: Seq<u8>) -> bool {
    v.len() > 0 && all_digits(v) && (v.len() > 1 ==> v[0] != 48)
}

/// The value of an unsigned decimal span that fits in a u64, if any.
pub open spec fn spec_u64_val(v: Seq<u8>) -> Option<u64> {
    if is_canon_digits(v) && digits_val(v) <= u64::MAX {
        Some(digits_val(v) as u64)
    } else {
        None
    }
}

/// The value of a decimal span, optionally signed, that fits in an i128.
pub open spec fn spec_i128_val(v: Seq<u8>) -> Option<int> {
    if v.len() > 0 && v[0] == 45 {
        let m = v.drop_first();
        if is_canon_digits(m) && digits_val(m) <= 0x8000_0000_0000_0000_0000_0000_0000_0000 {
            Some(-digits_val(m))
        } else {
            None
        }
    } else {
        if is_canon_digits(v) && digits_val(v) <= 0x7fff_ffff_ffff_ffff_ffff_ffff_ffff_ffff {
            Some(digits_val(v))
        } else {
            None
        }
    }
}

/// An optional string value: `null`, or a JSON string.
pub open spec fn spec_opt_string_val(v: Seq<u8>) -> Option<Option<Seq<char>>> {
    if v == lit_bytes("null"@) {
        Some(None)
    } else {
        match json_string_of(v) {
            Some(s) => Some(Some(s)),
            None => None,
        }
    }
}

/// The optional IP-address value: `null`, or a JSON string whose decoded
/// text parses as an IP address.
pub open spec fn spec_ip_val(v: Seq<u8>) -> Option<Option<Seq<char>>> {
    if v == lit_bytes("null"@) {
        Some(None)
    } else {
        match json_string_of(v) {
            Some(s) => if ip_parses(s) {
                Some(Some(s))
            } else {
                None
            },
            None => None,
        }
    }
}

/// An optional boolean value: `null`, `true` or `false`.
pub open spec fn spec_opt_bool_val(v: Seq<u8>) -> Option<Option<bool>> {
    if v == lit_bytes("null"@) {
        Some(None)
    } else if v == lit_bytes("true"@) {
        Some(Some(true))
    } else if v == lit_bytes("false"@) {
        Some(Some(false))
    } else {
        None
    }
}

/// The end timestamp: a JSON string holding an RFC-3339 instant.
pub open spec fn spec_ts_val(v: Seq<u8>) -> Option<int> {
    match json_string_of(v) {
        Some(s) => rfc3339_nanos_of(s),
        None => None,
    }
}

/// The sentinel-as-null rule for the offline timestamp: the wire carries a
/// count of milliseconds; zero means "absent", any other value names the
/// corresponding instant in nanoseconds — and fails if that instant
/// overflows an i128 or the range of representable instants.
pub open spec fn spec_offline_of(ms: int) -> Option<Option<int>> {
    if ms == 0 {
        Some(None)
    } else {
        let ns = ms * 1_000_000;
        if -0x8000_0000_0000_0000_0000_0000_0000_0000 <= ns
            <= 0x7fff_ffff_ffff_ffff_ffff_ffff_ffff_ffff && odt_nanos_in_range(ns) {
            Some(Some(ns))
        } else {
            None
        }
    }
}

/// The offline-timestamp member's value: `null`, or an integer put through
/// the sentinel-as-null rule.
pub open spec fn spec_offline_val(v: Seq<u8>) -> Option<Option<int>> {
    if v == lit_bytes("null"@) {
        Some(None)
    } else {
        match spec_i128_val(v) {
            Some(ms) => spec_offline_of(ms),
            None => None,
        }
    }
}

// ---------------------------------------------------------------------------
// Members of the object: spans, keys and values.
// ---------------------------------------------------------------------------

/// The member spans of the element read as one JSON object.
pub open spec fn member_spans(span: Seq<u8>) -> Seq<Seq<u8>> {
    spans_of(123, 125, span)
}

/// Whether the element is one well-delimited JSON object.
pub open spec fn object_ok(span: Seq<u8>) -> bool {
    error_of(123, 125, span) is None
}

/// The position of the quote that closes the key string, scanning from `i`
/// with the escape flag `esc`.
pub open spec fn key_close_from(m: Seq<u8>, i: int, esc: bool) -> Option<int>
    decreases m.len() - i when 0 <= i <= m.len()
{
    if i >= m.len() {
        None
    } else if esc {
        key_close_from(m, i + 1, false)
    } else if m[i] == 92 {
        key_close_from(m, i + 1, true)
    } else if m[i] == 34 {
        Some(i)
    } else {
        key_close_from(m, i + 1, false)
    }
}

/// A member split into its key (the bytes between the key's quotes, kept
/// raw) and its value span: `"key":value`, the colon right after the
/// closing quote, the value nonempty. The scanner has already dropped
/// whitespace that stood at the member's own level. Keys are compared as
/// the raw bytes: a schema name spelled with JSON escapes is not that
/// schema name, but an unknown field.
pub open spec fn spec_split_member(m: Seq<u8>) -> Option<(Seq<u8>, Seq<u8>)> {
    if m.len() < 1 || m[0] != 34 {
        None
    } else {
        match key_close_from(m, 1, false) {
            None => None,
            Some(q) => if q + 2 < m.len() && m[q + 1] == 58 {
                Some((m.subrange(1, q), m.subrange(q + 2, m.len() as int)))
            } else {
                None
            },
        }
    }
}

/// The value of the first member whose key is `k`, if any.
pub open spec fn field_val(members: Seq<Seq<u8>>, k: Seq<u8>) -> Option<Seq<u8>>
    decreases members.len(),
{
    if members.len() == 0 {
        None
    } else {
        match spec_split_member(members.first()) {
            Some(p) => if p.0 == k {
                Some(p.1)
            } else {
                field_val(members.drop_first(), k)
            },
            None => field_val(members.drop_first(), k),
        }
    }
}

pub open spec fn is_req_string_key(k: Seq<u8>) -> bool {
    ||| k == lit_bytes("username"@)
    ||| k == lit_bytes("platform"@)
    ||| k == lit_bytes("conn_country"@)
}

pub open spec fn is_opt_string_key(k: Seq<u8>) -> bool {
    ||| k == lit_bytes("user_agent_decrypted"@)
    ||| k == lit_bytes("master_metadata_track_name"@)
    ||| k == lit_bytes("master_metadata_album_artist_name"@)
    ||| k == lit_bytes("master_metadata_album_album_name"@)
    ||| k == lit_bytes("spotify_track_uri"@)
    ||| k == lit_bytes("episode_name"@)
    ||| k == lit_bytes("episode_show_name"@)
    ||| k == lit_bytes("spotify_episode_uri"@)
    ||| k == lit_bytes("reason_start"@)
    ||| k == lit_bytes("reason_end"@)
}

pub open spec fn is_opt_bool_key(k: Seq<u8>) -> bool {
    ||| k == lit_bytes("shuffle"@)
    ||| k == lit_bytes("skipped"@)
    ||| k == lit_bytes("offline"@)
    ||| k == lit_bytes("incognito_mode"@)
}

/// Whether `k` names a field of the schema.
pub open spec fn is_known_key(k: Seq<u8>) -> bool {
    ||| k == lit_bytes("ts"@)
    ||| k == lit_bytes("ms_played"@)
    ||| k == lit_bytes("offline_timestamp"@)
    ||| k == lit_bytes("ip_addr_decrypted"@)
    ||| is_req_string_key(k)
    ||| is_opt_string_key(k)
    ||| is_opt_bool_key(k)
}

/// Whether the value `v` decodes at the type of every field that `k` names.
pub open spec fn spec_value_ok(k: Seq<u8>, v: Seq<u8>) -> bool {
    &&& k == lit_bytes("ts"@) ==> spec_ts_val(v) is Some
    &&& k == lit_bytes("ms_played"@) ==> spec_u64_val(v) is Some
    &&& k == lit_bytes("offline_timestamp"@) ==> spec_offline_val(v) is Some
    &&& k == lit_bytes("ip_addr_decrypted"@) ==> spec_ip_val(v) is Some
    &&& is_req_string_key(k) ==> json_string_of(v) is Some
    &&& is_opt_string_key(k) ==> spec_opt_string_val(v) is Some
    &&& is_opt_bool_key(k) ==> spec_opt_bool_val(v) is Some
}

/// What is wrong with member `i`, if anything: no key/colon/value shape, a
/// key already used by an earlier member, a key outside the schema, or a
/// value of the wrong type.
pub open spec fn member_check(ms: Seq<Seq<u8>>, k: Seq<u8>, v: Seq<u8>) -> Option<
    SpecDecodeError,
> {
    if !is_known_key(k) {
        Some(SpecDecodeError::UnknownField(k))
    } else if field_val(ms, k) is Some {
        Some(SpecDecodeError::DuplicateField(k))
    } else if !spec_value_ok(k, v) {
        Some(SpecDecodeError::BadField(k))
    } else {
        None
    }
}

pub open spec fn spec_member_error(members: Seq<Seq<u8>>, i: int) -> Option<SpecDecodeError> {
    match spec_split_member(members[i]) {
        None => Some(SpecDecodeError::Syntax),
        Some(p) => member_check(members.subrange(0, i), p.0, p.1),
    }
}

/// The first member error at or after `i`, if any.
pub open spec fn first_member_error_from(members: Seq<Seq<u8>>, i: int) -> Option<SpecDecodeError>
    decreases members.len() - i when 0 <= i <= members.len()
{
    if i >= members.len() {
        None
    } else {
        match spec_member_error(members, i) {
            Some(e) => Some(e),
            None => first_member_error_from(members, i + 1),
        }
    }
}

/// The first required field that has no member, in schema order.
pub open spec fn spec_missing_required(members: Seq<Seq<u8>>) -> Option<Seq<u8>> {
    if field_val(members, lit_bytes("ts"@)) is None {
        Some(lit_bytes("ts"@))
    } else if field_val(members, lit_bytes("username"@)) is None {
        Some(lit_bytes("username"@))
    } else if field_val(members, lit_bytes("platform"@)) is None {
        Some(lit_bytes("platform"@))
    } else if field_val(members, lit_bytes("ms_played"@)) is None {
        Some(lit_bytes("ms_played"@))
    } else if field_val(members, lit_bytes("conn_country"@)) is None {
        Some(lit_bytes("conn_country"@))
    } else {
        None
    }
}

pub open spec fn spec_opt_str_field(members: Seq<Seq<u8>>, name: Seq<char>) -> Option<Seq<char>> {
    match field_val(members, lit_bytes(name)) {
        Some(v) => spec_opt_string_val(v)->0,
        None => None,
    }
}

pub open spec fn spec_opt_bool_field(members: Seq<Seq<u8>>, name: Seq<char>) -> Option<bool> {
    match field_val(members, lit_bytes(name)) {
        Some(v) => spec_opt_bool_val(v)->0,
        None => None,
    }
}

/// The record a clean member list builds.
pub open spec fn build_spec_stream(members: Seq<Seq<u8>>) -> SpecStream {
    SpecStream {
        ts: spec_ts_val(field_val(members, lit_bytes("ts"@))->0)->0,
        username: json_string_of(field_val(members, lit_bytes("username"@))->0)->0,
        platform: json_string_of(field_val(members, lit_bytes("platform"@))->0)->0,
        ms_played: spec_u64_val(field_val(members, lit_bytes("ms_played"@))->0)->0,
        conn_country: json_string_of(field_val(members, lit_bytes("conn_country"@))->0)->0,
        ip_addr_decrypted: match field_val(members, lit_bytes("ip_addr_decrypted"@)) {
            Some(v) => spec_ip_val(v)->0,
            None => None,
        },
        user_agent_decrypted: spec_opt_str_field(members, "user_agent_decrypted"@),
        master_metadata_track_name: spec_opt_str_field(members, "master_metadata_track_name"@),
        master_metadata_album_artist_name: spec_opt_str_field(
            members,
            "master_metadata_album_artist_name"@,
        ),
        master_metadata_album_album_name: spec_opt_str_field(
            members,
            "master_metadata_album_album_name"@,
        ),
        spotify_track_uri: spec_opt_str_field(members, "spotify_track_uri"@),
        episode_name: spec_opt_str_field(members, "episode_name"@),
        episode_show_name: spec_opt_str_field(members, "episode_show_name"@),
        spotify_episode_uri: spec_opt_str_field(members, "spotify_episode_uri"@),
        reason_start: spec_opt_str_field(members, "reason_start"@),
        reason_end: spec_opt_str_field(members, "reason_end"@),
        shuffle: spec_opt_bool_field(members, "shuffle"@),
        skipped: spec_opt_bool_field(members, "skipped"@),
        offline: spec_opt_bool_field(members, "offline"@),
        offline_timestamp: match field_val(members, lit_bytes("offline_timestamp"@)) {
            Some(v) => spec_offline_val(v)->0,
            None => None,
        },
        incognito_mode: spec_opt_bool_field(members, "incognito_mode"@),
    }
}

/// What decoding one element yields: the record, or the first thing wrong
/// with the element — its object shape, then its members in order, then the
/// required fields in schema order.
pub open spec fn spec_decode(span: Seq<u8>) -> Result<SpecStream, SpecDecodeError> {
    if !object_ok(span) {
        Err(SpecDecodeError::Syntax)
    } else {
        let members = member_spans(span);
        match first_member_error_from(members, 0) {
            Some(e) => Err(e),
            None => match spec_missing_required(members) {
                Some(k) => Err(SpecDecodeError::MissingField(k)),
                None => Ok(build_spec_stream(members)),
            },
        }
    }
}

// ---------------------------------------------------------------------------
// Small verified helpers.
// ---------------------------------------------------------------------------

/// Byte-for-byte equality of two slices.
fn bytes_eq(a: &[u8], b: &[u8]) -> (r: bool)
    ensures
        r == (a@ == b@),
{
    if a.len() != b.len() {
        proof {
            assert(a@ != b@) by {
                assert(a@.len() != b@.len());
            }
        }
        return false;
    }
    let n = a.len();
    let mut i: usize = 0;
    while i < n
        invariant
            i <= n,
            n == a@.len() && n == b@.len(),
            forall|j: int| 0 <= j < i ==> a@[j] == b@[j],
        decreases n - i,
    {
        if a[i] != b[i] {
            return false;
        }
        i = i + 1;
    }
    proof {
        assert(a@ =~= b@);
    }
    true
}

/// Whether the raw key bytes `k` spell the field name `name`.
fn key_is(k: &Vec<u8>, name: &str) -> (r: bool)
    ensures
        r == (k@ == lit_bytes(name@)),
{
    bytes_eq(k.as_slice(), name.as_bytes())
}

/// Whether the value span is the literal `lit` (such as `null` or `true`).
fn val_is_lit(v: &Vec<u8>, lit: &str) -> (r: bool)
    ensures
        r == (v@ == lit_bytes(lit@)),
{
    bytes_eq(v.as_slice(), lit.as_bytes())
}

// ---------------------------------------------------------------------------
// Decimal parsing.
// ---------------------------------------------------------------------------

proof fn lemma_digits_val_nonneg(v: Seq<u8>)
    requires
        all_digits(v),
    ensures
        digits_val(v) >= 0,
    decreases v.len(),
{
    if v.len() > 0 {
        assert forall|i: int| 0 <= i < v.drop_last().len() implies is_digit(
            #[trigger] v.drop_last()[i],
        ) by {
            assert(v.drop_last()[i] == v[i]);
        }
        lemma_digits_val_nonneg(v.drop_last());
        assert(is_digit(v[v.len() - 1]));
    }
}

/// A prefix of a digit run spells no more than the whole run.
proof fn lemma_digits_val_prefix_le(v: Seq<u8>, j: int)
    requires
        all_digits(v),
        0 <= j <= v.len(),
    ensures
        digits_val(v.subrange(0, j)) <= digits_val(v),
    decreases v.len() - j,
{
    if j == v.len() {
        assert(v.subrange(0, j) =~= v);
    } else {
        lemma_digits_val_prefix_le(v, j + 1);
        let a = v.subrange(0, j);
        let b = v.subrange(0, j + 1);
        assert(b.drop_last() =~= a);
        assert(b.last() == v[j]);
        assert forall|t: int| 0 <= t < a.len() implies is_digit(#[trigger] a[t]) by {
            assert(a[t] == v[t]);
        }
        lemma_digits_val_nonneg(a);
        assert(is_digit(v[j]));
        assert(digits_val(b) == digits_val(a) * 10 + (v[j] - 48));
    }
}

/// Parses an unsigned decimal span. `None` means the span is not a canonic
/// digit run, or its value does not fit in a u128.
fn parse_u128_digits(v: &Vec<u8>) -> (r: Option<u128>)
    ensures
        match r {
            Some(m) => is_canon_digits(v@) && digits_val(v@) == m as int,
            None => !is_canon_digits(v@) || digits_val(v@) > u128::MAX,
        },
{
    let n = v.len();
    if n == 0 {
        return None;
    }
    if n > 1 && v[0] == 48 {
        return None;
    }
    let mut i: usize = 0;
    let mut acc: u128 = 0;
    while i < n
        invariant
            i <= n,
            n == v@.len(),
            n >= 1,
            n > 1 ==> v@[0] != 48,
            forall|j: int| 0 <= j < i ==> is_digit(#[trigger] v@[j]),
            acc as int == digits_val(v@.subrange(0, i as int)),
        decreases n - i,
    {
        let b = v[i];
        if !(48 <= b && b <= 57) {
            assert(!is_digit(v@[i as int]));
            return None;
        }
        let d = (b - 48) as u128;
        proof {
            assert(v@.subrange(0, i + 1).drop_last() =~= v@.subrange(0, i as int));
            assert(v@.subrange(0, i + 1).last() == v@[i as int]);
            assert(digits_val(v@.subrange(0, i + 1)) == acc * 10 + d);
        }
        let acc10 = match acc.checked_mul(10) {
            Some(x) => x,
            None => {
                proof {
                    if all_digits(v@) {
                        lemma_digits_val_prefix_le(v@, i + 1);
                    }
                }
                return None;
            },
        };
        acc = match acc10.checked_add(d) {
            Some(x) => x,
            None => {
                proof {
                    if all_digits(v@) {
                        lemma_digits_val_prefix_le(v@, i + 1);
                    }
                }
                return None;
            },
        };
        i = i + 1;
    }
    proof {
        assert(v@.subrange(0, n as int) =~= v@);
    }
    Some(acc)
}

/// Parses the value of a `u64` field.
fn parse_u64_val(v: &Vec<u8>) -> (r: Option<u64>)
    ensures
        r == spec_u64_val(v@),
{
    match parse_u128_digits(v) {
        Some(m) => if m <= 0xffff_ffff_ffff_ffff {
            Some(m as u64)
        } else {
            None
        },
        None => None,
    }
}

/// Parses the value of a signed integer field into an i128.
fn parse_i128_val(v: &Vec<u8>) -> (r: Option<i128>)
    ensures
        match spec_i128_val(v@) {
            Some(x) => r is Some && r->0 as int == x,
            None => r is None,
        },
{
    let n = v.len();
    if n > 0 && v[0] == 45 {
        let mag = slice_to_vec(slice_subrange(v.as_slice(), 1, n));
        proof {
            assert(mag@ =~= v@.drop_first());
        }
        match parse_u128_digits(&mag) {
            Some(m) => if m < 0x8000_0000_0000_0000_0000_0000_0000_0000 {
                Some(-(m as i128))
            } else if m == 0x8000_0000_0000_0000_0000_0000_0000_0000 {
                Some(i128::MIN)
            } else {
                None
            },
            None => None,
        }
    } else {
        match parse_u128_digits(v) {
            Some(m) => if m <= 0x7fff_ffff_ffff_ffff_ffff_ffff_ffff_ffff {
                Some(m as i128)
            } else {
                None
            },
            None => None,
        }
    }
}

/// The sentinel-as-null rule of the offline timestamp, on the decoded
/// count of milliseconds: zero decodes to "absent"; any nonzero count
/// decodes to the corresponding instant in unix nanoseconds, and fails
/// where that instant is not representable.
pub fn decode_offline_timestamp(ms: i128) -> (r: Option<Option<i128>>)
    ensures
        match spec_offline_of(ms as int) {
            Some(x) => r is Some && opt_i128_view(r->0) == x,
            None => r is None,
        },
{
    if ms == 0 {
        return Some(None);
    }
    match ms.checked_mul(1_000_000) {
        Some(ns) => if nanos_representable(ns) {
            Some(Some(ns))
        } else {
            None
        },
        None => None,
    }
}

// ---------------------------------------------------------------------------
// Members: splitting and looking up.
// ---------------------------------------------------------------------------

/// Splits one member span into its raw key bytes and its value span.
fn split_member(m: &Vec<u8>) -> (r: Option<(Vec<u8>, Vec<u8>)>)
    ensures
        match r {
            Some(kv) => spec_split_member(m@) == Some((kv.0@, kv.1@)),
            None => spec_split_member(m@) is None,
        },
{
    let n = m.len();
    if n < 1 || m[0] != 34 {
        return None;
    }
    let mut i: usize = 1;
    let mut esc = false;
    let mut q: usize = 0;
    let mut found = false;
    while i < n && !found
        invariant
            1 <= i <= n,
            n == m@.len(),
            !found ==> key_close_from(m@, 1, false) == key_close_from(m@, i as int, esc),
            found ==> 1 <= q < n && key_close_from(m@, 1, false) == Some(q as int),
        decreases n - i + (if found { 0int } else { 1 }),
    {
        let b = m[i];
        if esc {
            esc = false;
            i = i + 1;
        } else if b == 92 {
            esc = true;
            i = i + 1;
        } else if b == 34 {
            q = i;
            found = true;
        } else {
            i = i + 1;
        }
    }
    if !found {
        return None;
    }
    if q >= n - 2 {
        return None;
    }
    if m[q + 1] != 58 {
        return None;
    }
    let key = slice_to_vec(slice_subrange(m.as_slice(), 1, q));
    let val = slice_to_vec(slice_subrange(m.as_slice(), q + 2, n));
    Some((key, val))
}

/// Appending one member changes a field lookup only where the field was
/// still unset and the new member's key is the one looked up.
proof fn lemma_field_val_snoc_one(members: Seq<Seq<u8>>, m: Seq<u8>, k: Seq<u8>)
    ensures
        field_val(members.push(m), k) == (if field_val(members, k) is Some {
            field_val(members, k)
        } else {
            match spec_split_member(m) {
                Some(p) => if p.0 == k {
                    Some(p.1)
                } else {
                    None
                },
                None => None,
            }
        }),
    decreases members.len(),
{
    let pm = members.push(m);
    if members.len() == 0 {
        assert(pm.first() == m);
        assert(pm.drop_first() =~= Seq::<Seq<u8>>::empty());
        assert(field_val(pm.drop_first(), k) is None);
        assert(field_val(members, k) is None);
    } else {
        assert(pm.first() == members.first());
        assert(pm.drop_first() =~= members.drop_first().push(m));
        lemma_field_val_snoc_one(members.drop_first(), m, k);
        assert(field_val(pm, k) == match spec_split_member(members.first()) {
            Some(p) => if p.0 == k {
                Some(p.1)
            } else {
                field_val(pm.drop_first(), k)
            },
            None => field_val(pm.drop_first(), k),
        });
    }
}

// ---------------------------------------------------------------------------
// One field at a time: how a local holding a field relates to the members
// already read, and the step that folds one more member in.
// ---------------------------------------------------------------------------

pub open spec fn rel_req_str(cur: Option<String>, ms: Seq<Seq<u8>>, name: Seq<char>) -> bool {
    match field_val(ms, lit_bytes(name)) {
        Some(v) => cur is Some && cur->0@ == json_string_of(v)->0,
        None => cur is None,
    }
}

pub open spec fn rel_opt_str(
    cur: Option<Option<String>>,
    ms: Seq<Seq<u8>>,
    name: Seq<char>,
) -> bool {
    match field_val(ms, lit_bytes(name)) {
        Some(v) => cur is Some && opt_str_view(cur->0) == spec_opt_string_val(v)->0,
        None => cur is None,
    }
}

pub open spec fn rel_ip(cur: Option<Option<String>>, ms: Seq<Seq<u8>>) -> bool {
    match field_val(ms, lit_bytes("ip_addr_decrypted"@)) {
        Some(v) => cur is Some && opt_str_view(cur->0) == spec_ip_val(v)->0,
        None => cur is None,
    }
}

pub open spec fn rel_opt_bool(
    cur: Option<Option<bool>>,
    ms: Seq<Seq<u8>>,
    name: Seq<char>,
) -> bool {
    match field_val(ms, lit_bytes(name)) {
        Some(v) => cur == Some(spec_opt_bool_val(v)->0),
        None => cur is None,
    }
}

pub open spec fn rel_ts(cur: Option<i128>, ms: Seq<Seq<u8>>) -> bool {
    match field_val(ms, lit_bytes("ts"@)) {
        Some(v) => cur is Some && cur->0 as int == spec_ts_val(v)->0,
        None => cur is None,
    }
}

pub open spec fn rel_u64(cur: Option<u64>, ms: Seq<Seq<u8>>) -> bool {
    match field_val(ms, lit_bytes("ms_played"@)) {
        Some(v) => cur is Some && cur == spec_u64_val(v),
        None => cur is None,
    }
}

pub open spec fn rel_off(cur: Option<Option<i128>>, ms: Seq<Seq<u8>>) -> bool {
    match field_val(ms, lit_bytes("offline_timestamp"@)) {
        Some(v) => cur is Some && opt_i128_view(cur->0) == spec_offline_val(v)->0,
        None => cur is None,
    }
}

fn dec_req_str_field(present: bool, v: &Vec<u8>, cur: Option<String>) -> (r: Result<
    Option<String>,
    (),
>)
    ensures
        !present ==> r == Ok::<Option<String>, ()>(cur),
        present ==> match json_string_of(v@) {
            Some(s) => r is Ok && r->Ok_0 is Some && r->Ok_0->0@ == s,
            None => r is Err,
        },
{
    if !present {
        return Ok(cur);
    }
    match json_string(v) {
        Some(s) => Ok(Some(s)),
        None => Err(()),
    }
}

fn dec_opt_str_field(present: bool, v: &Vec<u8>, cur: Option<Option<String>>) -> (r: Result<
    Option<Option<String>>,
    (),
>)
    ensures
        !present ==> r == Ok::<Option<Option<String>>, ()>(cur),
        present ==> match spec_opt_string_val(v@) {
            Some(x) => r is Ok && r->Ok_0 is Some && opt_str_view(r->Ok_0->0) == x,
            None => r is Err,
        },
{
    if !present {
        return Ok(cur);
    }
    if val_is_lit(v, "null") {
        Ok(Some(None))
    } else {
        match json_string(v) {
            Some(s) => Ok(Some(Some(s))),
            None => Err(()),
        }
    }
}

fn dec_ip_field(present: bool, v: &Vec<u8>, cur: Option<Option<String>>) -> (r: Result<
    Option<Option<String>>,
    (),
>)
    ensures
        !present ==> r == Ok::<Option<Option<String>>, ()>(cur),
        present ==> match spec_ip_val(v@) {
            Some(x) => r is Ok && r->Ok_0 is Some && opt_str_view(r->Ok_0->0) == x,
            None => r is Err,
        },
{
    if !present {
        return Ok(cur);
    }
    if val_is_lit(v, "null") {
        return Ok(Some(None));
    }
    match json_string(v) {
        Some(s) => if is_ip_text(s.as_str()) {
            Ok(Some(Some(s)))
        } else {
            Err(())
        },
        None => Err(()),
    }
}

fn dec_opt_bool_field(present: bool, v: &Vec<u8>, cur: Option<Option<bool>>) -> (r: Result<
    Option<Option<bool>>,
    (),
>)
    ensures
        !present ==> r == Ok::<Option<Option<bool>>, ()>(cur),
        present ==> match spec_opt_bool_val(v@) {
            Some(x) => r == Ok::<Option<Option<bool>>, ()>(Some(x)),
            None => r is Err,
        },
{
    if !present {
        return Ok(cur);
    }
    if val_is_lit(v, "null") {
        Ok(Some(None))
    } else if val_is_lit(v, "true") {
        Ok(Some(Some(true)))
    } else if val_is_lit(v, "false") {
        Ok(Some(Some(false)))
    } else {
        Err(())
    }
}

fn dec_ts_field(present: bool, v: &Vec<u8>, cur: Option<i128>) -> (r: Result<Option<i128>, ()>)
    ensures
        !present ==> r == Ok::<Option<i128>, ()>(cur),
        present ==> match spec_ts_val(v@) {
            Some(x) => r is Ok && r->Ok_0 is Some && r->Ok_0->0 as int == x,
            None => r is Err,
        },
{
    if !present {
        return Ok(cur);
    }
    match json_string(v) {
        Some(s) => match parse_rfc3339(s.as_str()) {
            Some(ns) => Ok(Some(ns)),
            None => Err(()),
        },
        None => Err(()),
    }
}

fn dec_u64_field(present: bool, v: &Vec<u8>, cur: Option<u64>) -> (r: Result<Option<u64>, ()>)
    ensures
        !present ==> r == Ok::<Option<u64>, ()>(cur),
        present ==> match spec_u64_val(v@) {
            Some(x) => r == Ok::<Option<u64>, ()>(Some(x)),
            None => r is Err,
        },
{
    if !present {
        return Ok(cur);
    }
    match parse_u64_val(v) {
        Some(x) => Ok(Some(x)),
        None => Err(()),
    }
}

fn dec_off_field(present: bool, v: &Vec<u8>, cur: Option<Option<i128>>) -> (r: Result<
    Option<Option<i128>>,
    (),
>)
    ensures
        !present ==> r == Ok::<Option<Option<i128>>, ()>(cur),
        present ==> match spec_offline_val(v@) {
            Some(x) => r is Ok && r->Ok_0 is Some && opt_i128_view(r->Ok_0->0) == x,
            None => r is Err,
        },
{
    if !present {
        return Ok(cur);
    }
    if val_is_lit(v, "null") {
        return Ok(Some(None));
    }
    match parse_i128_val(v) {
        Some(ms) => match decode_offline_timestamp(ms) {
            Some(x) => Ok(Some(x)),
            None => Err(()),
        },
        None => Err(()),
    }
}

/// The fields gathered so far while walking an object's members: `None`
/// where no member has set the field yet.
struct Partial {
    ts_v: Option<i128>,
    username_v: Option<String>,
    platform_v: Option<String>,
    msp_v: Option<u64>,
    country_v: Option<String>,
    ip_v: Option<Option<String>>,
    ua_v: Option<Option<String>>,
    track_v: Option<Option<String>>,
    artist_v: Option<Option<String>>,
    album_v: Option<Option<String>>,
    turi_v: Option<Option<String>>,
    epn_v: Option<Option<String>>,
    show_v: Option<Option<String>>,
    euri_v: Option<Option<String>>,
    rs_v: Option<Option<String>>,
    re_v: Option<Option<String>>,
    sh_v: Option<Option<bool>>,
    sk_v: Option<Option<bool>>,
    ofl_v: Option<Option<bool>>,
    inc_v: Option<Option<bool>>,
    ots_v: Option<Option<i128>>,
}

/// Every gathered field reflects the members read so far.
spec fn rel_all(p: Partial, ms: Seq<Seq<u8>>) -> bool {
    &&& rel_ts(p.ts_v, ms)
    &&& rel_req_str(p.username_v, ms, "username"@)
    &&& rel_req_str(p.platform_v, ms, "platform"@)
    &&& rel_u64(p.msp_v, ms)
    &&& rel_req_str(p.country_v, ms, "conn_country"@)
    &&& rel_ip(p.ip_v, ms)
    &&& rel_opt_str(p.ua_v, ms, "user_agent_decrypted"@)
    &&& rel_opt_str(p.track_v, ms, "master_metadata_track_name"@)
    &&& rel_opt_str(p.artist_v, ms, "master_metadata_album_artist_name"@)
    &&& rel_opt_str(p.album_v, ms, "master_metadata_album_album_name"@)
    &&& rel_opt_str(p.turi_v, ms, "spotify_track_uri"@)
    &&& rel_opt_str(p.epn_v, ms, "episode_name"@)
    &&& rel_opt_str(p.show_v, ms, "episode_show_name"@)
    &&& rel_opt_str(p.euri_v, ms, "spotify_episode_uri"@)
    &&& rel_opt_str(p.rs_v, ms, "reason_start"@)
    &&& rel_opt_str(p.re_v, ms, "reason_end"@)
    &&& rel_opt_bool(p.sh_v, ms, "shuffle"@)
    &&& rel_opt_bool(p.sk_v, ms, "skipped"@)
    &&& rel_opt_bool(p.ofl_v, ms, "offline"@)
    &&& rel_opt_bool(p.inc_v, ms, "incognito_mode"@)
    &&& rel_off(p.ots_v, ms)
}

/// Classifies one split member against the fields gathered so far: its key
/// must be of the schema, not yet set, and its value must decode at the
/// field's type — exactly [`member_check`].
#[verifier::rlimit(100)]
fn check_member(p: &Partial, k: Vec<u8>, v: &Vec<u8>, Ghost(ms): Ghost<Seq<Seq<u8>>>) -> (r:
    Result<Vec<u8>, DecodeError>)
    requires
        rel_all(*p, ms),
    ensures
        match r {
            Ok(k2) => k2@ == k@ && member_check(ms, k@, v@) is None,
            Err(e) => member_check(ms, k@, v@) == Some(e@),
        },
{
    let b_ts = key_is(&k, "ts");
    let b_username = key_is(&k, "username");
    let b_platform = key_is(&k, "platform");
    let b_msp = key_is(&k, "ms_played");
    let b_country = key_is(&k, "conn_country");
    let b_ip = key_is(&k, "ip_addr_decrypted");
    let b_ua = key_is(&k, "user_agent_decrypted");
    let b_track = key_is(&k, "master_metadata_track_name");
    let b_artist = key_is(&k, "master_metadata_album_artist_name");
    let b_album = key_is(&k, "master_metadata_album_album_name");
    let b_turi = key_is(&k, "spotify_track_uri");
    let b_epn = key_is(&k, "episode_name");
    let b_show = key_is(&k, "episode_show_name");
    let b_euri = key_is(&k, "spotify_episode_uri");
    let b_rs = key_is(&k, "reason_start");
    let b_re = key_is(&k, "reason_end");
    let b_sh = key_is(&k, "shuffle");
    let b_sk = key_is(&k, "skipped");
    let b_ofl = key_is(&k, "offline");
    let b_ots = key_is(&k, "offline_timestamp");
    let b_inc = key_is(&k, "incognito_mode");
    let known = b_ts || b_username || b_platform || b_msp || b_country || b_ip || b_ua || b_track
        || b_artist || b_album || b_turi || b_epn || b_show || b_euri || b_rs || b_re || b_sh
        || b_sk || b_ofl || b_ots || b_inc;
    if !known {
        return Err(DecodeError::UnknownField(k));
    }
    if (b_ts && p.ts_v.is_some()) || (b_username && p.username_v.is_some()) || (b_platform
        && p.platform_v.is_some()) || (b_msp && p.msp_v.is_some()) || (b_country
        && p.country_v.is_some()) || (b_ip && p.ip_v.is_some()) || (b_ua && p.ua_v.is_some()) || (
    b_track && p.track_v.is_some()) || (b_artist && p.artist_v.is_some()) || (b_album
        && p.album_v.is_some()) || (b_turi && p.turi_v.is_some()) || (b_epn && p.epn_v.is_some())
        || (b_show && p.show_v.is_some()) || (b_euri && p.euri_v.is_some()) || (b_rs
        && p.rs_v.is_some()) || (b_re && p.re_v.is_some()) || (b_sh && p.sh_v.is_some()) || (b_sk
        && p.sk_v.is_some()) || (b_ofl && p.ofl_v.is_some()) || (b_ots && p.ots_v.is_some()) || (
    b_inc && p.inc_v.is_some()) {
        proof {
            assert(field_val(ms, k@) is Some) by {
                if b_ts && p.ts_v is Some {
                    assert(rel_ts(p.ts_v, ms) && k@ == lit_bytes("ts"@));
                } else if b_username && p.username_v is Some {
                    assert(rel_req_str(p.username_v, ms, "username"@) && k@ == lit_bytes(
                        "username"@,
                    ));
                } else if b_platform && p.platform_v is Some {
                    assert(rel_req_str(p.platform_v, ms, "platform"@) && k@ == lit_bytes(
                        "platform"@,
                    ));
                } else if b_msp && p.msp_v is Some {
                    assert(rel_u64(p.msp_v, ms) && k@ == lit_bytes("ms_played"@));
                } else if b_country && p.country_v is Some {
                    assert(rel_req_str(p.country_v, ms, "conn_country"@) && k@ == lit_bytes(
                        "conn_country"@,
                    ));
                } else if b_ip && p.ip_v is Some {
                    assert(rel_ip(p.ip_v, ms) && k@ == lit_bytes("ip_addr_decrypted"@));
                } else if b_ua && p.ua_v is Some {
                    assert(rel_opt_str(p.ua_v, ms, "user_agent_decrypted"@) && k@ == lit_bytes(
                        "user_agent_decrypted"@,
                    ));
                } else if b_track && p.track_v is Some {
                    assert(rel_opt_str(p.track_v, ms, "master_metadata_track_name"@) && k@
                        == lit_bytes("master_metadata_track_name"@));
                } else if b_artist && p.artist_v is Some {
                    assert(rel_opt_str(p.artist_v, ms, "master_metadata_album_artist_name"@)
                        && k@ == lit_bytes("master_metadata_album_artist_name"@));
                } else if b_album && p.album_v is Some {
                    assert(rel_opt_str(p.album_v, ms, "master_metadata_album_album_name"@) && k@
                        == lit_bytes("master_metadata_album_album_name"@));
                } else if b_turi && p.turi_v is Some {
                    assert(rel_opt_str(p.turi_v, ms, "spotify_track_uri"@) && k@ == lit_bytes(
                        "spotify_track_uri"@,
                    ));
                } else if b_epn && p.epn_v is Some {
                    assert(rel_opt_str(p.epn_v, ms, "episode_name"@) && k@ == lit_bytes(
                        "episode_name"@,
                    ));
                } else if b_show && p.show_v is Some {
                    assert(rel_opt_str(p.show_v, ms, "episode_show_name"@) && k@ == lit_bytes(
                        "episode_show_name"@,
                    ));
                } else if b_euri && p.euri_v is Some {
                    assert(rel_opt_str(p.euri_v, ms, "spotify_episode_uri"@) && k@ == lit_bytes(
                        "spotify_episode_uri"@,
                    ));
                } else if b_rs && p.rs_v is Some {
                    assert(rel_opt_str(p.rs_v, ms, "reason_start"@) && k@ == lit_bytes(
                        "reason_start"@,
                    ));
                } else if b_re && p.re_v is Some {
                    assert(rel_opt_str(p.re_v, ms, "reason_end"@) && k@ == lit_bytes(
                        "reason_end"@,
                    ));
                } else if b_sh && p.sh_v is Some {
                    assert(rel_opt_bool(p.sh_v, ms, "shuffle"@) && k@ == lit_bytes("shuffle"@));
                } else if b_sk && p.sk_v is Some {
                    assert(rel_opt_bool(p.sk_v, ms, "skipped"@) && k@ == lit_bytes("skipped"@));
                } else if b_ofl && p.ofl_v is Some {
                    assert(rel_opt_bool(p.ofl_v, ms, "offline"@) && k@ == lit_bytes("offline"@));
                } else if b_ots && p.ots_v is Some {
                    assert(rel_off(p.ots_v, ms) && k@ == lit_bytes("offline_timestamp"@));
                } else {
                    assert(rel_opt_bool(p.inc_v, ms, "incognito_mode"@) && k@ == lit_bytes(
                        "incognito_mode"@,
                    ));
                }
            }
        }
        return Err(DecodeError::DuplicateField(k));
    }
    proof {
        assert(field_val(ms, k@) is None) by {
            if b_ts {
                assert(p.ts_v is None && rel_ts(p.ts_v, ms) && k@ == lit_bytes("ts"@));
            } else if b_username {
                assert(p.username_v is None && rel_req_str(p.username_v, ms, "username"@)
                    && k@ == lit_bytes("username"@));
            } else if b_platform {
                assert(p.platform_v is None && rel_req_str(p.platform_v, ms, "platform"@)
                    && k@ == lit_bytes("platform"@));
            } else if b_msp {
                assert(p.msp_v is None && rel_u64(p.msp_v, ms) && k@ == lit_bytes("ms_played"@));
            } else if b_country {
                assert(p.country_v is None && rel_req_str(p.country_v, ms, "conn_country"@)
                    && k@ == lit_bytes("conn_country"@));
            } else if b_ip {
                assert(p.ip_v is None && rel_ip(p.ip_v, ms) && k@ == lit_bytes(
                    "ip_addr_decrypted"@,
                ));
            } else if b_ua {
                assert(p.ua_v is None && rel_opt_str(p.ua_v, ms, "user_agent_decrypted"@)
                    && k@ == lit_bytes("user_agent_decrypted"@));
            } else if b_track {
                assert(p.track_v is None && rel_opt_str(
                    p.track_v,
                    ms,
                    "master_metadata_track_name"@,
                ) && k@ == lit_bytes("master_metadata_track_name"@));
            } else if b_artist {
                assert(p.artist_v is None && rel_opt_str(
                    p.artist_v,
                    ms,
                    "master_metadata_album_artist_name"@,
                ) && k@ == lit_bytes("master_metadata_album_artist_name"@));
            } else if b_album {
                assert(p.album_v is None && rel_opt_str(
                    p.album_v,
                    ms,
                    "master_metadata_album_album_name"@,
                ) && k@ == lit_bytes("master_metadata_album_album_name"@));
            } else if b_turi {
                assert(p.turi_v is None && rel_opt_str(p.turi_v, ms, "spotify_track_uri"@)
                    && k@ == lit_bytes("spotify_track_uri"@));
            } else if b_epn {
                assert(p.epn_v is None && rel_opt_str(p.epn_v, ms, "episode_name"@)
                    && k@ == lit_bytes("episode_name"@));
            } else if b_show {
                assert(p.show_v is None && rel_opt_str(p.show_v, ms, "episode_show_name"@)
                    && k@ == lit_bytes("episode_show_name"@));
            } else if b_euri {
                assert(p.euri_v is None && rel_opt_str(p.euri_v, ms, "spotify_episode_uri"@)
                    && k@ == lit_bytes("spotify_episode_uri"@));
            } else if b_rs {
                assert(p.rs_v is None && rel_opt_str(p.rs_v, ms, "reason_start"@)
                    && k@ == lit_bytes("reason_start"@));
            } else if b_re {
                assert(p.re_v is None && rel_opt_str(p.re_v, ms, "reason_end"@)
                    && k@ == lit_bytes("reason_end"@));
            } else if b_sh {
                assert(p.sh_v is None && rel_opt_bool(p.sh_v, ms, "shuffle"@)
                    && k@ == lit_bytes("shuffle"@));
            } else if b_sk {
                assert(p.sk_v is None && rel_opt_bool(p.sk_v, ms, "skipped"@)
                    && k@ == lit_bytes("skipped"@));
            } else if b_ofl {
                assert(p.ofl_v is None && rel_opt_bool(p.ofl_v, ms, "offline"@)
                    && k@ == lit_bytes("offline"@));
            } else if b_ots {
                assert(p.ots_v is None && rel_off(p.ots_v, ms)
                    && k@ == lit_bytes("offline_timestamp"@));
            } else {
                assert(p.inc_v is None && rel_opt_bool(p.inc_v, ms, "incognito_mode"@)
                    && k@ == lit_bytes("incognito_mode"@));
            }
        }
    }
    if b_ts && !check_ts_val(v) {
        return Err(DecodeError::BadField(k));
    }
    if (b_username || b_platform || b_country) && !check_req_str_val(v) {
        return Err(DecodeError::BadField(k));
    }
    if b_msp && !check_u64_val(v) {
        return Err(DecodeError::BadField(k));
    }
    if b_ip && !check_ip_val(v) {
        return Err(DecodeError::BadField(k));
    }
    if (b_ua || b_track || b_artist || b_album || b_turi || b_epn || b_show || b_euri || b_rs
        || b_re) && !check_opt_str_val(v) {
        return Err(DecodeError::BadField(k));
    }
    if (b_sh || b_sk || b_ofl || b_inc) && !check_opt_bool_val(v) {
        return Err(DecodeError::BadField(k));
    }
    if b_ots && !check_off_val(v) {
        return Err(DecodeError::BadField(k));
    }
    Ok(k)
}

fn check_ts_val(v: &Vec<u8>) -> (r: bool)
    ensures
        r == (spec_ts_val(v@) is Some),
{
    match dec_ts_field(true, v, None) {
        Ok(_) => true,
        Err(_) => false,
    }
}

fn check_req_str_val(v: &Vec<u8>) -> (r: bool)
    ensures
        r == (json_string_of(v@) is Some),
{
    match dec_req_str_field(true, v, None) {
        Ok(_) => true,
        Err(_) => false,
    }
}

fn check_u64_val(v: &Vec<u8>) -> (r: bool)
    ensures
        r == (spec_u64_val(v@) is Some),
{
    match dec_u64_field(true, v, None) {
        Ok(_) => true,
        Err(_) => false,
    }
}

fn check_ip_val(v: &Vec<u8>) -> (r: bool)
    ensures
        r == (spec_ip_val(v@) is Some),
{
    match dec_ip_field(true, v, None) {
        Ok(_) => true,
        Err(_) => false,
    }
}

fn check_opt_str_val(v: &Vec<u8>) -> (r: bool)
    ensures
        r == (spec_opt_string_val(v@) is Some),
{
    match dec_opt_str_field(true, v, None) {
        Ok(_) => true,
        Err(_) => false,
    }
}

fn check_opt_bool_val(v: &Vec<u8>) -> (r: bool)
    ensures
        r == (spec_opt_bool_val(v@) is Some),
{
    match dec_opt_bool_field(true, v, None) {
        Ok(_) => true,
        Err(_) => false,
    }
}

fn check_off_val(v: &Vec<u8>) -> (r: bool)
    ensures
        r == (spec_offline_val(v@) is Some),
{
    match dec_off_field(true, v, None) {
        Ok(_) => true,
        Err(_) => false,
    }
}

/// Stores the scalar fields (timestamps, strings required whole, numbers
/// and booleans) of one member that passed [`check_member`].
#[verifier::rlimit(100)]
fn store_scalars(p: Partial, k: &Vec<u8>, v: &Vec<u8>, Ghost(ms): Ghost<Seq<Seq<u8>>>, Ghost(
    m,
): Ghost<Seq<u8>>) -> (p2: Partial)
    requires
        rel_all(p, ms),
        spec_split_member(m) == Some((k@, v@)),
        member_check(ms, k@, v@) is None,
    ensures
        rel_ts(p2.ts_v, ms.push(m)),
        rel_req_str(p2.username_v, ms.push(m), "username"@),
        rel_req_str(p2.platform_v, ms.push(m), "platform"@),
        rel_u64(p2.msp_v, ms.push(m)),
        rel_req_str(p2.country_v, ms.push(m), "conn_country"@),
        rel_opt_bool(p2.sh_v, ms.push(m), "shuffle"@),
        rel_opt_bool(p2.sk_v, ms.push(m), "skipped"@),
        rel_opt_bool(p2.ofl_v, ms.push(m), "offline"@),
        rel_opt_bool(p2.inc_v, ms.push(m), "incognito_mode"@),
        rel_off(p2.ots_v, ms.push(m)),
        p2.ip_v == p.ip_v,
        p2.ua_v == p.ua_v,
        p2.track_v == p.track_v,
        p2.artist_v == p.artist_v,
        p2.album_v == p.album_v,
        p2.turi_v == p.turi_v,
        p2.epn_v == p.epn_v,
        p2.show_v == p.show_v,
        p2.euri_v == p.euri_v,
        p2.rs_v == p.rs_v,
        p2.re_v == p.re_v,
{
    let mut p = p;
    let b_ts = key_is(k, "ts");
    let b_username = key_is(k, "username");
    let b_platform = key_is(k, "platform");
    let b_msp = key_is(k, "ms_played");
    let b_country = key_is(k, "conn_country");
    let b_sh = key_is(k, "shuffle");
    let b_sk = key_is(k, "skipped");
    let b_ofl = key_is(k, "offline");
    let b_ots = key_is(k, "offline_timestamp");
    let b_inc = key_is(k, "incognito_mode");
    p.ts_v = match dec_ts_field(b_ts, v, p.ts_v) {
        Ok(x) => x,
        Err(_) => vstd::pervasive::unreached(),
    };
    p.username_v = match dec_req_str_field(b_username, v, p.username_v) {
        Ok(x) => x,
        Err(_) => vstd::pervasive::unreached(),
    };
    p.platform_v = match dec_req_str_field(b_platform, v, p.platform_v) {
        Ok(x) => x,
        Err(_) => vstd::pervasive::unreached(),
    };
    p.msp_v = match dec_u64_field(b_msp, v, p.msp_v) {
        Ok(x) => x,
        Err(_) => vstd::pervasive::unreached(),
    };
    p.country_v = match dec_req_str_field(b_country, v, p.country_v) {
        Ok(x) => x,
        Err(_) => vstd::pervasive::unreached(),
    };
    p.sh_v = match dec_opt_bool_field(b_sh, v, p.sh_v) {
        Ok(x) => x,
        Err(_) => vstd::pervasive::unreached(),
    };
    p.sk_v = match dec_opt_bool_field(b_sk, v, p.sk_v) {
        Ok(x) => x,
        Err(_) => vstd::pervasive::unreached(),
    };
    p.ofl_v = match dec_opt_bool_field(b_ofl, v, p.ofl_v) {
        Ok(x) => x,
        Err(_) => vstd::pervasive::unreached(),
    };
    p.inc_v = match dec_opt_bool_field(b_inc, v, p.inc_v) {
        Ok(x) => x,
        Err(_) => vstd::pervasive::unreached(),
    };
    p.ots_v = match dec_off_field(b_ots, v, p.ots_v) {
        Ok(x) => x,
        Err(_) => vstd::pervasive::unreached(),
    };
    proof {
        let pushed = ms.push(m);
        lemma_field_val_snoc_one(ms, m, lit_bytes("ts"@));
        lemma_field_val_snoc_one(ms, m, lit_bytes("username"@));
        lemma_field_val_snoc_one(ms, m, lit_bytes("platform"@));
        lemma_field_val_snoc_one(ms, m, lit_bytes("ms_played"@));
        lemma_field_val_snoc_one(ms, m, lit_bytes("conn_country"@));
        lemma_field_val_snoc_one(ms, m, lit_bytes("shuffle"@));
        lemma_field_val_snoc_one(ms, m, lit_bytes("skipped"@));
        lemma_field_val_snoc_one(ms, m, lit_bytes("offline"@));
        lemma_field_val_snoc_one(ms, m, lit_bytes("offline_timestamp"@));
        lemma_field_val_snoc_one(ms, m, lit_bytes("incognito_mode"@));
        assert(rel_ts(p.ts_v, pushed));
        assert(rel_req_str(p.username_v, pushed, "username"@));
        assert(rel_req_str(p.platform_v, pushed, "platform"@));
        assert(rel_u64(p.msp_v, pushed));
        assert(rel_req_str(p.country_v, pushed, "conn_country"@));
        assert(rel_opt_bool(p.sh_v, pushed, "shuffle"@));
        assert(rel_opt_bool(p.sk_v, pushed, "skipped"@));
        assert(rel_opt_bool(p.ofl_v, pushed, "offline"@));
        assert(rel_opt_bool(p.inc_v, pushed, "incognito_mode"@));
        assert(rel_off(p.ots_v, pushed));
    }
    p
}

/// Stores the optional string fields of one member that passed
/// [`check_member`].
#[verifier::rlimit(100)]
fn store_opt_strs(p: Partial, k: &Vec<u8>, v: &Vec<u8>, Ghost(ms): Ghost<Seq<Seq<u8>>>, Ghost(
    m,
): Ghost<Seq<u8>>) -> (p2: Partial)
    requires
        rel_ip(p.ip_v, ms),
        rel_opt_str(p.ua_v, ms, "user_agent_decrypted"@),
        rel_opt_str(p.track_v, ms, "master_metadata_track_name"@),
        rel_opt_str(p.artist_v, ms, "master_metadata_album_artist_name"@),
        rel_opt_str(p.album_v, ms, "master_metadata_album_album_name"@),
        rel_opt_str(p.turi_v, ms, "spotify_track_uri"@),
        rel_opt_str(p.epn_v, ms, "episode_name"@),
        rel_opt_str(p.show_v, ms, "episode_show_name"@),
        rel_opt_str(p.euri_v, ms, "spotify_episode_uri"@),
        rel_opt_str(p.rs_v, ms, "reason_start"@),
        rel_opt_str(p.re_v, ms, "reason_end"@),
        spec_split_member(m) == Some((k@, v@)),
        member_check(ms, k@, v@) is None,
    ensures
        rel_ip(p2.ip_v, ms.push(m)),
        rel_opt_str(p2.ua_v, ms.push(m), "user_agent_decrypted"@),
        rel_opt_str(p2.track_v, ms.push(m), "master_metadata_track_name"@),
        rel_opt_str(p2.artist_v, ms.push(m), "master_metadata_album_artist_name"@),
        rel_opt_str(p2.album_v, ms.push(m), "master_metadata_album_album_name"@),
        rel_opt_str(p2.turi_v, ms.push(m), "spotify_track_uri"@),
        rel_opt_str(p2.epn_v, ms.push(m), "episode_name"@),
        rel_opt_str(p2.show_v, ms.push(m), "episode_show_name"@),
        rel_opt_str(p2.euri_v, ms.push(m), "spotify_episode_uri"@),
        rel_opt_str(p2.rs_v, ms.push(m), "reason_start"@),
        rel_opt_str(p2.re_v, ms.push(m), "reason_end"@),
        p2.ts_v == p.ts_v,
        p2.username_v == p.username_v,
        p2.platform_v == p.platform_v,
        p2.msp_v == p.msp_v,
        p2.country_v == p.country_v,
        p2.sh_v == p.sh_v,
        p2.sk_v == p.sk_v,
        p2.ofl_v == p.ofl_v,
        p2.inc_v == p.inc_v,
        p2.ots_v == p.ots_v,
{
    let mut p = p;
    let b_ip = key_is(k, "ip_addr_decrypted");
    let b_ua = key_is(k, "user_agent_decrypted");
    let b_track = key_is(k, "master_metadata_track_name");
    let b_artist = key_is(k, "master_metadata_album_artist_name");
    let b_album = key_is(k, "master_metadata_album_album_name");
    let b_turi = key_is(k, "spotify_track_uri");
    let b_epn = key_is(k, "episode_name");
    let b_show = key_is(k, "episode_show_name");
    let b_euri = key_is(k, "spotify_episode_uri");
    let b_rs = key_is(k, "reason_start");
    let b_re = key_is(k, "reason_end");
    p.ip_v = match dec_ip_field(b_ip, v, p.ip_v) {
        Ok(x) => x,
        Err(_) => vstd::pervasive::unreached(),
    };
    p.ua_v = match dec_opt_str_field(b_ua, v, p.ua_v) {
        Ok(x) => x,
        Err(_) => vstd::pervasive::unreached(),
    };
    p.track_v = match dec_opt_str_field(b_track, v, p.track_v) {
        Ok(x) => x,
        Err(_) => vstd::pervasive::unreached(),
    };
    p.artist_v = match dec_opt_str_field(b_artist, v, p.artist_v) {
        Ok(x) => x,
        Err(_) => vstd::pervasive::unreached(),
    };
    p.album_v = match dec_opt_str_field(b_album, v, p.album_v) {
        Ok(x) => x,
        Err(_) => vstd::pervasive::unreached(),
    };
    p.turi_v = match dec_opt_str_field(b_turi, v, p.turi_v) {
        Ok(x) => x,
        Err(_) => vstd::pervasive::unreached(),
    };
    p.epn_v = match dec_opt_str_field(b_epn, v, p.epn_v) {
        Ok(x) => x,
        Err(_) => vstd::pervasive::unreached(),
    };
    p.show_v = match dec_opt_str_field(b_show, v, p.show_v) {
        Ok(x) => x,
        Err(_) => vstd::pervasive::unreached(),
    };
    p.euri_v = match dec_opt_str_field(b_euri, v, p.euri_v) {
        Ok(x) => x,
        Err(_) => vstd::pervasive::unreached(),
    };
    p.rs_v = match dec_opt_str_field(b_rs, v, p.rs_v) {
        Ok(x) => x,
        Err(_) => vstd::pervasive::unreached(),
    };
    p.re_v = match dec_opt_str_field(b_re, v, p.re_v) {
        Ok(x) => x,
        Err(_) => vstd::pervasive::unreached(),
    };
    proof {
        let pushed = ms.push(m);
        lemma_field_val_snoc_one(ms, m, lit_bytes("ip_addr_decrypted"@));
        lemma_field_val_snoc_one(ms, m, lit_bytes("user_agent_decrypted"@));
        lemma_field_val_snoc_one(ms, m, lit_bytes("master_metadata_track_name"@));
        lemma_field_val_snoc_one(ms, m, lit_bytes("master_metadata_album_artist_name"@));
        lemma_field_val_snoc_one(ms, m, lit_bytes("master_metadata_album_album_name"@));
        lemma_field_val_snoc_one(ms, m, lit_bytes("spotify_track_uri"@));
        lemma_field_val_snoc_one(ms, m, lit_bytes("episode_name"@));
        lemma_field_val_snoc_one(ms, m, lit_bytes("episode_show_name"@));
        lemma_field_val_snoc_one(ms, m, lit_bytes("spotify_episode_uri"@));
        lemma_field_val_snoc_one(ms, m, lit_bytes("reason_start"@));
        lemma_field_val_snoc_one(ms, m, lit_bytes("reason_end"@));
        assert(rel_ip(p.ip_v, pushed));
        assert(rel_opt_str(p.ua_v, pushed, "user_agent_decrypted"@));
        assert(rel_opt_str(p.track_v, pushed, "master_metadata_track_name"@));
        assert(rel_opt_str(p.artist_v, pushed, "master_metadata_album_artist_name"@));
        assert(rel_opt_str(p.album_v, pushed, "master_metadata_album_album_name"@));
        assert(rel_opt_str(p.turi_v, pushed, "spotify_track_uri"@));
        assert(rel_opt_str(p.epn_v, pushed, "episode_name"@));
        assert(rel_opt_str(p.show_v, pushed, "episode_show_name"@));
        assert(rel_opt_str(p.euri_v, pushed, "spotify_episode_uri"@));
        assert(rel_opt_str(p.rs_v, pushed, "reason_start"@));
        assert(rel_opt_str(p.re_v, pushed, "reason_end"@));
    }
    p
}

/// Folds one member span into the gathered fields, or reports what is
/// wrong with it — exactly [`spec_member_error`] of the member list so far
/// extended by this member.
fn apply_member(p: Partial, m: &Vec<u8>, Ghost(ms): Ghost<Seq<Seq<u8>>>) -> (r: Result<
    Partial,
    DecodeError,
>)
    requires
        rel_all(p, ms),
    ensures
        match r {
            Ok(p2) => spec_member_error(ms.push(m@), ms.len() as int) is None && rel_all(
                p2,
                ms.push(m@),
            ),
            Err(e) => spec_member_error(ms.push(m@), ms.len() as int) == Some(e@),
        },
{
    proof {
        assert(ms.push(m@)[ms.len() as int] == m@);
        assert(ms.push(m@).subrange(0, ms.len() as int) =~= ms);
    }
    let kv = match split_member(m) {
        Some(kv) => kv,
        None => {
            return Err(DecodeError::Syntax);
        },
    };
    let k = match check_member(&p, kv.0, &kv.1, Ghost(ms)) {
        Ok(k) => k,
        Err(e) => {
            return Err(e);
        },
    };
    let p = store_scalars(p, &k, &kv.1, Ghost(ms), Ghost(m@));
    let p = store_opt_strs(p, &k, &kv.1, Ghost(ms), Ghost(m@));
    Ok(p)
}

/// Decodes the byte span of one array element into a [`Stream`] record, or
/// reports the first thing wrong with it: not an object, a malformed
/// member, a duplicated key, a key outside the schema, a value of the wrong
/// type (each in member order), or a missing required field (in schema
/// order). Exactly [`spec_decode`] of the span. Keys are matched as raw
/// bytes, without unescaping (see [`spec_split_member`]).
#[verifier::rlimit(100)]
pub fn deserialize(span: &[u8]) -> (r: Result<Stream, DecodeError>)
    ensures
        match r {
            Ok(st) => spec_decode(span@) is Ok && st@ == spec_decode(span@)->Ok_0,
            Err(e) => spec_decode(span@) is Err && e@ == spec_decode(span@)->Err_0,
        },
{
    let (members, obj_err) = crate::json::split_delimited(span, 123, 125);
    if obj_err.is_some() {
        return Err(DecodeError::Syntax);
    }
    let ghost dv = member_spans(span@);
    proof {
        assert(members.deep_view() == dv);
    }
    let n = members.len();
    let mut p = Partial {
        ts_v: None,
        username_v: None,
        platform_v: None,
        msp_v: None,
        country_v: None,
        ip_v: None,
        ua_v: None,
        track_v: None,
        artist_v: None,
        album_v: None,
        turi_v: None,
        epn_v: None,
        show_v: None,
        euri_v: None,
        rs_v: None,
        re_v: None,
        sh_v: None,
        sk_v: None,
        ofl_v: None,
        inc_v: None,
        ots_v: None,
    };
    let mut i: usize = 0;
    while i < n
        invariant
            i <= n,
            n == dv.len(),
            members.deep_view() == dv,
            first_member_error_from(dv, 0) == first_member_error_from(dv, i as int),
            rel_all(p, dv.subrange(0, i as int)),
            object_ok(span@),
            dv == member_spans(span@),
        decreases n - i,
    {
        let ghost sub = dv.subrange(0, i as int);
        proof {
            assert(dv[i as int] =~= members@[i as int]@);
            assert(sub.push(dv[i as int]) =~= dv.subrange(0, i as int + 1));
            assert(sub.push(dv[i as int])[i as int] == dv[i as int]);
            assert(sub.push(dv[i as int]).subrange(0, i as int) =~= dv.subrange(0, i as int));
        }
        p = match apply_member(p, &members[i], Ghost(sub)) {
            Ok(p2) => {
                proof {
                    assert(spec_member_error(dv, i as int) == spec_member_error(
                        sub.push(dv[i as int]),
                        i as int,
                    ));
                }
                p2
            },
            Err(e) => {
                proof {
                    assert(spec_member_error(dv, i as int) == spec_member_error(
                        sub.push(dv[i as int]),
                        i as int,
                    ));
                    assert(first_member_error_from(dv, i as int) == Some(e@));
                }
                return Err(e);
            },
        };
        i = i + 1;
    }
    proof {
        assert(dv.subrange(0, n as int) =~= dv);
        assert(first_member_error_from(dv, 0) is None);
    }
    if p.ts_v.is_none() {
        return Err(DecodeError::MissingField(slice_to_vec("ts".as_bytes())));
    }
    if p.username_v.is_none() {
        return Err(DecodeError::MissingField(slice_to_vec("username".as_bytes())));
    }
    if p.platform_v.is_none() {
        return Err(DecodeError::MissingField(slice_to_vec("platform".as_bytes())));
    }
    if p.msp_v.is_none() {
        return Err(DecodeError::MissingField(slice_to_vec("ms_played".as_bytes())));
    }
    if p.country_v.is_none() {
        return Err(DecodeError::MissingField(slice_to_vec("conn_country".as_bytes())));
    }
    let st = Stream {
        ts: p.ts_v.unwrap(),
        username: p.username_v.unwrap(),
        platform: p.platform_v.unwrap(),
        ms_played: p.msp_v.unwrap(),
        conn_country: p.country_v.unwrap(),
        ip_addr_decrypted: match p.ip_v {
            Some(x) => x,
            None => None,
        },
        user_agent_decrypted: match p.ua_v {
            Some(x) => x,
            None => None,
        },
        master_metadata_track_name: match p.track_v {
            Some(x) => x,
            None => None,
        },
        master_metadata_album_artist_name: match p.artist_v {
            Some(x) => x,
            None => None,
        },
        master_metadata_album_album_name: match p.album_v {
            Some(x) => x,
            None => None,
        },
        spotify_track_uri: match p.turi_v {
            Some(x) => x,
            None => None,
        },
        episode_name: match p.epn_v {
            Some(x) => x,
            None => None,
        },
        episode_show_name: match p.show_v {
            Some(x) => x,
            None => None,
        },
        spotify_episode_uri: match p.euri_v {
            Some(x) => x,
            None => None,
        },
        reason_start: match p.rs_v {
            Some(x) => x,
            None => None,
        },
        reason_end: match p.re_v {
            Some(x) => x,
            None => None,
        },
        shuffle: match p.sh_v {
            Some(x) => x,
            None => None,
        },
        skipped: match p.sk_v {
            Some(x) => x,
            None => None,
        },
        offline: match p.ofl_v {
            Some(x) => x,
            None => None,
        },
        offline_timestamp: match p.ots_v {
            Some(x) => x,
            None => None,
        },
        incognito_mode: match p.inc_v {
            Some(x) => x,
            None => None,
        },
    };
    proof {
        assert(spec_missing_required(dv) is None);
        assert(st@ == build_spec_stream(dv));
    }
    Ok(st)
}

/// Top-level failure of reading a byte source of records: the source could
/// not be read, or an element could not be decoded.
#[derive(Debug, Clone, PartialEq)]
pub enum Error {
    Io(String),
    Serde(DecodeError),
}

impl Stream {
    /// The time the stream was played, as a std Duration built from
    /// [`Stream::ms_played`]. Relies on std's Duration::from_millis.
    #[verifier::external_body]
    pub fn playtime(&self) -> core::time::Duration {
        core::time::Duration::from_millis(self.ms_played)
    }
}

/// The name and artist of the track a record plays, for callers that key
/// their aggregation by track.
#[derive(Debug, Clone, PartialEq)]
pub struct TrackInfo {
    pub name: String,
    pub artist: String,
}

/// The track name and artist of a record, where both are present.
pub fn get_track_info(stream: &Stream) -> (r: Option<TrackInfo>)
    ensures
        match (stream.master_metadata_track_name, stream.master_metadata_album_artist_name) {
            (Some(n), Some(a)) => r is Some && r->0.name@ == n@ && r->0.artist@ == a@,
            _ => r is None,
        },
{
    let name = match &stream.master_metadata_track_name {
        Some(n) => n.clone(),
        None => {
            return None;
        },
    };
    let artist = match &stream.master_metadata_album_artist_name {
        Some(a) => a.clone(),
        None => {
            return None;
        },
    };
    Some(TrackInfo { name, artist })
}

} // verus!
