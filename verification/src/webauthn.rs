//! WebAuthn client data (clientDataJSON) and authenticator data handling.

use vstd::prelude::*;
use vstd::string::StringSliceAdditionalSpecFns;

use crate::base64url::{decode_spec, encode_spec};
use crate::bytes::{
    bytes_eq, extend_bytes, find_subsequence, first_occurrence, is_first_occurrence,
    lemma_first_occurrence_is, occurs_at, position_of,
};
use crate::error::{AuthError, ProgramError};

pub use crate::base64url::{base64url_decode, base64url_encode_no_pad};

verus! {

/// The double quote `"` (34).
pub const QUOTE: u8 = 34;

/// `"challenge":"`
pub open spec fn challenge_pattern() -> Seq<u8> {
    seq![34u8, 99, 104, 97, 108, 108, 101, 110, 103, 101, 34, 58, 34]
}

/// `"origin":"`
pub open spec fn origin_pattern() -> Seq<u8> {
    seq![34u8, 111, 114, 105, 103, 105, 110, 34, 58, 34]
}

/// `"type":"`
pub open spec fn type_pattern() -> Seq<u8> {
    seq![34u8, 116, 121, 112, 101, 34, 58, 34]
}

/// `webauthn.get`
pub open spec fn type_get() -> Seq<u8> {
    seq![119u8, 101, 98, 97, 117, 116, 104, 110, 46, 103, 101, 116]
}

/// `webauthn.create`
pub open spec fn type_create() -> Seq<u8> {
    seq![119u8, 101, 98, 97, 117, 116, 104, 110, 46, 99, 114, 101, 97, 116, 101]
}

/// The raw value of the string field introduced by `pattern` (the key, a colon and
/// the opening quote): the bytes after the first occurrence of `pattern` up to the
/// next `"`. `None` when the pattern or the closing quote is missing.
pub open spec fn field_value(json: Seq<u8>, pattern: Seq<u8>) -> Option<Seq<u8>> {
    match first_occurrence(json, pattern) {
        None => None,
        Some(p) => {
            let rest = json.skip(p + pattern.len());
            match first_occurrence(rest, seq![QUOTE]) {
                None => None,
                Some(e) => Some(rest.take(e)),
            }
        },
    }
}

/// The challenge that a clientDataJSON carries: its `challenge` field, base64url-decoded.
pub open spec fn client_data_challenge(json: Seq<u8>) -> Option<Seq<u8>> {
    match field_value(json, challenge_pattern()) {
        Some(text) => decode_spec(text),
        None => None,
    }
}

fn extract_field<'a>(json: &'a [u8], pattern: &[u8]) -> (r: Option<&'a [u8]>)
    requires
        pattern@.len() > 0,
    ensures
        match r {
            Some(v) => field_value(json@, pattern@) == Some(v@),
            None => field_value(json@, pattern@) is None,
        },
{
    let pos = match find_subsequence(json, pattern) {
        Some(p) => p,
        None => return None,
    };
    proof {
        crate::bytes::lemma_first_occurrence_found(json@, pattern@);
    }
    let json_len = json.len();
    let start = pos + pattern.len();
    let rest = vstd::slice::slice_subrange(json, start, json_len);
    assert(rest@ =~= json@.skip(start as int));
    let end_quote = match position_of(rest, QUOTE) {
        Some(e) => e,
        None => return None,
    };
    let value = vstd::slice::slice_subrange(rest, 0, end_quote);
    assert(value@ =~= rest@.take(end_quote as int));
    Some(value)
}

/// Extracts the "challenge" field value from clientDataJSON bytes.
///
/// WebAuthn clientDataJSON format (field order varies by browser!):
/// {"type":"webauthn.get","challenge":"BASE64URL","origin":"https://...","crossOrigin":false}
///
/// This parser handles any field order and ignores unknown fields.
pub fn extract_challenge_from_client_data_json(json: &[u8]) -> (r: Option<Vec<u8>>)
    ensures
        match r {
            Some(v) => client_data_challenge(json@) == Some(v@),
            None => client_data_challenge(json@) is None,
        },
{
    let pattern = "\"challenge\":\"".as_bytes();
    proof {
        reveal_strlit("\"challenge\":\"");
        broadcast use vstd::string::is_ascii_spec_bytes;
        assert(vstd::string::is_ascii("\"challenge\":\""));
        assert(pattern@ =~= challenge_pattern());
    }
    match extract_field(json, pattern) {
        Some(challenge_b64) => base64url_decode(challenge_b64),
        None => None,
    }
}

/// Extracts the "origin" field value from clientDataJSON bytes.
/// Returns the origin as raw bytes (e.g., "https://example.com")
pub fn extract_origin_from_client_data_json(json: &[u8]) -> (r: Option<&[u8]>)
    ensures
        match r {
            Some(v) => field_value(json@, origin_pattern()) == Some(v@),
            None => field_value(json@, origin_pattern()) is None,
        },
{
    let pattern = "\"origin\":\"".as_bytes();
    proof {
        reveal_strlit("\"origin\":\"");
        broadcast use vstd::string::is_ascii_spec_bytes;
        assert(vstd::string::is_ascii("\"origin\":\""));
        assert(pattern@ =~= origin_pattern());
    }
    extract_field(json, pattern)
}

/// Extracts the "type" field value from clientDataJSON bytes.
/// Should be "webauthn.get" or "webauthn.create"
pub fn extract_type_from_client_data_json(json: &[u8]) -> (r: Option<&[u8]>)
    ensures
        match r {
            Some(v) => field_value(json@, type_pattern()) == Some(v@),
            None => field_value(json@, type_pattern()) is None,
        },
{
    let pattern = "\"type\":\"".as_bytes();
    proof {
        reveal_strlit("\"type\":\"");
        broadcast use vstd::string::is_ascii_spec_bytes;
        assert(vstd::string::is_ascii("\"type\":\""));
        assert(pattern@ =~= type_pattern());
    }
    extract_field(json, pattern)
}

/// Verifies clientDataJSON contains the expected challenge.
///
/// * `client_data_json` - The actual clientDataJSON bytes from WebAuthn assertion
/// * `expected_challenge` - The expected challenge bytes (NOT base64 encoded)
///
/// `Ok(())` if the challenge matches, `Err(InvalidMessageHash)` if it does not or
/// parsing fails.
pub fn verify_client_data_json_challenge(client_data_json: &[u8], expected_challenge: &[u8]) -> (r:
    Result<(), ProgramError>)
    ensures
        r == if client_data_challenge(client_data_json@) == Some(expected_challenge@) {
            Ok(())
        } else {
            Err(ProgramError::Auth(AuthError::InvalidMessageHash))
        },
{
    let challenge = match extract_challenge_from_client_data_json(client_data_json) {
        Some(c) => c,
        None => return Err(ProgramError::Auth(AuthError::InvalidMessageHash)),
    };
    if !bytes_eq(challenge.as_slice(), expected_challenge) {
        return Err(ProgramError::Auth(AuthError::InvalidMessageHash));
    }
    Ok(())
}

/// Verifies the type field is "webauthn.get" (for assertions)
pub fn verify_client_data_json_type_get(client_data_json: &[u8]) -> (r: Result<(), ProgramError>)
    ensures
        r == if field_value(client_data_json@, type_pattern()) == Some(type_get()) {
            Ok(())
        } else {
            Err(ProgramError::Auth(AuthError::InvalidMessage))
        },
{
    let auth_type = match extract_type_from_client_data_json(client_data_json) {
        Some(t) => t,
        None => return Err(ProgramError::Auth(AuthError::InvalidMessage)),
    };
    let expected = "webauthn.get".as_bytes();
    proof {
        reveal_strlit("webauthn.get");
        broadcast use vstd::string::is_ascii_spec_bytes;
        assert(vstd::string::is_ascii("webauthn.get"));
        assert(expected@ =~= type_get());
    }
    if !bytes_eq(auth_type, expected) {
        return Err(ProgramError::Auth(AuthError::InvalidMessage));
    }
    Ok(())
}


// =============================================================================
// LEGACY: RECONSTRUCTION (kept for backward compatibility)
// =============================================================================

/// Packed flags for clientDataJson reconstruction (legacy).
///
/// This reconstruction approach is deprecated: browsers produce different JSON
/// structures, so reconstruction fails. Use `verify_client_data_json_challenge()`.
#[derive(Clone, Copy, Debug)]
pub struct ClientDataJsonReconstructionParams {
    pub type_and_flags: u8,
}

/// Type nibble of a `webauthn.get` request.
pub const TYPE_GET: u8 = 0x10;

/// Flag: the request was cross-origin.
pub const FLAG_CROSS_ORIGIN: u8 = 0x01;

/// Flag: the origin is `http://` rather than `https://`.
pub const FLAG_HTTP_ORIGIN: u8 = 0x02;

/// Flag: the browser adds Chrome's `other_keys_can_be_added_here` field.
pub const FLAG_GOOGLE_EXTRA: u8 = 0x04;

/// The kind of WebAuthn ceremony.
#[derive(Clone, Copy, Debug, PartialEq, Eq, Structural)]
pub enum AuthType {
    Create,
    Get,
}

impl ClientDataJsonReconstructionParams {
    pub open spec fn spec_auth_type(self) -> AuthType {
        if (self.type_and_flags & 0xF0u8) == TYPE_GET {
            AuthType::Get
        } else {
            AuthType::Create
        }
    }

    pub open spec fn spec_is_cross_origin(self) -> bool {
        self.type_and_flags & FLAG_CROSS_ORIGIN != 0
    }

    pub open spec fn spec_is_http(self) -> bool {
        self.type_and_flags & FLAG_HTTP_ORIGIN != 0
    }

    pub open spec fn spec_has_google_extra(self) -> bool {
        self.type_and_flags & FLAG_GOOGLE_EXTRA != 0
    }

    /// The ceremony: `Get` when the high nibble is `TYPE_GET`, else `Create`.
    pub fn auth_type(&self) -> (r: AuthType)
        ensures
            r == self.spec_auth_type(),
    {
        if (self.type_and_flags & 0xF0) == TYPE_GET {
            AuthType::Get
        } else {
            AuthType::Create
        }
    }

    pub fn is_cross_origin(&self) -> (r: bool)
        ensures
            r == self.spec_is_cross_origin(),
    {
        self.type_and_flags & FLAG_CROSS_ORIGIN != 0
    }

    pub fn is_http(&self) -> (r: bool)
        ensures
            r == self.spec_is_http(),
    {
        self.type_and_flags & FLAG_HTTP_ORIGIN != 0
    }

    pub fn has_google_extra(&self) -> (r: bool)
        ensures
            r == self.spec_has_google_extra(),
    {
        self.type_and_flags & FLAG_GOOGLE_EXTRA != 0
    }
}

/// `{"type":"`
pub open spec fn json_open() -> Seq<u8> {
    "{\"type\":\"".spec_bytes()
}

/// `","challenge":"`
pub open spec fn json_after_type() -> Seq<u8> {
    "\",\"challenge\":\"".spec_bytes()
}

/// `","origin":"`
pub open spec fn json_after_challenge() -> Seq<u8> {
    "\",\"origin\":\"".spec_bytes()
}

/// `","crossOrigin":`
pub open spec fn json_after_origin() -> Seq<u8> {
    "\",\"crossOrigin\":".spec_bytes()
}

/// Chrome's extra field, with its leading comma.
pub open spec fn json_google_extra() -> Seq<u8> {
    ",\"other_keys_can_be_added_here\":\"do not compare clientDataJSON against a template. See https://goo.gl/yabPex\"".spec_bytes()
}

/// The clientDataJSON that `reconstruct_client_data_json` builds.
pub open spec fn reconstructed_client_data(
    params: ClientDataJsonReconstructionParams,
    rp_id: Seq<u8>,
    challenge: Seq<u8>,
) -> Seq<u8> {
    let type_str = match params.spec_auth_type() {
        AuthType::Create => type_create(),
        AuthType::Get => type_get(),
    };
    let prefix = if params.spec_is_http() {
        "http://".spec_bytes()
    } else {
        "https://".spec_bytes()
    };
    let cross_origin = if params.spec_is_cross_origin() {
        "true".spec_bytes()
    } else {
        "false".spec_bytes()
    };
    let extra = if params.spec_has_google_extra() {
        json_google_extra()
    } else {
        Seq::<u8>::empty()
    };
    json_open() + type_str + json_after_type() + encode_spec(challenge) + json_after_challenge()
        + prefix + rp_id + json_after_origin() + cross_origin + extra + "}".spec_bytes()
}

/// Reconstructs the clientDataJSON that a browser is assumed to produce (legacy; fails
/// across browsers: Chrome adds a field, Safari may omit `crossOrigin`, field order
/// varies). Use `verify_client_data_json_challenge()` to parse the actual JSON instead.
#[verifier::spinoff_prover]
pub fn reconstruct_client_data_json(
    params: &ClientDataJsonReconstructionParams,
    rp_id: &[u8],
    challenge: &[u8],
) -> (json: Vec<u8>)
    ensures
        json@ == reconstructed_client_data(*params, rp_id@, challenge@),
{
    let challenge_b64url = base64url_encode_no_pad(challenge);
    let type_str: &[u8] = match params.auth_type() {
        AuthType::Create => "webauthn.create".as_bytes(),
        AuthType::Get => "webauthn.get".as_bytes(),
    };
    proof {
        reveal_strlit("webauthn.create");
        reveal_strlit("webauthn.get");
        broadcast use vstd::string::is_ascii_spec_bytes;
        assert(vstd::string::is_ascii("webauthn.create"));
        assert(vstd::string::is_ascii("webauthn.get"));
        assert("webauthn.create".spec_bytes() =~= type_create());
        assert("webauthn.get".spec_bytes() =~= type_get());
    }
    let prefix: &[u8] = if params.is_http() {
        "http://".as_bytes()
    } else {
        "https://".as_bytes()
    };
    let cross_origin: &[u8] = if params.is_cross_origin() {
        "true".as_bytes()
    } else {
        "false".as_bytes()
    };

    let mut json: Vec<u8> = Vec::new();
    extend_bytes(&mut json, "{\"type\":\"".as_bytes());
    extend_bytes(&mut json, type_str);
    extend_bytes(&mut json, "\",\"challenge\":\"".as_bytes());
    extend_bytes(&mut json, challenge_b64url.as_slice());
    extend_bytes(&mut json, "\",\"origin\":\"".as_bytes());
    extend_bytes(&mut json, prefix);
    extend_bytes(&mut json, rp_id);
    extend_bytes(&mut json, "\",\"crossOrigin\":".as_bytes());
    extend_bytes(&mut json, cross_origin);
    if params.has_google_extra() {
        extend_bytes(
            &mut json,
            ",\"other_keys_can_be_added_here\":\"do not compare clientDataJSON against a template. See https://goo.gl/yabPex\"".as_bytes(),
        );
    }
    extend_bytes(&mut json, "}".as_bytes());
    assert(json@ =~= reconstructed_client_data(*params, rp_id@, challenge@));
    json
}

// =============================================================================
// AUTHENTICATOR DATA PARSER
// =============================================================================

/// Parser for WebAuthn authenticator data: the RP ID hash (32 bytes), a flags byte,
/// and a big-endian signature counter (4 bytes).
pub struct AuthDataParser<'a> {
    data: &'a [u8],
}

impl<'a> View for AuthDataParser<'a> {
    type V = Seq<u8>;

    closed spec fn view(&self) -> Seq<u8> {
        self.data@
    }
}

/// The big-endian value of four bytes.
pub open spec fn u32_from_be(b0: u8, b1: u8, b2: u8, b3: u8) -> u32 {
    (b0 as int * 0x1000000 + b1 as int * 0x10000 + b2 as int * 0x100 + b3 as int) as u32
}

impl<'a> AuthDataParser<'a> {
    pub fn new(data: &'a [u8]) -> (r: Self)
        ensures
            r@ == data@,
    {
        Self { data }
    }

    /// The SHA-256 hash of the RP ID: the first 32 bytes.
    pub fn rp_id_hash(&self) -> (r: &'a [u8])
        requires
            self@.len() >= 32,
        ensures
            r@ == self@.take(32),
    {
        vstd::slice::slice_subrange(self.data, 0, 32)
    }

    /// The user-present flag (UP, bit 0 of the flags byte).
    pub fn is_user_present(&self) -> (r: bool)
        requires
            self@.len() > 32,
        ensures
            r == (self@[32] & 0x01u8 != 0),
    {
        self.data[32] & 0x01 != 0
    }

    /// The user-verified flag (UV, bit 2 of the flags byte).
    pub fn is_user_verified(&self) -> (r: bool)
        requires
            self@.len() > 32,
        ensures
            r == (self@[32] & 0x04u8 != 0),
    {
        self.data[32] & 0x04 != 0
    }

    /// The signature counter: bytes 33..37, big-endian.
    pub fn counter(&self) -> (r: u32)
        requires
            self@.len() >= 37,
        ensures
            r == u32_from_be(self@[33], self@[34], self@[35], self@[36]),
    {
        let b0 = self.data[33];
        let b1 = self.data[34];
        let b2 = self.data[35];
        let b3 = self.data[36];
        let r = ((b0 as u32) << 24u32) | ((b1 as u32) << 16u32) | ((b2 as u32) << 8u32) | (b3 as u32);
        assert(r == b0 as u32 * 0x1000000 + b1 as u32 * 0x10000 + b2 as u32 * 0x100 + b3 as u32)
            by (bit_vector)
            requires
                r == ((b0 as u32) << 24u32) | ((b1 as u32) << 16u32) | ((b2 as u32) << 8u32) | (b3 as u32),
        ;
        r
    }
}


// =============================================================================
// RECONSTRUCTION AND EXTRACTION AGREE
// =============================================================================

proof fn lemma_json_literals()
    ensures
        json_open() == seq![123u8, 34, 116, 121, 112, 101, 34, 58, 34],
        json_after_type() == seq![34u8, 44, 34, 99, 104, 97, 108, 108, 101, 110, 103, 101, 34, 58, 34],
        json_after_challenge() == seq![34u8, 44, 34, 111, 114, 105, 103, 105, 110, 34, 58, 34],
{
    reveal_strlit("{\"type\":\"");
    reveal_strlit("\",\"challenge\":\"");
    reveal_strlit("\",\"origin\":\"");
    broadcast use vstd::string::is_ascii_spec_bytes;

    assert(vstd::string::is_ascii("{\"type\":\""));
    assert(vstd::string::is_ascii("\",\"challenge\":\""));
    assert(vstd::string::is_ascii("\",\"origin\":\""));
    assert(json_open() =~= seq![123u8, 34, 116, 121, 112, 101, 34, 58, 34]);
    assert(json_after_type() =~= seq![34u8, 44, 34, 99, 104, 97, 108, 108, 101, 110, 103, 101, 34, 58, 34]);
    assert(json_after_challenge() =~= seq![34u8, 44, 34, 111, 114, 105, 103, 105, 110, 34, 58, 34]);
}

/// The type string of the reconstruction parameters.
pub open spec fn reconstructed_type(params: ClientDataJsonReconstructionParams) -> Seq<u8> {
    match params.spec_auth_type() {
        AuthType::Create => type_create(),
        AuthType::Get => type_get(),
    }
}

proof fn lemma_no_quote_in_encoding(c: Seq<u8>)
    ensures
        forall|i: int| 0 <= i < encode_spec(c).len() ==> #[trigger] encode_spec(c)[i] != QUOTE,
{
    crate::base64url::lemma_sextets_of_shape(c);
    assert forall|i: int| 0 <= i < encode_spec(c).len() implies #[trigger] encode_spec(c)[i] != QUOTE by {
        let v = crate::base64url::sextets_of(c)[i];
        assert(v < 64);
    }
}

/// The value of the field that begins right after `pattern` at `p`, in `json` whose
/// bytes from `p + pattern.len()` on are `value`, a `"`, and anything.
proof fn lemma_field_value_at(json: Seq<u8>, pattern: Seq<u8>, p: int, value: Seq<u8>)
    requires
        is_first_occurrence(json, pattern, p),
        p + pattern.len() + value.len() < json.len(),
        json.subrange(p + pattern.len(), p + pattern.len() + value.len()) == value,
        json[p + pattern.len() + value.len()] == QUOTE,
        forall|i: int| 0 <= i < value.len() ==> #[trigger] value[i] != QUOTE,
    ensures
        field_value(json, pattern) == Some(value),
{
    lemma_first_occurrence_is(json, pattern, p);
    let rest = json.skip(p + pattern.len());
    let e = value.len() as int;
    assert(rest.subrange(e, e + 1) =~= seq![QUOTE]);
    assert forall|q: int| 0 <= q < e implies !#[trigger] occurs_at(rest, seq![QUOTE], q) by {
        assert(rest[q] == value[q]);
        if occurs_at(rest, seq![QUOTE], q) {
            assert(rest.subrange(q, q + 1)[0] == QUOTE);
        }
    }
    lemma_first_occurrence_is(rest, seq![QUOTE], e);
    assert(rest.take(e) =~= value);
}

/// In `{"type":"<type>","challenge":"`, no quote before the second-to-last one is
/// followed by a `c`.
proof fn lemma_no_early_challenge(t: Seq<u8>)
    requires
        t == type_get() || t == type_create(),
    ensures
        ({
            let head = json_open() + t + json_after_type();
            forall|q: int| 0 <= q < 9 + t.len() + 2 ==> !(#[trigger] head[q] == 34 && head[q + 1] == 99)
        }),
{
    lemma_json_literals();
    let head = json_open() + t + json_after_type();
    assert forall|q: int| 0 <= q < 9 + t.len() + 2 implies !(#[trigger] head[q] == 34 && head[q + 1] == 99) by {
        if q < 9 {
            assert(head[q] == json_open()[q]);
            assert(head[q + 1] == if q + 1 < 9 { json_open()[q + 1] } else { t[0] });
        } else if q < 9 + t.len() {
            assert(head[q] == t[q - 9]);
        } else {
            assert(head[q] == json_after_type()[q - 9 - t.len()]);
        }
    }
}

/// The challenge pattern first occurs in `head + e + tail` at the end of `head`, where
/// `head` is `{"type":"<type>","challenge":"`.
#[verifier::spinoff_prover]
proof fn lemma_challenge_position(t: Seq<u8>, e: Seq<u8>, tail: Seq<u8>)
    requires
        t == type_get() || t == type_create(),
    ensures
        is_first_occurrence(
            json_open() + t + json_after_type() + e + tail,
            challenge_pattern(),
            9 + t.len() as int + 2,
        ),
{
    lemma_json_literals();
    lemma_no_early_challenge(t);
    let head = json_open() + t + json_after_type();
    let json = head + e + tail;
    let p: int = 9 + t.len() as int + 2;
    assert(head.len() == p + 13);
    assert(json.subrange(p, p + 13) =~= challenge_pattern());
    assert forall|q: int| 0 <= q < p implies !#[trigger] occurs_at(json, challenge_pattern(), q) by {
        if occurs_at(json, challenge_pattern(), q) {
            assert(json.subrange(q, q + 13)[0] == 34);
            assert(json.subrange(q, q + 13)[1] == 99);
            assert(json[q] == head[q]);
            assert(json[q + 1] == head[q + 1]);
        }
    }
}

/// The clientDataJSON that `reconstruct_client_data_json` builds carries exactly the
/// challenge that went in: its `challenge` field decodes to it, so
/// `verify_client_data_json_challenge` accepts it for that challenge.
#[verifier::spinoff_prover]
pub proof fn lemma_reconstructed_challenge(
    params: ClientDataJsonReconstructionParams,
    rp_id: Seq<u8>,
    challenge: Seq<u8>,
)
    ensures
        client_data_challenge(reconstructed_client_data(params, rp_id, challenge)) == Some(challenge),
{
    let t = reconstructed_type(params);
    let e = encode_spec(challenge);
    let json = reconstructed_client_data(params, rp_id, challenge);
    let head = json_open() + t + json_after_type();
    let tail = json.skip(head.len() as int + e.len() as int);
    assert(json =~= head + e + tail);
    assert(tail[0] == QUOTE) by {
        lemma_json_literals();
        assert(tail[0] == json_after_challenge()[0]);
    }
    let p: int = 9 + t.len() as int + 2;
    lemma_json_literals();
    assert(head.len() == p + 13);
    lemma_challenge_position(t, e, tail);
    lemma_no_quote_in_encoding(challenge);
    assert(json.subrange(p + 13, p + 13 + e.len()) =~= e);
    lemma_field_value_at(json, challenge_pattern(), p, e);
    crate::base64url::lemma_decode_encode_roundtrip(challenge);
}

/// The `type` field of the clientDataJSON that `reconstruct_client_data_json` builds is
/// the ceremony of the parameters, so `verify_client_data_json_type_get` accepts it
/// exactly for a `Get`.
pub proof fn lemma_reconstructed_type(
    params: ClientDataJsonReconstructionParams,
    rp_id: Seq<u8>,
    challenge: Seq<u8>,
)
    ensures
        field_value(reconstructed_client_data(params, rp_id, challenge), type_pattern()) == Some(
            reconstructed_type(params),
        ),
        field_value(reconstructed_client_data(params, rp_id, challenge), type_pattern()) == Some(type_get())
            <==> params.spec_auth_type() == AuthType::Get,
{
    lemma_json_literals();
    let json = reconstructed_client_data(params, rp_id, challenge);
    let t = reconstructed_type(params);
    assert(json.subrange(1, 9) =~= type_pattern());
    assert(!occurs_at(json, type_pattern(), 0)) by {
        if occurs_at(json, type_pattern(), 0) {
            assert(json.subrange(0, 8)[0] == 34);
        }
    }
    assert(is_first_occurrence(json, type_pattern(), 1));
    assert(json.subrange(9, 9 + t.len() as int) =~= t);
    assert(json[9 + t.len() as int] == 34);
    lemma_field_value_at(json, type_pattern(), 1, t);
    assert(type_create().len() != type_get().len());
}


proof fn lemma_origin_literals()
    ensures
        "http://".spec_bytes() == seq![104u8, 116, 116, 112, 58, 47, 47],
        "https://".spec_bytes() == seq![104u8, 116, 116, 112, 115, 58, 47, 47],
        json_after_origin()[0] == QUOTE,
        json_after_origin().len() > 0,
{
    reveal_strlit("http://");
    reveal_strlit("https://");
    reveal_strlit("\",\"crossOrigin\":");
    broadcast use vstd::string::is_ascii_spec_bytes;

    assert(vstd::string::is_ascii("http://"));
    assert(vstd::string::is_ascii("https://"));
    assert(vstd::string::is_ascii("\",\"crossOrigin\":"));
    assert("http://".spec_bytes() =~= seq![104u8, 116, 116, 112, 58, 47, 47]);
    assert("https://".spec_bytes() =~= seq![104u8, 116, 116, 112, 115, 58, 47, 47]);
}

/// The origin pattern first occurs in `head + e + mid` where `head` is
/// `{"type":"<type>","challenge":"`, `e` holds no quote and `mid` begins with
/// `","origin":"`: at the second quote of `mid`.
#[verifier::spinoff_prover]
proof fn lemma_origin_position(t: Seq<u8>, e: Seq<u8>, mid: Seq<u8>)
    requires
        t == type_get() || t == type_create(),
        forall|i: int| 0 <= i < e.len() ==> #[trigger] e[i] != QUOTE,
        mid.len() >= 12,
        mid.take(12) == json_after_challenge(),
    ensures
        is_first_occurrence(
            json_open() + t + json_after_type() + e + mid,
            origin_pattern(),
            9 + t.len() as int + 15 + e.len() as int + 2,
        ),
{
    lemma_json_literals();
    let head = json_open() + t + json_after_type();
    let json = head + e + mid;
    let h = head.len() as int;
    let n = e.len() as int;
    let p: int = h + n + 2;
    assert(h == 9 + t.len() + 15);
    assert forall|k: int| 0 <= k < 12 implies #[trigger] mid[k] == json_after_challenge()[k] by {
        assert(mid.take(12)[k] == mid[k]);
    }
    assert(json.subrange(p, p + 10) =~= origin_pattern());
    assert forall|q: int| 0 <= q < p implies !#[trigger] occurs_at(json, origin_pattern(), q) by {
        if occurs_at(json, origin_pattern(), q) {
            let w = json.subrange(q, q + 10);
            assert(w[0] == 34 && w[1] == 111 && w[7] == 34 && w[8] == 58);
            assert(json[q] == 34);
            assert(json[q + 1] == 111);
            assert(json[q + 7] == 34);
            assert(json[q + 8] == 58);
            if q < 9 {
                assert(json[q] == json_open()[q]);
                assert(json[q + 1] == if q + 1 < 9 { json_open()[q + 1] } else { t[0] });
            } else if q < 9 + t.len() {
                assert(json[q] == t[q - 9]);
            } else if q < h - 1 {
                assert(json[q] == json_after_type()[q - 9 - t.len()]);
                assert(json[q + 1] == json_after_type()[q + 1 - 9 - t.len()]);
            } else if q == h - 1 {
                // `q + 7` and `q + 8` fall in `e` (no quote) or at the start of `mid`,
                // which has no quote followed by a colon before its tenth byte.
                if 6 < n {
                    assert(json[q + 7] == e[6]);
                } else {
                    assert(json[q + 7] == mid[6 - n]);
                    assert(json[q + 8] == mid[7 - n]);
                }
            } else if q < h + n {
                assert(json[q] == e[q - h]);
            } else {
                assert(q == h + n || q == h + n + 1);
                assert(json[q + 1] == mid[q + 1 - h - n]);
            }
        }
    }
}

/// The `origin` field of the clientDataJSON that `reconstruct_client_data_json` builds
/// is the scheme of the parameters followed by the RP ID, for an RP ID without quotes.
#[verifier::spinoff_prover]
#[verifier::rlimit(40)]
pub proof fn lemma_reconstructed_origin(
    params: ClientDataJsonReconstructionParams,
    rp_id: Seq<u8>,
    challenge: Seq<u8>,
)
    requires
        forall|i: int| 0 <= i < rp_id.len() ==> #[trigger] rp_id[i] != QUOTE,
    ensures
        field_value(reconstructed_client_data(params, rp_id, challenge), origin_pattern()) == Some(
            (if params.spec_is_http() {
                "http://".spec_bytes()
            } else {
                "https://".spec_bytes()
            }) + rp_id,
        ),
{
    lemma_json_literals();
    lemma_origin_literals();
    let t = reconstructed_type(params);
    let e = encode_spec(challenge);
    let json = reconstructed_client_data(params, rp_id, challenge);
    let head = json_open() + t + json_after_type();
    let prefix = if params.spec_is_http() {
        "http://".spec_bytes()
    } else {
        "https://".spec_bytes()
    };
    let value = prefix + rp_id;
    let mid = json.skip(head.len() as int + e.len() as int);
    assert(json =~= head + e + mid);
    assert(mid.take(12) =~= json_after_challenge());
    lemma_no_quote_in_encoding(challenge);
    lemma_origin_position(t, e, mid);
    let p: int = 9 + t.len() as int + 15 + e.len() as int + 2;
    assert(json.subrange(p + 10, p + 10 + value.len()) =~= value);
    assert(json[p + 10 + value.len()] == json_after_origin()[0]);
    assert forall|i: int| 0 <= i < value.len() implies #[trigger] value[i] != QUOTE by {
        if i >= prefix.len() {
            assert(value[i] == rp_id[i - prefix.len()]);
        }
    }
    lemma_field_value_at(json, origin_pattern(), p, value);
}

/// crossOrigin, over every value of `type_and_flags`: the request is cross-origin
/// exactly when the value is odd (bit `0x01`), whatever its other bits.
pub proof fn lemma_cross_origin_flag(p: ClientDataJsonReconstructionParams, q: ClientDataJsonReconstructionParams)
    ensures
        p.spec_is_cross_origin() <==> p.type_and_flags % 2 == 1,
        p.type_and_flags % 2 == q.type_and_flags % 2 ==> p.spec_is_cross_origin() == q.spec_is_cross_origin(),
{
    let f = p.type_and_flags;
    let g = q.type_and_flags;
    assert((f & 1u8 != 0) == (f % 2 == 1)) by (bit_vector);
    assert((g & 1u8 != 0) == (g % 2 == 1)) by (bit_vector);
}

/// Setting the cross-origin bit changes only the reconstructed `crossOrigin` value:
/// for flags `f` without it, the clientDataJSON reconstructed with `f + 1` is one byte
/// shorter (`true` in place of `false`) and otherwise has the same ceremony, origin
/// and extra field.
pub proof fn lemma_cross_origin_bit_only(p: ClientDataJsonReconstructionParams, rp_id: Seq<u8>, challenge: Seq<u8>)
    requires
        p.type_and_flags % 2 == 0,
    ensures
        ({
            let q = ClientDataJsonReconstructionParams { type_and_flags: (p.type_and_flags + 1) as u8 };
            &&& !p.spec_is_cross_origin()
            &&& q.spec_is_cross_origin()
            &&& q.spec_auth_type() == p.spec_auth_type()
            &&& q.spec_is_http() == p.spec_is_http()
            &&& q.spec_has_google_extra() == p.spec_has_google_extra()
            &&& reconstructed_client_data(q, rp_id, challenge).len() + 1 == reconstructed_client_data(
                p,
                rp_id,
                challenge,
            ).len()
        }),
{
    let f = p.type_and_flags;
    let g = (f + 1) as u8;
    assert(f % 2 == 0 ==> (f & 1u8 == 0 && ((f + 1) as u8) & 1u8 == 1 && ((f + 1) as u8) & 0xF0u8 == f & 0xF0u8
        && ((f + 1) as u8) & 2u8 == f & 2u8 && ((f + 1) as u8) & 4u8 == f & 4u8)) by (bit_vector);
    reveal_strlit("true");
    reveal_strlit("false");
    broadcast use vstd::string::is_ascii_spec_bytes;

    assert(vstd::string::is_ascii("true"));
    assert(vstd::string::is_ascii("false"));
    assert("true".spec_bytes().len() == 4);
    assert("false".spec_bytes().len() == 5);
}

} // verus!
