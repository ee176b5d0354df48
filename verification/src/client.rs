//! Admin-API request shapes: path-segment encoding, endpoint URLs, the
//! `--resolve` override syntax, and the interpretation of server replies.

use vstd::prelude::*;
use vstd::string::StrSliceExecFns;
use vstd::string::StringExecFns;
use vstd::string::StringSliceAdditionalSpecFns;

use crate::cli::{role_name, RoleArg};
use crate::error::AdminError;
use crate::report::{join_texts, joined_with, lines_view};
use crate::text::decimal;
use crate::text::owned;

verus! {

// ---------------------------------------------------------------------------
// Percent-encoding of one path segment
// ---------------------------------------------------------------------------

/// RFC 3986 "unreserved" bytes: ASCII letters, digits, `-`, `_`, `.`, `~`.
pub open spec fn is_unreserved(b: u8) -> bool {
    ||| 65 <= b <= 90
    ||| 97 <= b <= 122
    ||| 48 <= b <= 57
    ||| b == 45
    ||| b == 95
    ||| b == 46
    ||| b == 126
}

/// Upper-case hexadecimal digit for a nibble (0..=15).
pub open spec fn hex_upper(n: int) -> char {
    if n < 10 {
        ((48 + n) as u8) as char
    } else {
        ((55 + n) as u8) as char
    }
}

/// How one byte appears in an encoded segment: itself when unreserved,
/// otherwise `%` and two upper-case hex digits.
pub open spec fn encode_byte(b: u8) -> Seq<char> {
    if is_unreserved(b) {
        seq![b as char]
    } else {
        seq!['%', hex_upper((b / 16) as int), hex_upper((b % 16) as int)]
    }
}

/// Percent-encoding of a byte string, byte by byte.
pub open spec fn percent_encode(bytes: Seq<u8>) -> Seq<char>
    decreases bytes.len(),
{
    if bytes.len() == 0 {
        Seq::empty()
    } else {
        percent_encode(bytes.drop_last()) + encode_byte(bytes.last())
    }
}

/// Value of a hexadecimal digit (either case), if `c` is one.
pub open spec fn hex_value(c: char) -> Option<int> {
    if '0' <= c <= '9' {
        Some(c as int - 48)
    } else if 'A' <= c <= 'F' {
        Some(c as int - 55)
    } else if 'a' <= c <= 'f' {
        Some(c as int - 87)
    } else {
        None
    }
}

/// Percent-decoding: `%XY` with two hex digits becomes the byte `0xXY`, any
/// other character stands for itself.
pub open spec fn percent_decode(s: Seq<char>) -> Seq<u8>
    decreases s.len(),
{
    if s.len() == 0 {
        Seq::empty()
    } else if s.len() >= 3 && s[0] == '%' && hex_value(s[1]) is Some && hex_value(s[2]) is Some {
        seq![(hex_value(s[1])->0 * 16 + hex_value(s[2])->0) as u8] + percent_decode(
            s.subrange(3, s.len() as int),
        )
    } else {
        seq![s[0] as u8] + percent_decode(s.drop_first())
    }
}

fn is_unreserved_byte(b: u8) -> (r: bool)
    ensures
        r == is_unreserved(b),
{
    (65 <= b && b <= 90) || (97 <= b && b <= 122) || (48 <= b && b <= 57) || b == 45 || b == 95
        || b == 46 || b == 126
}

fn hex_digit(n: u8) -> (c: char)
    requires
        n < 16,
    ensures
        c == hex_upper(n as int),
{
    if n < 10 {
        (48u8 + n) as char
    } else {
        (55u8 + n) as char
    }
}

/// Minimal percent-encoding of a path segment: every byte of the UTF-8 text
/// outside the unreserved set becomes `%XY`, so names with spaces, `%` or `/`
/// stay one segment.
pub fn urlencode(segment: &str) -> (r: String)
    ensures
        r@ == percent_encode(segment.spec_bytes()),
{
    let bytes = segment.as_bytes();
    let mut out = String::new();
    let mut i: usize = 0;
    while i < bytes.len()
        invariant
            0 <= i <= bytes@.len(),
            bytes@ == segment.spec_bytes(),
            out@ == percent_encode(bytes@.take(i as int)),
        decreases bytes@.len() - i,
    {
        let b = bytes[i];
        if is_unreserved_byte(b) {
            out.push(b as char);
        } else {
            out.push('%');
            out.push(hex_digit(b / 16));
            out.push(hex_digit(b % 16));
        }
        assert(bytes@.take(i + 1).drop_last() =~= bytes@.take(i as int));
        assert(out@ =~= percent_encode(bytes@.take(i + 1)));
        i = i + 1;
    }
    assert(bytes@.take(bytes@.len() as int) =~= bytes@);
    out
}

proof fn lemma_encode_prepend(b: u8, rest: Seq<u8>)
    ensures
        percent_encode(seq![b] + rest) == encode_byte(b) + percent_encode(rest),
    decreases rest.len(),
{
    if rest.len() == 0 {
        assert(seq![b] + rest =~= seq![b]);
        assert(seq![b].drop_last() =~= Seq::<u8>::empty());
        assert(percent_encode(Seq::<u8>::empty()) =~= Seq::<char>::empty());
        assert(encode_byte(b) + Seq::<char>::empty() =~= encode_byte(b));
        assert(Seq::<char>::empty() + encode_byte(b) =~= encode_byte(b));
    } else {
        lemma_encode_prepend(b, rest.drop_last());
        assert((seq![b] + rest).drop_last() =~= seq![b] + rest.drop_last());
        assert((seq![b] + rest).last() == rest.last());
        assert(encode_byte(b) + percent_encode(rest.drop_last()) + encode_byte(rest.last())
            =~= encode_byte(b) + (percent_encode(rest.drop_last()) + encode_byte(rest.last())));
    }
}

proof fn lemma_hex_roundtrip(n: int)
    requires
        0 <= n < 16,
    ensures
        hex_value(hex_upper(n)) == Some(n),
{
}

proof fn lemma_decode_one(b: u8, rest: Seq<char>)
    ensures
        percent_decode(encode_byte(b) + rest) == seq![b] + percent_decode(rest),
{
    let s = encode_byte(b) + rest;
    if is_unreserved(b) {
        assert(s[0] == b as char);
        assert(s.drop_first() =~= rest);
        assert((b as char) as u8 == b);
    } else {
        lemma_hex_roundtrip((b / 16) as int);
        lemma_hex_roundtrip((b % 16) as int);
        assert(s.subrange(3, s.len() as int) =~= rest);
        assert(s[1] == hex_upper((b / 16) as int));
        assert(s[2] == hex_upper((b % 16) as int));
        assert((b / 16) * 16 + b % 16 == b);
    }
}

/// Decoding an encoded segment gives back exactly the original bytes, so two
/// different names never share an encoding.
pub proof fn lemma_urlencode_round_trip(bytes: Seq<u8>)
    ensures
        percent_decode(percent_encode(bytes)) == bytes,
    decreases bytes.len(),
{
    if bytes.len() == 0 {
        assert(percent_encode(bytes) =~= Seq::<char>::empty());
    } else {
        let rest = bytes.drop_first();
        assert(bytes =~= seq![bytes[0]] + rest);
        lemma_encode_prepend(bytes[0], rest);
        lemma_decode_one(bytes[0], percent_encode(rest));
        lemma_urlencode_round_trip(rest);
    }
}

/// A segment made only of unreserved bytes is left as it is.
pub proof fn lemma_urlencode_keeps_unreserved(bytes: Seq<u8>)
    requires
        forall|i: int| 0 <= i < bytes.len() ==> is_unreserved(#[trigger] bytes[i]),
    ensures
        percent_encode(bytes) == bytes.map_values(|b: u8| b as char),
    decreases bytes.len(),
{
    if bytes.len() > 0 {
        lemma_urlencode_keeps_unreserved(bytes.drop_last());
        assert(percent_encode(bytes) =~= bytes.map_values(|b: u8| b as char));
    } else {
        assert(percent_encode(bytes) =~= bytes.map_values(|b: u8| b as char));
    }
}

/// Encoding is byte by byte: the encoding of two byte strings one after the
/// other is the two encodings one after the other.
pub proof fn lemma_urlencode_concat(a: Seq<u8>, b: Seq<u8>)
    ensures
        percent_encode(a + b) == percent_encode(a) + percent_encode(b),
    decreases b.len(),
{
    if b.len() == 0 {
        assert(a + b =~= a);
        assert(percent_encode(b) =~= Seq::<char>::empty());
        assert(percent_encode(a) + percent_encode(b) =~= percent_encode(a));
    } else {
        lemma_urlencode_concat(a, b.drop_last());
        assert((a + b).drop_last() =~= a + b.drop_last());
        assert((a + b).last() == b.last());
        assert(percent_encode(a) + percent_encode(b.drop_last()) + encode_byte(b.last())
            =~= percent_encode(a) + (percent_encode(b.drop_last()) + encode_byte(b.last())));
    }
}

/// One byte's encoding: an ASCII letter, digit, `-`, `_`, `.` or `~` stays
/// itself; any other byte becomes `%` followed by its value as two
/// upper-case hexadecimal digits (high nibble first).
pub proof fn lemma_urlencode_one_byte(b: u8)
    ensures
        (65 <= b <= 90 || 97 <= b <= 122 || 48 <= b <= 57 || b == 45 || b == 95 || b == 46 || b
            == 126) ==> percent_encode(seq![b]) == seq![b as char],
        !(65 <= b <= 90 || 97 <= b <= 122 || 48 <= b <= 57 || b == 45 || b == 95 || b == 46 || b
            == 126) ==> {
            let e = percent_encode(seq![b]);
            let hi = b / 16;
            let lo = b % 16;
            &&& e.len() == 3
            &&& e[0] == '%'
            &&& e[1] as int == if hi < 10 {
                48 + hi
            } else {
                55 + hi
            }
            &&& e[2] as int == if lo < 10 {
                48 + lo
            } else {
                55 + lo
            }
        },
{
    assert(seq![b].drop_last() =~= Seq::<u8>::empty());
    assert(percent_encode(Seq::<u8>::empty()) =~= Seq::<char>::empty());
    assert(percent_encode(seq![b]) =~= encode_byte(b));
}

/// An encoded segment is safe in a URL path: every character is an ASCII
/// letter, digit, `-`, `_`, `.`, `~` or `%`, so it never holds `#`, `?`,
/// `/`, `&` or a space.
pub proof fn lemma_urlencode_alphabet(bytes: Seq<u8>)
    ensures
        forall|i: int|
            0 <= i < percent_encode(bytes).len() ==> {
                let c = #[trigger] percent_encode(bytes)[i];
                ||| 'A' <= c <= 'Z'
                ||| 'a' <= c <= 'z'
                ||| '0' <= c <= '9'
                ||| c == '-'
                ||| c == '_'
                ||| c == '.'
                ||| c == '~'
                ||| c == '%'
            },
    decreases bytes.len(),
{
    if bytes.len() > 0 {
        lemma_urlencode_alphabet(bytes.drop_last());
        let front = percent_encode(bytes.drop_last());
        let tail = encode_byte(bytes.last());
        assert(percent_encode(bytes) == front + tail);
        assert forall|i: int| 0 <= i < percent_encode(bytes).len() implies {
            let c = #[trigger] percent_encode(bytes)[i];
            ||| 'A' <= c <= 'Z'
            ||| 'a' <= c <= 'z'
            ||| '0' <= c <= '9'
            ||| c == '-'
            ||| c == '_'
            ||| c == '.'
            ||| c == '~'
            ||| c == '%'
        } by {
            if i < front.len() {
                assert(percent_encode(bytes)[i] == front[i]);
            } else {
                assert(percent_encode(bytes)[i] == tail[i - front.len()]);
            }
        }
    }
}


// ---------------------------------------------------------------------------
// Endpoints of the admin and mission APIs
// ---------------------------------------------------------------------------

/// `server` followed by `path`.
fn joined(server: &str, path: &str) -> (r: String)
    ensures
        r@ == server@ + path@,
{
    let mut r = owned(server);
    r.append(path);
    r
}

/// Collection of enrollment tokens (`POST` mints, `GET` lists).
pub fn tokens_endpoint(server: &str) -> (r: String)
    ensures
        r@ == server@ + "/Marti/api/admin/enrollmentTokens"@,
{
    joined(server, "/Marti/api/admin/enrollmentTokens")
}

/// One enrollment token (`DELETE` revokes); the token is inserted verbatim.
pub fn token_endpoint(server: &str, token: &str) -> (r: String)
    ensures
        r@ == server@ + "/Marti/api/admin/enrollmentTokens/"@ + token@,
{
    let mut r = joined(server, "/Marti/api/admin/enrollmentTokens/");
    r.append(token);
    r
}

/// Collection of password accounts (`POST` mints, `GET` lists).
pub fn users_endpoint(server: &str) -> (r: String)
    ensures
        r@ == server@ + "/Marti/api/admin/users"@,
{
    joined(server, "/Marti/api/admin/users")
}

/// One password account (`DELETE` revokes); the name is percent-encoded.
pub fn user_endpoint(server: &str, username: &str) -> (r: String)
    ensures
        r@ == server@ + "/Marti/api/admin/users/"@ + percent_encode(username.spec_bytes()),
{
    let mut r = joined(server, "/Marti/api/admin/users/");
    let name = urlencode(username);
    r.append(name.as_str());
    r
}

/// Collection of missions (`GET` lists).
pub fn missions_endpoint(server: &str) -> (r: String)
    ensures
        r@ == server@ + "/Marti/api/missions"@,
{
    joined(server, "/Marti/api/missions")
}

/// One mission (`GET` shows it); the name is percent-encoded.
pub fn mission_endpoint(server: &str, name: &str) -> (r: String)
    ensures
        r@ == server@ + "/Marti/api/missions/"@ + percent_encode(name.spec_bytes()),
{
    let mut r = joined(server, "/Marti/api/missions/");
    let encoded = urlencode(name);
    r.append(encoded.as_str());
    r
}

/// Role assignments of a mission (`PUT` assigns one).
pub fn mission_role_endpoint(server: &str, mission: &str) -> (r: String)
    ensures
        r@ == server@ + "/Marti/api/missions/"@ + percent_encode(mission.spec_bytes()) + "/role"@,
{
    let mut r = mission_endpoint(server, mission);
    r.append("/role");
    r
}

/// The role one identity holds on a mission (`DELETE` revokes it); both the
/// mission name and the identity are percent-encoded.
pub fn member_role_endpoint(server: &str, mission: &str, uid: &str) -> (r: String)
    ensures
        r@ == server@ + "/Marti/api/missions/"@ + percent_encode(mission.spec_bytes()) + "/role/"@
            + percent_encode(uid.spec_bytes()),
{
    let mut r = mission_endpoint(server, mission);
    r.append("/role/");
    let encoded = urlencode(uid);
    r.append(encoded.as_str());
    r
}

// ---------------------------------------------------------------------------
// Request bodies
// ---------------------------------------------------------------------------

/// How `serde_json` writes one character inside a string literal: `"`
/// and `\` and the control characters backspace, tab, line feed, form feed
/// and carriage return get their short escapes, the other control
/// characters (below U+0020) become `\u00xx` with lower-case hex digits, and
/// every other character stands for itself.
pub open spec fn json_char_escape(c: char) -> Seq<char> {
    let n = c as u32;
    if c == '"' {
        seq!['\\', '"']
    } else if c == '\\' {
        seq!['\\', '\\']
    } else if n == 8 {
        seq!['\\', 'b']
    } else if n == 9 {
        seq!['\\', 't']
    } else if n == 10 {
        seq!['\\', 'n']
    } else if n == 12 {
        seq!['\\', 'f']
    } else if n == 13 {
        seq!['\\', 'r']
    } else if n < 32 {
        seq!['\\', 'u', '0', '0', lower_hex((n / 16) as int), lower_hex((n % 16) as int)]
    } else {
        seq![c]
    }
}

/// Lower-case hexadecimal digit for a nibble (0..=15).
pub open spec fn lower_hex(d: int) -> char {
    if d < 10 {
        ((48 + d) as u8) as char
    } else {
        ((87 + d) as u8) as char
    }
}

/// The escaped characters of a text, in order.
pub open spec fn json_escaped(s: Seq<char>) -> Seq<char>
    decreases s.len(),
{
    if s.len() == 0 {
        Seq::empty()
    } else {
        json_escaped(s.drop_last()) + json_char_escape(s.last())
    }
}

/// The JSON string literal for a text: its escaped characters in double
/// quotes.
pub open spec fn json_string_literal(s: Seq<char>) -> Seq<char> {
    seq!['"'] + json_escaped(s) + seq!['"']
}

/// `serde_json::to_string` on a `&str`. Its source serializes into a
/// `Vec<u8>`, whose writes cannot fail, so it always succeeds, writing the
/// text in quotes with the escapes of its `ESCAPE` table (`\"`, `\\`,
/// `\b`, `\t`, `\n`, `\f`, `\r`, other control bytes as `\u00xx` in
/// lower-case hex) and every other character as it is.
#[verifier::external_body]
fn json_quoted(s: &str) -> (r: Option<String>)
    ensures
        r is Some,
        r matches Some(text) ==> text@ == json_string_literal(s@),
{
    serde_json::to_string(s).ok()
}

fn quoted(s: &str) -> (r: String)
    ensures
        r@ == json_string_literal(s@),
{
    match json_quoted(s) {
        Some(text) => text,
        None => String::new(),
    }
}

/// `serde_json::to_string` on an `i64`. Its source writes the number with
/// `itoa` (decimal digits, a leading `-` when negative) into a `Vec<u8>`,
/// which cannot fail.
#[verifier::external_body]
fn json_integer(n: i64) -> (r: Option<String>)
    ensures
        r is Some,
        r matches Some(text) ==> text@ == decimal(n as int),
{
    serde_json::to_string(&n).ok()
}

fn integer_text(n: i64) -> (r: String)
    ensures
        r@ == decimal(n as int),
{
    match json_integer(n) {
        Some(text) => text,
        None => String::new(),
    }
}

/// A compact JSON object with the given members (each `"key":value`), in
/// order.
pub open spec fn json_object(members: Seq<Seq<char>>) -> Seq<char> {
    "{"@ + joined_with(members, ","@) + "}"@
}

fn object_text(members: &Vec<String>) -> (r: String)
    ensures
        r@ == json_object(lines_view(members@)),
{
    let mut r = owned("{");
    let inner = join_texts(members.as_slice(), ",");
    r.append(inner.as_str());
    r.append("}");
    r
}

fn member(key: &str, value_json: String) -> (r: String)
    ensures
        r@ == key@ + value_json@,
{
    let mut r = owned(key);
    r.append(value_json.as_str());
    r
}

/// Members of a token mint request: `expiresInSecs` and `note`, each only
/// when given.
pub open spec fn mint_token_members(expires_in_secs: Option<i64>, note: Option<Seq<char>>) -> Seq<
    Seq<char>,
> {
    (match expires_in_secs {
        Some(secs) => seq!["\"expiresInSecs\":"@ + decimal(secs as int)],
        None => Seq::empty(),
    }) + (match note {
        Some(text) => seq!["\"note\":"@ + json_string_literal(text)],
        None => Seq::empty(),
    })
}

/// Views of an optional borrowed text.
pub open spec fn optional_str_view(o: Option<&str>) -> Option<Seq<char>> {
    match o {
        Some(s) => Some(s@),
        None => None,
    }
}

/// The JSON body of a token mint request.
pub fn mint_token_body(expires_in_secs: Option<i64>, note: Option<&str>) -> (r: String)
    ensures
        r@ == json_object(mint_token_members(expires_in_secs, optional_str_view(note))),
{
    let mut members: Vec<String> = Vec::new();
    match expires_in_secs {
        Some(secs) => members.push(member("\"expiresInSecs\":", integer_text(secs))),
        None => {},
    }
    match note {
        Some(text) => members.push(member("\"note\":", quoted(text))),
        None => {},
    }
    assert(lines_view(members@) =~= mint_token_members(expires_in_secs, optional_str_view(note)));
    object_text(&members)
}

/// Members of a user mint request: `username`, then `password` only when
/// one is given (otherwise the server generates it).
pub open spec fn mint_user_members(username: Seq<char>, password: Option<Seq<char>>) -> Seq<Seq<char>> {
    seq!["\"username\":"@ + json_string_literal(username)] + match password {
        Some(text) => seq!["\"password\":"@ + json_string_literal(text)],
        None => Seq::empty(),
    }
}

/// The JSON body of a user mint request.
pub fn mint_user_body(username: &str, password: Option<&str>) -> (r: String)
    ensures
        r@ == json_object(mint_user_members(username@, optional_str_view(password))),
{
    let mut members: Vec<String> = Vec::new();
    members.push(member("\"username\":", quoted(username)));
    match password {
        Some(text) => members.push(member("\"password\":", quoted(text))),
        None => {},
    }
    assert(lines_view(members@) =~= mint_user_members(username@, optional_str_view(password)));
    object_text(&members)
}

/// Members of a role assignment: the identity and the role's wire name.
pub open spec fn set_role_members(uid: Seq<char>, role: RoleArg) -> Seq<Seq<char>> {
    seq![
        "\"uid\":"@ + json_string_literal(uid),
        "\"role\":"@ + json_string_literal(role_name(role)),
    ]
}

/// The JSON body of a role assignment.
pub fn set_role_body(uid: &str, role: RoleArg) -> (r: String)
    ensures
        r@ == json_object(set_role_members(uid@, role)),
{
    let mut members: Vec<String> = Vec::new();
    members.push(member("\"uid\":", quoted(uid)));
    let name = role.to_string();
    members.push(member("\"role\":", quoted(name.as_str())));
    assert(lines_view(members@) =~= set_role_members(uid@, role));
    object_text(&members)
}

/// Text without quotes, backslashes or control characters is written as it
/// is, between double quotes.
pub proof fn lemma_plain_json_string(s: Seq<char>)
    requires
        forall|i: int|
            0 <= i < s.len() ==> (#[trigger] s[i] as u32) >= 32 && s[i] != '"' && s[i] != '\\',
    ensures
        json_string_literal(s) == seq!['"'] + s + seq!['"'],
    decreases s.len(),
{
    lemma_plain_json_escaped(s);
}

proof fn lemma_plain_json_escaped(s: Seq<char>)
    requires
        forall|i: int|
            0 <= i < s.len() ==> (#[trigger] s[i] as u32) >= 32 && s[i] != '"' && s[i] != '\\',
    ensures
        json_escaped(s) == s,
    decreases s.len(),
{
    if s.len() > 0 {
        let front = s.drop_last();
        assert forall|i: int| 0 <= i < front.len() implies (#[trigger] front[i] as u32) >= 32
            && front[i] != '"' && front[i] != '\\' by {
            assert(front[i] == s[i]);
        }
        lemma_plain_json_escaped(front);
        let c = s[s.len() - 1];
        assert((c as u32) >= 32 && c != '"' && c != '\\');
        assert(json_char_escape(c) == seq![c]);
        assert(front + seq![c] =~= s);
    } else {
        assert(json_escaped(s) =~= s);
    }
}

proof fn lemma_object_of_two(a: Seq<char>, b: Seq<char>)
    ensures
        json_object(seq![a, b]) == "{"@ + a + ","@ + b + "}"@,
{
    let parts = seq![a, b];
    assert(parts.drop_last() =~= seq![a]);
    assert(joined_with(seq![a], ","@) == a);
    assert(joined_with(parts, ","@) == a + ","@ + b);
}

proof fn lemma_object_of_one(a: Seq<char>)
    ensures
        json_object(seq![a]) == "{"@ + a + "}"@,
{
}

proof fn lemma_object_of_none()
    ensures
        json_object(Seq::empty()) == "{"@ + "}"@,
{
    assert(joined_with(Seq::<Seq<char>>::empty(), ","@) =~= Seq::<char>::empty());
    assert("{"@ + Seq::<char>::empty() =~= "{"@);
}

/// A role assignment names the identity and the requested role's wire
/// name: `{"uid":<uid>,"role":"owner"}` or `{"uid":<uid>,"role":"subscriber"}`,
/// so different roles give different bodies.
pub proof fn lemma_set_role_body_names_the_role(uid: Seq<char>, role: RoleArg, other: RoleArg)
    ensures
        json_object(set_role_members(uid, role)) == "{\"uid\":"@ + json_string_literal(uid)
            + ",\"role\":\""@ + (match role {
            RoleArg::Owner => "owner"@,
            RoleArg::Subscriber => "subscriber"@,
        }) + "\"}"@,
        role != other ==> json_object(set_role_members(uid, role)) != json_object(
            set_role_members(uid, other),
        ),
{
    reveal_strlit("owner");
    reveal_strlit("subscriber");
    reveal_strlit("{");
    reveal_strlit("}");
    reveal_strlit(",");
    reveal_strlit("\"}");
    reveal_strlit("\"role\":");
    reveal_strlit(",\"role\":\"");
    reveal_strlit("\"uid\":");
    reveal_strlit("{\"uid\":");
    lemma_plain_json_string("owner"@);
    lemma_plain_json_string("subscriber"@);
    lemma_role_body_text(uid, role);
    lemma_role_body_text(uid, other);
    if role != other {
        assert(role_name(role).len() != role_name(other).len());
        assert(json_object(set_role_members(uid, role)).len() != json_object(
            set_role_members(uid, other),
        ).len());
    }
}

proof fn lemma_role_body_text(uid: Seq<char>, role: RoleArg)
    requires
        json_string_literal("owner"@) == seq!['"'] + "owner"@ + seq!['"'],
        json_string_literal("subscriber"@) == seq!['"'] + "subscriber"@ + seq!['"'],
    ensures
        json_object(set_role_members(uid, role)) == "{\"uid\":"@ + json_string_literal(uid)
            + ",\"role\":\""@ + role_name(role) + "\"}"@,
{
    reveal_strlit("{");
    reveal_strlit("}");
    reveal_strlit(",");
    reveal_strlit("\"}");
    reveal_strlit("\"role\":");
    reveal_strlit(",\"role\":\"");
    reveal_strlit("\"uid\":");
    reveal_strlit("{\"uid\":");
    let u = "\"uid\":"@ + json_string_literal(uid);
    let name = role_name(role);
    let r = "\"role\":"@ + json_string_literal(name);
    lemma_object_of_two(u, r);
    assert(json_string_literal(name) == seq!['"'] + name + seq!['"']);
    assert("{"@ + u + ","@ + r + "}"@ =~= "{\"uid\":"@ + json_string_literal(uid) + ",\"role\":\""@
        + name + "\"}"@);
}

/// A token mint request is `{}` with `"expiresInSecs":<n>` when a lifetime
/// is given and `"note":<text>` when a note is given, in that order,
/// separated by a comma.
pub proof fn lemma_mint_token_body_members(expires_in_secs: Option<i64>, note: Option<Seq<char>>)
    ensures
        json_object(mint_token_members(expires_in_secs, note)) == match (expires_in_secs, note) {
            (None, None) => "{"@ + "}"@,
            (Some(n), None) => "{"@ + "\"expiresInSecs\":"@ + decimal(n as int) + "}"@,
            (None, Some(t)) => "{"@ + "\"note\":"@ + json_string_literal(t) + "}"@,
            (Some(n), Some(t)) => "{"@ + "\"expiresInSecs\":"@ + decimal(n as int) + ","@
                + "\"note\":"@ + json_string_literal(t) + "}"@,
        },
{
    match (expires_in_secs, note) {
        (None, None) => {
            assert(mint_token_members(expires_in_secs, note) =~= Seq::<Seq<char>>::empty());
            lemma_object_of_none();
        },
        (Some(n), None) => {
            let a = "\"expiresInSecs\":"@ + decimal(n as int);
            assert(mint_token_members(expires_in_secs, note) =~= seq![a]);
            lemma_object_of_one(a);
            assert("{"@ + a + "}"@ =~= "{"@ + "\"expiresInSecs\":"@ + decimal(n as int) + "}"@);
        },
        (None, Some(t)) => {
            let b = "\"note\":"@ + json_string_literal(t);
            assert(mint_token_members(expires_in_secs, note) =~= seq![b]);
            lemma_object_of_one(b);
            assert("{"@ + b + "}"@ =~= "{"@ + "\"note\":"@ + json_string_literal(t) + "}"@);
        },
        (Some(n), Some(t)) => {
            let a = "\"expiresInSecs\":"@ + decimal(n as int);
            let b = "\"note\":"@ + json_string_literal(t);
            assert(mint_token_members(expires_in_secs, note) =~= seq![a, b]);
            lemma_object_of_two(a, b);
            assert("{"@ + a + ","@ + b + "}"@ =~= "{"@ + "\"expiresInSecs\":"@ + decimal(n as int)
                + ","@ + "\"note\":"@ + json_string_literal(t) + "}"@);
        },
    }
}

/// A user mint request always names the user and adds the password only
/// when one is given.
pub proof fn lemma_mint_user_body_members(username: Seq<char>, password: Option<Seq<char>>)
    ensures
        json_object(mint_user_members(username, password)) == match password {
            None => "{"@ + "\"username\":"@ + json_string_literal(username) + "}"@,
            Some(p) => "{"@ + "\"username\":"@ + json_string_literal(username) + ","@
                + "\"password\":"@ + json_string_literal(p) + "}"@,
        },
{
    let a = "\"username\":"@ + json_string_literal(username);
    match password {
        None => {
            assert(mint_user_members(username, password) =~= seq![a]);
            lemma_object_of_one(a);
            assert("{"@ + a + "}"@ =~= "{"@ + "\"username\":"@ + json_string_literal(username)
                + "}"@);
        },
        Some(p) => {
            let b = "\"password\":"@ + json_string_literal(p);
            assert(mint_user_members(username, password) =~= seq![a, b]);
            lemma_object_of_two(a, b);
            assert("{"@ + a + ","@ + b + "}"@ =~= "{"@ + "\"username\":"@ + json_string_literal(
                username,
            ) + ","@ + "\"password\":"@ + json_string_literal(p) + "}"@);
        },
    }
}

// ---------------------------------------------------------------------------
// Server replies
// ---------------------------------------------------------------------------

/// What `serde_json` makes of `body` and its top-level member `key`: `None`
/// when `body` is not JSON, `Some(None)` when the member is absent or not a
/// string, `Some(Some(text))` when it is the string `text`.
pub uninterp spec fn json_string_member(body: Seq<char>, key: Seq<char>) -> Option<Option<Seq<char>>>;

/// Views of a nested optional text.
pub open spec fn nested_text_view(o: Option<Option<String>>) -> Option<Option<Seq<char>>> {
    match o {
        None => None,
        Some(None) => Some(None),
        Some(Some(s)) => Some(Some(s@)),
    }
}

/// Parses `body` with `serde_json::from_str::<serde_json::Value>` and reads
/// the member `key` with `Value`'s index operator and `Value::as_str`. The
/// contract only ties the result to the name `json_string_member` of the
/// two texts; what JSON parsing accepts is left to `serde_json`.
#[verifier::external_body]
pub(crate) fn json_member_text(body: &str, key: &str) -> (r: Option<Option<String>>)
    ensures
        nested_text_view(r) == json_string_member(body@, key@),
{
    match serde_json::from_str::<serde_json::Value>(body) {
        Ok(value) => Some(value[key].as_str().map(|s| s.to_string())),
        Err(_) => None,
    }
}

/// A 2xx status, as `StatusCode::is_success` decides.
pub open spec fn success_status(code: u16) -> bool {
    200 <= code <= 299
}

/// Whether a reply status counts as success.
pub fn is_success_status(code: u16) -> (r: bool)
    ensures
        r == success_status(code),
{
    200 <= code && code <= 299
}

/// The message shown for a failed admin call: the server's own
/// `{"error": "..."}` text when the body carries one, else the body itself.
pub open spec fn failure_message(body: Seq<char>) -> Seq<char> {
    match json_string_member(body, "error"@) {
        Some(Some(message)) => message,
        _ => body,
    }
}

/// The message of a failed admin call, given the body and what JSON parsing
/// found as its `error` member.
pub fn server_message(body: &str, error_member: Option<Option<String>>) -> (r: String)
    ensures
        r@ == match nested_text_view(error_member) {
            Some(Some(message)) => message,
            _ => body@,
        },
{
    match error_member {
        Some(Some(message)) => message,
        _ => owned(body),
    }
}

/// Turns a non-success reply (its status line and body) into an error that
/// carries the server's own message.
pub fn status_failure(status: &str, body: &str) -> (e: AdminError)
    ensures
        e matches AdminError::ServerStatus { status: s, message: m } && s@ == status@ && m@
            == failure_message(body@),
{
    let member = json_member_text(body, "error");
    let message = server_message(body, member);
    AdminError::ServerStatus { status: owned(status), message }
}

/// The text of a reply member, given what JSON parsing found: `unparsable`
/// when the reply was not JSON, `missing` when the member is absent or not a
/// string.
pub fn member_or(member: Option<Option<String>>, unparsable: AdminError, missing: AdminError) -> (r:
    Result<String, AdminError>)
    ensures
        text_result_view(r) == match nested_text_view(member) {
            None => Err(unparsable),
            Some(None) => Err(missing),
            Some(Some(text)) => Ok(text),
        },
{
    match member {
        None => Err(unparsable),
        Some(None) => Err(missing),
        Some(Some(text)) => Ok(text),
    }
}

/// The token a successful mint reply carries.
pub open spec fn minted_token(body: Seq<char>) -> Result<Seq<char>, AdminError> {
    match json_string_member(body, "token"@) {
        None => Err(AdminError::MintReplyUnparsable),
        Some(None) => Err(AdminError::TokenFieldMissing),
        Some(Some(token)) => Ok(token),
    }
}

/// The password a successful user mint reply carries.
pub open spec fn minted_password(body: Seq<char>) -> Result<Seq<char>, AdminError> {
    match json_string_member(body, "password"@) {
        None => Err(AdminError::MintReplyUnparsable),
        Some(None) => Err(AdminError::PasswordFieldMissing),
        Some(Some(password)) => Ok(password),
    }
}

/// Views of a text result.
pub open spec fn text_result_view(r: Result<String, AdminError>) -> Result<Seq<char>, AdminError> {
    match r {
        Ok(s) => Ok(s@),
        Err(e) => Err(e),
    }
}

/// Reads the new token out of a token mint reply.
pub fn token_from_mint_reply(body: &str) -> (r: Result<String, AdminError>)
    ensures
        text_result_view(r) == minted_token(body@),
{
    let member = json_member_text(body, "token");
    member_or(member, AdminError::MintReplyUnparsable, AdminError::TokenFieldMissing)
}

/// Reads the password now in effect out of a user mint reply (server
/// generated or the one that was sent).
pub fn password_from_mint_reply(body: &str) -> (r: Result<String, AdminError>)
    ensures
        text_result_view(r) == minted_password(body@),
{
    let member = json_member_text(body, "password");
    member_or(member, AdminError::MintReplyUnparsable, AdminError::PasswordFieldMissing)
}


// ---------------------------------------------------------------------------
// curl-style `--resolve HOST:PORT:ADDRESS`
// ---------------------------------------------------------------------------

/// The three parts of a `--resolve` override.
pub struct ResolveOverride {
    /// Host name whose resolution is overridden (no `:` in it).
    pub host: String,
    /// Port text (no `:` in it).
    pub port: String,
    /// Address text, taken verbatim (it may hold `:`, as IPv6 literals do).
    pub address: String,
}

/// `s` holds at least two `:`.
pub open spec fn has_two_colons(s: Seq<char>) -> bool {
    exists|i: int, j: int| 0 <= i < j < s.len() && s[i] == ':' && s[j] == ':'
}

/// Address text as it combines with a port: an IPv6 literal (it holds a `:`)
/// is put in brackets unless it already starts with `[`.
pub open spec fn bracketed(address: Seq<char>) -> Seq<char> {
    if address.contains(':') && !(address.len() > 0 && address[0] == '[') {
        seq!['['] + address + seq![']']
    } else {
        address
    }
}

/// The `address:port` text handed to the socket-address parser.
pub open spec fn socket_text(address: Seq<char>, port: Seq<char>) -> Seq<char> {
    bracketed(address) + seq![':'] + port
}

/// An address holding a `:` that does not already start with `[` (an IPv6
/// literal, compressed or not) is put in brackets before the port; any
/// other address is joined to the port as it is.
pub proof fn lemma_socket_text_brackets_ipv6(address: Seq<char>, port: Seq<char>)
    ensures
        (exists|k: int| 0 <= k < address.len() && address[k] == ':') && !(address.len() > 0
            && address[0] == '[') ==> socket_text(address, port) == seq!['['] + address + seq![
            ']',
            ':',
        ] + port,
        !(exists|k: int| 0 <= k < address.len() && address[k] == ':') ==> socket_text(address, port)
            == address + seq![':'] + port,
        (address.len() > 0 && address[0] == '[') ==> socket_text(address, port) == address + seq![
            ':',
        ] + port,
{
    if exists|k: int| 0 <= k < address.len() && address[k] == ':' {
        let k = choose|k: int| 0 <= k < address.len() && address[k] == ':';
        assert(address.contains(':'));
    } else {
        assert(!address.contains(':'));
    }
    assert(seq!['['] + address + seq![']'] + seq![':'] + port =~= seq!['['] + address + seq![
        ']',
        ':',
    ] + port);
}

/// First `:` in `s` at or after `from`.
fn find_colon(s: &str, len: usize, from: usize) -> (r: Option<usize>)
    requires
        len == s@.len(),
        from <= len,
    ensures
        match r {
            Some(i) => from <= i < len && s@[i as int] == ':' && forall|j: int|
                from <= j < i ==> s@[j] != ':',
            None => forall|j: int| from <= j < len ==> s@[j] != ':',
        },
{
    let mut i = from;
    while i < len
        invariant
            len == s@.len(),
            from <= i <= len,
            forall|j: int| from <= j < i ==> s@[j] != ':',
        decreases len - i,
    {
        if s.get_char(i) == ':' {
            return Some(i);
        }
        i = i + 1;
    }
    None
}

/// Splits curl's `HOST:PORT:ADDRESS` at its first two `:`; everything after
/// the second one is the address, taken verbatim. Fails exactly when `spec`
/// holds fewer than two `:`.
pub fn split_resolve(spec: &str) -> (r: Result<ResolveOverride, AdminError>)
    ensures
        match r {
            Ok(o) => {
                &&& has_two_colons(spec@)
                &&& spec@ == o.host@ + seq![':'] + o.port@ + seq![':'] + o.address@
                &&& !o.host@.contains(':')
                &&& !o.port@.contains(':')
            },
            Err(e) => {
                &&& !has_two_colons(spec@)
                &&& e matches AdminError::MalformedResolve { spec: s } && s@ == spec@
            },
        },
{
    let len = spec.unicode_len();
    let first = find_colon(spec, len, 0);
    match first {
        None => {
            assert(!has_two_colons(spec@)) by {
                if has_two_colons(spec@) {
                    let (i, j) = choose|i: int, j: int|
                        0 <= i < j < spec@.len() && spec@[i] == ':' && spec@[j] == ':';
                    assert(spec@[i] != ':');
                }
            }
            Err(AdminError::MalformedResolve { spec: owned(spec) })
        },
        Some(p1) => {
            let second = find_colon(spec, len, p1 + 1);
            match second {
                None => {
                    assert(!has_two_colons(spec@)) by {
                        if has_two_colons(spec@) {
                            let (i, j) = choose|i: int, j: int|
                                0 <= i < j < spec@.len() && spec@[i] == ':' && spec@[j] == ':';
                            assert(j > p1);
                        }
                    }
                    Err(AdminError::MalformedResolve { spec: owned(spec) })
                },
                Some(p2) => {
                    let host = owned(spec.substring_char(0, p1));
                    let port = owned(spec.substring_char(p1 + 1, p2));
                    let address = owned(spec.substring_char(p2 + 1, len));
                    assert(spec@ =~= host@ + seq![':'] + port@ + seq![':'] + address@);
                    assert(!host@.contains(':')) by {
                        if host@.contains(':') {
                            let k = choose|k: int| 0 <= k < host@.len() && host@[k] == ':';
                            assert(spec@[k] == ':');
                        }
                    }
                    assert(!port@.contains(':')) by {
                        if port@.contains(':') {
                            let k = choose|k: int| 0 <= k < port@.len() && port@[k] == ':';
                            assert(spec@[p1 + 1 + k] == ':');
                        }
                    }
                    assert(has_two_colons(spec@)) by {
                        assert(spec@[p1 as int] == ':' && spec@[p2 as int] == ':');
                    }
                    Ok(ResolveOverride { host, port, address })
                },
            }
        },
    }
}

/// The `address:port` text for a `--resolve` override, with an IPv6 literal
/// put in brackets so that it combines with the port.
pub fn resolve_socket_text(address: &str, port: &str) -> (r: String)
    ensures
        r@ == socket_text(address@, port@),
{
    let len = address.unicode_len();
    let has_colon = find_colon(address, len, 0).is_some();
    let starts_with_bracket = len > 0 && address.get_char(0) == '[';
    let mut r = String::new();
    if has_colon && !starts_with_bracket {
        r.push('[');
        r.append(address);
        r.push(']');
    } else {
        r.append(address);
    }
    r.push(':');
    r.append(port);
    proof {
        if has_colon {
            assert(address@.contains(':'));
        } else {
            assert(!address@.contains(':'));
        }
        assert(r@ =~= socket_text(address@, port@));
    }
    r
}

/// Error for a `--resolve` whose address and port do not parse as a socket
/// address.
pub fn invalid_resolve_address(address: &str, port: &str) -> (e: AdminError)
    ensures
        e matches AdminError::InvalidResolveAddress { address: a, port: p } && a@ == address@ && p@
            == port@,
{
    AdminError::InvalidResolveAddress { address: owned(address), port: owned(port) }
}


// ---------------------------------------------------------------------------
// Records the admin API returns
// ---------------------------------------------------------------------------

/// One enrollment invite token as the admin API lists it.
pub struct EnrollmentToken {
    pub token: String,
    pub created_at_unix: i64,
    pub expires_at_unix: Option<i64>,
    pub note: Option<String>,
    pub used: bool,
    pub used_by_common_name: Option<String>,
    pub revoked: bool,
}

/// One password account as the admin API lists it.
pub struct UserInfo {
    pub username: String,
    pub created_at_unix: i64,
    pub revoked: bool,
}

/// One mission with its role assignments.
pub struct Mission {
    pub name: String,
    pub description: Option<String>,
    pub creator_uid: String,
    /// Role of each identity, as `(uid, role)` pairs in ascending order of
    /// uid with each uid once (the order of the server's map); see
    /// `Mission::roles_well_formed`.
    pub roles: Vec<(String, String)>,
    pub subscribers: Vec<String>,
}

/// `a` sorts before `b`, comparing character by character and a proper
/// prefix first (the order of `String`, whose bytes compare as the
/// characters' code points do).
pub open spec fn text_less(a: Seq<char>, b: Seq<char>) -> bool
    decreases a.len(),
{
    if b.len() == 0 {
        false
    } else if a.len() == 0 {
        true
    } else if a[0] != b[0] {
        a[0] < b[0]
    } else {
        text_less(a.drop_first(), b.drop_first())
    }
}

/// Role pairs whose uids strictly ascend: each uid once, in map order.
pub open spec fn roles_in_uid_order(roles: Seq<(String, String)>) -> bool {
    forall|i: int, j: int| 0 <= i < j < roles.len() ==> text_less(roles[i].0@, roles[j].0@)
}

impl Mission {
    /// The mission's role assignments are keyed as a map: ascending uids,
    /// each once.
    pub open spec fn roles_well_formed(&self) -> bool {
        roles_in_uid_order(self.roles@)
    }
}

/// Decides whether `a` sorts before `b`.
pub fn text_before(a: &str, b: &str) -> (r: bool)
    ensures
        r == text_less(a@, b@),
{
    let la = a.unicode_len();
    let lb = b.unicode_len();
    let mut i: usize = 0;
    assert(a@.skip(0) =~= a@ && b@.skip(0) =~= b@);
    while i <= la && i <= lb
        invariant
            la == a@.len(),
            lb == b@.len(),
            i <= la,
            i <= lb,
            text_less(a@, b@) == text_less(a@.skip(i as int), b@.skip(i as int)),
        decreases la - i,
    {
        if i == lb {
            return false;
        }
        if i == la {
            return true;
        }
        let c = a.get_char(i);
        let d = b.get_char(i);
        assert(a@.skip(i as int)[0] == c && b@.skip(i as int)[0] == d);
        if c != d {
            return c < d;
        }
        assert(a@.skip(i as int).drop_first() =~= a@.skip(i + 1));
        assert(b@.skip(i as int).drop_first() =~= b@.skip(i + 1));
        i = i + 1;
    }
    false
}

/// Decides whether role pairs have strictly ascending uids.
pub fn roles_ascending(roles: &[(String, String)]) -> (r: bool)
    ensures
        r == roles_in_uid_order(roles@),
{
    let n = roles.len();
    let mut i: usize = 0;
    while i < n
        invariant
            n == roles@.len(),
            i <= n,
            forall|p: int, q: int|
                0 <= p < i && p < q < n ==> text_less(roles@[p].0@, roles@[q].0@),
        decreases n - i,
    {
        let mut j: usize = i + 1;
        while j < n
            invariant
                n == roles@.len(),
                i < n,
                i < j <= n,
                forall|p: int, q: int|
                    0 <= p < i && p < q < n ==> text_less(roles@[p].0@, roles@[q].0@),
                forall|q: int| i < q < j ==> text_less(roles@[i as int].0@, roles@[q].0@),
            decreases n - j,
        {
            if !text_before(roles[i].0.as_str(), roles[j].0.as_str()) {
                return false;
            }
            j = j + 1;
        }
        i = i + 1;
    }
    true
}

proof fn lemma_text_less_irreflexive(a: Seq<char>)
    ensures
        !text_less(a, a),
    decreases a.len(),
{
    if a.len() > 0 {
        lemma_text_less_irreflexive(a.drop_first());
    }
}

/// Well-formed role assignments name each uid once.
pub proof fn lemma_ordered_roles_unique(roles: Seq<(String, String)>, i: int, j: int)
    requires
        roles_in_uid_order(roles),
        0 <= i < roles.len(),
        0 <= j < roles.len(),
        i != j,
    ensures
        roles[i].0@ != roles[j].0@,
{
    lemma_text_less_irreflexive(roles[i].0@);
    lemma_text_less_irreflexive(roles[j].0@);
}

} // verus!
