//! What the tool prints: token and account tables, mission summaries,
//! timestamps, and the one-line confirmations of each command.

use vstd::prelude::*;
use vstd::string::StringExecFns;

use crate::cli::{role_name, RoleArg};
use crate::client::{EnrollmentToken, Mission, UserInfo};
use crate::error::AdminError;
use crate::pdf::{Expiry, HandoutInfo};
use crate::qr::{enrollment_payload, payload_text};
use crate::text::{decimal, decimal_string, lemma_padded_shape, owned, pad_right, padded};

verus! {

// ---------------------------------------------------------------------------
// Clock and timestamps
// ---------------------------------------------------------------------------

/// The RFC 3339 text (UTC) that the `time` crate gives for a Unix timestamp,
/// or `None` when it cannot represent or format that instant.
pub uninterp spec fn rfc3339_utc(secs: i64) -> Option<Seq<char>>;

/// Views of an optional text.
pub open spec fn optional_text_view(o: Option<String>) -> Option<Seq<char>> {
    match o {
        Some(s) => Some(s@),
        None => None,
    }
}

/// The Unix timestamps RFC 3339 can show: from 0000-01-01T00:00:00Z to
/// 9999-12-31T23:59:59Z.
pub open spec fn rfc3339_range(secs: i64) -> bool {
    -62167219200 <= secs <= 253402300799
}

/// `time::OffsetDateTime::from_unix_timestamp` followed by
/// `OffsetDateTime::format` with the well-known `Rfc3339` description. The
/// contract ties the result to the name `rfc3339_utc` of `secs`, and states
/// when there is one, as `time`'s source shows: `from_unix_timestamp`
/// accepts at least years -9999..=9999, and the `Rfc3339` formatter refuses
/// exactly the years outside 0..=9999 (the UTC offset always passes its
/// checks). The calendar arithmetic itself is left to `time`.
#[verifier::external_body]
fn rfc3339_text(secs: i64) -> (r: Option<String>)
    ensures
        optional_text_view(r) == rfc3339_utc(secs),
        r is Some <==> rfc3339_range(secs),
{
    match time::OffsetDateTime::from_unix_timestamp(secs) {
        Ok(instant) => instant.format(&time::format_description::well_known::Rfc3339).ok(),
        Err(_) => None,
    }
}

/// How a Unix timestamp is shown: its RFC 3339 text, or the plain decimal
/// seconds when there is none.
pub open spec fn unix_time_text(secs: i64) -> Seq<char> {
    match rfc3339_utc(secs) {
        Some(text) => text,
        None => decimal(secs as int),
    }
}

/// Shows a timestamp given the RFC 3339 rendering of it, if any: that text,
/// or else the decimal seconds.
pub fn unix_time_or_seconds(secs: i64, rendered: Option<String>) -> (r: String)
    ensures
        r@ == match optional_text_view(rendered) {
            Some(text) => text,
            None => decimal(secs as int),
        },
{
    match rendered {
        Some(text) => text,
        None => decimal_string(secs),
    }
}

/// Shows a Unix timestamp as RFC 3339 text, falling back to its decimal
/// seconds exactly outside years 0..=9999.
pub fn format_unix(unix_seconds: i64) -> (r: String)
    ensures
        r@ == unix_time_text(unix_seconds),
        rfc3339_range(unix_seconds) ==> r@ == rfc3339_utc(unix_seconds)->0,
        !rfc3339_range(unix_seconds) ==> r@ == decimal(unix_seconds as int),
{
    let rendered = rfc3339_text(unix_seconds);
    unix_time_or_seconds(unix_seconds, rendered)
}

#[verifier::external_type_specification]
#[verifier::external_body]
pub struct ExSystemTime(std::time::SystemTime);

#[verifier::external_type_specification]
#[verifier::external_body]
pub struct ExSystemTimeError(std::time::SystemTimeError);

/// `SystemTime::now` (std) reads the system clock; nothing is stated of it.
pub assume_specification[ std::time::SystemTime::now ]() -> std::time::SystemTime;

/// `Duration::as_secs` (std) gives the whole seconds of a duration; nothing
/// is stated of them, the duration being opaque here.
pub assume_specification[ core::time::Duration::as_secs ](d: &core::time::Duration) -> u64;

/// `SystemTime::duration_since(UNIX_EPOCH)` (std): the time elapsed since the
/// Unix epoch, or an error when the clock reads earlier than it. Nothing is
/// stated of the outcome, which depends on the clock.
#[verifier::external_body]
fn elapsed_since_epoch(t: &std::time::SystemTime) -> (r: Result<
    core::time::Duration,
    std::time::SystemTimeError,
>) {
    t.duration_since(std::time::UNIX_EPOCH)
}

/// Unix seconds from the whole seconds elapsed since the epoch (`None` when
/// the clock reads before it): the count reinterpreted as `i64`, or 0.
pub fn unix_seconds_from(elapsed: Option<u64>) -> (r: i64)
    ensures
        r == match elapsed {
            Some(secs) => secs as i64,
            None => 0i64,
        },
{
    match elapsed {
        Some(secs) => secs as i64,
        None => 0,
    }
}

/// The current Unix time in seconds (0 when the clock reads before the
/// epoch).
pub fn now_unix() -> i64 {
    let now = std::time::SystemTime::now();
    let elapsed = match elapsed_since_epoch(&now) {
        Ok(d) => Some(d.as_secs()),
        Err(_) => None,
    };
    unix_seconds_from(elapsed)
}


// ---------------------------------------------------------------------------
// Token table
// ---------------------------------------------------------------------------

/// Where an enrollment token stands.
#[derive(PartialEq, Eq, Structural)]
pub enum TokenStatus {
    Active,
    Used,
    Expired,
    Revoked,
}

/// Status of a token at time `now`: revocation outranks use, which outranks
/// expiry; a token expires at its expiry second.
pub open spec fn status_at(token: EnrollmentToken, now: i64) -> TokenStatus {
    if token.revoked {
        TokenStatus::Revoked
    } else if token.used {
        TokenStatus::Used
    } else if token.expires_at_unix matches Some(expires) && now >= expires {
        TokenStatus::Expired
    } else {
        TokenStatus::Active
    }
}

/// The word a status is listed with.
pub open spec fn status_word(status: TokenStatus) -> Seq<char> {
    match status {
        TokenStatus::Active => "active"@,
        TokenStatus::Used => "used"@,
        TokenStatus::Expired => "expired"@,
        TokenStatus::Revoked => "revoked"@,
    }
}

impl TokenStatus {
    /// The word this status is listed with.
    pub fn label(&self) -> (r: &'static str)
        ensures
            r@ == status_word(*self),
    {
        match self {
            TokenStatus::Active => "active",
            TokenStatus::Used => "used",
            TokenStatus::Expired => "expired",
            TokenStatus::Revoked => "revoked",
        }
    }
}

/// Decides a token's status at time `now`.
pub fn token_status(token: &EnrollmentToken, now: i64) -> (r: TokenStatus)
    ensures
        r == status_at(*token, now),
{
    if token.revoked {
        TokenStatus::Revoked
    } else if token.used {
        TokenStatus::Used
    } else {
        match token.expires_at_unix {
            Some(expires) => if now >= expires {
                TokenStatus::Expired
            } else {
                TokenStatus::Active
            },
            None => TokenStatus::Active,
        }
    }
}

/// Once a token has expired it stays expired: later clocks never bring it
/// back.
pub proof fn lemma_expiry_is_permanent(token: EnrollmentToken, now: i64, later: i64)
    requires
        status_at(token, now) == TokenStatus::Expired,
        now <= later,
    ensures
        status_at(token, later) == TokenStatus::Expired,
{
}

/// Revoked and used tokens keep that status whatever the clock says, and a
/// token without expiry that is neither is active at every time.
pub proof fn lemma_status_without_clock(token: EnrollmentToken, t1: i64, t2: i64)
    ensures
        token.revoked ==> status_at(token, t1) == TokenStatus::Revoked,
        !token.revoked && token.used ==> status_at(token, t1) == TokenStatus::Used,
        token.expires_at_unix is None ==> status_at(token, t1) == status_at(token, t2),
        !token.revoked && !token.used && token.expires_at_unix is None ==> status_at(token, t1)
            == TokenStatus::Active,
{
}

/// For a token that is neither revoked nor used and has an expiry second,
/// the clock alone decides: it is expired exactly from that second on and
/// active before it.
pub proof fn lemma_expiry_decides_unused_tokens(token: EnrollmentToken, now: i64)
    requires
        !token.revoked,
        !token.used,
        token.expires_at_unix is Some,
    ensures
        (status_at(token, now) == TokenStatus::Expired) <==> now >= token.expires_at_unix->0,
        (status_at(token, now) == TokenStatus::Active) <==> now < token.expires_at_unix->0,
{
}

/// A token's status depends only on its revoked and used flags, its expiry
/// and the clock: neither its text, its creation time, its note nor who
/// used it changes it.
pub proof fn lemma_status_ignores_other_fields(t1: EnrollmentToken, t2: EnrollmentToken, now: i64)
    requires
        t1.revoked == t2.revoked,
        t1.used == t2.used,
        t1.expires_at_unix == t2.expires_at_unix,
    ensures
        status_at(t1, now) == status_at(t2, now),
{
}

/// Each status is listed with its own word: `active`, `used`, `expired`,
/// `revoked`.
pub proof fn lemma_status_words(s: TokenStatus)
    ensures
        status_word(s) == match s {
            TokenStatus::Active => "active"@,
            TokenStatus::Used => "used"@,
            TokenStatus::Expired => "expired"@,
            TokenStatus::Revoked => "revoked"@,
        },
{
}

/// Text of an optional field, `-` when absent.
pub open spec fn or_dash(o: Option<String>) -> Seq<char> {
    match o {
        Some(s) => s@,
        None => "-"@,
    }
}

/// Expiry column of a token: its expiry time, or `never`.
pub open spec fn expiry_column(expires: Option<i64>) -> Seq<char> {
    match expires {
        Some(e) => unix_time_text(e),
        None => "never"@,
    }
}

/// Header of the token table.
pub open spec fn token_table_header() -> Seq<char> {
    padded("TOKEN"@, 66) + " "@ + padded("STATUS"@, 10) + " "@ + padded("USED BY"@, 20) + " "@
        + padded("CREATED"@, 20) + " "@ + padded("EXPIRES"@, 20) + " NOTE"@
}

/// One row of the token table.
pub open spec fn token_row(token: EnrollmentToken, now: i64) -> Seq<char> {
    padded(token.token@, 66) + " "@ + padded(status_word(status_at(token, now)), 10) + " "@
        + padded(or_dash(token.used_by_common_name), 20) + " "@ + padded(
        unix_time_text(token.created_at_unix),
        20,
    ) + " "@ + padded(expiry_column(token.expires_at_unix), 20) + " "@ + or_dash(token.note)
}

/// Columns line up: for a token of at most 66 characters, its row holds the
/// token padded to 66 characters, a space, then the status padded to 10
/// characters, exactly where the header holds `TOKEN` and `STATUS`.
pub proof fn lemma_token_columns_align(token: EnrollmentToken, now: i64)
    requires
        token.token@.len() <= 66,
    ensures
        token_row(token, now).subrange(0, 66) == padded(token.token@, 66),
        token_row(token, now)[66] == ' ',
        token_row(token, now).subrange(67, 77) == padded(status_word(status_at(token, now)), 10),
        token_table_header().subrange(0, 66) == padded("TOKEN"@, 66),
        token_table_header()[66] == ' ',
        token_table_header().subrange(67, 77) == padded("STATUS"@, 10),
{
    reveal_strlit("TOKEN");
    reveal_strlit("STATUS");
    reveal_strlit(" ");
    reveal_strlit("active");
    reveal_strlit("used");
    reveal_strlit("expired");
    reveal_strlit("revoked");
    let status = status_word(status_at(token, now));
    lemma_padded_shape(token.token@, 66);
    lemma_padded_shape(status, 10);
    lemma_padded_shape("TOKEN"@, 66);
    lemma_padded_shape("STATUS"@, 10);
    let row = token_row(token, now);
    let head = padded(token.token@, 66) + " "@ + padded(status, 10);
    assert(row.subrange(0, 77) =~= head) by {
        assert(row =~= head + (" "@ + padded(or_dash(token.used_by_common_name), 20) + " "@
            + padded(unix_time_text(token.created_at_unix), 20) + " "@ + padded(
            expiry_column(token.expires_at_unix),
            20,
        ) + " "@ + or_dash(token.note)));
    }
    assert(row.subrange(0, 66) =~= head.subrange(0, 66));
    assert(row.subrange(67, 77) =~= head.subrange(67, 77));
    assert(row[66] == head[66]);
    let header = token_table_header();
    let hhead = padded("TOKEN"@, 66) + " "@ + padded("STATUS"@, 10);
    assert(header.subrange(0, 77) =~= hhead) by {
        assert(header =~= hhead + (" "@ + padded("USED BY"@, 20) + " "@ + padded("CREATED"@, 20)
            + " "@ + padded("EXPIRES"@, 20) + " NOTE"@));
    }
    assert(header.subrange(0, 66) =~= hhead.subrange(0, 66));
    assert(header.subrange(67, 77) =~= hhead.subrange(67, 77));
    assert(header[66] == hhead[66]);
}

/// The lines `token list` prints for `tokens` at time `now`.
pub open spec fn token_table(tokens: Seq<EnrollmentToken>, now: i64) -> Seq<Seq<char>> {
    if tokens.len() == 0 {
        seq!["No enrollment tokens."@]
    } else {
        seq![token_table_header()] + tokens.map_values(|t: EnrollmentToken| token_row(t, now))
    }
}

/// Views of a list of lines.
pub open spec fn lines_view(lines: Seq<String>) -> Seq<Seq<char>> {
    lines.map_values(|s: String| s@)
}

fn or_dash_text(o: &Option<String>) -> (r: String)
    ensures
        r@ == or_dash(*o),
{
    match o {
        Some(s) => owned(s.as_str()),
        None => owned("-"),
    }
}

fn expiry_column_text(expires: Option<i64>) -> (r: String)
    ensures
        r@ == expiry_column(expires),
{
    match expires {
        Some(e) => format_unix(e),
        None => owned("never"),
    }
}

/// Appends `cell` laid out in a field of `width` characters, then one space.
fn push_cell(line: &mut String, cell: &str, width: usize)
    ensures
        final(line)@ == old(line)@ + padded(cell@, width as nat) + " "@,
{
    let padded_cell = pad_right(cell, width);
    line.append(padded_cell.as_str());
    line.append(" ");
}

fn token_header_line() -> (r: String)
    ensures
        r@ == token_table_header(),
{
    let mut line = String::new();
    push_cell(&mut line, "TOKEN", 66);
    push_cell(&mut line, "STATUS", 10);
    push_cell(&mut line, "USED BY", 20);
    push_cell(&mut line, "CREATED", 20);
    let expires = pad_right("EXPIRES", 20);
    line.append(expires.as_str());
    line.append(" NOTE");
    assert(line@ =~= token_table_header());
    line
}

fn token_row_line(token: &EnrollmentToken, now: i64) -> (r: String)
    ensures
        r@ == token_row(*token, now),
{
    let mut line = String::new();
    push_cell(&mut line, token.token.as_str(), 66);
    let status = token_status(token, now);
    push_cell(&mut line, status.label(), 10);
    let used_by = or_dash_text(&token.used_by_common_name);
    push_cell(&mut line, used_by.as_str(), 20);
    let created = format_unix(token.created_at_unix);
    push_cell(&mut line, created.as_str(), 20);
    let expires = expiry_column_text(token.expires_at_unix);
    push_cell(&mut line, expires.as_str(), 20);
    let note = or_dash_text(&token.note);
    line.append(note.as_str());
    assert(line@ =~= token_row(*token, now));
    line
}

/// The lines `token list` prints: a notice when there are no tokens,
/// otherwise a header and one row per token, in the order given.
pub fn token_table_lines(tokens: &[EnrollmentToken], now: i64) -> (r: Vec<String>)
    ensures
        lines_view(r@) == token_table(tokens@, now),
{
    let mut lines: Vec<String> = Vec::new();
    if tokens.len() == 0 {
        lines.push(owned("No enrollment tokens."));
        assert(lines_view(lines@) =~= token_table(tokens@, now));
        return lines;
    }
    lines.push(token_header_line());
    let mut i: usize = 0;
    while i < tokens.len()
        invariant
            0 <= i <= tokens@.len(),
            tokens@.len() > 0,
            lines_view(lines@) =~= seq![token_table_header()] + tokens@.take(i as int).map_values(
                |t: EnrollmentToken| token_row(t, now),
            ),
        decreases tokens@.len() - i,
    {
        let ghost before = lines@;
        let row = token_row_line(&tokens[i], now);
        lines.push(row);
        assert(lines@ =~= before.push(row));
        assert(lines_view(lines@) =~= lines_view(before).push(token_row(tokens@[i as int], now)));
        assert(tokens@.take(i + 1) =~= tokens@.take(i as int).push(tokens@[i as int]));
        i = i + 1;
        assert(lines_view(lines@) =~= seq![token_table_header()] + tokens@.take(i as int).map_values(
            |t: EnrollmentToken| token_row(t, now),
        ));
    }
    assert(tokens@.take(tokens@.len() as int) =~= tokens@);
    lines
}


// ---------------------------------------------------------------------------
// Account table
// ---------------------------------------------------------------------------

/// Header of the account table.
pub open spec fn user_table_header() -> Seq<char> {
    padded("USERNAME"@, 30) + " "@ + padded("STATUS"@, 10) + " CREATED"@
}

/// One row of the account table.
pub open spec fn user_row(user: UserInfo) -> Seq<char> {
    padded(user.username@, 30) + " "@ + padded(
        if user.revoked {
            "revoked"@
        } else {
            "active"@
        },
        10,
    ) + " "@ + unix_time_text(user.created_at_unix)
}

/// An account row: the name padded to 30 characters, a space, `revoked`
/// or `active` padded to 10 characters, a space, and the creation time.
pub proof fn lemma_user_row_layout(user: UserInfo)
    ensures
        user_row(user) == padded(user.username@, 30) + " "@ + padded(
            if user.revoked {
                "revoked"@
            } else {
                "active"@
            },
            10,
        ) + " "@ + unix_time_text(user.created_at_unix),
        user.username@.len() <= 30 ==> user_row(user).subrange(31, 41) == padded(
            if user.revoked {
                "revoked"@
            } else {
                "active"@
            },
            10,
        ),
{
    if user.username@.len() <= 30 {
        reveal_strlit(" ");
        reveal_strlit("revoked");
        reveal_strlit("active");
        let word = if user.revoked {
            "revoked"@
        } else {
            "active"@
        };
        lemma_padded_shape(user.username@, 30);
        lemma_padded_shape(word, 10);
        let head = padded(user.username@, 30) + " "@ + padded(word, 10);
        assert(user_row(user).subrange(0, 41) =~= head) by {
            assert(user_row(user) =~= head + (" "@ + unix_time_text(user.created_at_unix)));
        }
        assert(user_row(user).subrange(31, 41) =~= head.subrange(31, 41));
    }
}

/// The lines `user list` prints for `users`.
pub open spec fn user_table(users: Seq<UserInfo>) -> Seq<Seq<char>> {
    if users.len() == 0 {
        seq!["No user accounts."@]
    } else {
        seq![user_table_header()] + users.map_values(|u: UserInfo| user_row(u))
    }
}

fn user_row_line(user: &UserInfo) -> (r: String)
    ensures
        r@ == user_row(*user),
{
    let mut line = String::new();
    push_cell(&mut line, user.username.as_str(), 30);
    let status = if user.revoked {
        "revoked"
    } else {
        "active"
    };
    push_cell(&mut line, status, 10);
    let created = format_unix(user.created_at_unix);
    line.append(created.as_str());
    assert(line@ =~= user_row(*user));
    line
}

/// The lines `user list` prints: a notice when there are no accounts,
/// otherwise a header and one row per account, in the order given.
pub fn user_table_lines(users: &[UserInfo]) -> (r: Vec<String>)
    ensures
        lines_view(r@) == user_table(users@),
{
    let mut lines: Vec<String> = Vec::new();
    if users.len() == 0 {
        lines.push(owned("No user accounts."));
        assert(lines_view(lines@) =~= user_table(users@));
        return lines;
    }
    let mut header = String::new();
    push_cell(&mut header, "USERNAME", 30);
    let status = pad_right("STATUS", 10);
    header.append(status.as_str());
    header.append(" CREATED");
    assert(header@ =~= user_table_header());
    lines.push(header);
    let mut i: usize = 0;
    while i < users.len()
        invariant
            0 <= i <= users@.len(),
            users@.len() > 0,
            lines_view(lines@) =~= seq![user_table_header()] + users@.take(i as int).map_values(
                |u: UserInfo| user_row(u),
            ),
        decreases users@.len() - i,
    {
        let ghost before = lines@;
        let row = user_row_line(&users[i]);
        lines.push(row);
        assert(lines@ =~= before.push(row));
        assert(lines_view(lines@) =~= lines_view(before).push(user_row(users@[i as int])));
        assert(users@.take(i + 1) =~= users@.take(i as int).push(users@[i as int]));
        i = i + 1;
        assert(lines_view(lines@) =~= seq![user_table_header()] + users@.take(i as int).map_values(
            |u: UserInfo| user_row(u),
        ));
    }
    assert(users@.take(users@.len() as int) =~= users@);
    lines
}

// ---------------------------------------------------------------------------
// Missions
// ---------------------------------------------------------------------------

/// The items of `parts` joined by `sep`.
pub open spec fn joined_with(parts: Seq<Seq<char>>, sep: Seq<char>) -> Seq<char>
    decreases parts.len(),
{
    if parts.len() == 0 {
        Seq::empty()
    } else if parts.len() == 1 {
        parts[0]
    } else {
        joined_with(parts.drop_last(), sep) + sep + parts.last()
    }
}

/// Joins `parts` with `sep` between neighbours, as `[String]::join` does.
pub fn join_texts(parts: &[String], sep: &str) -> (r: String)
    ensures
        r@ == joined_with(lines_view(parts@), sep@),
{
    let mut out = String::new();
    let mut i: usize = 0;
    while i < parts.len()
        invariant
            0 <= i <= parts@.len(),
            out@ == joined_with(lines_view(parts@.take(i as int)), sep@),
        decreases parts@.len() - i,
    {
        let ghost before = out@;
        if i > 0 {
            out.append(sep);
        }
        out.append(parts[i].as_str());
        assert(lines_view(parts@.take(i + 1)).drop_last() =~= lines_view(parts@.take(i as int)));
        assert(lines_view(parts@.take(i + 1)).last() == parts@[i as int]@);
        if i == 0 {
            assert(out@ =~= joined_with(lines_view(parts@.take(i + 1)), sep@));
        }
        i = i + 1;
    }
    assert(parts@.take(parts@.len() as int) =~= parts@);
    out
}

/// The line `mission list` prints for one mission.
pub open spec fn mission_summary(mission: Mission) -> Seq<char> {
    mission.name@ + "  (creator: "@ + mission.creator_uid@ + ")"@
}

/// The line `mission list` prints for one mission.
pub fn mission_summary_line(mission: &Mission) -> (r: String)
    ensures
        r@ == mission_summary(*mission),
{
    let mut line = owned(mission.name.as_str());
    line.append("  (creator: ");
    line.append(mission.creator_uid.as_str());
    line.append(")");
    line
}

/// The line showing one role assignment of a mission.
pub open spec fn role_line(uid: Seq<char>, role: Seq<char>) -> Seq<char> {
    "  "@ + padded(uid, 30) + " "@ + role
}

/// The lines `mission get` prints: name, description, creator,
/// subscribers, then one line per role assignment in the mission's order.
pub open spec fn mission_details(mission: Mission) -> Seq<Seq<char>> {
    seq![
        "Name:        "@ + mission.name@,
        "Description: "@ + or_dash(mission.description),
        "Creator:     "@ + mission.creator_uid@,
        "Subscribers: "@ + joined_with(lines_view(mission.subscribers@), ", "@),
        "Roles:"@,
    ] + mission.roles@.map_values(|p: (String, String)| role_line(p.0@, p.1@))
}

/// What `mission get` shows: the name, the description (or `-` when there
/// is none), the creator, the subscribers joined by `, `, a `Roles:` line,
/// then one line per role assignment with the uid padded to 30 characters
/// and the role, in the mission's order.
pub proof fn lemma_mission_details_show_the_mission(mission: Mission)
    ensures
        mission_details(mission).len() == 5 + mission.roles@.len(),
        mission_details(mission)[0] == "Name:        "@ + mission.name@,
        mission.description matches Some(d) ==> mission_details(mission)[1] == "Description: "@
            + d@,
        mission.description is None ==> mission_details(mission)[1] == "Description: "@ + "-"@,
        mission_details(mission)[2] == "Creator:     "@ + mission.creator_uid@,
        mission_details(mission)[3] == "Subscribers: "@ + joined_with(
            lines_view(mission.subscribers@),
            ", "@,
        ),
        mission_details(mission)[4] == "Roles:"@,
        forall|i: int|
            0 <= i < mission.roles@.len() ==> #[trigger] mission_details(mission)[5 + i] == "  "@
                + padded(mission.roles@[i].0@, 30) + " "@ + mission.roles@[i].1@,
{
}

/// Joining keeps every part in order: one part is itself, and each
/// further part follows the separator.
pub proof fn lemma_join_parts(parts: Seq<Seq<char>>, sep: Seq<char>, last: Seq<char>)
    ensures
        joined_with(seq![last], sep) == last,
        parts.len() > 0 ==> joined_with(parts.push(last), sep) == joined_with(parts, sep) + sep
            + last,
{
    assert(parts.push(last).drop_last() =~= parts);
}

/// The lines `mission get` prints for `mission`.
pub fn mission_detail_lines(mission: &Mission) -> (r: Vec<String>)
    requires
        mission.roles_well_formed(),
    ensures
        lines_view(r@) == mission_details(*mission),
{
    let mut lines: Vec<String> = Vec::new();
    let mut name = owned("Name:        ");
    name.append(mission.name.as_str());
    lines.push(name);
    let mut description = owned("Description: ");
    let described = or_dash_text(&mission.description);
    description.append(described.as_str());
    lines.push(description);
    let mut creator = owned("Creator:     ");
    creator.append(mission.creator_uid.as_str());
    lines.push(creator);
    let mut subscribers = owned("Subscribers: ");
    let joined = join_texts(mission.subscribers.as_slice(), ", ");
    subscribers.append(joined.as_str());
    lines.push(subscribers);
    lines.push(owned("Roles:"));
    let ghost head = lines_view(lines@);
    let mut i: usize = 0;
    while i < mission.roles.len()
        invariant
            0 <= i <= mission.roles@.len(),
            lines_view(lines@) =~= head + mission.roles@.take(i as int).map_values(
                |p: (String, String)| role_line(p.0@, p.1@),
            ),
        decreases mission.roles@.len() - i,
    {
        let ghost before = lines@;
        let mut line = owned("  ");
        let uid = pad_right(mission.roles[i].0.as_str(), 30);
        line.append(uid.as_str());
        line.append(" ");
        line.append(mission.roles[i].1.as_str());
        assert(line@ == role_line(mission.roles@[i as int].0@, mission.roles@[i as int].1@));
        lines.push(line);
        assert(lines@ =~= before.push(line));
        assert(lines_view(lines@) =~= lines_view(before).push(
            role_line(mission.roles@[i as int].0@, mission.roles@[i as int].1@),
        ));
        assert(mission.roles@.take(i + 1) =~= mission.roles@.take(i as int).push(
            mission.roles@[i as int],
        ));
        i = i + 1;
    }
    assert(mission.roles@.take(mission.roles@.len() as int) =~= mission.roles@);
    assert(lines_view(lines@) =~= mission_details(*mission));
    lines
}


// ---------------------------------------------------------------------------
// Confirmations
// ---------------------------------------------------------------------------

/// Confirmation of a revocation (token or account).
pub fn revoked_message() -> (r: String)
    ensures
        r@ == "Revoked."@,
{
    owned("Revoked.")
}

/// Confirmation of a minted account, with the password now in effect.
pub fn user_minted_message(username: &str, password: &str) -> (r: String)
    ensures
        r@ == "Minted user '"@ + username@ + "' with password: "@ + password@,
{
    let mut r = owned("Minted user '");
    r.append(username);
    r.append("' with password: ");
    r.append(password);
    r
}

/// Confirmation of a role assignment.
pub fn role_assigned_message(role: RoleArg, uid: &str, mission: &str) -> (r: String)
    ensures
        r@ == "Assigned "@ + role_name(role) + " to '"@ + uid@ + "' on '"@ + mission@ + "'."@,
{
    let mut r = owned("Assigned ");
    let name = role.to_string();
    r.append(name.as_str());
    r.append(" to '");
    r.append(uid);
    r.append("' on '");
    r.append(mission);
    r.append("'.");
    r
}

/// Confirmation of a role revocation.
pub fn role_revoked_message(uid: &str, mission: &str) -> (r: String)
    ensures
        r@ == "Revoked the role '"@ + uid@ + "' held on '"@ + mission@ + "'."@,
{
    let mut r = owned("Revoked the role '");
    r.append(uid);
    r.append("' held on '");
    r.append(mission);
    r.append("'.");
    r
}

/// Confirmation that a handout PDF was written.
pub fn handout_written_message(out_path: &str) -> (r: String)
    ensures
        r@ == "Wrote enrollment handout to "@ + out_path@,
{
    let mut r = owned("Wrote enrollment handout to ");
    r.append(out_path);
    r
}


// ---------------------------------------------------------------------------
// After a token is minted
// ---------------------------------------------------------------------------

/// What stands in the QR payload when no enrollment URL was given.
pub open spec fn missing_url_placeholder() -> Seq<char> {
    "<set --enrollment-url to embed it in the QR code>"@
}

/// The QR payload shown after minting: the enrollment URL, or a placeholder
/// asking for one, together with the new token.
pub fn mint_qr_payload(enrollment_url: Option<&str>, token: &str) -> (r: String)
    ensures
        r@ == payload_text(
            match enrollment_url {
                Some(url) => url@,
                None => missing_url_placeholder(),
            },
            token@,
        ),
{
    match enrollment_url {
        Some(url) => enrollment_payload(url, token),
        None => enrollment_payload("<set --enrollment-url to embed it in the QR code>", token),
    }
}

/// The handout for a freshly minted token. It needs the enrollment URL;
/// the expiry is `now` plus the requested lifetime, shown as a time, or
/// "never" for a token without one.
pub fn handout_for_mint<'a>(
    token: &'a str,
    enrollment_url: Option<&'a str>,
    note: Option<&'a str>,
    expires_in_secs: Option<i64>,
    now: i64,
) -> (r: Result<HandoutInfo<'a>, AdminError>)
    requires
        enrollment_url is Some && expires_in_secs is Some ==> i64::MIN <= now
            + expires_in_secs->0 <= i64::MAX,
    ensures
        match enrollment_url {
            None => r matches Err(e) && e is HandoutNeedsUrl,
            Some(url) => r matches Ok(info) && {
                &&& info.token@ == token@
                &&& info.enrollment_url@ == url@
                &&& info.note == note
                &&& match expires_in_secs {
                    Some(secs) => info.expires_at matches Expiry::At(at) && at@ == unix_time_text(
                        (now + secs) as i64,
                    ),
                    None => info.expires_at is Never,
                }
            },
        },
{
    let url = match enrollment_url {
        Some(url) => url,
        None => return Err(AdminError::HandoutNeedsUrl),
    };
    let expires_at = match expires_in_secs {
        Some(secs) => Expiry::At(format_unix(now + secs)),
        None => Expiry::Never,
    };
    Ok(HandoutInfo { token, enrollment_url: url, note, expires_at })
}

/// The handout for a token held already, made without asking the server:
/// its expiry is shown as unknown.
pub fn handout_without_server<'a>(token: &'a str, enrollment_url: &'a str, note: Option<&'a str>) -> (r:
    HandoutInfo<'a>)
    ensures
        r.token@ == token@,
        r.enrollment_url@ == enrollment_url@,
        r.note == note,
        r.expires_at is Unknown,
{
    HandoutInfo { token, enrollment_url, note, expires_at: Expiry::Unknown }
}

} // verus!
