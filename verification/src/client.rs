//! Credentials and the request-side text of the API client: where the token
//! comes from, how a login email is checked, how a query value is encoded
//! and what a failed request is reported as.

use crate::text::push_char;
use vstd::prelude::*;
use vstd::string::*;

verus! {

/// An interactive step the user cancelled.
#[derive(Clone, Copy, Debug, PartialEq, Eq, Structural)]
pub enum CliCancelled {
    Login,
    PasswordConfirmation,
    ServerSwitch,
}

impl CliCancelled {
    /// The message shown for the cancelled step.
    pub fn message(&self) -> (res: &'static str)
        ensures
            *self == CliCancelled::Login ==> res@ == "Login cancelled."@,
            *self == CliCancelled::PasswordConfirmation ==> res@ == "Password confirmation cancelled."@,
            *self == CliCancelled::ServerSwitch ==> res@ == "Server switch cancelled."@,
    {
        match self {
            CliCancelled::Login => "Login cancelled.",
            CliCancelled::PasswordConfirmation => "Password confirmation cancelled.",
            CliCancelled::ServerSwitch => "Server switch cancelled.",
        }
    }
}

/// Where the credential in use came from.
#[derive(Clone, Copy, Debug, PartialEq, Eq, Structural)]
pub enum CredentialSource {
    /// The `DOPBASE_TOKEN` environment variable.
    Environment,
    /// The encrypted session saved by `dopbase login`.
    EncryptedSession,
    /// No credential.
    Missing,
}

impl CredentialSource {
    /// The name of the source in JSON output.
    pub fn as_str(self) -> (res: &'static str)
        ensures
            self == CredentialSource::Environment ==> res@ == "environment"@,
            self == CredentialSource::EncryptedSession ==> res@ == "encrypted_session"@,
            self == CredentialSource::Missing ==> res@ == "none"@,
    {
        match self {
            CredentialSource::Environment => "environment",
            CredentialSource::EncryptedSession => "encrypted_session",
            CredentialSource::Missing => "none",
        }
    }
}

/// The credential used for requests.
pub struct Credential {
    pub token: Option<String>,
    pub source: CredentialSource,
    pub email: Option<String>,
}

/// A session saved by `dopbase login`.
pub struct StoredSession {
    pub token: String,
    pub email: Option<String>,
}

/// The message for a `DOPBASE_TOKEN` that is set to the empty string.
pub open spec fn empty_token_message() -> Seq<char> {
    "DOPBASE_TOKEN is set but empty"@
}

/// The credential in use: a non-empty `DOPBASE_TOKEN` first, then the saved
/// session, then none. An empty `DOPBASE_TOKEN` is an error; a variable that
/// is not set, or not valid Unicode, counts as absent (`env_token` is `None`).
pub fn credential(env_token: Option<String>, session: Option<StoredSession>) -> (res: Result<
    Credential,
    String,
>)
    ensures
        match env_token {
            Some(t) => if t@.len() == 0 {
                res matches Err(m) && m@ == empty_token_message()
            } else {
                res matches Ok(c) && c.token == Some(t) && c.source == CredentialSource::Environment
                    && c.email is None
            },
            None => match session {
                Some(s) => res matches Ok(c) && c.token == Some(s.token) && c.source
                    == CredentialSource::EncryptedSession && c.email == s.email,
                None => res matches Ok(c) && c.token is None && c.source == CredentialSource::Missing
                    && c.email is None,
            },
        },
{
    proof {
        reveal_strlit("DOPBASE_TOKEN is set but empty");
    }
    if let Some(token) = env_token {
        if token.as_str().unicode_len() == 0 {
            return Err("DOPBASE_TOKEN is set but empty".to_owned());
        }
        return Ok(Credential { token: Some(token), source: CredentialSource::Environment, email: None });
    }
    match session {
        Some(session) => Ok(
            Credential {
                token: Some(session.token),
                source: CredentialSource::EncryptedSession,
                email: session.email,
            },
        ),
        None => Ok(Credential { token: None, source: CredentialSource::Missing, email: None }),
    }
}

/// What to do when a command needs a token.
pub enum AuthenticationStep {
    /// Use this token.
    UseToken(String),
    /// Sign in interactively.
    Login,
    /// Fail with this message.
    Fail(String),
}

/// The message when no credential is available and no login is possible.
pub open spec fn authentication_required_message() -> Seq<char> {
    "Dopbase authentication is required"@
}

/// A command that accepts any credential uses the token when there is one;
/// otherwise it signs in, unless the credential came from the environment or
/// standard input is not a terminal.
pub fn any_credential_step(credential: Credential, interactive: bool) -> (res: AuthenticationStep)
    ensures
        match credential.token {
            Some(t) => res matches AuthenticationStep::UseToken(u) && u == t,
            None => if credential.source == CredentialSource::Environment || !interactive {
                res matches AuthenticationStep::Fail(m) && m@ == authentication_required_message()
            } else {
                res is Login
            },
        },
{
    proof {
        reveal_strlit("Dopbase authentication is required");
    }
    if let Some(token) = credential.token {
        return AuthenticationStep::UseToken(token);
    }
    if credential.source == CredentialSource::Environment || !interactive {
        return AuthenticationStep::Fail("Dopbase authentication is required".to_owned());
    }
    AuthenticationStep::Login
}

/// The message when a saved or environment credential was refused.
pub open spec fn invalid_credential_message() -> Seq<char> {
    "the configured Dopbase credential is invalid or expired"@
}

/// A human command whose credential the server refused signs in again,
/// unless the credential came from the environment or standard input is not
/// a terminal.
pub fn refused_credential_step(source: CredentialSource, interactive: bool) -> (res: AuthenticationStep)
    ensures
        if source == CredentialSource::Environment || !interactive {
            res matches AuthenticationStep::Fail(m) && m@ == invalid_credential_message()
        } else {
            res is Login
        },
{
    proof {
        reveal_strlit("the configured Dopbase credential is invalid or expired");
    }
    if source == CredentialSource::Environment || !interactive {
        return AuthenticationStep::Fail(
            "the configured Dopbase credential is invalid or expired".to_owned(),
        );
    }
    AuthenticationStep::Login
}

/// Where obtaining a client allowed to read plaintext secrets stands.
pub enum ConfirmedAccessPhase {
    /// Obtain a signed-in client, reusing the credential or signing in.
    AcquireClient,
    /// Ask for the password and send it to `/api/v1/auth/reauthenticate`.
    ConfirmPassword,
    /// The client may read plaintext secrets.
    Confirmed,
    /// Refused with this message.
    Failed { message: String },
}

/// What the last step of obtaining such a client reported.
pub enum ConfirmedAccessEvent {
    /// The saved or environment credential is accepted by the server.
    ExistingClient,
    /// The user has just signed in.
    NewlyAuthenticated,
    /// The server accepted the password.
    PasswordAccepted,
    /// The user cancelled the password prompt.
    Cancelled,
    /// The step failed with this message.
    OperationFailed(String),
}

/// The message when plaintext access is asked for without a terminal.
pub open spec fn password_confirmation_required_message() -> Seq<char> {
    "interactive password confirmation is required for plaintext secret access"@
}

/// Plaintext secret access starts by obtaining a client, and is refused at
/// once when standard input is not a terminal.
pub fn confirmed_access_start(interactive: bool) -> (res: ConfirmedAccessPhase)
    ensures
        interactive ==> res is AcquireClient,
        !interactive ==> (res matches ConfirmedAccessPhase::Failed { message } && message@
            == password_confirmation_required_message()),
{
    proof {
        reveal_strlit("interactive password confirmation is required for plaintext secret access");
    }
    if !interactive {
        return ConfirmedAccessPhase::Failed {
            message: "interactive password confirmation is required for plaintext secret access".to_owned(),
        };
    }
    ConfirmedAccessPhase::AcquireClient
}

/// Whether `next` follows `event` in `phase`: a fresh sign-in confirms
/// access at once, a reused credential needs the password first. Finished
/// phases stay as they are, as does a phase given an event it does not wait
/// for.
pub open spec fn confirmed_access_step(
    phase: ConfirmedAccessPhase,
    event: ConfirmedAccessEvent,
    next: ConfirmedAccessPhase,
) -> bool {
    match phase {
        ConfirmedAccessPhase::AcquireClient => match event {
            ConfirmedAccessEvent::NewlyAuthenticated => next is Confirmed,
            ConfirmedAccessEvent::ExistingClient => next is ConfirmPassword,
            ConfirmedAccessEvent::OperationFailed(e) => next == (ConfirmedAccessPhase::Failed { message: e }),
            _ => next == phase,
        },
        ConfirmedAccessPhase::ConfirmPassword => match event {
            ConfirmedAccessEvent::PasswordAccepted => next is Confirmed,
            ConfirmedAccessEvent::Cancelled => next matches ConfirmedAccessPhase::Failed { message }
                && message@ == "Password confirmation cancelled."@,
            ConfirmedAccessEvent::OperationFailed(e) => next == (ConfirmedAccessPhase::Failed { message: e }),
            _ => next == phase,
        },
        ConfirmedAccessPhase::Confirmed => next == phase,
        ConfirmedAccessPhase::Failed { .. } => next == phase,
    }
}

/// The phase that follows `event` in `phase`.
pub fn confirmed_access_next(phase: ConfirmedAccessPhase, event: ConfirmedAccessEvent) -> (res: ConfirmedAccessPhase)
    ensures
        confirmed_access_step(phase, event, res),
{
    match phase {
        ConfirmedAccessPhase::AcquireClient => match event {
            ConfirmedAccessEvent::NewlyAuthenticated => ConfirmedAccessPhase::Confirmed,
            ConfirmedAccessEvent::ExistingClient => ConfirmedAccessPhase::ConfirmPassword,
            ConfirmedAccessEvent::OperationFailed(e) => ConfirmedAccessPhase::Failed { message: e },
            _ => ConfirmedAccessPhase::AcquireClient,
        },
        ConfirmedAccessPhase::ConfirmPassword => match event {
            ConfirmedAccessEvent::PasswordAccepted => ConfirmedAccessPhase::Confirmed,
            ConfirmedAccessEvent::Cancelled => ConfirmedAccessPhase::Failed {
                message: CliCancelled::PasswordConfirmation.message().to_owned(),
            },
            ConfirmedAccessEvent::OperationFailed(e) => ConfirmedAccessPhase::Failed { message: e },
            _ => ConfirmedAccessPhase::ConfirmPassword,
        },
        ConfirmedAccessPhase::Confirmed => ConfirmedAccessPhase::Confirmed,
        ConfirmedAccessPhase::Failed { message } => ConfirmedAccessPhase::Failed { message },
    }
}

/// Plaintext access is granted only right after a fresh sign-in or after
/// the server accepted the password for a reused credential.
pub proof fn law_plaintext_needs_fresh_proof_of_identity(
    phase: ConfirmedAccessPhase,
    event: ConfirmedAccessEvent,
    next: ConfirmedAccessPhase,
)
    requires
        confirmed_access_step(phase, event, next),
        next is Confirmed,
        !(phase is Confirmed),
    ensures
        (phase is AcquireClient && event is NewlyAuthenticated) || (phase is ConfirmPassword
            && event is PasswordAccepted),
{
}

/// A reused credential never reaches plaintext access without the password:
/// from the start, an accepted existing client still has to confirm it.
pub proof fn law_reused_credential_needs_password(next: ConfirmedAccessPhase)
    requires
        confirmed_access_step(
            ConfirmedAccessPhase::AcquireClient,
            ConfirmedAccessEvent::ExistingClient,
            next,
        ),
    ensures
        next is ConfirmPassword,
{
}

/// A whitespace character as `char::is_whitespace` classifies it.
pub open spec fn is_unicode_whitespace(c: char) -> bool {
    ||| c == '\t'
    ||| c == '\n'
    ||| c == '\u{0B}'
    ||| c == '\u{0C}'
    ||| c == '\r'
    ||| c == ' '
    ||| c == '\u{85}'
    ||| c == '\u{A0}'
    ||| c == '\u{1680}'
    ||| ('\u{2000}' <= c && c <= '\u{200A}')
    ||| c == '\u{2028}'
    ||| c == '\u{2029}'
    ||| c == '\u{202F}'
    ||| c == '\u{205F}'
    ||| c == '\u{3000}'
}

/// Whether `c` is whitespace, as `char::is_whitespace` says.
pub fn is_whitespace(c: char) -> (res: bool)
    ensures
        res == is_unicode_whitespace(c),
{
    c == '\t' || c == '\n' || c == '\u{0B}' || c == '\u{0C}' || c == '\r' || c == ' ' || c
        == '\u{85}' || c == '\u{A0}' || c == '\u{1680}' || ('\u{2000}' <= c && c <= '\u{200A}')
        || c == '\u{2028}' || c == '\u{2029}' || c == '\u{202F}' || c == '\u{205F}' || c
        == '\u{3000}'
}

/// The index of the first character that is not whitespace (the length when
/// there is none).
pub open spec fn trim_start_index(s: Seq<char>) -> int
    decreases s.len(),
{
    if s.len() == 0 || !is_unicode_whitespace(s[0]) {
        0
    } else {
        1 + trim_start_index(s.drop_first())
    }
}

/// The index after the last character that is not whitespace (0 when there
/// is none).
pub open spec fn trim_end_index(s: Seq<char>) -> int
    decreases s.len(),
{
    if s.len() == 0 || !is_unicode_whitespace(s.last()) {
        s.len() as int
    } else {
        trim_end_index(s.drop_last())
    }
}

/// `s` without leading and trailing whitespace, as `str::trim` gives it.
pub open spec fn trimmed(s: Seq<char>) -> Seq<char> {
    let start = trim_start_index(s);
    let end = trim_end_index(s);
    if start < end {
        s.subrange(start, end)
    } else {
        seq![]
    }
}

proof fn lemma_trim_start_bounds(s: Seq<char>)
    ensures
        0 <= trim_start_index(s) <= s.len(),
        forall|i: int| 0 <= i < trim_start_index(s) ==> is_unicode_whitespace(#[trigger] s[i]),
        trim_start_index(s) < s.len() ==> !is_unicode_whitespace(s[trim_start_index(s)]),
    decreases s.len(),
{
    if s.len() > 0 && is_unicode_whitespace(s[0]) {
        lemma_trim_start_bounds(s.drop_first());
        assert forall|i: int| 0 <= i < trim_start_index(s) implies is_unicode_whitespace(
            #[trigger] s[i],
        ) by {
            if i > 0 {
                assert(s[i] == s.drop_first()[i - 1]);
            }
        }
    }
}

proof fn lemma_trim_end_bounds(s: Seq<char>)
    ensures
        0 <= trim_end_index(s) <= s.len(),
        forall|i: int| trim_end_index(s) <= i < s.len() ==> is_unicode_whitespace(#[trigger] s[i]),
        trim_end_index(s) > 0 ==> !is_unicode_whitespace(s[trim_end_index(s) - 1]),
    decreases s.len(),
{
    if s.len() > 0 && is_unicode_whitespace(s.last()) {
        lemma_trim_end_bounds(s.drop_last());
        assert forall|i: int| trim_end_index(s) <= i < s.len() implies is_unicode_whitespace(
            #[trigger] s[i],
        ) by {
            if i < s.len() - 1 {
                assert(s[i] == s.drop_last()[i]);
            }
        }
    }
}

/// The characters of `s` without leading and trailing whitespace.
pub fn trim_chars(s: &str) -> (res: Vec<char>)
    ensures
        res@ == trimmed(s@),
{
    let n = s.unicode_len();
    let mut start: usize = 0;
    proof {
        lemma_trim_start_bounds(s@);
        lemma_trim_end_bounds(s@);
    }
    while start < n && is_whitespace(s.get_char(start))
        invariant
            n == s@.len(),
            start <= trim_start_index(s@),
            trim_start_index(s@) <= n,
            forall|i: int| 0 <= i < trim_start_index(s@) ==> is_unicode_whitespace(#[trigger] s@[i]),
            trim_start_index(s@) < n ==> !is_unicode_whitespace(s@[trim_start_index(s@)]),
        decreases n - start,
    {
        start = start + 1;
    }
    let mut end: usize = n;
    while end > start && is_whitespace(s.get_char(end - 1))
        invariant
            n == s@.len(),
            start <= end <= n,
            end >= trim_end_index(s@),
            trim_end_index(s@) <= n,
            forall|i: int| trim_end_index(s@) <= i < n ==> is_unicode_whitespace(#[trigger] s@[i]),
            trim_end_index(s@) > 0 ==> !is_unicode_whitespace(s@[trim_end_index(s@) - 1]),
            start == trim_start_index(s@) || start == n,
            start == n ==> trim_start_index(s@) == n,
        decreases end,
    {
        end = end - 1;
    }
    let mut res: Vec<char> = Vec::new();
    let mut i: usize = start;
    while i < end
        invariant
            n == s@.len(),
            start <= i <= end <= n,
            res@ == s@.subrange(start as int, i as int),
        decreases end - i,
    {
        res.push(s.get_char(i));
        i = i + 1;
        assert(res@ =~= s@.subrange(start as int, i as int));
    }
    proof {
        if start < end {
            assert(start == trim_start_index(s@));
            assert(end == trim_end_index(s@));
        } else {
            assert(res@ =~= Seq::<char>::empty());
            if trim_start_index(s@) < trim_end_index(s@) {
                assert(start == trim_start_index(s@));
                assert(!is_unicode_whitespace(s@[end - 1]) || end == start);
            }
        }
    }
    res
}


/// ASCII upper-case letters turned to lower case; other characters kept.
pub open spec fn ascii_lower(c: char) -> char {
    if 'A' <= c && c <= 'Z' {
        ((c as int) + 32) as char
    } else {
        c
    }
}

/// Every character is not whitespace.
pub open spec fn no_whitespace(t: Seq<char>) -> bool {
    forall|i: int| 0 <= i < t.len() ==> !is_unicode_whitespace(#[trigger] t[i])
}

/// `t` holds `@` at `p` and nowhere else.
pub open spec fn single_at(t: Seq<char>, p: int) -> bool {
    &&& 0 <= p < t.len()
    &&& t[p] == '@'
    &&& forall|i: int| 0 <= i < t.len() && i != p ==> #[trigger] t[i] != '@'
}

/// A login email: one `@` with a non-empty local part before it, and after
/// it a domain holding a `.` that neither starts nor ends it; no whitespace.
pub open spec fn email_shape(t: Seq<char>) -> bool {
    &&& no_whitespace(t)
    &&& exists|p: int|
        #![trigger single_at(t, p)]
        single_at(t, p) && 0 < p && p + 1 < t.len() && t[p + 1] != '.' && t.last() != '.' && exists|
            q: int,
        | p + 1 < q < t.len() - 1 && #[trigger] t[q] == '.'
}

/// The message for an email that is not accepted.
pub open spec fn invalid_email_message() -> Seq<char> {
    "Enter a valid email address."@
}

/// The email a login sends: the typed text without surrounding whitespace,
/// in ASCII lower case, when it has the shape of an email.
pub fn normalize_login_email(value: &str) -> (res: Result<String, String>)
    ensures
        if email_shape(trimmed(value@)) {
            res matches Ok(e) && e@ == trimmed(value@).map_values(|c: char| ascii_lower(c))
        } else {
            res matches Err(m) && m@ == invalid_email_message()
        },
{
    proof {
        reveal_strlit("Enter a valid email address.");
    }
    let t = trim_chars(value);
    let ghost tv = t@;
    let n = t.len();
    let mut at: Option<usize> = None;
    let mut at_count: usize = 0;
    let mut has_space = false;
    let mut i: usize = 0;
    while i < n
        invariant
            n == tv.len(),
            t@ == tv,
            i <= n,
            at_count <= i,
            has_space == exists|k: int| 0 <= k < i && is_unicode_whitespace(#[trigger] tv[k]),
            at_count == 0 ==> at is None && forall|k: int| 0 <= k < i ==> #[trigger] tv[k] != '@',
            at_count == 1 ==> (at matches Some(p) && p < i && tv[p as int] == '@' && forall|k: int|
                0 <= k < i && k != p ==> #[trigger] tv[k] != '@'),
            at_count >= 2 ==> exists|a: int, b: int|
                0 <= a < b < i && #[trigger] tv[a] == '@' && #[trigger] tv[b] == '@',
        decreases n - i,
    {
        let c = t[i];
        if is_whitespace(c) {
            has_space = true;
        }
        if c == '@' {
            if at_count == 0 {
                at = Some(i);
                at_count = 1;
            } else if at_count == 1 {
                proof {
                    let p = at->0;
                    assert(tv[p as int] == '@' && tv[i as int] == '@');
                }
                at_count = 2;
            }
        }
        i = i + 1;
    }
    let mut ok = !has_space && at_count == 1;
    let mut p: usize = 0;
    if ok {
        p = match at {
            Some(p) => p,
            None => 0,
        };
        ok = 0 < p && p + 1 < n && t[p + 1] != '.' && t[n - 1] != '.';
    }
    let mut dot = false;
    if ok {
        let mut q: usize = p + 2;
        while q < n - 1
            invariant
                ok,
                t@ == tv,
                n == tv.len(),
                0 < p,
                p + 1 < n,
                p + 2 <= q,
                dot == exists|r: int| p + 1 < r < q && r < n - 1 && #[trigger] tv[r] == '.',
            decreases n - q,
        {
            if t[q] == '.' {
                dot = true;
            }
            q = q + 1;
        }
        ok = dot;
    }
    proof {
        if ok {
            assert(single_at(tv, p as int));
            assert(no_whitespace(tv));
            assert(email_shape(tv));
        } else if email_shape(tv) {
            let pp = choose|pp: int| #![trigger single_at(tv, pp)] single_at(tv, pp) && 0 < pp && pp + 1 < tv.len()
                && tv[pp + 1] != '.' && tv.last() != '.' && exists|q: int|
                pp + 1 < q < tv.len() - 1 && #[trigger] tv[q] == '.';
            assert(!has_space);
            if at_count == 0 {
                assert(tv[pp] == '@');
            } else if at_count >= 2 {
                let (a, b) = choose|a: int, b: int|
                    0 <= a < b < n && #[trigger] tv[a] == '@' && #[trigger] tv[b] == '@';
                assert(a == pp || tv[a] != '@');
                assert(b == pp || tv[b] != '@');
            } else {
                assert(at == Some(p));
                assert(p == pp);
                let q = choose|q: int| pp + 1 < q < tv.len() - 1 && #[trigger] tv[q] == '.';
                assert(tv[q] == '.');
            }
        }
    }
    if !ok {
        return Err("Enter a valid email address.".to_owned());
    }
    let mut res = String::new();
    let mut k: usize = 0;
    while k < n
        invariant
            t@ == tv,
            n == tv.len(),
            k <= n,
            res@ == tv.take(k as int).map_values(|c: char| ascii_lower(c)),
        decreases n - k,
    {
        let c = t[k];
        let lower = if 'A' <= c && c <= 'Z' {
            ((c as u32) + 32) as u8 as char
        } else {
            c
        };
        assert(lower == ascii_lower(c));
        push_char(&mut res, lower);
        proof {
            assert(tv.take(k + 1).map_values(|c: char| ascii_lower(c)) =~= tv.take(k as int).map_values(
                |c: char| ascii_lower(c),
            ).push(ascii_lower(c)));
        }
        k = k + 1;
    }
    assert(tv.take(n as int) =~= tv);
    Ok(res)
}


/// The bytes `application/x-www-form-urlencoded` leaves as they are.
pub open spec fn urlencoded_unchanged(b: u8) -> bool {
    b == 42 || b == 45 || b == 46 || (48 <= b && b <= 57) || (65 <= b && b <= 90) || b == 95 || (97 <= b
        && b <= 122)
}

/// An upper-case hexadecimal digit.
pub open spec fn hex_upper_digit(n: nat) -> char {
    if n < 10 {
        (48 + n) as char
    } else {
        (55 + n) as char
    }
}

/// One byte form-urlencoded: itself when unchanged, `+` for a space, `%XX`
/// with upper-case hexadecimal otherwise.
pub open spec fn urlencoded_byte(b: u8) -> Seq<char> {
    if urlencoded_unchanged(b) {
        seq![b as char]
    } else if b == 32 {
        seq!['+']
    } else {
        seq!['%', hex_upper_digit((b / 16) as nat), hex_upper_digit((b % 16) as nat)]
    }
}

/// Bytes form-urlencoded one after the other, as `form_urlencoded::byte_serialize`
/// produces them.
pub open spec fn urlencoded(bytes: Seq<u8>) -> Seq<char>
    decreases bytes.len(),
{
    if bytes.len() == 0 {
        seq![]
    } else {
        urlencoded(bytes.drop_last()) + urlencoded_byte(bytes.last())
    }
}

fn hex_upper(n: u8) -> (c: char)
    requires
        n < 16,
    ensures
        c == hex_upper_digit(n as nat),
{
    if n < 10 {
        (48 + n) as char
    } else {
        (55 + n) as char
    }
}

/// A query value encoded for a URL: the form-urlencoding of its UTF-8 bytes.
pub fn encode_query(value: &str) -> (res: String)
    ensures
        res@ == urlencoded(value.spec_bytes()),
{
    let bytes = value.as_bytes();
    let ghost bv = bytes@;
    let mut res = String::new();
    let mut i: usize = 0;
    while i < bytes.len()
        invariant
            bytes@ == bv,
            i <= bv.len(),
            res@ == urlencoded(bv.take(i as int)),
        decreases bv.len() - i,
    {
        let b = bytes[i];
        if b == 42 || b == 45 || b == 46 || (48 <= b && b <= 57) || (65 <= b && b <= 90) || b == 95 || (
        97 <= b && b <= 122) {
            push_char(&mut res, b as char);
        } else if b == 32 {
            push_char(&mut res, '+');
        } else {
            push_char(&mut res, '%');
            push_char(&mut res, hex_upper(b / 16));
            push_char(&mut res, hex_upper(b % 16));
        }
        proof {
            assert(bv.take(i + 1).drop_last() =~= bv.take(i as int));
            assert(bv.take(i + 1).last() == b);
            assert(res@ =~= urlencoded(bv.take(i + 1)));
        }
        i = i + 1;
    }
    assert(bv.take(bv.len() as int) =~= bv);
    res
}

/// Why a request got no response.
#[derive(Clone, Copy, Debug, PartialEq, Eq, Structural)]
pub enum TransportFailure {
    /// No response within the client's 30 second timeout.
    Timeout,
    /// No connection could be made.
    Connect,
    /// Any other failure before a response (DNS, TLS, proxy).
    Other,
}

/// The message for a request to `base_url` that got no response.
pub open spec fn transport_message(failure: TransportFailure, base_url: Seq<char>) -> Seq<char> {
    match failure {
        TransportFailure::Timeout => "Dopbase at "@ + base_url
            + " did not respond within 30 seconds.\nCheck the server health and network connection, then try again."@,
        TransportFailure::Connect => "Could not connect to Dopbase at "@ + base_url
            + ".\nCheck that the server is running and verify the active endpoint with `dopbase status`. For local development, start it with `dopbase serve`."@,
        TransportFailure::Other => "The request to Dopbase at "@ + base_url
            + " failed before a response was received.\nCheck DNS, TLS, proxy, and network settings, then try again."@,
    }
}

/// The message for a request to `base_url` that failed before a response.
pub fn transport_error(failure: TransportFailure, base_url: &str) -> (res: String)
    ensures
        res@ == transport_message(failure, base_url@),
{
    match failure {
        TransportFailure::Timeout => {
            let mut res = "Dopbase at ".to_owned();
            res.append(base_url);
            res.append(
                " did not respond within 30 seconds.\nCheck the server health and network connection, then try again.",
            );
            res
        },
        TransportFailure::Connect => {
            let mut res = "Could not connect to Dopbase at ".to_owned();
            res.append(base_url);
            res.append(
                ".\nCheck that the server is running and verify the active endpoint with `dopbase status`. For local development, start it with `dopbase serve`.",
            );
            res
        },
        TransportFailure::Other => {
            let mut res = "The request to Dopbase at ".to_owned();
            res.append(base_url);
            res.append(
                " failed before a response was received.\nCheck DNS, TLS, proxy, and network settings, then try again.",
            );
            res
        },
    }
}


/// The message of a request the server refused: every `code: message` pair
/// of its error object joined by `; ` (a pair without a text message reads
/// `Request failed.`), or `server returned STATUS` without such an object.
pub open spec fn api_error(errors: Option<Seq<(String, Option<String>)>>, status: Seq<char>) -> Seq<char> {
    match errors {
        Some(pairs) => crate::text::joined(
            pairs.map_values(
                |p: (String, Option<String>)|
                    p.0@ + ": "@ + match p.1 {
                        Some(m) => m@,
                        None => "Request failed."@,
                    },
            ),
            "; "@,
        ),
        None => "server returned "@ + status,
    }
}

/// The error of a refused request, from its error object (code and text of
/// each entry, in the object's order) or its HTTP status.
pub fn api_error_message(errors: Option<Vec<(String, Option<String>)>>, status: &str) -> (res: String)
    ensures
        res@ == api_error(
            match errors {
                Some(v) => Some(v@),
                None => None,
            },
            status@,
        ),
{
    match errors {
        None => {
            let mut res = "server returned ".to_owned();
            res.append(status);
            res
        },
        Some(pairs) => {
            let ghost parts = pairs@.map_values(
                |p: (String, Option<String>)|
                    p.0@ + ": "@ + match p.1 {
                        Some(m) => m@,
                        None => "Request failed."@,
                    },
            );
            let mut texts_out: Vec<String> = Vec::new();
            let mut i: usize = 0;
            while i < pairs.len()
                invariant
                    i <= pairs@.len(),
                    parts == pairs@.map_values(
                        |p: (String, Option<String>)|
                            p.0@ + ": "@ + match p.1 {
                                Some(m) => m@,
                                None => "Request failed."@,
                            },
                    ),
                    texts_out@.len() == i,
                    forall|k: int| 0 <= k < i ==> (#[trigger] texts_out@[k])@ == parts[k],
                decreases pairs@.len() - i,
            {
                let mut t = pairs[i].0.clone();
                t.append(": ");
                match &pairs[i].1 {
                    Some(m) => t.append(m.as_str()),
                    None => t.append("Request failed."),
                }
                texts_out.push(t);
                i = i + 1;
            }
            assert(crate::text::texts(texts_out@) =~= parts);
            crate::text::join_strings(&texts_out, "; ")
        },
    }
}

/// A login response must carry the session token and the account email.
pub fn login_result(token: Option<String>, email: Option<String>) -> (res: Result<(String, String), String>)
    ensures
        token is None ==> (res matches Err(m) && m@ == "login response did not contain a token"@),
        token is Some && email is None ==> (res matches Err(m) && m@
            == "login response did not contain an email"@),
        token is Some && email is Some ==> (res matches Ok(p) && Some(p.0) == token && Some(p.1)
            == email),
{
    let token = match token {
        Some(t) => t,
        None => {
            return Err("login response did not contain a token".to_owned());
        },
    };
    let email = match email {
        Some(e) => e,
        None => {
            return Err("login response did not contain an email".to_owned());
        },
    };
    Ok((token, email))
}

} // verus!
