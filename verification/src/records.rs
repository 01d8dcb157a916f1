//! The records backend of the gateway: command identity by digest, the
//! record-store request shapes, and the approval gate a drafted execution
//! waits behind. The HTTP requests themselves are made by the
//! surrounding process against the paths and filters built here.

use vstd::prelude::*;
use vstd::string::StringSliceAdditionalSpecFns;
use sha2::Digest;
use crate::text::str_eq;

verus! {

/// A stored shell command, keyed by its digest.
#[derive(Debug, Clone)]
pub struct CommandRecord {
    pub id: String,
    pub hash: String,
    pub command: String,
}

/// One execution of a stored command and its lifecycle status.
#[derive(Debug, Clone)]
pub struct ExecutionRecord {
    pub id: String,
    pub status: String,
    /// The stored output, as its raw JSON text, never read here.
    pub output: Option<String>,
    pub exit_code: Option<i32>,
}

/// A whitelist entry for a stored command.
#[derive(Debug, Clone)]
pub struct WhitelistRecord {
    pub id: String,
    pub active: bool,
}

/// The lower-case hex digit for `d` in `0 .. 16`.
pub open spec fn hex_digit(d: int) -> char {
    if d == 0 {
        '0'
    } else if d == 1 {
        '1'
    } else if d == 2 {
        '2'
    } else if d == 3 {
        '3'
    } else if d == 4 {
        '4'
    } else if d == 5 {
        '5'
    } else if d == 6 {
        '6'
    } else if d == 7 {
        '7'
    } else if d == 8 {
        '8'
    } else if d == 9 {
        '9'
    } else if d == 10 {
        'a'
    } else if d == 11 {
        'b'
    } else if d == 12 {
        'c'
    } else if d == 13 {
        'd'
    } else if d == 14 {
        'e'
    } else {
        'f'
    }
}

/// The lower-case hex spelling of a byte string: two digits per byte,
/// high digit first.
pub open spec fn hex_of(b: Seq<u8>) -> Seq<char>
    decreases b.len(),
{
    if b.len() == 0 {
        Seq::empty()
    } else {
        hex_of(b.drop_last()) + seq![
            hex_digit(b.last() as int / 16),
            hex_digit(b.last() as int % 16),
        ]
    }
}

pub proof fn lemma_hex_of_len(b: Seq<u8>)
    ensures
        hex_of(b).len() == 2 * b.len(),
    decreases b.len(),
{
    if b.len() > 0 {
        lemma_hex_of_len(b.drop_last());
    }
}

/// Relies on `hex::encode`: each byte becomes its two lower-case hex
/// digits, high digit first, in byte order.
#[verifier::external_body]
fn hex_encode(b: &[u8]) -> (r: String)
    ensures
        r@ == hex_of(b@),
{
    hex::encode(b)
}

/// The SHA-256 digest of a byte string; it depends on the bytes alone.
pub uninterp spec fn sha256_of(b: Seq<u8>) -> Seq<u8>;

/// Relies on `sha2::Sha256::digest`: the 32-byte SHA-256 digest of the
/// input, a function of the bytes alone.
#[verifier::external_body]
fn sha256_digest(b: &[u8]) -> (r: Vec<u8>)
    ensures
        r@ == sha256_of(b@),
        r@.len() == 32,
{
    sha2::Sha256::digest(b).to_vec()
}

/// The identity of a command in the record store: the lower-case hex
/// spelling of the SHA-256 digest of its bytes.
pub fn command_hash(cmd: &str) -> (r: String)
    ensures
        r@ == hex_of(sha256_of(cmd.spec_bytes())),
        r@.len() == 64,
{
    let digest = sha256_digest(cmd.as_bytes());
    let r = hex_encode(digest.as_slice());
    proof {
        lemma_hex_of_len(digest@);
    }
    r
}

/// The percent-encoded form of a query string; it depends on the
/// characters alone.
pub uninterp spec fn url_encoded_of(s: Seq<char>) -> Seq<char>;

/// Relies on `urlencoding::encode`: percent-encodes every byte except
/// ASCII alphanumerics and `-`, `_`, `.`, `~`; a function of the text
/// alone.
#[verifier::external_body]
fn url_encode(s: &str) -> (r: String)
    ensures
        r@ == url_encoded_of(s@),
{
    urlencoding::encode(s).into_owned()
}

/// The record-store filter that finds a command by its digest.
pub open spec fn command_filter_spec(hash: Seq<char>) -> Seq<char> {
    "hash='"@ + hash + "'"@
}

/// The record-store filter that finds the active whitelist entries of a
/// command.
pub open spec fn whitelist_filter_spec(command_id: Seq<char>) -> Seq<char> {
    "command='"@ + command_id + "' && active=true"@
}

/// The record store speaking for the gateway: its base URL and the
/// bearer token the surrounding process obtained when it authenticated.
pub struct PocketBaseProvider {
    pub url: String,
    pub admin_token: String,
}

impl PocketBaseProvider {
    /// A provider for a store already authenticated against.
    pub fn new(url: String, admin_token: String) -> (r: Self)
        ensures
            r.url@ == url@,
            r.admin_token@ == admin_token@,
    {
        Self { url, admin_token }
    }

    /// The password-authentication endpoint the bootstrap posts to.
    pub fn auth_url(&self) -> (r: String)
        ensures
            r@ == self.url@ + "/api/collections/users/auth-with-password"@,
    {
        let mut r = self.url.clone();
        r.append("/api/collections/users/auth-with-password");
        proof {
            assert(r@ =~= self.url@ + "/api/collections/users/auth-with-password"@);
        }
        r
    }

    /// The full URL of an endpoint under this store.
    pub fn request_url(&self, endpoint: &str) -> (r: String)
        ensures
            r@ == self.url@ + endpoint@,
    {
        let mut r = self.url.clone();
        r.append(endpoint);
        proof {
            assert(r@ =~= self.url@ + endpoint@);
        }
        r
    }

    /// The `Authorization` header value of every request.
    pub fn bearer_header(&self) -> (r: String)
        ensures
            r@ == "Bearer "@ + self.admin_token@,
    {
        let mut r = String::from_str("Bearer ");
        r.append(self.admin_token.as_str());
        proof {
            assert(r@ =~= "Bearer "@ + self.admin_token@);
        }
        r
    }
}

/// The query path that looks a command up by digest.
pub fn commands_query_path(hash: &str) -> (r: String)
    ensures
        r@ == "/api/collections/commands/records?filter=("@ + url_encoded_of(
            command_filter_spec(hash@),
        ) + ")"@,
{
    let mut filter = String::from_str("hash='");
    filter.append(hash);
    filter.append("'");
    proof {
        assert(filter@ =~= command_filter_spec(hash@));
    }
    let encoded = url_encode(filter.as_str());
    let mut r = String::from_str("/api/collections/commands/records?filter=(");
    r.append(encoded.as_str());
    r.append(")");
    proof {
        assert(r@ =~= "/api/collections/commands/records?filter=("@ + url_encoded_of(
            command_filter_spec(hash@),
        ) + ")"@);
    }
    r
}

/// The path commands are created under.
pub fn commands_create_path() -> (r: &'static str)
    ensures
        r@ == "/api/collections/commands/records"@,
{
    "/api/collections/commands/records"
}

/// The query path that looks the active whitelist entries of a command
/// up.
pub fn whitelists_query_path(command_id: &str) -> (r: String)
    ensures
        r@ == "/api/collections/whitelists/records?filter=("@ + url_encoded_of(
            whitelist_filter_spec(command_id@),
        ) + ")"@,
{
    let mut filter = String::from_str("command='");
    filter.append(command_id);
    filter.append("' && active=true");
    proof {
        assert(filter@ =~= whitelist_filter_spec(command_id@));
    }
    let encoded = url_encode(filter.as_str());
    let mut r = String::from_str("/api/collections/whitelists/records?filter=(");
    r.append(encoded.as_str());
    r.append(")");
    proof {
        assert(r@ =~= "/api/collections/whitelists/records?filter=("@ + url_encoded_of(
            whitelist_filter_spec(command_id@),
        ) + ")"@);
    }
    r
}

/// The path executions are created under.
pub fn executions_create_path() -> (r: &'static str)
    ensures
        r@ == "/api/collections/executions/records"@,
{
    "/api/collections/executions/records"
}

/// The path of one execution record.
pub fn execution_path(id: &str) -> (r: String)
    ensures
        r@ == "/api/collections/executions/records/"@ + id@,
{
    let mut r = String::from_str("/api/collections/executions/records/");
    r.append(id);
    proof {
        assert(r@ =~= "/api/collections/executions/records/"@ + id@);
    }
    r
}

/// How often the bootstrap tries to authenticate before giving up.
pub const AUTH_MAX_ATTEMPTS: u32 = 15;

/// Delay between two authentication attempts, in milliseconds.
pub const AUTH_RETRY_DELAY_MS: u64 = 2000;

/// Whether a failed authentication attempt is tried again: only while
/// fewer than the allowed attempts have been made.
pub fn auth_should_retry(attempts: u32) -> (r: bool)
    ensures
        r == (attempts < AUTH_MAX_ATTEMPTS),
{
    attempts < AUTH_MAX_ATTEMPTS
}

/// The command record a by-digest query answers with: the first item of
/// the result page, when the page has one.
pub fn first_command(items: Vec<CommandRecord>) -> (r: Option<CommandRecord>)
    ensures
        items@.len() == 0 ==> r is None,
        items@.len() > 0 ==> (r matches Some(c) && c.id@ == items@[0].id@ && c.hash@
            == items@[0].hash@ && c.command@ == items@[0].command@),
{
    if items.len() == 0 {
        None
    } else {
        let first = &items[0];
        Some(
            CommandRecord {
                id: first.id.clone(),
                hash: first.hash.clone(),
                command: first.command.clone(),
            },
        )
    }
}

/// Whether a whitelist query page means the command is whitelisted: any
/// entry at all does.
pub fn whitelist_decision(items_len: usize) -> (r: bool)
    ensures
        r == (items_len > 0),
{
    items_len > 0
}

/// The status a fresh execution record starts in: already `authorized`
/// for a whitelisted command, else `draft`, waiting for sign-off.
pub fn initial_status(whitelisted: bool) -> (r: &'static str)
    ensures
        whitelisted ==> r@ == "authorized"@,
        !whitelisted ==> r@ == "draft"@,
{
    if whitelisted {
        "authorized"
    } else {
        "draft"
    }
}

/// What one poll of a drafted execution's status decides.
pub enum Approval {
    /// The gatekeeper signed off: run the command.
    Approved,
    /// The gatekeeper refused, or the record failed: do not run it.
    Denied,
    /// Neither yet: poll again after the delay.
    Pending,
}

/// Decide one approval poll: `authorized` runs, `denied` and `failed`
/// refuse, anything else keeps waiting.
pub fn approval_step(status: &str) -> (r: Approval)
    ensures
        (r is Approved) <==> status@ == "authorized"@,
        (r is Denied) <==> (status@ != "authorized"@ && (status@ == "denied"@ || status@
            == "failed"@)),
        (r is Pending) <==> (status@ != "authorized"@ && status@ != "denied"@ && status@
            != "failed"@),
{
    if str_eq(status, "authorized") {
        Approval::Approved
    } else if str_eq(status, "denied") || str_eq(status, "failed") {
        Approval::Denied
    } else {
        Approval::Pending
    }
}

/// Deadline for a drafted execution to be signed off, in milliseconds.
pub const APPROVAL_TIMEOUT_MS: u64 = 300000;

/// Delay between two approval polls, in milliseconds.
pub const APPROVAL_POLL_MS: u64 = 1000;

} // verus!
