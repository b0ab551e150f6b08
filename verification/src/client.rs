//! The token, the address and the client.
//!
//! The client itself does no input or output. Configuration values are handed to it as they
//! were found, and a request is handed to a function of the caller that sends it and brings
//! back what the service answered. What the client decides is stated here: which URL is
//! asked for, which token goes with it, and what an answer means.

use vstd::prelude::*;
use vstd::string::StrSliceExecFns;
use crate::errors::Error;
use crate::url_text::{
    adds_one_segment, extends_by, extends_from, extends_trimmed, is_dot_segment,
    is_dot_segment_text, is_extended_by, is_one_segment_longer, is_plain, is_plain_segment,
    is_slashes, is_trimmed_extension,
    lemma_extends_by, lemma_extends_from, lemma_path_end_exists, location, path_ends_with,
    trailer,
};
use crate::admission::{is_admitted, is_admitted_text, MAX_TEXT_LEN};
use crate::urls::{append, parse, url_append, url_parse};

verus! {

/// The configuration value that holds the address of the service.
pub const ADDRESS_VARIABLE: &'static str = "VAULT_ADDR";

/// The configuration value that holds the token.
pub const TOKEN_VARIABLE: &'static str = "VAULT_TOKEN";

/// The path segment that names the version of the service's interface.
pub open spec fn version() -> Seq<char> {
    "v1"@
}

/// The texts that an address may hold: those that are handed to `url`, with a path that
/// ends in the version segment.
pub open spec fn is_address(text: Seq<char>) -> bool {
    &&& is_admitted(text)
    &&& path_ends_with(text, version())
}

/// The address over a base URL that `url` has read and written as `base`: what `url` makes
/// of appending the version segment, where that is `base` with the segment appended to its
/// path, less slashes that the path ended with. `None` where a text is not handed to `url`,
/// where `url` cannot append to `base`, and where what comes back is not such a text.
pub open spec fn with_version(base: Seq<char>) -> Option<Seq<char>> {
    if is_admitted(base) {
        match url_append(base, version()) {
            Some(text) if is_admitted(text) && extends_trimmed(base, version(), text) => Some(
                text,
            ),
            _ => None,
        }
    } else {
        None
    }
}

/// The address that a base URL given as `input` stands for: the base as `url` reads it, with
/// the version segment appended. `None` where `input` is not handed to `url`, where `url`
/// refuses it, and where the base that it reads there has no address over it.
pub open spec fn versioned(input: Seq<char>) -> Option<Seq<char>> {
    if is_admitted(input) {
        match url_parse(input) {
            Some(base) => with_version(base),
            None => None,
        }
    } else {
        None
    }
}

/// `url` is what joining `path` to the address `address` comes to. For `.` and `..`, which no
/// URL keeps as a segment, it is the address as it is. For every other `path` it is the
/// address with one segment more: `path` itself where it needs no encoding, else what `url`
/// wrote for it.
pub open spec fn is_joined(address: Seq<char>, path: Seq<char>, url: Seq<char>) -> bool {
    if is_dot_segment(path) {
        url == address
    } else if is_plain(path) {
        extends_by(address, path, url)
    } else {
        adds_one_segment(address, url)
    }
}

/// The URL for `path` under the address `address`: the address with `path` appended as one
/// segment, as `url` writes it, and the address itself for `.` and `..`. `None` where `path`
/// is too long, where `url` gives no URL, or where what comes back is not that.
pub open spec fn joined(address: Seq<char>, path: Seq<char>) -> Option<Seq<char>> {
    if path.len() <= MAX_TEXT_LEN {
        match url_append(address, path) {
            Some(text) if is_joined(address, path, text) => Some(text),
            _ => None,
        }
    } else {
        None
    }
}

/// A configuration value as it was found: its text, or `None` where nothing was found.
pub open spec fn found(value: Option<String>) -> Option<Seq<char>> {
    match value {
        Some(text) => Some(text@),
        None => None,
    }
}

/// What a configuration value makes of a token: the text as it is, unless it is empty. A
/// value that was found empty holds no token, as one that was not found.
pub open spec fn token_from(value: Option<Seq<char>>) -> Result<Seq<char>, Error> {
    match value {
        Some(text) if text.len() > 0 => Ok(text),
        _ => Err(Error::ConfigMissing),
    }
}

/// What a configuration value makes of an address.
pub open spec fn address_from(value: Option<Seq<char>>) -> Result<Seq<char>, Error> {
    match value {
        Some(text) => match versioned(text) {
            Some(address) => Ok(address),
            None => Err(Error::UrlParseError),
        },
        None => Err(Error::ConfigMissing),
    }
}

/// What two configuration values make of a client, as address and token. A failure of the
/// address comes before one of the token.
pub open spec fn client_from(address: Option<Seq<char>>, token: Option<Seq<char>>) -> Result<
    (Seq<char>, Seq<char>),
    Error,
> {
    match address_from(address) {
        Ok(a) => match token_from(token) {
            Ok(t) => Ok((a, t)),
            Err(e) => Err(e),
        },
        Err(e) => Err(e),
    }
}

/// The statuses that mean success: `200 OK` and `204 No Content`.
pub open spec fn is_success(status: u16) -> bool {
    status == 200 || status == 204
}

/// What an exchange with the service comes to: the body as it was received where the status
/// means success, the status and its reason where it does not, and the cause where no answer
/// could be had.
pub open spec fn outcome(reply: Result<Response, String>) -> Result<Vec<u8>, Error> {
    match reply {
        Ok(response) => if is_success(response.status) {
            Ok(response.body)
        } else {
            Err(Error::HttpError { status: response.status, reason: response.reason })
        },
        Err(cause) => Err(Error::TransportError(cause)),
    }
}

/// The authorization token of the service: an opaque text, sent with every request.
#[derive(Debug)]
pub struct VaultToken(String);

/// The base URL of the service, with the version segment at the end of its path.
#[derive(Debug)]
pub struct VaultAddress(String);

/// A client of the service: one address and one token, fixed when it is made.
#[derive(Debug)]
pub struct VaultClient {
    addr: VaultAddress,
    token: VaultToken,
}

/// A `GET` that the client wants sent: the URL, and the token that goes in the header.
#[derive(Debug)]
pub struct Request {
    pub url: String,
    pub token: VaultToken,
}

/// What the service answered: the status code, its reason phrase, and the whole body.
#[derive(Debug)]
pub struct Response {
    pub status: u16,
    pub reason: String,
    pub body: Vec<u8>,
}

impl View for VaultToken {
    type V = Seq<char>;

    closed spec fn view(&self) -> Seq<char> {
        self.0@
    }
}

impl View for VaultAddress {
    type V = Seq<char>;

    closed spec fn view(&self) -> Seq<char> {
        self.0@
    }
}

/// What a client holds: the text of its address and its token.
pub struct ClientView {
    pub address: Seq<char>,
    pub token: Seq<char>,
}

impl View for VaultClient {
    type V = ClientView;

    closed spec fn view(&self) -> ClientView {
        ClientView { address: self.addr@, token: self.token@ }
    }
}

impl Clone for VaultToken {
    fn clone(&self) -> (copy: VaultToken)
        ensures
            copy@ == self@,
    {
        VaultToken(self.0.clone())
    }
}

impl Clone for VaultAddress {
    fn clone(&self) -> (copy: VaultAddress)
        ensures
            copy@ == self@,
    {
        proof {
            use_type_invariant(self);
        }
        VaultAddress(self.0.clone())
    }
}

impl Clone for VaultClient {
    fn clone(&self) -> (copy: VaultClient)
        ensures
            copy@ == self@,
    {
        VaultClient { addr: self.addr.clone(), token: self.token.clone() }
    }
}

impl From<String> for VaultToken {
    /// Takes any text as a token; whether it is a good one is for the service to say.
    fn from(s: String) -> (token: VaultToken)
        ensures
            token@ == s@,
    {
        VaultToken(s)
    }
}

impl vstd::std_specs::convert::FromSpecImpl<String> for VaultToken {
    open spec fn obeys_from_spec() -> bool {
        true
    }

    closed spec fn from_spec(s: String) -> VaultToken {
        VaultToken(s)
    }
}

impl VaultToken {
    /// The token that the configuration holds: `value` is what was found under
    /// `TOKEN_VARIABLE`, `None` where nothing was. A text that was found is taken as it is.
    /// A token from the configuration is never empty.
    ///
    /// Fails with `ConfigMissing` where nothing was found, and where what was found is empty.
    pub fn from_env(value: Option<String>) -> (res: Result<VaultToken, Error>)
        ensures
            match token_from(found(value)) {
                Ok(text) => res matches Ok(token) && token@ == text,
                Err(e) => res == Err::<VaultToken, Error>(e),
            },
            res matches Ok(token) ==> token@.len() > 0,
    {
        match value {
            Some(text) => {
                if text.as_str().is_empty() {
                    Err(Error::ConfigMissing)
                } else {
                    Ok(VaultToken(text))
                }
            },
            None => Err(Error::ConfigMissing),
        }
    }

    /// The name of the request header that carries the token.
    pub fn header_name() -> (name: &'static str)
        ensures
            name@ == "X-Vault-Token"@,
    {
        "X-Vault-Token"
    }

    /// The value of the request header: the token as it is.
    pub fn fmt_header(&self) -> (value: String)
        ensures
            value@ == self@,
    {
        self.0.clone()
    }

    /// Reading a token out of received header lines is not offered: the service never sends
    /// one back. Whatever the lines hold, no token comes of them.
    pub fn parse_header(raw: &[Vec<u8>]) -> (token: Option<VaultToken>)
        ensures
            token is None,
    {
        None
    }
}

impl VaultAddress {
    #[verifier::type_invariant]
    spec fn holds_address(&self) -> bool {
        is_address(self.0@)
    }

    /// The address of the service over the base URL `addr`: the base as `url` reads it, with
    /// the version segment appended to its path, once. Where the path of the base ends in a
    /// slash, the segment takes the place of the empty one after that slash. Query and
    /// fragment of the base stay behind the path.
    ///
    /// Fails with `UrlParseError`, and with nothing else: where `addr` is not an absolute URL,
    /// where the URL takes no path segments, and where a text is not handed to `url` (see
    /// `admission`).
    pub fn new(addr: &str) -> (res: Result<VaultAddress, Error>)
        ensures
            match versioned(addr@) {
                Some(text) => res matches Ok(address) && address@ == text,
                None => res == Err::<VaultAddress, Error>(Error::UrlParseError),
            },
            res matches Ok(address) ==> path_ends_with(address@, version()),
            url_parse(addr@) is None ==> res == Err::<VaultAddress, Error>(Error::UrlParseError),
    {
        if !is_admitted_text(addr) {
            return Err(Error::UrlParseError);
        }
        match parse(addr) {
            Ok(base) => VaultAddress::set_version(base),
            Err(_) => Err(Error::UrlParseError),
        }
    }

    /// The address that the configuration holds: `value` is what was found under
    /// `ADDRESS_VARIABLE`, `None` where nothing was.
    ///
    /// Fails with `ConfigMissing` where nothing was found, and as `new` does on what was.
    pub fn from_env(value: Option<String>) -> (res: Result<VaultAddress, Error>)
        ensures
            match address_from(found(value)) {
                Ok(text) => res matches Ok(address) && address@ == text,
                Err(e) => res == Err::<VaultAddress, Error>(e),
            },
    {
        match value {
            Some(text) => VaultAddress::new(text.as_str()),
            None => Err(Error::ConfigMissing),
        }
    }

    /// Appends the version segment to the path of `base`, a base URL as `url` wrote it, and
    /// takes what `url` gives back where it is that text with the segment appended.
    fn set_version(base: String) -> (res: Result<VaultAddress, Error>)
        ensures
            match with_version(base@) {
                Some(text) => res matches Ok(address) && address@ == text,
                None => res == Err::<VaultAddress, Error>(Error::UrlParseError),
            },
            res matches Ok(address) ==> path_ends_with(address@, version()),
    {
        if !is_admitted_text(base.as_str()) {
            return Err(Error::UrlParseError);
        }
        proof {
            reveal_strlit("v1");
        }
        match append(base.as_str(), "v1") {
            Some(text) => {
                if is_admitted_text(text.as_str()) && is_trimmed_extension(
                    base.as_str(),
                    "v1",
                    text.as_str(),
                ) {
                    proof {
                        lemma_with_version(base@);
                    }
                    Ok(VaultAddress(text))
                } else {
                    Err(Error::UrlParseError)
                }
            },
            None => Err(Error::UrlParseError),
        }
    }

    /// The URL for `path` under this address: the address with `path` appended to its path as
    /// one segment, written as `url` writes it. The address itself stays as it is.
    ///
    /// Where `path` is made of ASCII letters, digits, `-`, `.`, `_` and `~` alone, the new
    /// segment is `path` itself. Other characters stand in the URL as `url` encodes them, a
    /// slash too: `path` always makes one segment. The two exceptions are `.` and `..`, which
    /// no URL keeps as a segment: for them the URL is the address as it is.
    ///
    /// Fails with `UrlParseError` where `url` gives no such URL.
    pub fn join(&self, path: &str) -> (res: Result<String, Error>)
        ensures
            match joined(self@, path@) {
                Some(text) => res matches Ok(target) && target@ == text,
                None => res == Err::<String, Error>(Error::UrlParseError),
            },
            res matches Ok(target) ==> is_joined(self@, path@, target@),
    {
        proof {
            use_type_invariant(self);
        }
        if path.unicode_len() > MAX_TEXT_LEN {
            return Err(Error::UrlParseError);
        }
        match append(self.0.as_str(), path) {
            Some(text) => {
                let fits = if is_dot_segment_text(path) {
                    text == self.0
                } else if is_plain_segment(path) {
                    is_extended_by(self.0.as_str(), path, text.as_str())
                } else {
                    is_one_segment_longer(self.0.as_str(), text.as_str())
                };
                if fits {
                    Ok(text)
                } else {
                    Err(Error::UrlParseError)
                }
            },
            None => Err(Error::UrlParseError),
        }
    }

    /// The address as text.
    pub fn as_str(&self) -> (text: &str)
        ensures
            text@ == self@,
            is_address(self@),
    {
        proof {
            use_type_invariant(self);
        }
        self.0.as_str()
    }

    /// Gives up the address for its text.
    pub fn into_url(self) -> (text: String)
        ensures
            text@ == self@,
            is_address(self@),
    {
        proof {
            use_type_invariant(&self);
        }
        self.0
    }
}

impl VaultClient {
    /// The request for `path` is `request`: its URL is the address joined with `path`, and
    /// its token is the client's.
    pub open spec fn asks(&self, path: Seq<char>, request: Request) -> bool {
        &&& joined(self@.address, path) == Some(request.url@)
        &&& request.token@ == self@.token
    }

    /// A client for the service at the base URL `addr`, with `token` as its token.
    ///
    /// Fails as `VaultAddress::new` does on `addr`. No token makes it fail, not even an
    /// empty one.
    pub fn new(addr: &str, token: String) -> (res: Result<VaultClient, Error>)
        ensures
            match versioned(addr@) {
                Some(text) => res matches Ok(client) && client@.address == text
                    && client@.token == token@,
                None => res == Err::<VaultClient, Error>(Error::UrlParseError),
            },
    {
        match VaultAddress::new(addr) {
            Ok(addr) => Ok(VaultClient { addr, token: VaultToken::from(token) }),
            Err(e) => Err(e),
        }
    }

    /// The client that the configuration holds: `addr` and `token` are what was found under
    /// `ADDRESS_VARIABLE` and `TOKEN_VARIABLE`, `None` where nothing was.
    ///
    /// Fails as `VaultAddress::from_env` does on `addr`; else as `VaultToken::from_env` does
    /// on `token`.
    pub fn from_env(addr: Option<String>, token: Option<String>) -> (res: Result<
        VaultClient,
        Error,
    >)
        ensures
            match client_from(found(addr), found(token)) {
                Ok((a, t)) => res matches Ok(client) && client@.address == a && client@.token
                    == t,
                Err(e) => res == Err::<VaultClient, Error>(e),
            },
    {
        match VaultAddress::from_env(addr) {
            Ok(addr) => match VaultToken::from_env(token) {
                Ok(token) => Ok(VaultClient { addr, token }),
                Err(e) => Err(e),
            },
            Err(e) => Err(e),
        }
    }

    /// The address of the client.
    pub fn address(&self) -> (address: &VaultAddress)
        ensures
            address@ == self@.address,
    {
        &self.addr
    }

    /// The token of the client.
    pub fn token(&self) -> (token: &VaultToken)
        ensures
            token@ == self@.token,
    {
        &self.token
    }

    /// The request that fetches the secret at `path`: a `GET` for the address joined with
    /// `path`, with the client's token.
    ///
    /// Fails with `UrlParseError` as `VaultAddress::join` does.
    pub fn request(&self, path: &str) -> (res: Result<Request, Error>)
        ensures
            match joined(self@.address, path@) {
                Some(_text) => res matches Ok(request) && self.asks(path@, request),
                None => res == Err::<Request, Error>(Error::UrlParseError),
            },
    {
        match self.addr.join(path) {
            Ok(url) => Ok(Request { url, token: self.token.clone() }),
            Err(e) => Err(e),
        }
    }

    /// Fetches the secret at `path` and returns its bytes as the service sent them.
    ///
    /// `send` does the exchange: it sends the request, reads the whole answer and returns it,
    /// or returns the cause where the service could not be reached or its answer not read.
    /// It is called once, with the request for `path`, unless that request cannot be made.
    /// Nothing is tried again, and the body is not looked into.
    ///
    /// Fails with `UrlParseError` where `path` gives no URL, with `TransportError` where
    /// `send` returns a cause, and with `HttpError` where the status is neither `200` nor
    /// `204`.
    pub fn get_secret_raw<F: FnOnce(Request) -> Result<Response, String>>(
        &self,
        path: &str,
        send: F,
    ) -> (res: Result<Vec<u8>, Error>)
        requires
            forall|request: Request| self.asks(path@, request) ==> call_requires(send, (request,)),
        ensures
            match joined(self@.address, path@) {
                Some(_text) => exists|request: Request, reply: Result<Response, String>|
                    self.asks(path@, request) && call_ensures(send, (request,), reply) && res
                        == outcome(reply),
                None => res == Err::<Vec<u8>, Error>(Error::UrlParseError),
            },
    {
        match self.request(path) {
            Ok(request) => {
                let reply = send(request);
                classify(reply)
            },
            Err(e) => Err(e),
        }
    }
}

/// Says what an exchange with the service comes to. See `outcome`.
pub fn classify(reply: Result<Response, String>) -> (res: Result<Vec<u8>, Error>)
    ensures
        res == outcome(reply),
{
    match reply {
        Ok(response) => {
            if response.status == 200 || response.status == 204 {
                Ok(response.body)
            } else {
                Err(Error::HttpError { status: response.status, reason: response.reason })
            }
        },
        Err(cause) => Err(Error::TransportError(cause)),
    }
}

/// An address is its base with the version segment appended once: where `base` is a base URL
/// as `url` wrote it, the address over it is the base up to the end of its path, less
/// slashes that the path ended with, then `/v1`, then the query and fragment of the base.
pub proof fn lemma_with_version(base: Seq<char>)
    ensures
        with_version(base) matches Some(text) ==> {
            &&& is_address(text)
            &&& trailer(text) == trailer(base)
            &&& exists|kept: int|
                {
                    &&& 0 <= kept <= location(base).len()
                    &&& is_slashes(#[trigger] location(base).skip(kept))
                    &&& location(text) == location(base).take(kept) + seq!['/'] + version()
                }
        },
{
    if let Some(text) = with_version(base) {
        let kept = choose|kept: int| extends_from(base, kept, version(), text);
        lemma_path_end_exists(base);
        lemma_extends_from(base, kept, version(), text);
        assert(location(base).take(kept) =~= base.take(kept));
        assert(location(base).skip(kept) =~= base.subrange(kept, location(base).len() as int));
    }
}

/// Every address ends in the version segment: over whatever base it was made, with a
/// trailing slash or without, its path ends with `v1`.
pub proof fn lemma_address_ends_in_version(input: Seq<char>)
    ensures
        versioned(input) matches Some(text) ==> is_address(text) && path_ends_with(
            text,
            version(),
        ),
{
    if let Some(base) = url_parse(input) {
        lemma_with_version(base);
    }
}

/// A text that `url` does not read as a URL gives no address, and a configuration that
/// holds such a text fails with `UrlParseError`.
pub proof fn lemma_malformed_gives_no_address(input: Seq<char>)
    requires
        url_parse(input) is None,
    ensures
        versioned(input) is None,
        address_from(Some(input)) == Err::<Seq<char>, Error>(Error::UrlParseError),
{
}

/// Joining adds exactly one segment: for a `path` other than `.` and `..`, the URL is the
/// address up to the end of its path, a slash, one segment, and the query and fragment of the
/// address. A `path` that needs no encoding is that segment.
pub proof fn lemma_join_adds_one_segment(address: Seq<char>, path: Seq<char>)
    requires
        !is_dot_segment(path),
    ensures
        joined(address, path) matches Some(target) ==> adds_one_segment(address, target) && (
        is_plain(path) ==> target == location(address) + seq!['/'] + path + trailer(address)),
{
}

/// Joining `.` or `..` gives the address: the join succeeds exactly where `url` hands the
/// address back as it is, and the URL is then the address itself.
pub proof fn lemma_join_dot_segment(address: Seq<char>, path: Seq<char>)
    requires
        is_dot_segment(path),
    ensures
        joined(address, path) is Some <==> url_append(address, path) == Some(address),
        joined(address, path) matches Some(target) ==> target == address,
{
}

/// Joining leaves the address as it is: each of two joins on one address gives a URL that
/// starts as that address does and ends with its query and fragment, whichever of them is
/// made first.
pub proof fn lemma_joins_share_address(address: Seq<char>, first: Seq<char>, second: Seq<char>)
    ensures
        joined(address, first) matches Some(target) ==> location(address).is_prefix_of(
            location(target),
        ) && trailer(target) == trailer(address),
        joined(address, second) matches Some(target) ==> location(address).is_prefix_of(
            location(target),
        ) && trailer(target) == trailer(address),
{
    lemma_join_keeps_address(address, first);
    lemma_join_keeps_address(address, second);
}

proof fn lemma_join_keeps_address(address: Seq<char>, path: Seq<char>)
    ensures
        joined(address, path) matches Some(target) ==> location(address).is_prefix_of(
            location(target),
        ) && trailer(target) == trailer(address),
{
    if let Some(target) = joined(address, path) {
        if !is_dot_segment(path) {
            let segment = choose|segment: Seq<char>| extends_by(address, segment, target);
            lemma_extends_by(address, segment, target);
        }
        assert(location(address) =~= location(target).subrange(
            0,
            location(address).len() as int,
        ));
    }
}

/// A request goes below the version segment: where `target` is an address with `segment`
/// appended, its path ends with `/v1/` and `segment`, and its query and fragment are those of
/// the address.
pub proof fn lemma_request_below_version(
    address: Seq<char>,
    segment: Seq<char>,
    target: Seq<char>,
)
    requires
        is_address(address),
        extends_by(address, segment, target),
    ensures
        (seq!['/'] + version() + seq!['/'] + segment).is_suffix_of(location(target)),
        trailer(target) == trailer(address),
{
    lemma_extends_by(address, segment, target);
    let head = seq!['/'] + version();
    let tail = seq!['/'] + segment;
    let whole = location(target);
    assert(head =~= location(address).subrange(
        location(address).len() - head.len(),
        location(address).len() as int,
    ));
    assert((head + tail) =~= whole.subrange(whole.len() - (head + tail).len(), whole.len() as int));
}

/// Fetching keeps no state. Two fetches of one path by one client ask the same of the
/// service: the same URL with the same token. Where the service answers the second as it
/// answered the first, the second returns what the first returned, byte for byte.
pub proof fn lemma_fetch_repeats(
    client: VaultClient,
    path: Seq<char>,
    first: Request,
    second: Request,
    first_reply: Result<Response, String>,
    second_reply: Result<Response, String>,
)
    requires
        client.asks(path, first),
        client.asks(path, second),
        first_reply == second_reply,
    ensures
        first.url@ == second.url@,
        first.token@ == second.token@,
        outcome(first_reply) == outcome(second_reply),
{
}

} // verus!
