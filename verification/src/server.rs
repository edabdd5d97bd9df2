//! The server: it answers requests for a connection.
use crate::body::{bytes, empty, Body, BodyView};
use crate::bytes::same_bytes;
use crate::client::{client_headers, session_key};
use crate::crypto::{
    accept_key, base64_decoded, base64_encode, base64_encoded, derive_key, derived_key, draw_salt,
    is_base64_char, is_drawn_salt, pbkdf2_sha256, websocket_accept,
};
use crate::headers::{
    append_header, first_value, get_header, header_values, is_header_name, is_printable_text,
    no_headers, Fields,
};
use crate::text::{decimal, push_decimal, same_text, text_of};
use hyper::HeaderMap;
use vstd::prelude::*;
use vstd::slice::slice_to_vec;
use vstd::string::StringExecFns;
use vstd::utf8::{encode_utf8, is_ascii_chars_encode_utf8};

verus! {

/// Status of a response that refuses a connection: the text in its body says why.
pub const OK: u16 = 200;

/// Status of a response that grants a connection.
pub const SWITCHING_PROTOCOLS: u16 = 101;

/// A version of HTTP.
#[derive(Clone, Copy, Debug, PartialEq, Eq, Structural)]
pub enum Version {
    Http09,
    Http10,
    Http11,
    Http2,
    Http3,
}

/// A request, without its body. The `uri` is the target of the request as text, without
/// a fragment.
pub struct Request {
    pub method: String,
    pub version: Version,
    pub uri: String,
    pub headers: HeaderMap,
}

/// A response.
pub struct Response {
    pub status: u16,
    pub version: Version,
    pub headers: HeaderMap,
    pub body: Body,
}

/// The value of a `Request`.
pub ghost struct RequestView {
    pub method: Seq<char>,
    pub version: Version,
    pub uri: Seq<char>,
    pub fields: Fields,
}

/// The value of a `Response`.
pub ghost struct ResponseView {
    pub status: u16,
    pub version: Version,
    pub fields: Fields,
    pub body: BodyView,
}

impl View for Request {
    type V = RequestView;

    open spec fn view(&self) -> RequestView {
        RequestView {
            method: self.method@,
            version: self.version,
            uri: self.uri@,
            fields: header_values(self.headers),
        }
    }
}

impl View for Response {
    type V = ResponseView;

    open spec fn view(&self) -> ResponseView {
        ResponseView {
            status: self.status,
            version: self.version,
            fields: header_values(self.headers),
            body: self.body@,
        }
    }
}

/// Whether WebSockets are possible with a version of HTTP.
pub open spec fn has_upgrades(version: Version) -> bool {
    !(version is Http09) && !(version is Http10)
}

/// A byte that a header value shows as a character: printable ASCII or a tab.
pub open spec fn is_visible(b: u8) -> bool {
    (32 <= b && b < 127) || b == 9
}

/// A byte that separates the items of a list: a space or a comma.
pub open spec fn is_separator(b: u8) -> bool {
    b == 0x20 || b == 0x2c
}

/// An ASCII letter in lower case; any other byte as it is.
pub open spec fn ascii_lower(b: u8) -> u8 {
    if 0x41 <= b && b <= 0x5a {
        (b + 0x20) as u8
    } else {
        b
    }
}

/// The word `upgrade`.
pub open spec fn upgrade_word() -> Seq<u8> {
    seq![0x75u8, 0x70, 0x67, 0x72, 0x61, 0x64, 0x65]
}

/// Whether `value` from `start` to `end` is one item of the list that it is: a stretch
/// without separators that a separator or an end of the list bounds on each side.
pub open spec fn is_item(value: Seq<u8>, start: int, end: int) -> bool {
    &&& 0 <= start <= end <= value.len()
    &&& start == 0 || is_separator(value[start - 1])
    &&& end == value.len() || is_separator(value[end])
    &&& forall|i: int| start <= i < end ==> !is_separator(#[trigger] value[i])
}

/// Whether `value` from `start` to `end` is the word `upgrade`, in any case.
pub open spec fn is_upgrade_word(value: Seq<u8>, start: int, end: int) -> bool {
    end - start == upgrade_word().len() && forall|i: int|
        0 <= i < upgrade_word().len() ==> ascii_lower(#[trigger] value[start + i])
            == upgrade_word()[i]
}

/// Whether a list, all of it visible, has the item `upgrade`.
pub open spec fn lists_upgrade(value: Seq<u8>) -> bool {
    &&& forall|i: int| 0 <= i < value.len() ==> is_visible(#[trigger] value[i])
    &&& exists|start: int, end: int|
        #![trigger is_item(value, start, end)]
        is_item(value, start, end) && is_upgrade_word(value, start, end)
}

/// Whether a request asks for a WebSocket connection at the place where this server has
/// one.
pub open spec fn is_handshake(req: RequestView) -> bool {
    &&& req.method == "GET"@
    &&& has_upgrades(req.version)
    &&& first_value(req.fields, "connection"@) matches Some(value) && lists_upgrade(value)
    &&& first_value(req.fields, "sec-websocket-version"@) == Some(encode_utf8("13"@))
    &&& first_value(req.fields, "sec-websocket-key"@) is Some
    &&& req.uri == "/sync"@ || req.uri == "/sync?"@
}

/// A response that refuses a connection.
pub open spec fn refusal(reason: Seq<char>) -> ResponseView {
    ResponseView {
        status: OK,
        version: Version::Http11,
        fields: Fields::empty(),
        body: BodyView::Full(encode_utf8(reason)),
    }
}

/// The fields of a response that grants a connection.
pub open spec fn granted_fields(accept: Seq<char>) -> Fields {
    Fields::empty().insert("connection"@, seq![encode_utf8("Upgrade"@)]).insert(
        "upgrade"@,
        seq![encode_utf8("websocket"@)],
    ).insert("sec-websocket-accept"@, seq![encode_utf8(accept)])
}

/// A response that grants a connection, with a salt where the connection is encrypted.
pub open spec fn grant(version: Version, accept: Seq<char>, salt: Option<Seq<char>>) -> ResponseView {
    ResponseView {
        status: SWITCHING_PROTOCOLS,
        version,
        fields: match salt {
            Some(salt) => granted_fields(accept).insert("x-salt"@, seq![encode_utf8(salt)]),
            None => granted_fields(accept),
        },
        body: BodyView::Empty,
    }
}

/// The answer to a request with a password, given the hash of the server's password and
/// that of the password that came.
pub open spec fn answer_password(
    version: Version,
    accept: Seq<char>,
    hash: Seq<u8>,
    new_hash: Seq<u8>,
    salt: Seq<char>,
) -> ResponseView {
    if hash == new_hash {
        grant(version, accept, Some(salt))
    } else {
        refusal("invalid password"@)
    }
}

/// The answer to a request. Where the server has a password, `hash` is its hash under
/// `salt`; the connection is then granted to those who know the password, and they are
/// sent the salt, from which they derive the key of the clipboard data.
pub open spec fn response(req: RequestView, hash: Option<Seq<u8>>, salt: Seq<u8>) -> ResponseView {
    if !is_handshake(req) {
        refusal("failed to establish websocket connection"@)
    } else {
        let accept = accept_key(first_value(req.fields, "sec-websocket-key"@).unwrap());
        match hash {
            None => grant(req.version, accept, None),
            Some(hash) => match first_value(req.fields, "x-password"@) {
                None => refusal("no password"@),
                Some(password) => answer_password(
                    req.version,
                    accept,
                    hash,
                    derived_key(password, salt),
                    base64_encoded(salt),
                ),
            },
        }
    }
}

/// An ASCII letter in lower case.
fn to_ascii_lower(b: u8) -> (lower: u8)
    ensures
        lower == ascii_lower(b),
{
    if 0x41 <= b && b <= 0x5a {
        b + 0x20
    } else {
        b
    }
}

/// Whether a stretch of a list is the word `upgrade`.
fn upgrade_at(value: &[u8], start: usize, end: usize) -> (found: bool)
    requires
        start <= end <= value@.len(),
    ensures
        found == is_upgrade_word(value@, start as int, end as int),
{
    let word: [u8; 7] = [0x75u8, 0x70, 0x67, 0x72, 0x61, 0x64, 0x65];
    proof {
        assert(word@ =~= upgrade_word());
    }
    if end - start != 7 {
        return false;
    }
    let mut i: usize = 0;
    while i < 7
        invariant
            i <= 7,
            word@ == upgrade_word(),
            start + 7 == end <= value@.len(),
            forall|k: int|
                0 <= k < i ==> ascii_lower(#[trigger] value@[start + k]) == upgrade_word()[k],
        decreases 7 - i,
    {
        if to_ascii_lower(value[start + i]) != word[i] {
            proof {
                assert(ascii_lower(value@[start + i as int]) != upgrade_word()[i as int]);
            }
            return false;
        }
        i = i + 1;
    }
    true
}

/// An item from `start` to `end` is the only one that ends between these two places.
proof fn lemma_one_item_ends(value: Seq<u8>, start: int, end: int)
    requires
        is_item(value, start, end),
    ensures
        forall|s: int, e: int|
            #![trigger is_item(value, s, e)]
            is_item(value, s, e) && start <= e <= end ==> s == start && e == end,
{
    assert forall|s: int, e: int|
        #![trigger is_item(value, s, e)]
        is_item(value, s, e) && start <= e <= end implies s == start && e == end by {
        if e < end {
            assert(is_separator(value[e]));
        }
        if s < start {
            assert(!is_separator(value[start - 1]));
        }
        if s > start {
            assert(is_separator(value[s - 1]));
        }
    }
}

/// Whether a list has the item `upgrade`.
pub fn has_upgrade(value: &[u8]) -> (found: bool)
    ensures
        found == lists_upgrade(value@),
{
    let mut start: usize = 0;
    let mut i: usize = 0;
    let mut found = false;
    while i < value.len()
        invariant
            start <= i <= value@.len(),
            start == 0 || is_separator(value@[start - 1]),
            forall|k: int| start <= k < i ==> !is_separator(#[trigger] value@[k]),
            forall|k: int| 0 <= k < i ==> is_visible(#[trigger] value@[k]),
            found ==> exists|s: int, e: int|
                #![trigger is_item(value@, s, e)]
                is_item(value@, s, e) && is_upgrade_word(value@, s, e),
            !found ==> forall|s: int, e: int|
                #![trigger is_item(value@, s, e)]
                is_item(value@, s, e) && e < start ==> !is_upgrade_word(value@, s, e),
        decreases value@.len() - i,
    {
        let b = value[i];
        if !((32 <= b && b < 127) || b == 9) {
            proof {
                assert(!is_visible(value@[i as int]));
            }
            return false;
        }
        if b == 0x20 || b == 0x2c {
            let here = upgrade_at(value, start, i);
            proof {
                assert(is_item(value@, start as int, i as int));
                lemma_one_item_ends(value@, start as int, i as int);
            }
            if here {
                found = true;
            }
            start = i + 1;
        }
        i = i + 1;
    }
    let here = upgrade_at(value, start, i);
    proof {
        assert(is_item(value@, start as int, i as int));
        lemma_one_item_ends(value@, start as int, i as int);
    }
    found || here
}

/// The names of the fields that this server reads and writes are header names, and no
/// two of those that it writes are the same.
proof fn lemma_field_names()
    ensures
        is_header_name("connection"@),
        is_header_name("upgrade"@),
        is_header_name("sec-websocket-version"@),
        is_header_name("sec-websocket-key"@),
        is_header_name("sec-websocket-accept"@),
        is_header_name("x-password"@),
        is_header_name("x-salt"@),
        "connection"@.len() == 10,
        "upgrade"@.len() == 7,
        "sec-websocket-accept"@.len() == 20,
        "x-salt"@.len() == 6,
{
    reveal_strlit("connection");
    reveal_strlit("upgrade");
    reveal_strlit("sec-websocket-version");
    reveal_strlit("sec-websocket-key");
    reveal_strlit("sec-websocket-accept");
    reveal_strlit("x-password");
    reveal_strlit("x-salt");
}

/// Base64 stands in a header value as it is.
proof fn lemma_base64_is_printable(text: Seq<char>)
    requires
        forall|i: int| 0 <= i < text.len() ==> is_base64_char(#[trigger] text[i]),
    ensures
        is_printable_text(text),
{
}

/// Whether a request asks for a WebSocket connection at the place where this server has
/// one.
pub fn is_websocket_request(req: &Request) -> (is: bool)
    ensures
        is == is_handshake(req@),
{
    proof {
        lemma_field_names();
    }
    if !same_text(req.method.as_str(), "GET") {
        return false;
    }
    if req.version == Version::Http09 || req.version == Version::Http10 {
        return false;
    }
    match get_header(&req.headers, "connection") {
        None => return false,
        Some(value) => if !has_upgrade(value) {
            return false;
        },
    }
    match get_header(&req.headers, "sec-websocket-version") {
        None => return false,
        Some(value) => if !same_bytes(value, "13".as_bytes()) {
            return false;
        },
    }
    if get_header(&req.headers, "sec-websocket-key").is_none() {
        return false;
    }
    same_text(req.uri.as_str(), "/sync") || same_text(req.uri.as_str(), "/sync?")
}

/// Makes a response that refuses a connection.
pub fn refuse(reason: &str) -> (res: Response)
    ensures
        res@ == refusal(reason@),
{
    Response {
        status: OK,
        version: Version::Http11,
        headers: no_headers(),
        body: bytes(slice_to_vec(reason.as_bytes())),
    }
}

/// Makes a response that grants a connection.
pub fn grant_connection(version: Version, accept: &str, salt: Option<&str>) -> (res: Response)
    requires
        is_printable_text(accept@),
        salt is Some ==> is_printable_text(salt->Some_0@),
    ensures
        res@ == grant(
            version,
            accept@,
            match salt {
                Some(salt) => Some(salt@),
                None => None,
            },
        ),
{
    let mut headers = no_headers();
    proof {
        lemma_field_names();
        reveal_strlit("Upgrade");
        reveal_strlit("websocket");
    }
    append_header(&mut headers, "connection", "Upgrade");
    append_header(&mut headers, "upgrade", "websocket");
    append_header(&mut headers, "sec-websocket-accept", accept);
    proof {
        assert(header_values(headers) =~= granted_fields(accept@));
    }
    if let Some(salt) = salt {
        append_header(&mut headers, "x-salt", salt);
    }
    Response { status: SWITCHING_PROTOCOLS, version, headers, body: empty() }
}

/// Answers a request with a password, given the hash of the server's password and that
/// of the password that came.
pub fn check_password(
    version: Version,
    accept: &str,
    hash: &[u8; 32],
    new_hash: &[u8; 32],
    salt: &str,
) -> (res: Response)
    requires
        is_printable_text(accept@),
        is_printable_text(salt@),
    ensures
        res@ == answer_password(version, accept@, hash@, new_hash@, salt@),
{
    if !same_bytes(hash, new_hash) {
        return refuse("invalid password");
    }
    grant_connection(version, accept, Some(salt))
}

/// The hash of the server's password, where it has one.
pub open spec fn hash_of(hash: Option<[u8; 32]>) -> Option<Seq<u8>> {
    match hash {
        Some(hash) => Some(hash@),
        None => None,
    }
}

/// Answers a request. A client that is connected with a password derives from the salt
/// that it is sent the hash of that password, so all clients and the server agree on it.
pub fn handle_request(req: &Request, hash: Option<[u8; 32]>, salt: [u8; 20]) -> (res: Response)
    ensures
        res@ == response(req@, hash_of(hash), salt@),
        res.status == SWITCHING_PROTOCOLS && hash is Some ==> (first_value(res@.fields, "x-salt"@)
            matches Some(value) && base64_decoded(value) == Some(salt@)),
        res.status == SWITCHING_PROTOCOLS && hash is Some ==> forall|password: Seq<char>|
            first_value(req@.fields, "x-password"@) == Some(#[trigger] encode_utf8(password))
                ==> session_key(password, first_value(res@.fields, "x-salt"@)->Some_0) == hash_of(
                hash,
            ),
        res.status == 101 <==> is_handshake(req@) && (hash matches Some(hash) ==> (first_value(
            req@.fields,
            "x-password"@,
        ) matches Some(password) && pbkdf2_sha256(password, salt@, 60_000u32) == hash@)),
{
    proof {
        lemma_field_names();
    }
    if !is_websocket_request(req) {
        return refuse("failed to establish websocket connection");
    }
    let key = match get_header(&req.headers, "sec-websocket-key") {
        Some(key) => key,
        None => return refuse("failed to establish websocket connection"),
    };
    let accept = websocket_accept(key);
    proof {
        lemma_base64_is_printable(accept@);
    }
    match hash {
        None => grant_connection(req.version, accept.as_str(), None),
        Some(hash) => match get_header(&req.headers, "x-password") {
            None => refuse("no password"),
            Some(password) => {
                let new_hash = derive_key(password, &salt);
                let text = base64_encode(&salt);
                proof {
                    lemma_base64_is_printable(text@);
                }
                check_password(req.version, accept.as_str(), &hash, &new_hash, text.as_str())
            },
        },
    }
}

/// The hash of a server's password, where it has one.
pub open spec fn server_hash(password: Option<Seq<char>>, salt: Seq<u8>) -> Option<Seq<u8>> {
    match password {
        Some(password) => Some(derived_key(encode_utf8(password), salt)),
        None => None,
    }
}

/// What a server keeps of its password: a salt, and the hash that belongs to it.
pub struct Secrets {
    pub salt: [u8; 20],
    pub hash: Option<[u8; 32]>,
}

/// Hashes the password of a server, where it has one.
pub fn hash_password(password: &Option<String>, salt: &[u8; 20]) -> (hash: Option<[u8; 32]>)
    ensures
        hash_of(hash) == server_hash(text_of(*password), salt@),
        match password {
            Some(password) => hash matches Some(hash) && hash@ == pbkdf2_sha256(
                encode_utf8(password@),
                salt@,
                60_000u32,
            ),
            None => hash is None,
        },
{
    match password {
        Some(password) => Some(derive_key(password.as_str().as_bytes(), salt)),
        None => None,
    }
}

/// Chooses a random salt and hashes the password of a server with it.
pub fn choose_secrets(password: &Option<String>) -> (secrets: Secrets)
    ensures
        is_drawn_salt(secrets.salt@),
        hash_of(secrets.hash) == server_hash(text_of(*password), secrets.salt@),
        match password {
            Some(password) => secrets.hash matches Some(hash) && hash@ == pbkdf2_sha256(
                encode_utf8(password@),
                secrets.salt@,
                60_000u32,
            ),
            None => secrets.hash is None,
        },
{
    let salt = draw_salt();
    let hash = hash_password(password, &salt);
    Secrets { salt, hash }
}

/// The address at which a server listens.
pub open spec fn listen_address(address: Seq<char>, port: u16) -> Seq<char> {
    address + ":"@ + decimal(port as nat)
}

/// The address at which a server listens.
pub fn format_listen_address(address: &str, port: u16) -> (text: String)
    ensures
        text@ == listen_address(address@, port),
{
    let mut text = address.to_owned();
    text.append(":");
    push_decimal(&mut text, port);
    text
}

/// A connection is granted exactly to a proper request that comes, where the server has
/// a password, with a password that has the same hash.
pub proof fn law_connection_needs_the_password(
    req: RequestView,
    hash: Option<Seq<u8>>,
    salt: Seq<u8>,
)
    ensures
        response(req, hash, salt).status == SWITCHING_PROTOCOLS <==> is_handshake(req) && (hash
            matches Some(hash) ==> (first_value(req.fields, "x-password"@) matches Some(password)
            && derived_key(password, salt) == hash)),
{
}

/// Who is refused learns the reason and nothing else: no field of the response tells of
/// the password or of its hash.
pub proof fn law_refusal_says_only_why(req: RequestView, hash: Option<Seq<u8>>, salt: Seq<u8>)
    requires
        response(req, hash, salt).status != SWITCHING_PROTOCOLS,
    ensures
        ({
            let res = response(req, hash, salt);
            ||| res == refusal("failed to establish websocket connection"@)
            ||| res == refusal("no password"@)
            ||| res == refusal("invalid password"@)
        }),
        response(req, hash, salt).fields == Fields::empty(),
{
}

/// A client that is connected is sent a salt exactly where the server has a password: the
/// one under which the server hashed the password, in base64.
pub proof fn law_salt_comes_with_a_password(req: RequestView, hash: Option<Seq<u8>>, salt: Seq<u8>)
    requires
        response(req, hash, salt).status == SWITCHING_PROTOCOLS,
    ensures
        first_value(response(req, hash, salt).fields, "x-salt"@) == (match hash {
            Some(_) => Some(encode_utf8(base64_encoded(salt))),
            None => None,
        }),
{
    lemma_field_names();
}

/// All clients that a server with a password connects are sent the same salt, so those
/// with the same password have the same key.
pub proof fn law_clients_share_a_key(
    req1: RequestView,
    req2: RequestView,
    hash: Seq<u8>,
    salt: Seq<u8>,
    password: Seq<char>,
)
    requires
        response(req1, Some(hash), salt).status == SWITCHING_PROTOCOLS,
        response(req2, Some(hash), salt).status == SWITCHING_PROTOCOLS,
    ensures
        ({
            let salt1 = first_value(response(req1, Some(hash), salt).fields, "x-salt"@);
            let salt2 = first_value(response(req2, Some(hash), salt).fields, "x-salt"@);
            &&& salt1 is Some
            &&& salt2 is Some
            &&& session_key(password, salt1->Some_0) == session_key(password, salt2->Some_0)
        }),
{
    law_salt_comes_with_a_password(req1, Some(hash), salt);
    law_salt_comes_with_a_password(req2, Some(hash), salt);
}

/// Whether a request carries the header fields of a client.
pub open spec fn carries_fields(fields: Fields, headers: Seq<(Seq<char>, Seq<char>)>) -> bool {
    forall|i: int|
        0 <= i < headers.len() ==> first_value(fields, (#[trigger] headers[i]).0) == Some(
            encode_utf8(headers[i].1),
        )
}

/// The word `upgrade` alone is a list that has it.
proof fn lemma_upgrade_alone()
    ensures
        lists_upgrade(encode_utf8("upgrade"@)),
{
    reveal_strlit("upgrade");
    is_ascii_chars_encode_utf8("upgrade"@);
    let value = encode_utf8("upgrade"@);
    assert(value =~= upgrade_word());
    assert(is_item(value, 0, 7));
    assert(is_upgrade_word(value, 0, 7));
}

/// A client that knows the server's password, or needs none, is connected: the server
/// takes its request for what it is, and grants it.
pub proof fn law_client_is_connected(
    req: RequestView,
    address: Seq<char>,
    password: Option<Seq<char>>,
    key: Seq<char>,
    salt: Seq<u8>,
)
    requires
        req.method == "GET"@,
        has_upgrades(req.version),
        req.uri == "/sync"@,
        carries_fields(req.fields, client_headers(address, password, key)),
    ensures
        is_handshake(req),
        response(req, server_hash(password, salt), salt) == grant(
            req.version,
            accept_key(encode_utf8(key)),
            match server_hash(password, salt) {
                Some(_) => Some(base64_encoded(salt)),
                None => None,
            },
        ),
        response(req, None, salt).status == SWITCHING_PROTOCOLS,
{
    let headers = client_headers(address, password, key);
    assert(headers[0] == ("sec-websocket-key"@, key));
    assert(headers[3] == ("connection"@, "upgrade"@));
    assert(headers[4] == ("sec-websocket-version"@, "13"@));
    if let Some(password) = password {
        assert(headers[5] == ("x-password"@, password));
    }
    lemma_upgrade_alone();
}

/// The value of a request is all that the server reads of it.
pub proof fn law_requests_are_kept(req: Request, res: Response, hash: [u8; 32])
    ensures
        req@.method == req.method@,
        req@.version == req.version,
        req@.uri == req.uri@,
        req@.fields == header_values(req.headers),
        res@.status == res.status,
        res@.version == res.version,
        res@.fields == header_values(res.headers),
        res@.body == res.body@,
        hash_of(Some(hash)) == Some(hash@),
        hash_of(None) is None,
{
}

/// A list with a separator has the item `upgrade` exactly when the part in front of the
/// separator has it or the part behind does, and both parts are visible.
pub proof fn law_either_part_of_a_list_counts(a: Seq<u8>, separator: u8, b: Seq<u8>)
    requires
        separator == 0x20 || separator == 0x2c,
    ensures
        lists_upgrade(a.push(separator) + b) <==> (lists_upgrade(a) || lists_upgrade(b)) && (
        forall|i: int| 0 <= i < a.len() ==> 32 <= #[trigger] a[i] < 127 || a[i] == 9) && (forall|
            i: int,
        |
            0 <= i < b.len() ==> 32 <= #[trigger] b[i] < 127 || b[i] == 9),
{
    let value = a.push(separator) + b;
    let n = a.len() as int;
    assert(value[n] == separator);
    assert forall|i: int| 0 <= i < n implies value[i] == #[trigger] a[i] by {}
    assert forall|i: int| 0 <= i < b.len() implies value[n + 1 + i] == #[trigger] b[i] by {}
    if forall|i: int| 0 <= i < value.len() ==> is_visible(#[trigger] value[i]) {
        assert forall|i: int| 0 <= i < a.len() implies is_visible(#[trigger] a[i]) by {
            assert(is_visible(value[i]));
        }
        assert forall|i: int| 0 <= i < b.len() implies is_visible(#[trigger] b[i]) by {
            assert(is_visible(value[n + 1 + i]));
        }
    }
    if (forall|i: int| 0 <= i < a.len() ==> is_visible(#[trigger] a[i])) && (forall|i: int|
        0 <= i < b.len() ==> is_visible(#[trigger] b[i])) {
        assert forall|i: int| 0 <= i < value.len() implies is_visible(#[trigger] value[i]) by {
            if i < n {
                assert(value[i] == a[i]);
            } else if i > n {
                assert(value[i] == b[i - n - 1]);
            }
        }
    }
    assert forall|s: int, e: int| is_item(a, s, e) && is_upgrade_word(a, s, e) implies is_item(
        value,
        s,
        e,
    ) && is_upgrade_word(value, s, e) by {
        assert forall|i: int| s <= i < e implies !is_separator(#[trigger] value[i]) by {
            assert(value[i] == a[i]);
        }
        assert forall|i: int| 0 <= i < upgrade_word().len() implies ascii_lower(
            #[trigger] value[s + i],
        ) == upgrade_word()[i] by {
            assert(value[s + i] == a[s + i]);
        }
    }
    assert forall|s: int, e: int| is_item(b, s, e) && is_upgrade_word(b, s, e) implies is_item(
        value,
        s + n + 1,
        e + n + 1,
    ) && is_upgrade_word(value, s + n + 1, e + n + 1) by {
        assert forall|i: int| s + n + 1 <= i < e + n + 1 implies !is_separator(
            #[trigger] value[i],
        ) by {
            assert(value[i] == b[i - n - 1]);
        }
        assert forall|i: int| 0 <= i < upgrade_word().len() implies ascii_lower(
            #[trigger] value[s + n + 1 + i],
        ) == upgrade_word()[i] by {
            assert(value[s + n + 1 + i] == b[s + i]);
        }
    }
    assert forall|s: int, e: int|
        #![trigger is_item(value, s, e)]
        is_item(value, s, e) && is_upgrade_word(value, s, e) implies (is_item(a, s, e)
        && is_upgrade_word(a, s, e)) || (is_item(b, s - n - 1, e - n - 1) && is_upgrade_word(
        b,
        s - n - 1,
        e - n - 1,
    )) by {
        if s <= n && n < e {
            assert(!is_separator(value[n]));
        }
        if e <= n {
            assert forall|i: int| s <= i < e implies !is_separator(#[trigger] a[i]) by {
                assert(value[i] == a[i]);
            }
            assert forall|i: int| 0 <= i < upgrade_word().len() implies ascii_lower(
                #[trigger] a[s + i],
            ) == upgrade_word()[i] by {
                assert(value[s + i] == a[s + i]);
            }
        } else {
            let s2 = s - n - 1;
            let e2 = e - n - 1;
            assert forall|i: int| s2 <= i < e2 implies !is_separator(#[trigger] b[i]) by {
                assert(value[n + 1 + i] == b[i]);
            }
            assert forall|i: int| 0 <= i < upgrade_word().len() implies ascii_lower(
                #[trigger] b[s2 + i],
            ) == upgrade_word()[i] by {
                assert(value[s + i] == b[s2 + i]);
            }
        }
    }
}

/// A list without a separator has the item `upgrade` exactly when it is that word, each
/// letter in either case.
pub proof fn law_single_item_is_the_word(value: Seq<u8>)
    requires
        forall|i: int| 0 <= i < value.len() ==> #[trigger] value[i] != 0x20 && value[i] != 0x2c,
    ensures
        lists_upgrade(value) <==> {
            &&& value.len() == 7
            &&& value[0] == 0x75 || value[0] == 0x55
            &&& value[1] == 0x70 || value[1] == 0x50
            &&& value[2] == 0x67 || value[2] == 0x47
            &&& value[3] == 0x72 || value[3] == 0x52
            &&& value[4] == 0x61 || value[4] == 0x41
            &&& value[5] == 0x64 || value[5] == 0x44
            &&& value[6] == 0x65 || value[6] == 0x45
        },
{
    let n = value.len() as int;
    assert(is_item(value, 0, n));
    assert forall|s: int, e: int| #[trigger] is_item(value, s, e) implies s == 0 && e == n by {
        if s > 0 {
            assert(value[s - 1] != 0x20);
        }
        if e < n {
            assert(value[e] != 0x20);
        }
    }
    if is_upgrade_word(value, 0, n) {
        assert(ascii_lower(value[0int + 0]) == upgrade_word()[0]);
        assert(ascii_lower(value[0int + 1]) == upgrade_word()[1]);
        assert(ascii_lower(value[0int + 2]) == upgrade_word()[2]);
        assert(ascii_lower(value[0int + 3]) == upgrade_word()[3]);
        assert(ascii_lower(value[0int + 4]) == upgrade_word()[4]);
        assert(ascii_lower(value[0int + 5]) == upgrade_word()[5]);
        assert(ascii_lower(value[0int + 6]) == upgrade_word()[6]);
    }
}

/// What a handshake is: a GET request by HTTP/1.1 or later for `/sync` that lists the
/// upgrade, speaks version 13 of the protocol and names a key.
pub proof fn law_handshake_is_a_proper_request(req: RequestView)
    ensures
        is_handshake(req) <==> {
            &&& req.method == "GET"@
            &&& req.version is Http11 || req.version is Http2 || req.version is Http3
            &&& first_value(req.fields, "connection"@) is Some
            &&& lists_upgrade(first_value(req.fields, "connection"@)->Some_0)
            &&& first_value(req.fields, "sec-websocket-version"@) == Some(encode_utf8("13"@))
            &&& first_value(req.fields, "sec-websocket-key"@) is Some
            &&& req.uri == "/sync"@ || req.uri == "/sync?"@
        },
        has_upgrades(req.version) <==> !(req.version is Http09) && !(req.version is Http10),
{
}

/// Each way in which a request falls short has its own reason, told in full in the body of
/// a response without fields.
pub proof fn law_each_refusal_has_its_reason(req: RequestView, hash: Seq<u8>, salt: Seq<u8>)
    ensures
        !is_handshake(req) ==> response(req, None, salt) == refusal(
            "failed to establish websocket connection"@,
        ),
        !is_handshake(req) ==> response(req, Some(hash), salt) == refusal(
            "failed to establish websocket connection"@,
        ),
        is_handshake(req) && first_value(req.fields, "x-password"@) is None ==> response(
            req,
            Some(hash),
            salt,
        ) == refusal("no password"@),
        is_handshake(req) && first_value(req.fields, "x-password"@) is Some && pbkdf2_sha256(
            first_value(req.fields, "x-password"@)->Some_0,
            salt,
            60_000u32,
        ) != hash ==> response(req, Some(hash), salt) == refusal("invalid password"@),
{
}

/// A refusal is an ordinary response: status 200 by HTTP/1.1, no fields, and the reason.
pub proof fn law_refusal_is_its_reason(reason: Seq<char>)
    ensures
        refusal(reason).status == 200,
        refusal(reason).version is Http11,
        forall|name: Seq<char>| !#[trigger] refusal(reason).fields.contains_key(name),
        refusal(reason).body == BodyView::Full(encode_utf8(reason)),
{
}

/// Who is let in is answered by status 101 in the version of the request, with the answer
/// to the very key that was sent, and with the salt exactly where there is a password.
pub proof fn law_granted_answer(
    req: RequestView,
    hash: Option<Seq<u8>>,
    salt: Seq<u8>,
    name: Seq<char>,
)
    requires
        is_handshake(req),
        hash matches Some(hash) ==> (first_value(req.fields, "x-password"@) matches Some(password)
            && pbkdf2_sha256(password, salt, 60_000u32) == hash),
    ensures
        ({
            let res = response(req, hash, salt);
            let key = first_value(req.fields, "sec-websocket-key"@)->Some_0;
            &&& res.status == 101
            &&& res.version == req.version
            &&& res.body is Empty
            &&& res.fields.contains_key(name) <==> name == "connection"@ || name == "upgrade"@
                || name == "sec-websocket-accept"@ || (name == "x-salt"@ && hash is Some)
            &&& res.fields["connection"@] == seq![encode_utf8("Upgrade"@)]
            &&& res.fields["upgrade"@] == seq![encode_utf8("websocket"@)]
            &&& res.fields["sec-websocket-accept"@] == seq![encode_utf8(accept_key(key))]
            &&& hash is Some ==> res.fields["x-salt"@] == seq![encode_utf8(base64_encoded(salt))]
        }),
{
    lemma_field_names();
}

/// A grant is status 101 without a body, and tells of a salt only where one is given.
pub proof fn law_grant_answers_the_key(version: Version, accept: Seq<char>, salt: Seq<char>)
    ensures
        grant(version, accept, None).status == 101,
        grant(version, accept, None).version == version,
        grant(version, accept, None).body is Empty,
        grant(version, accept, None).fields["sec-websocket-accept"@] == seq![encode_utf8(accept)],
        grant(version, accept, None).fields["connection"@] == seq![encode_utf8("Upgrade"@)],
        grant(version, accept, None).fields["upgrade"@] == seq![encode_utf8("websocket"@)],
        !grant(version, accept, None).fields.contains_key("x-salt"@),
        grant(version, accept, Some(salt)).status == 101,
        grant(version, accept, Some(salt)).version == version,
        grant(version, accept, Some(salt)).body is Empty,
        grant(version, accept, Some(salt)).fields == grant(version, accept, None).fields.insert(
            "x-salt"@,
            seq![encode_utf8(salt)],
        ),
{
    lemma_field_names();
}

/// Two hashes that differ in any byte are refused, and two equal ones are granted.
pub proof fn law_hashes_are_compared_whole(
    version: Version,
    accept: Seq<char>,
    hash: Seq<u8>,
    new_hash: Seq<u8>,
    salt: Seq<char>,
)
    ensures
        hash != new_hash ==> answer_password(version, accept, hash, new_hash, salt) == refusal(
            "invalid password"@,
        ),
        answer_password(version, accept, hash, hash, salt) == grant(version, accept, Some(salt)),
{
}

/// A server without a password has no hash; the hash of any other is what PBKDF2 derives
/// in 60000 rounds from the whole password and the whole salt.
pub proof fn law_server_hash_is_derived(password: Seq<char>, salt: Seq<u8>)
    ensures
        server_hash(None, salt) is None,
        server_hash(Some(password), salt) == Some(
            pbkdf2_sha256(encode_utf8(password), salt, 60_000u32),
        ),
{
}

/// A server listens at the address that was given, and at the port behind its last colon.
pub proof fn law_listens_where_it_is_told(address: Seq<char>, port: u16)
    ensures
        ({
            let text = listen_address(address, port);
            let colon = address.len() as int;
            &&& text.len() == colon + 1 + decimal(port as nat).len()
            &&& text.subrange(0, colon) == address
            &&& text[colon] == ':'
            &&& text.subrange(colon + 1, text.len() as int) == decimal(port as nat)
        }),
{
    reveal_strlit(":");
    let text = listen_address(address, port);
    let colon = address.len() as int;
    assert(text.subrange(0, colon) =~= address);
    assert(text.subrange(colon + 1, text.len() as int) =~= decimal(port as nat));
}

} // verus!
