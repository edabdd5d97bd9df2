//! How a client asks a server for a connection, and what follows from the answer.
use crate::crypto::{
    base64_decode, base64_decoded, base64_encode, base64_encoded, derived_key, draw_key,
    is_drawn_key, pbkdf2_sha256, Cipher,
};
use crate::errors::ProgramError;
use crate::text::{decimal, push_decimal, push_pair, text_of, text_pairs};
use vstd::prelude::*;
use vstd::string::StringExecFns;
use vstd::utf8::encode_utf8;

verus! {

/// The request with which a client opens the connection.
pub struct ClientRequest {
    pub uri: String,
    pub headers: Vec<(String, String)>,
}

/// The value of a `ClientRequest`.
pub ghost struct ClientRequestView {
    pub uri: Seq<char>,
    pub headers: Seq<(Seq<char>, Seq<char>)>,
}

impl View for ClientRequest {
    type V = ClientRequestView;

    open spec fn view(&self) -> ClientRequestView {
        ClientRequestView { uri: self.uri@, headers: text_pairs(self.headers@) }
    }
}

/// Where a server at an address listens for clients.
pub open spec fn sync_uri(address: Seq<char>, port: u16) -> Seq<char> {
    "ws://"@ + address + ":"@ + decimal(port as nat) + "/sync"@
}

/// The header fields of a client's request.
pub open spec fn client_headers(
    address: Seq<char>,
    password: Option<Seq<char>>,
    key: Seq<char>,
) -> Seq<(Seq<char>, Seq<char>)> {
    let fields = seq![
        ("sec-websocket-key"@, key),
        ("host"@, address),
        ("upgrade"@, "websocket"@),
        ("connection"@, "upgrade"@),
        ("sec-websocket-version"@, "13"@),
    ];
    match password {
        Some(password) => fields.push(("x-password"@, password)),
        None => fields,
    }
}

/// A client's request.
pub open spec fn client_request(
    address: Seq<char>,
    port: u16,
    password: Option<Seq<char>>,
    key: Seq<char>,
) -> ClientRequestView {
    ClientRequestView {
        uri: sync_uri(address, port),
        headers: client_headers(address, password, key),
    }
}

/// Where a server at an address listens for clients.
pub fn format_sync_uri(address: &str, port: u16) -> (uri: String)
    ensures
        uri@ == sync_uri(address@, port),
{
    let mut uri = "ws://".to_owned();
    uri.append(address);
    uri.append(":");
    push_decimal(&mut uri, port);
    uri.append("/sync");
    uri
}

/// Makes the request of a client that sends a given WebSocket key.
pub fn connect_with(address: &str, port: u16, password: &Option<String>, key: &str) -> (request:
    ClientRequest)
    ensures
        request@ == client_request(address@, port, text_of(*password), key@),
{
    let mut headers: Vec<(String, String)> = Vec::new();
    push_pair(&mut headers, "sec-websocket-key", key);
    push_pair(&mut headers, "host", address);
    push_pair(&mut headers, "upgrade", "websocket");
    push_pair(&mut headers, "connection", "upgrade");
    push_pair(&mut headers, "sec-websocket-version", "13");
    if let Some(password) = password {
        push_pair(&mut headers, "x-password", password.as_str());
    }
    proof {
        assert(text_pairs(headers@) =~= client_headers(address@, text_of(*password), key@));
    }
    ClientRequest { uri: format_sync_uri(address, port), headers }
}

/// Makes the request of a client. Its WebSocket key is sixteen random bytes in base64.
pub fn connect(address: &str, port: u16, password: &Option<String>) -> (request: ClientRequest)
    ensures
        exists|random: Seq<u8>|
            random.len() == 16 && is_drawn_key(random) && request@ == client_request(
                address@,
                port,
                text_of(*password),
                #[trigger] base64_encoded(random),
            ),
{
    let random = draw_key();
    let key = base64_encode(&random);
    connect_with(address, port, password, key.as_str())
}

/// How a client goes on after the server's answer.
pub enum Negotiated {
    /// Without encryption.
    Plain,
    /// With encryption.
    Encrypted(Cipher),
    /// Not at all: the server sent no salt.
    Failed(ProgramError),
    /// Not at all: what the server sent as a salt is not base64.
    InvalidSalt,
}

/// The key of the clipboard data, for a client that has a password and was sent a salt:
/// nothing where the salt is not base64.
pub open spec fn session_key(password: Seq<char>, salt: Seq<u8>) -> Option<Seq<u8>> {
    match base64_decoded(salt) {
        Some(salt) => Some(derived_key(encode_utf8(password), salt)),
        None => None,
    }
}

/// Settles the encryption, from the password of the client and the salt that came with
/// the server's answer.
pub fn negotiate(password: &Option<String>, salt: Option<&[u8]>) -> (res: Negotiated)
    ensures
        password is None <==> res is Plain,
        password is Some && salt is None <==> res is Failed,
        res matches Negotiated::Failed(error) ==> (error matches ProgramError::Custom(reason)
            && reason@ == "Failed to get salt"@),
        password is Some && salt is Some && session_key(password->Some_0@, salt->Some_0@) is None
            <==> res is InvalidSalt,
        res matches Negotiated::Encrypted(cipher) ==> session_key(
            password->Some_0@,
            salt->Some_0@,
        ) == Some(cipher.key@),
        password is Some && salt is Some ==> match base64_decoded(salt->Some_0@) {
            Some(decoded) => res matches Negotiated::Encrypted(cipher) && cipher.key@
                == pbkdf2_sha256(encode_utf8(password->Some_0@), decoded, 60_000u32),
            None => res is InvalidSalt,
        },
{
    match password {
        None => Negotiated::Plain,
        Some(password) => match salt {
            None => Negotiated::Failed(ProgramError::Custom("Failed to get salt".to_owned())),
            Some(salt) => match base64_decode(salt) {
                Ok(salt) => Negotiated::Encrypted(Cipher::derive(password.as_str(), &salt)),
                Err(_) => Negotiated::InvalidSalt,
            },
        },
    }
}

/// The address of a server and its port stand in the URI as they were given, the port in
/// decimal, between fixed parts.
pub proof fn law_uri_names_address_and_port(address: Seq<char>, port: u16)
    ensures
        ({
            let uri = sync_uri(address, port);
            let colon = 5 + address.len() as int;
            let end = colon + 1 + decimal(port as nat).len() as int;
            &&& uri.len() == end + 5
            &&& uri.subrange(0, 5) == "ws://"@
            &&& uri.subrange(5, colon) == address
            &&& uri[colon] == ':'
            &&& uri.subrange(colon + 1, end) == decimal(port as nat)
            &&& uri.subrange(end, end + 5) == "/sync"@
        }),
{
    reveal_strlit("ws://");
    reveal_strlit(":");
    reveal_strlit("/sync");
    let uri = sync_uri(address, port);
    let colon = 5 + address.len() as int;
    let end = colon + 1 + decimal(port as nat).len() as int;
    assert(uri.subrange(0, 5) =~= "ws://"@);
    assert(uri.subrange(5, colon) =~= address);
    assert(uri.subrange(colon + 1, end) =~= decimal(port as nat));
    assert(uri.subrange(end, end + 5) =~= "/sync"@);
}

/// A client names its key, the address, the upgrade that it wants and the version of the
/// protocol. Its password, where it has one, is one more field behind those, and the
/// only difference that the password makes.
pub proof fn law_client_sends_its_password(
    address: Seq<char>,
    port: u16,
    password: Seq<char>,
    key: Seq<char>,
)
    ensures
        client_headers(address, Some(password), key) == client_headers(address, None, key).push(
            ("x-password"@, password),
        ),
        client_headers(address, None, key).len() == 5,
        client_headers(address, None, key)[0] == ("sec-websocket-key"@, key),
        client_headers(address, None, key)[1] == ("host"@, address),
        client_headers(address, None, key)[2] == ("upgrade"@, "websocket"@),
        client_headers(address, None, key)[3] == ("connection"@, "upgrade"@),
        client_headers(address, None, key)[4] == ("sec-websocket-version"@, "13"@),
        client_request(address, port, Some(password), key).uri == sync_uri(address, port),
        client_request(address, port, Some(password), key).headers == client_headers(
            address,
            Some(password),
            key,
        ),
        client_request(address, port, None, key).uri == sync_uri(address, port),
        client_request(address, port, None, key).headers == client_headers(address, None, key),
{
}

/// The value of a request is its URI and all of its header fields.
pub proof fn law_client_request_is_kept(request: ClientRequest)
    ensures
        request@.uri == request.uri@,
        request@.headers == text_pairs(request.headers@),
{
}

/// The key of the clipboard data is what PBKDF2 derives in 60000 rounds from the whole
/// password and from all the bytes that the salt stands for.
pub proof fn law_session_key_is_derived(password: Seq<char>, salt: Seq<u8>)
    ensures
        session_key(password, salt) is Some <==> base64_decoded(salt) is Some,
        base64_decoded(salt) matches Some(decoded) ==> session_key(password, salt) == Some(
            pbkdf2_sha256(encode_utf8(password), decoded, 60_000u32),
        ),
{
}

} // verus!
