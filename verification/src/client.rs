//! What a client knows of the server it talks to.

use vstd::prelude::*;
use crate::error::ClientError;
use crate::error::ClientErrorView;
use crate::text::chars_of;

verus! {

/// Where the transport finds the certificates for TLS. The library hands these on and
/// never opens them.
#[derive(Debug, PartialEq, Eq)]
pub struct TlsMaterial {
    pub ca_certs: Vec<String>,
    pub client_cert: Option<String>,
    pub client_key: Option<String>,
}

/// The address of the server and the defaults of every call. Once made it does not
/// change, and its address is an absolute URI.
#[derive(Debug, PartialEq, Eq)]
pub struct ClientConfiguration {
    address: String,
    tls: Option<TlsMaterial>,
    token: Option<String>,
    namespace: Option<String>,
    datacenter: Option<String>,
}

/// A `ClientConfiguration` with its texts as sequences.
pub struct ClientConfigurationView {
    pub address: Seq<char>,
    pub tls: Option<TlsMaterial>,
    pub token: Option<Seq<char>>,
    pub namespace: Option<Seq<char>>,
    pub datacenter: Option<Seq<char>>,
}

/// Whether the character is an ASCII letter.
pub open spec fn is_letter(c: char) -> bool {
    ('a' <= c && c <= 'z') || ('A' <= c && c <= 'Z')
}

/// Whether the character may stand in the scheme of a URI.
pub open spec fn is_scheme_char(c: char) -> bool {
    is_letter(c) || ('0' <= c && c <= '9') || c == '+' || c == '-' || c == '.'
}

/// Whether the character may stand in the authority or the path of a URI.
pub open spec fn is_address_char(c: char) -> bool {
    ||| is_letter(c)
    ||| ('0' <= c && c <= '9')
    ||| c == '-' || c == '.' || c == '_' || c == '~'
    ||| c == '%'
    ||| c == '!' || c == '$' || c == '&' || c == '\'' || c == '(' || c == ')'
    ||| c == '*' || c == '+' || c == ',' || c == ';' || c == '='
    ||| c == ':' || c == '@' || c == '/' || c == '[' || c == ']'
}

/// Whether `text` is a URI whose scheme has `k` characters: the scheme begins with a
/// letter, `://` follows it, and after that comes at least one character of an
/// authority or a path.
pub open spec fn is_uri_with_scheme(text: Seq<char>, k: int) -> bool {
    &&& 0 < k
    &&& k + 3 < text.len()
    &&& is_letter(text[0])
    &&& forall|i: int| 0 <= i < k ==> is_scheme_char(#[trigger] text[i])
    &&& text[k] == ':'
    &&& text[k + 1] == '/'
    &&& text[k + 2] == '/'
    &&& forall|i: int| k + 3 <= i < text.len() ==> is_address_char(#[trigger] text[i])
}

/// Whether `text` is an absolute URI that a path can be put behind: it has a scheme
/// and an authority, and neither a query nor a fragment.
pub open spec fn is_absolute_uri(text: Seq<char>) -> bool {
    exists|k: int| is_uri_with_scheme(text, k)
}

/// What is said of an address that is no absolute URI.
pub open spec fn invalid_address() -> Seq<char> {
    "address is not an absolute URI"@
}

fn letter(c: char) -> (r: bool)
    ensures
        r == is_letter(c),
{
    (c >= 'a' && c <= 'z') || (c >= 'A' && c <= 'Z')
}

fn scheme_char(c: char) -> (r: bool)
    ensures
        r == is_scheme_char(c),
{
    letter(c) || (c >= '0' && c <= '9') || c == '+' || c == '-' || c == '.'
}

fn address_char(c: char) -> (r: bool)
    ensures
        r == is_address_char(c),
{
    letter(c) || (c >= '0' && c <= '9') || c == '-' || c == '.' || c == '_' || c == '~' || c == '%'
        || c == '!' || c == '$' || c == '&' || c == '\'' || c == '(' || c == ')' || c == '*'
        || c == '+' || c == ',' || c == ';' || c == '=' || c == ':' || c == '@' || c == '/'
        || c == '[' || c == ']'
}

/// Tells whether a text is an absolute URI.
pub fn check_address(text: &str) -> (r: bool)
    ensures
        r == is_absolute_uri(text@),
{
    let chars = chars_of(text);
    let n = chars.len();
    let mut k: usize = 0;
    while k < n && scheme_char(chars[k])
        invariant
            chars@ == text@,
            n == text@.len(),
            0 <= k <= n,
            forall|i: int| 0 <= i < k ==> is_scheme_char(#[trigger] text@[i]),
        decreases n - k,
    {
        k = k + 1;
    }
    // `k` is where the scheme can end at the latest; `:` is no character of a scheme,
    // so it is also where it must end.
    proof {
        assert forall|j: int| is_uri_with_scheme(text@, j) implies j == k by {
            if j < k {
                assert(is_scheme_char(text@[j]));
            } else if j > k {
                assert(is_scheme_char(text@[k as int]));
            }
        }
    }
    if k == 0 || n - k <= 3 {
        return false;
    }
    if !letter(chars[0]) || chars[k] != ':' || chars[k + 1] != '/' || chars[k + 2] != '/' {
        return false;
    }
    let mut i: usize = k + 3;
    while i < n
        invariant
            chars@ == text@,
            n == text@.len(),
            k + 3 <= i <= n,
            forall|j: int| k + 3 <= j < i ==> is_address_char(#[trigger] text@[j]),
        decreases n - i,
    {
        if !address_char(chars[i]) {
            proof {
                assert(!is_address_char(text@[i as int]));
            }
            return false;
        }
        i = i + 1;
    }
    proof {
        assert(is_uri_with_scheme(text@, k as int));
    }
    true
}

impl View for ClientConfiguration {
    type V = ClientConfigurationView;

    closed spec fn view(&self) -> ClientConfigurationView {
        ClientConfigurationView {
            address: self.address@,
            tls: self.tls,
            token: self.token.deep_view(),
            namespace: self.namespace.deep_view(),
            datacenter: self.datacenter.deep_view(),
        }
    }
}

impl ClientConfiguration {
    #[verifier::type_invariant]
    spec fn valid(self) -> bool {
        is_absolute_uri(self.address@)
    }

    /// A configuration for the server at `address`, with no TLS material, no token
    /// and no defaults. The address has to be an absolute URI.
    pub fn new(address: &str) -> (r: Result<ClientConfiguration, ClientError>)
        ensures
            is_absolute_uri(address@) ==> r is Ok && r->Ok_0@ == (ClientConfigurationView {
                address: address@,
                tls: None,
                token: None,
                namespace: None,
                datacenter: None,
            }),
            !is_absolute_uri(address@) ==> r is Err && r->Err_0@ == (
            ClientErrorView::ValidationError { message: invalid_address() }),
    {
        if check_address(address) {
            Ok(
                ClientConfiguration {
                    address: String::from_str(address),
                    tls: None,
                    token: None,
                    namespace: None,
                    datacenter: None,
                },
            )
        } else {
            Err(
                ClientError::ValidationError {
                    message: String::from_str("address is not an absolute URI"),
                },
            )
        }
    }

    /// The same configuration with this TLS material.
    pub fn with_tls(self, tls: TlsMaterial) -> (r: ClientConfiguration)
        ensures
            r@ == (ClientConfigurationView { tls: Some(tls), ..self@ }),
    {
        proof {
            use_type_invariant(&self);
        }
        ClientConfiguration {
            address: self.address,
            tls: Some(tls),
            token: self.token,
            namespace: self.namespace,
            datacenter: self.datacenter,
        }
    }

    /// The same configuration with this ACL token.
    pub fn with_token(self, token: &str) -> (r: ClientConfiguration)
        ensures
            r@ == (ClientConfigurationView { token: Some(token@), ..self@ }),
    {
        proof {
            use_type_invariant(&self);
        }
        ClientConfiguration {
            address: self.address,
            tls: self.tls,
            token: Some(String::from_str(token)),
            namespace: self.namespace,
            datacenter: self.datacenter,
        }
    }

    /// The same configuration with this namespace for requests that name none.
    pub fn with_namespace(self, namespace: &str) -> (r: ClientConfiguration)
        ensures
            r@ == (ClientConfigurationView { namespace: Some(namespace@), ..self@ }),
    {
        proof {
            use_type_invariant(&self);
        }
        ClientConfiguration {
            address: self.address,
            tls: self.tls,
            token: self.token,
            namespace: Some(String::from_str(namespace)),
            datacenter: self.datacenter,
        }
    }

    /// The same configuration with this datacenter for requests that name none.
    pub fn with_datacenter(self, datacenter: &str) -> (r: ClientConfiguration)
        ensures
            r@ == (ClientConfigurationView { datacenter: Some(datacenter@), ..self@ }),
    {
        proof {
            use_type_invariant(&self);
        }
        ClientConfiguration {
            address: self.address,
            tls: self.tls,
            token: self.token,
            namespace: self.namespace,
            datacenter: Some(String::from_str(datacenter)),
        }
    }

    /// The address of the server.
    pub fn address(&self) -> (r: &String)
        ensures
            r@ == self@.address,
            is_absolute_uri(r@),
    {
        proof {
            use_type_invariant(self);
        }
        &self.address
    }

    /// The TLS material.
    pub fn tls(&self) -> (r: &Option<TlsMaterial>)
        ensures
            *r == self@.tls,
    {
        &self.tls
    }

    /// The ACL token of requests that bring none.
    pub fn token(&self) -> (r: &Option<String>)
        ensures
            r.deep_view() == self@.token,
    {
        &self.token
    }

    /// The namespace of requests that name none.
    pub fn namespace(&self) -> (r: &Option<String>)
        ensures
            r.deep_view() == self@.namespace,
    {
        &self.namespace
    }

    /// The datacenter of requests that name none.
    pub fn datacenter(&self) -> (r: &Option<String>)
        ensures
            r.deep_view() == self@.datacenter,
    {
        &self.datacenter
    }
}

} // verus!
