//! Outbound requests, built from a configuration.

use vstd::prelude::*;
use vstd::string::StringExecFns;
use crate::extract::{lookup, RequestConfig};
use crate::schema::{FieldValue, FieldView};

verus! {

/// The mathematical value of a list of pairs of strings.
pub open spec fn pairs_view(pairs: Seq<(String, String)>) -> Seq<(Seq<char>, Seq<char>)> {
    Seq::new(pairs.len(), |i: int| (pairs[i].0@, pairs[i].1@))
}

/// A copy of a list of pairs of strings.
pub fn clone_pairs(pairs: &Vec<(String, String)>) -> (r: Vec<(String, String)>)
    ensures
        pairs_view(r@) == pairs_view(pairs@),
{
    let mut out: Vec<(String, String)> = Vec::new();
    let mut i: usize = 0;
    while i < pairs.len()
        invariant
            i <= pairs.len(),
            out@.len() == i,
            forall|j: int|
                0 <= j < i ==> (#[trigger] out@[j]).0@ == pairs@[j].0@ && out@[j].1@
                    == pairs@[j].1@,
        decreases pairs.len() - i,
    {
        out.push((pairs[i].0.clone(), pairs[i].1.clone()));
        i = i + 1;
    }
    assert(pairs_view(out@) =~= pairs_view(pairs@));
    out
}

/// What goes out with an HTTP request besides its target: the body, already
/// serialized, and the headers.
#[derive(Debug)]
pub struct RequestPayload {
    body: String,
    headers: Vec<(String, String)>,
}

/// The mathematical value of a [`RequestPayload`].
pub ghost struct PayloadView {
    pub body: Seq<char>,
    pub headers: Seq<(Seq<char>, Seq<char>)>,
}

impl View for RequestPayload {
    type V = PayloadView;

    closed spec fn view(&self) -> PayloadView {
        PayloadView { body: self.body@, headers: pairs_view(self.headers@) }
    }
}

/// The headers of a payload whose caller passed `headers` as one string: the
/// content type of the body, and the caller's string under the name
/// `headers`.
pub open spec fn payload_headers(headers: Seq<char>) -> Seq<(Seq<char>, Seq<char>)> {
    seq![("Content-Type"@, "application/json"@), ("headers"@, headers)]
}

impl RequestPayload {
    /// The payload for `body`, a serialized JSON document, and the caller's
    /// `headers` string.
    pub fn new(body: &str, headers: &str) -> (r: RequestPayload)
        ensures
            r@ == (PayloadView { body: body@, headers: payload_headers(headers@) }),
    {
        let mut list: Vec<(String, String)> = Vec::new();
        list.push((String::from_str("Content-Type"), String::from_str("application/json")));
        list.push((String::from_str("headers"), String::from_str(headers)));
        assert(pairs_view(list@) =~= payload_headers(headers@));
        RequestPayload { body: String::from_str(body), headers: list }
    }

    pub fn body(&self) -> (r: &String)
        ensures
            r@ == self@.body,
    {
        &self.body
    }

    pub fn headers(&self) -> (r: &Vec<(String, String)>)
        ensures
            pairs_view(r@) == self@.headers,
    {
        &self.headers
    }
}

/// The method of an HTTP request. This library only posts.
#[derive(Clone, Copy, Debug, PartialEq, Eq, Structural)]
pub enum Method {
    Post,
}

/// A request as the transport takes it. `timeout` is in seconds; `None`
/// means that no limit is set.
#[derive(Debug)]
pub struct HttpRequest {
    pub method: Method,
    pub url: String,
    pub headers: Vec<(String, String)>,
    pub body: String,
    pub timeout: Option<u32>,
}

/// The mathematical value of an [`HttpRequest`].
pub ghost struct HttpRequestView {
    pub method: Method,
    pub url: Seq<char>,
    pub headers: Seq<(Seq<char>, Seq<char>)>,
    pub body: Seq<char>,
    pub timeout: Option<int>,
}

impl View for HttpRequest {
    type V = HttpRequestView;

    open spec fn view(&self) -> HttpRequestView {
        HttpRequestView {
            method: self.method,
            url: self.url@,
            headers: pairs_view(self.headers@),
            body: self.body@,
            timeout: match self.timeout {
                Some(t) => Some(t as int),
                None => None,
            },
        }
    }
}

/// The string in the field `name` of a record, if it holds one.
pub open spec fn text_of(fields: Seq<(Seq<char>, FieldView)>, name: Seq<char>) -> Option<
    Seq<char>,
> {
    match lookup(fields, name) {
        Some(FieldView::Text(s)) => Some(s),
        _ => None,
    }
}

/// The number in the field `name` of a record, if it holds one.
pub open spec fn number_of(fields: Seq<(Seq<char>, FieldView)>, name: Seq<char>) -> Option<int> {
    match lookup(fields, name) {
        Some(FieldView::Number(n)) => Some(n),
        _ => None,
    }
}

/// The POST that `config` and `payload` determine, where `config` names a
/// target: every configured value is copied, and a timeout that was left
/// unset is left out.
pub open spec fn post_of(config: Seq<(Seq<char>, FieldView)>, payload: PayloadView) -> Option<
    HttpRequestView,
> {
    match text_of(config, "url"@) {
        Some(url) => Some(
            HttpRequestView {
                method: Method::Post,
                url,
                headers: payload.headers,
                body: payload.body,
                timeout: number_of(config, "timeout"@),
            },
        ),
        None => None,
    }
}

/// Builds the POST for `config` and `payload`. There is none where `config`
/// has no text field `url`.
pub fn http_request(config: &RequestConfig, payload: &RequestPayload) -> (r: Option<HttpRequest>)
    ensures
        match r {
            Some(request) => post_of(config@, payload@) == Some(request@),
            None => post_of(config@, payload@) is None,
        },
{
    match config.text("url") {
        Some(url) => Some(
            HttpRequest {
                method: Method::Post,
                url: url.clone(),
                headers: clone_pairs(payload.headers()),
                body: payload.body().clone(),
                timeout: config.number("timeout"),
            },
        ),
        None => None,
    }
}

/// What a node connection is opened with: the node's address, and the
/// options that were given a value, each under its field's name.
#[derive(Debug)]
pub struct ConnectionRequest {
    pub url: String,
    pub options: Vec<(String, FieldValue)>,
}

/// The mathematical value of a [`ConnectionRequest`].
pub ghost struct ConnectionView {
    pub url: Seq<char>,
    pub options: Seq<(Seq<char>, FieldView)>,
}

impl View for ConnectionRequest {
    type V = ConnectionView;

    open spec fn view(&self) -> ConnectionView {
        ConnectionView {
            url: self.url@,
            options: Seq::new(
                self.options@.len(),
                |i: int| (self.options@[i].0@, self.options@[i].1@),
            ),
        }
    }
}

/// Whether a field of a configuration is passed on as an option: it is not
/// the address, and it has a value.
pub open spec fn is_option(field: (Seq<char>, FieldView)) -> bool {
    field.0 != "url"@ && !(field.1 is Unset)
}

/// The connection that `config` determines, where `config` names an address.
/// Unset fields are left out; the others keep their order.
pub open spec fn connection_of(config: Seq<(Seq<char>, FieldView)>) -> Option<ConnectionView> {
    match text_of(config, "url"@) {
        Some(url) => Some(
            ConnectionView { url, options: config.filter(|f: (Seq<char>, FieldView)| is_option(f)) },
        ),
        None => None,
    }
}

/// Builds the connection request for `config`. There is none where `config`
/// has no text field `url`.
pub fn connection_request(config: &RequestConfig) -> (r: Option<ConnectionRequest>)
    ensures
        match r {
            Some(request) => connection_of(config@) == Some(request@),
            None => connection_of(config@) is None,
        },
{
    let url = match config.text("url") {
        Some(url) => url.clone(),
        None => { return None; },
    };
    let address = String::from_str("url");
    let ghost keep = |f: (Seq<char>, FieldView)| is_option(f);
    let mut options: Vec<(String, FieldValue)> = Vec::new();
    let mut i: usize = 0;
    proof {
        reveal(Seq::filter);
        assert(config@.take(0) =~= Seq::empty());
    }
    while i < config.len()
        invariant
            i <= config@.len(),
            address@ == "url"@,
            keep == |f: (Seq<char>, FieldView)| is_option(f),
            Seq::new(options@.len(), |k: int| (options@[k].0@, options@[k].1@))
                == config@.take(i as int).filter(keep),
        decreases config@.len() - i,
    {
        let name = config.name_at(i).unwrap();
        let value = config.value_at(i).unwrap();
        proof {
            reveal(Seq::filter);
            assert(config@.take(i + 1).drop_last() =~= config@.take(i as int));
            assert(config@.take(i + 1).last() == config@[i as int]);
        }
        if !(*name == address) && value.is_set() {
            options.push((name.clone(), value.clone()));
        }
        i = i + 1;
        assert(Seq::new(options@.len(), |k: int| (options@[k].0@, options@[k].1@))
            =~= config@.take(i as int).filter(keep));
    }
    assert(config@.take(i as int) =~= config@);
    Some(ConnectionRequest { url, options })
}

} // verus!
