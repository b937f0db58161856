//! What a worker hands to its HTTP client before each exchange: the URL, the header
//! list and the method of the endpoint. The exchange itself is the caller's.

use crate::endpoint::{Endpoint, EndpointView};
use crate::error::{RequestError, UnsupportedFeatureError};
use crate::text::same_text;
use vstd::prelude::*;
use vstd::string::StringExecFns;

verus! {

/// The client of one worker: `curl::easy::Easy`, a handle whose settings last from one
/// exchange to the next.
#[verifier::external_type_specification]
#[verifier::external_body]
pub struct ExEasy(curl::easy::Easy);

/// `curl::easy::List`, a linked list of strings.
#[verifier::external_type_specification]
#[verifier::external_body]
pub struct ExList(curl::easy::List);

/// `curl::Error`, the error of every call into the client.
#[verifier::external_type_specification]
#[verifier::external_body]
pub struct ExError(curl::Error);

/// The strings that a `curl::easy::List` holds, first to last.
pub uninterp spec fn list_lines(list: curl::easy::List) -> Seq<Seq<char>>;

/// `curl::easy::List::new` makes a list that holds nothing.
pub assume_specification[ curl::easy::List::new ]() -> (list: curl::easy::List)
    ensures
        list_lines(list) == Seq::<Seq<char>>::empty(),
;

/// `curl::easy::List::append` turns `data` into a C string, which fails exactly where
/// `data` holds a NUL character, and then adds it behind the last string of the list. On
/// failure the list is as it was.
pub assume_specification[ curl::easy::List::append ](
    list: &mut curl::easy::List,
    data: &str,
) -> (r: Result<(), curl::Error>)
    ensures
        r is Ok <==> !data@.contains('\0'),
        r is Ok ==> list_lines(*final(list)) == list_lines(*old(list)).push(data@),
        r is Err ==> list_lines(*final(list)) == list_lines(*old(list)),
;

/// `curl::easy::Easy::url` sets the URL of the next exchanges. It turns `url` into a C
/// string first, so a URL with a NUL character is refused; the client may refuse others.
pub assume_specification[ curl::easy::Easy::url ](
    client: &mut curl::easy::Easy,
    url: &str,
) -> (r: Result<(), curl::Error>)
    ensures
        url@.contains('\0') ==> r is Err,
;

/// `curl::easy::Easy::http_headers` sets the headers of the next exchanges. Nothing is
/// promised of its result.
pub assume_specification[ curl::easy::Easy::http_headers ](
    client: &mut curl::easy::Easy,
    list: curl::easy::List,
) -> Result<(), curl::Error>
;

/// `curl::easy::Easy::get` asks for a GET request. Nothing is promised of its result.
pub assume_specification[ curl::easy::Easy::get ](
    client: &mut curl::easy::Easy,
    enable: bool,
) -> Result<(), curl::Error>
;

/// `curl::easy::Easy::post` asks for a POST request. Nothing is promised of its result.
pub assume_specification[ curl::easy::Easy::post ](
    client: &mut curl::easy::Easy,
    enable: bool,
) -> Result<(), curl::Error>
;

/// `curl::easy::Easy::put` asks for a PUT request. Nothing is promised of its result.
pub assume_specification[ curl::easy::Easy::put ](
    client: &mut curl::easy::Easy,
    enable: bool,
) -> Result<(), curl::Error>
;

/// The methods that the transport supports.
#[derive(Debug, Clone, Copy, PartialEq, Eq)]
pub enum Method {
    Get,
    Post,
    Put,
}

/// The method that `name` names: `GET`, `POST` or `PUT`, in capitals.
pub open spec fn method_named(name: Seq<char>) -> Option<Method> {
    if name == "GET"@ {
        Some(Method::Get)
    } else if name == "POST"@ {
        Some(Method::Post)
    } else if name == "PUT"@ {
        Some(Method::Put)
    } else {
        None
    }
}

/// The header `key` with the value `value`, as one line.
pub open spec fn header_line(key: Seq<char>, value: Seq<char>) -> Seq<char> {
    key + ": "@ + value
}

/// The headers of `e`, each as one line, in their order.
pub open spec fn header_lines_of(e: EndpointView) -> Seq<Seq<char>> {
    Seq::new(e.headers.len(), |i: int| header_line(e.headers[i].0, e.headers[i].1))
}

/// Every header line of `e` can be handed to the client: none holds a NUL character.
pub open spec fn headers_acceptable(e: EndpointView) -> bool {
    forall|i: int| 0 <= i < e.headers.len() ==> !(#[trigger] header_lines_of(e)[i]).contains('\0')
}

/// The client can be asked for `e`: its method is supported, and neither its URL nor a
/// header line of it holds a NUL character.
pub open spec fn sendable(e: EndpointView) -> bool {
    &&& method_named(e.method) is Some
    &&& !e.url.contains('\0')
    &&& headers_acceptable(e)
}

impl Method {
    /// The method of the name `name`. Another name than `GET`, `POST` and `PUT` is
    /// refused.
    pub fn from_name(name: &str) -> (r: Result<Method, UnsupportedFeatureError>)
        ensures
            match r {
                Ok(method) => method_named(name@) == Some(method),
                Err(e) => method_named(name@) is None && e == UnsupportedFeatureError::Method,
            },
    {
        if same_text(name, "GET") {
            Ok(Method::Get)
        } else if same_text(name, "POST") {
            Ok(Method::Post)
        } else if same_text(name, "PUT") {
            Ok(Method::Put)
        } else {
            Err(UnsupportedFeatureError::Method)
        }
    }
}

/// What an answer of the client means for the attempt: the attempt goes on where the
/// client agreed, and fails with the client's error where it did not.
pub fn client_outcome(answer: Result<(), curl::Error>) -> (r: Result<(), RequestError>)
    ensures
        r == match answer {
            Ok(()) => Ok::<(), RequestError>(()),
            Err(e) => Err(RequestError::Transport(e)),
        },
{
    match answer {
        Ok(()) => Ok(()),
        Err(e) => Err(RequestError::Transport(e)),
    }
}

impl Endpoint {
    /// The headers as a list for the client. It fails where a header line holds a NUL
    /// character, and only there.
    pub fn create_header_list(&self) -> (r: Result<curl::easy::List, RequestError>)
        ensures
            r is Ok <==> headers_acceptable(self@),
            r matches Ok(list) ==> list_lines(list) == header_lines_of(self@),
            r is Err ==> r matches Err(RequestError::Transport(_)),
    {
        let mut list = curl::easy::List::new();
        let ghost lines = header_lines_of(self@);
        let mut i: usize = 0;
        while i < self.headers.len()
            invariant
                i <= self.headers.len(),
                lines == header_lines_of(self@),
                lines.len() == self.headers@.len(),
                list_lines(list) == lines.take(i as int),
                forall|j: int| 0 <= j < i ==> !(#[trigger] lines[j]).contains('\0'),
            decreases self.headers.len() - i,
        {
            let mut line = self.headers[i].0.clone();
            line.append(": ");
            line.append(self.headers[i].1.as_str());
            assert(line@ == lines[i as int]);
            match client_outcome(list.append(line.as_str())) {
                Ok(()) => {},
                Err(e) => {
                    return Err(e);
                },
            }
            assert(lines.take(i as int).push(lines[i as int]) =~= lines.take(i + 1));
            i += 1;
        }
        assert(lines.take(i as int) =~= lines);
        Ok(list)
    }

    /// Sets `client` up for the exchange with this endpoint: its URL, its headers and its
    /// method. The caller then performs the exchange.
    ///
    /// An unsupported method is refused before the client is touched. Otherwise the
    /// client decides: it may refuse any setting, and it refuses a URL or a header line
    /// with a NUL character.
    pub fn prepare_request(&self, client: &mut curl::easy::Easy) -> (r: Result<(), RequestError>)
        ensures
            method_named(self@.method) is None <==> r matches Err(
                RequestError::Unsupported(UnsupportedFeatureError::Method),
            ),
            method_named(self@.method) is Some && !sendable(self@) ==> r matches Err(
                RequestError::Transport(_),
            ),
            r is Err ==> r matches Err(RequestError::Transport(_)) || r matches Err(
                RequestError::Unsupported(UnsupportedFeatureError::Method),
            ),
    {
        let method = match Method::from_name(self.method.as_str()) {
            Ok(method) => method,
            Err(e) => {
                return Err(RequestError::Unsupported(e));
            },
        };
        let list = match self.create_header_list() {
            Ok(list) => list,
            Err(e) => {
                return Err(e);
            },
        };
        match client_outcome(client.url(self.url.as_str())) {
            Ok(()) => {},
            Err(e) => {
                return Err(e);
            },
        }
        match client_outcome(client.http_headers(list)) {
            Ok(()) => {},
            Err(e) => {
                return Err(e);
            },
        }
        client_outcome(
            match method {
                Method::Get => client.get(true),
                Method::Post => client.post(true),
                Method::Put => client.put(true),
            },
        )
    }
}

} // verus!
