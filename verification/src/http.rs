//! The emulated ISteamHTTP interface: requests and cookie containers held
//! under handles drawn from one counter. Sending a request completes it at
//! once with a fixed JSON answer.
use crate::cbuf::{c_string_in_buffer, string_bytes, utf8_bytes, copy_c_string, copy_prefix, truncated};
use crate::strmap::StrMap;
use std::collections::HashMap;
use vstd::prelude::*;
use vstd::string::*;

verus! {

broadcast use vstd::std_specs::hash::group_hash_axioms;

#[derive(Clone, Copy, PartialEq, Eq, Structural)]
pub enum HttpMethod {
    Get,
    Head,
    Post,
    Put,
    Delete,
    Options,
    Patch,
}

/// The method that a numeric method code stands for; unknown codes mean GET.
pub open spec fn method_of_code(code: i32) -> HttpMethod {
    if code == 1 {
        HttpMethod::Head
    } else if code == 2 {
        HttpMethod::Post
    } else if code == 3 {
        HttpMethod::Put
    } else if code == 4 {
        HttpMethod::Delete
    } else if code == 5 {
        HttpMethod::Options
    } else if code == 6 {
        HttpMethod::Patch
    } else {
        HttpMethod::Get
    }
}

pub fn method_from_code(code: i32) -> (m: HttpMethod)
    ensures
        m == method_of_code(code),
{
    match code {
        1 => HttpMethod::Head,
        2 => HttpMethod::Post,
        3 => HttpMethod::Put,
        4 => HttpMethod::Delete,
        5 => HttpMethod::Options,
        6 => HttpMethod::Patch,
        _ => HttpMethod::Get,
    }
}

/// The map of texts that a string map holds.
/// The method codes of the C API: 1 HEAD, 2 POST, 3 PUT, 4 DELETE,
/// 5 OPTIONS, 6 PATCH; GET for 0 and for every code outside 1 to 6. Each
/// method other than GET has exactly one code.
pub proof fn lemma_method_codes(code: i32)
    ensures
        (method_of_code(code) == HttpMethod::Head) <==> code == 1,
        (method_of_code(code) == HttpMethod::Post) <==> code == 2,
        (method_of_code(code) == HttpMethod::Put) <==> code == 3,
        (method_of_code(code) == HttpMethod::Delete) <==> code == 4,
        (method_of_code(code) == HttpMethod::Options) <==> code == 5,
        (method_of_code(code) == HttpMethod::Patch) <==> code == 6,
        (method_of_code(code) == HttpMethod::Get) <==> (code < 1 || code > 6),
{
}

pub open spec fn text_map(m: Map<Seq<char>, String>) -> Map<Seq<char>, Seq<char>> {
    m.map_values(|v: String| v@)
}

pub struct HttpRequest {
    pub handle: u32,
    pub url: String,
    pub method: HttpMethod,
    pub headers: StrMap<String>,
    pub params: StrMap<String>,
    pub body: Vec<u8>,
    pub response_body: Vec<u8>,
    pub response_headers: StrMap<String>,
    pub status_code: u32,
    pub completed: bool,
    pub cookie_container: u32,
}

pub struct HttpRequestView {
    pub url: Seq<char>,
    pub method: HttpMethod,
    pub headers: Map<Seq<char>, Seq<char>>,
    pub params: Map<Seq<char>, Seq<char>>,
    pub body: Seq<u8>,
    pub response_body: Seq<u8>,
    pub response_headers: Map<Seq<char>, Seq<char>>,
    pub status_code: u32,
    pub completed: bool,
    pub cookie_container: u32,
}

impl HttpRequest {
    pub open spec fn wf(&self) -> bool {
        &&& self.headers.wf()
        &&& self.params.wf()
        &&& self.response_headers.wf()
    }

    pub open spec fn view(&self) -> HttpRequestView {
        HttpRequestView {
            url: self.url@,
            method: self.method,
            headers: text_map(self.headers@),
            params: text_map(self.params@),
            body: self.body@,
            response_body: self.response_body@,
            response_headers: text_map(self.response_headers@),
            status_code: self.status_code,
            completed: self.completed,
            cookie_container: self.cookie_container,
        }
    }
}

/// A request as it stands right after creation.
pub open spec fn fresh_request(url: Seq<char>, method: HttpMethod) -> HttpRequestView {
    HttpRequestView {
        url,
        method,
        headers: Map::empty(),
        params: Map::empty(),
        body: Seq::empty(),
        response_body: Seq::empty(),
        response_headers: Map::empty(),
        status_code: 0,
        completed: false,
        cookie_container: 0,
    }
}

/// The body every sent request receives: `{"success": true}`.
pub open spec fn success_body() -> Seq<u8> {
    seq![123u8, 34, 115, 117, 99, 99, 101, 115, 115, 34, 58, 32, 116, 114, 117, 101, 125]
}

/// A request after it was sent: complete, status 200, the JSON body, and a
/// `Content-Type: application/json` response header.
pub open spec fn sent_request(r: HttpRequestView) -> HttpRequestView {
    HttpRequestView {
        completed: true,
        status_code: 200,
        response_body: success_body(),
        response_headers: r.response_headers.insert("Content-Type"@, "application/json"@),
        ..r
    }
}

/// A sent request answers 200 with the JSON body and a JSON content type,
/// and keeps what the caller set on it: URL, method, headers, parameters and
/// body.
pub proof fn lemma_sent_request_answers(r: HttpRequestView)
    ensures
        sent_request(r).completed,
        sent_request(r).status_code == 200,
        sent_request(r).response_body == success_body(),
        sent_request(r).response_headers.contains_key("Content-Type"@),
        sent_request(r).response_headers["Content-Type"@] == "application/json"@,
        sent_request(r).url == r.url,
        sent_request(r).method == r.method,
        sent_request(r).headers == r.headers,
        sent_request(r).params == r.params,
        sent_request(r).body == r.body,
{
}

pub struct CookieContainer {
    pub handle: u32,
    pub cookies: StrMap<String>,
}

pub struct HttpState {
    pub requests: HashMap<u32, HttpRequest>,
    pub cookie_containers: HashMap<u32, CookieContainer>,
    pub next_handle: u32,
}

pub struct HttpStateView {
    pub requests: Map<u32, HttpRequestView>,
    pub cookie_containers: Map<u32, Map<Seq<char>, Seq<char>>>,
    pub next_handle: u32,
}

impl HttpState {
    /// Every stored request and container is well formed, sits under its own
    /// handle, and that handle was drawn before the counter's current value.
    pub open spec fn wf(&self) -> bool {
        &&& forall|h: u32| #[trigger]
            self.requests@.contains_key(h) ==> self.requests@[h].wf() && self.requests@[h].handle
                == h && h < self.next_handle
        &&& forall|h: u32| #[trigger]
            self.cookie_containers@.contains_key(h) ==> self.cookie_containers@[h].cookies.wf()
                && self.cookie_containers@[h].handle == h && h < self.next_handle
        &&& self.next_handle >= 1
    }

    pub open spec fn view(&self) -> HttpStateView {
        HttpStateView {
            requests: self.requests@.map_values(|r: HttpRequest| r@),
            cookie_containers: self.cookie_containers@.map_values(
                |c: CookieContainer| text_map(c.cookies@),
            ),
            next_handle: self.next_handle,
        }
    }

    pub fn new() -> (s: Self)
        ensures
            s.wf(),
            s@.requests == Map::<u32, HttpRequestView>::empty(),
            s@.cookie_containers == Map::<u32, Map<Seq<char>, Seq<char>>>::empty(),
            s@.next_handle == 1,
    {
        let s = HttpState { requests: HashMap::new(), cookie_containers: HashMap::new(), next_handle: 1 };
        assert(s@.requests =~= Map::<u32, HttpRequestView>::empty());
        assert(s@.cookie_containers =~= Map::<u32, Map<Seq<char>, Seq<char>>>::empty());
        s
    }

    /// Draws the next handle from the counter.
    pub fn next_handle(&mut self) -> (h: u32)
        requires
            old(self).next_handle < u32::MAX,
        ensures
            h == old(self).next_handle,
            final(self).next_handle == h + 1,
            final(self).requests == old(self).requests,
            final(self).cookie_containers == old(self).cookie_containers,
    {
        let h = self.next_handle;
        self.next_handle = h + 1;
        h
    }

    /// Creates a request for `url` (`None` when the caller's text was not
    /// valid UTF-8, which stands for an empty URL) under a fresh handle.
    pub fn create_request(&mut self, method: i32, url: Option<&str>) -> (h: u32)
        requires
            old(self).wf(),
            old(self).next_handle < u32::MAX,
        ensures
            final(self).wf(),
            h == old(self)@.next_handle,
            !old(self)@.requests.contains_key(h),
            final(self)@.next_handle == h + 1,
            final(self)@.requests == old(self)@.requests.insert(
                h,
                fresh_request(
                    match url {
                        Some(u) => u@,
                        None => Seq::empty(),
                    },
                    method_of_code(method),
                ),
            ),
            final(self)@.cookie_containers == old(self)@.cookie_containers,
    {
        let url_string = match url {
            Some(u) => String::from_str(u),
            None => String::new(),
        };
        let h = self.next_handle();
        let request = HttpRequest {
            handle: h,
            url: url_string,
            method: method_from_code(method),
            headers: StrMap::new(),
            params: StrMap::new(),
            body: Vec::new(),
            response_body: Vec::new(),
            response_headers: StrMap::new(),
            status_code: 0,
            completed: false,
            cookie_container: 0,
        };
        let ghost old_view = old(self)@;
        assert(request@.headers =~= Map::empty());
        assert(request@.params =~= Map::empty());
        assert(request@.response_headers =~= Map::empty());
        assert(request@.body =~= Seq::empty());
        assert(request@.response_body =~= Seq::empty());
        self.requests.insert(h, request);
        assert(self@.requests =~= old_view.requests.insert(h, request@));
        assert(self@.cookie_containers =~= old_view.cookie_containers);
        h
    }

    /// Whether `h` names a live request (the answer of the setters that only
    /// check the handle).
    pub fn has_request(&self, h: u32) -> (r: bool)
        ensures
            r == self@.requests.contains_key(h),
    {
        self.requests.contains_key(&h)
    }

    /// Takes the request `h` out, to be changed and put back.
    fn take_request(&mut self, h: u32) -> (r: Option<HttpRequest>)
        requires
            old(self).wf(),
        ensures
            r is Some <==> old(self)@.requests.contains_key(h),
            r matches Some(req) ==> req@ == old(self)@.requests[h] && req.wf() && req.handle == h,
            final(self).requests@ == old(self).requests@.remove(h),
            final(self).cookie_containers == old(self).cookie_containers,
            final(self).next_handle == old(self).next_handle,
            final(self).wf(),
    {
        self.requests.remove(&h)
    }

    fn put_request(&mut self, h: u32, req: HttpRequest)
        requires
            old(self).wf(),
            req.wf(),
            req.handle == h,
            h < old(self).next_handle,
        ensures
            final(self).wf(),
            final(self)@.requests == old(self)@.requests.insert(h, req@),
            final(self)@.cookie_containers == old(self)@.cookie_containers,
            final(self)@.next_handle == old(self)@.next_handle,
    {
        let ghost old_view = old(self)@;
        let ghost v = req@;
        self.requests.insert(h, req);
        assert(self@.requests =~= old_view.requests.insert(h, v));
        assert(self@.cookie_containers =~= old_view.cookie_containers);
    }

    /// Sets a request header; false when `h` names no request.
    pub fn set_header_value(&mut self, h: u32, name: &str, value: &str) -> (ok: bool)
        requires
            old(self).wf(),
        ensures
            final(self).wf(),
            ok == old(self)@.requests.contains_key(h),
            ok ==> final(self)@.requests == old(self)@.requests.insert(
                h,
                HttpRequestView {
                    headers: old(self)@.requests[h].headers.insert(name@, value@),
                    ..old(self)@.requests[h]
                },
            ),
            !ok ==> final(self)@ == old(self)@,
    {
        match self.take_request(h) {
            Some(mut req) => {
                let ghost before = req@;
                req.headers.insert(String::from_str(name), String::from_str(value));
                assert(req@.headers =~= before.headers.insert(name@, value@));
                self.put_request(h, req);
                true
            },
            None => {
                assert(self@.requests =~= old(self)@.requests);
                false
            },
        }
    }

    /// Sets a GET or POST parameter; false when `h` names no request.
    pub fn set_get_or_post_parameter(&mut self, h: u32, name: &str, value: &str) -> (ok: bool)
        requires
            old(self).wf(),
        ensures
            final(self).wf(),
            ok == old(self)@.requests.contains_key(h),
            ok ==> final(self)@.requests == old(self)@.requests.insert(
                h,
                HttpRequestView {
                    params: old(self)@.requests[h].params.insert(name@, value@),
                    ..old(self)@.requests[h]
                },
            ),
            !ok ==> final(self)@ == old(self)@,
    {
        match self.take_request(h) {
            Some(mut req) => {
                let ghost before = req@;
                req.params.insert(String::from_str(name), String::from_str(value));
                assert(req@.params =~= before.params.insert(name@, value@));
                self.put_request(h, req);
                true
            },
            None => {
                assert(self@.requests =~= old(self)@.requests);
                false
            },
        }
    }

    /// Sets the User-Agent header; false when `h` names no request.
    pub fn set_user_agent(&mut self, h: u32, user_agent: &str) -> (ok: bool)
        requires
            old(self).wf(),
        ensures
            final(self).wf(),
            ok == old(self)@.requests.contains_key(h),
            ok ==> final(self)@.requests == old(self)@.requests.insert(
                h,
                HttpRequestView {
                    headers: old(self)@.requests[h].headers.insert("User-Agent"@, user_agent@),
                    ..old(self)@.requests[h]
                },
            ),
            !ok ==> final(self)@ == old(self)@,
    {
        match self.take_request(h) {
            Some(mut req) => {
                let ghost before = req@;
                let name = String::from_str("User-Agent");
                req.headers.insert(name, String::from_str(user_agent));
                assert(req@.headers =~= before.headers.insert("User-Agent"@, user_agent@));
                self.put_request(h, req);
                true
            },
            None => {
                assert(self@.requests =~= old(self)@.requests);
                false
            },
        }
    }

    /// Completes the request at once with status 200 and the JSON body.
    pub fn send_request(&mut self, h: u32) -> (ok: bool)
        requires
            old(self).wf(),
        ensures
            final(self).wf(),
            ok == old(self)@.requests.contains_key(h),
            ok ==> final(self)@.requests == old(self)@.requests.insert(
                h,
                sent_request(old(self)@.requests[h]),
            ),
            !ok ==> final(self)@ == old(self)@,
            final(self)@.cookie_containers == old(self)@.cookie_containers,
            final(self)@.next_handle == old(self)@.next_handle,
    {
        match self.take_request(h) {
            Some(mut req) => {
                let ghost before = req@;
                req.completed = true;
                req.status_code = 200;
                req.response_body = vec![123u8, 34, 115, 117, 99, 99, 101, 115, 115, 34, 58, 32, 116, 114, 117, 101, 125];
                req.response_headers.insert(
                    String::from_str("Content-Type"),
                    String::from_str("application/json"),
                );
                assert(req@.response_body =~= success_body());
                assert(req@.response_headers =~= before.response_headers.insert(
                    "Content-Type"@,
                    "application/json"@,
                ));
                assert(req@ == sent_request(before));
                self.put_request(h, req);
                true
            },
            None => {
                assert(self@.requests =~= old(self)@.requests);
                false
            },
        }
    }

    /// The byte length of response header `name`, when the request and the
    /// header exist.
    pub fn response_header_size(&self, h: u32, name: &String) -> (r: Option<u32>)
        requires
            self.wf(),
        ensures
            r is Some <==> self@.requests.contains_key(h)
                && self@.requests[h].response_headers.contains_key(name@),
            r matches Some(n) ==> n == (utf8_bytes(self@.requests[h].response_headers[name@]).len() as u32),
    {
        match self.requests.get(&h) {
            Some(req) => match req.response_headers.get(name) {
                Some(v) => Some(string_bytes(v).len() as u32),
                None => None,
            },
            None => None,
        }
    }

    /// The bytes written into a buffer of `buffer_size` bytes for response
    /// header `name`: the value, truncated, then a NUL.
    pub fn response_header_value(&self, h: u32, name: &String, buffer_size: u32) -> (r: Option<Vec<u8>>)
        requires
            self.wf(),
            buffer_size >= 1,
        ensures
            r is Some <==> self@.requests.contains_key(h)
                && self@.requests[h].response_headers.contains_key(name@),
            r matches Some(b) ==> b@ == c_string_in_buffer(
                utf8_bytes(self@.requests[h].response_headers[name@]),
                buffer_size as nat,
            ),
    {
        match self.requests.get(&h) {
            Some(req) => match req.response_headers.get(name) {
                Some(v) => Some(copy_c_string(string_bytes(v), buffer_size as usize)),
                None => None,
            },
            None => None,
        }
    }

    /// The response body's length (as a 32-bit size).
    pub fn response_body_size(&self, h: u32) -> (r: Option<u32>)
        ensures
            r is Some <==> self@.requests.contains_key(h),
            r matches Some(n) ==> n == (self@.requests[h].response_body.len() as u32),
    {
        match self.requests.get(&h) {
            Some(req) => Some(req.response_body.len() as u32),
            None => None,
        }
    }

    /// The bytes of the response body that fit into `buffer_size` bytes.
    pub fn response_body_data(&self, h: u32, buffer_size: u32) -> (r: Option<Vec<u8>>)
        ensures
            r is Some <==> self@.requests.contains_key(h),
            r matches Some(b) ==> b@ == truncated(
                self@.requests[h].response_body,
                buffer_size as nat,
            ),
    {
        match self.requests.get(&h) {
            Some(req) => Some(copy_prefix(req.response_body.as_slice(), buffer_size as usize)),
            None => None,
        }
    }

    /// The bytes of the response body from `offset` on that fit into
    /// `buffer_size` bytes; none when the offset lies at or past the end.
    pub fn streaming_body_data(&self, h: u32, offset: u32, buffer_size: u32) -> (r: Option<Vec<u8>>)
        ensures
            r is Some <==> self@.requests.contains_key(h) && offset
                < self@.requests[h].response_body.len(),
            r matches Some(b) ==> b@ == truncated(
                self@.requests[h].response_body.skip(offset as int),
                buffer_size as nat,
            ),
    {
        match self.requests.get(&h) {
            Some(req) => {
                let start = offset as usize;
                if start < req.response_body.len() {
                    let mut rest: Vec<u8> = Vec::new();
                    let mut i = start;
                    while i < req.response_body.len()
                        invariant
                            start <= i <= req.response_body@.len(),
                            rest@ == req.response_body@.subrange(start as int, i as int),
                        decreases req.response_body@.len() - i,
                    {
                        rest.push(req.response_body[i]);
                        i = i + 1;
                        assert(rest@ =~= req.response_body@.subrange(start as int, i as int));
                    }
                    assert(rest@ =~= req.response_body@.skip(offset as int));
                    Some(copy_prefix(rest.as_slice(), buffer_size as usize))
                } else {
                    None
                }
            },
            None => None,
        }
    }

    /// Forgets request `h`; true when it existed.
    pub fn release_request(&mut self, h: u32) -> (ok: bool)
        requires
            old(self).wf(),
        ensures
            final(self).wf(),
            ok == old(self)@.requests.contains_key(h),
            final(self)@.requests == old(self)@.requests.remove(h),
            final(self)@.cookie_containers == old(self)@.cookie_containers,
            final(self)@.next_handle == old(self)@.next_handle,
    {
        let ghost old_view = old(self)@;
        let r = self.requests.remove(&h);
        assert(self@.requests =~= old_view.requests.remove(h));
        assert(self@.cookie_containers =~= old_view.cookie_containers);
        r.is_some()
    }

    /// Sets the request body; a content type that is given (and readable)
    /// becomes the Content-Type header.
    pub fn set_raw_post_body(&mut self, h: u32, content_type: Option<&str>, body: &[u8]) -> (ok: bool)
        requires
            old(self).wf(),
        ensures
            final(self).wf(),
            ok == old(self)@.requests.contains_key(h),
            ok ==> final(self)@.requests == old(self)@.requests.insert(
                h,
                HttpRequestView {
                    body: body@,
                    headers: match content_type {
                        Some(ct) => old(self)@.requests[h].headers.insert("Content-Type"@, ct@),
                        None => old(self)@.requests[h].headers,
                    },
                    ..old(self)@.requests[h]
                },
            ),
            !ok ==> final(self)@ == old(self)@,
    {
        match self.take_request(h) {
            Some(mut req) => {
                let ghost before = req@;
                req.body = copy_prefix(body, body.len());
                assert(req.body@ =~= body@);
                match content_type {
                    Some(ct) => {
                        req.headers.insert(String::from_str("Content-Type"), String::from_str(ct));
                        assert(req@.headers =~= before.headers.insert("Content-Type"@, ct@));
                    },
                    None => {},
                }
                self.put_request(h, req);
                true
            },
            None => {
                assert(self@.requests =~= old(self)@.requests);
                false
            },
        }
    }

    /// Creates an empty cookie container under a fresh handle.
    pub fn create_cookie_container(&mut self) -> (h: u32)
        requires
            old(self).wf(),
            old(self).next_handle < u32::MAX,
        ensures
            final(self).wf(),
            h == old(self)@.next_handle,
            !old(self)@.cookie_containers.contains_key(h),
            final(self)@.next_handle == h + 1,
            final(self)@.cookie_containers == old(self)@.cookie_containers.insert(h, Map::empty()),
            final(self)@.requests == old(self)@.requests,
    {
        let ghost old_view = old(self)@;
        let h = self.next_handle();
        let c = CookieContainer { handle: h, cookies: StrMap::new() };
        assert(text_map(c.cookies@) =~= Map::empty());
        self.cookie_containers.insert(h, c);
        assert(self@.cookie_containers =~= old_view.cookie_containers.insert(h, Map::empty()));
        assert(self@.requests =~= old_view.requests);
        h
    }

    /// Forgets cookie container `h`; true when it existed.
    pub fn release_cookie_container(&mut self, h: u32) -> (ok: bool)
        requires
            old(self).wf(),
        ensures
            final(self).wf(),
            ok == old(self)@.cookie_containers.contains_key(h),
            final(self)@.cookie_containers == old(self)@.cookie_containers.remove(h),
            final(self)@.requests == old(self)@.requests,
            final(self)@.next_handle == old(self)@.next_handle,
    {
        let ghost old_view = old(self)@;
        let r = self.cookie_containers.remove(&h);
        assert(self@.cookie_containers =~= old_view.cookie_containers.remove(h));
        assert(self@.requests =~= old_view.requests);
        r.is_some()
    }

    /// Stores `cookie` for `host` in container `h`.
    pub fn set_cookie(&mut self, h: u32, host: &str, cookie: &str) -> (ok: bool)
        requires
            old(self).wf(),
        ensures
            final(self).wf(),
            ok == old(self)@.cookie_containers.contains_key(h),
            ok ==> final(self)@.cookie_containers == old(self)@.cookie_containers.insert(
                h,
                old(self)@.cookie_containers[h].insert(host@, cookie@),
            ),
            !ok ==> final(self)@ == old(self)@,
            final(self)@.requests == old(self)@.requests,
    {
        let ghost old_view = old(self)@;
        match self.cookie_containers.remove(&h) {
            Some(mut c) => {
                let ghost before = text_map(c.cookies@);
                c.cookies.insert(String::from_str(host), String::from_str(cookie));
                assert(text_map(c.cookies@) =~= before.insert(host@, cookie@));
                let ghost after = text_map(c.cookies@);
                self.cookie_containers.insert(h, c);
                assert(self@.cookie_containers =~= old_view.cookie_containers.insert(h, after));
                assert(self@.requests =~= old_view.requests);
                true
            },
            None => {
                assert(self@.cookie_containers =~= old_view.cookie_containers);
                assert(self@.requests =~= old_view.requests);
                false
            },
        }
    }

    /// Attaches cookie container `container` to request `h`.
    pub fn set_request_cookie_container(&mut self, h: u32, container: u32) -> (ok: bool)
        requires
            old(self).wf(),
        ensures
            final(self).wf(),
            ok == old(self)@.requests.contains_key(h),
            ok ==> final(self)@.requests == old(self)@.requests.insert(
                h,
                HttpRequestView { cookie_container: container, ..old(self)@.requests[h] },
            ),
            !ok ==> final(self)@ == old(self)@,
    {
        match self.take_request(h) {
            Some(mut req) => {
                req.cookie_container = container;
                self.put_request(h, req);
                true
            },
            None => {
                assert(self@.requests =~= old(self)@.requests);
                false
            },
        }
    }
}

} // verus!
