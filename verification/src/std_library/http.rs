//! The parts of the `std:http` module that compute: what a request asks
//! for, and how a response is handed to the program. Sending the request is
//! left to the caller.

use vstd::prelude::*;
use crate::evaluation::object::{
    entries_model, objects_model, value_text, Object, Value,
};
use crate::evaluation::operators::{assoc_set, put_entry};
use crate::std_library::{arity_error, arity_text};
use crate::text::{decimal, push_decimal, push_text, same_text};

verus! {

/// The methods of a request.
#[derive(Clone, Copy, Debug, PartialEq, Eq, Structural)]
pub enum Method {
    Get,
    Post,
    Put,
    Delete,
}

/// A request that is ready to be sent.
#[derive(Debug, PartialEq)]
pub struct Request {
    pub method: Method,
    pub url: String,
    pub headers: Vec<(String, String)>,
}

/// The mathematical value of a [`Request`].
pub struct RequestV {
    pub method: Method,
    pub url: Seq<char>,
    pub headers: Seq<(Seq<char>, Seq<char>)>,
}

/// The values of a sequence of headers.
pub open spec fn headers_model(headers: Seq<(String, String)>) -> Seq<(Seq<char>, Seq<char>)> {
    Seq::new(headers.len(), |i: int| (headers[i].0@, headers[i].1@))
}

impl View for Request {
    type V = RequestV;

    open spec fn view(&self) -> RequestV {
        RequestV { method: self.method, url: self.url@, headers: headers_model(self.headers@) }
    }
}

/// The method that `name` names, if any.
pub open spec fn method_of(name: Seq<char>) -> Option<Method> {
    if name == "GET"@ {
        Some(Method::Get)
    } else if name == "POST"@ {
        Some(Method::Post)
    } else if name == "PUT"@ {
        Some(Method::Put)
    } else if name == "DELETE"@ {
        Some(Method::Delete)
    } else {
        None
    }
}

/// The text of the error for an argument that must be a string.
pub open spec fn want_string_text(place: Seq<char>, v: Value) -> Seq<char> {
    place + " argument must be a string. Got "@ + value_text(v)
}

/// The text of the error for headers that are no mapping.
pub open spec fn want_object_text(v: Value) -> Seq<char> {
    "Third argument must be an Object. Got "@ + value_text(v)
}

/// The text of the error for headers that are not all strings.
pub open spec fn want_strings_text(v: Value) -> Seq<char> {
    "Headers must be a map of strings. Got "@ + value_text(v)
}

/// The text of the error for a method that is not known.
pub open spec fn unknown_method_text(name: Seq<char>) -> Seq<char> {
    "Unsupported HTTP method "@ + name
}

/// The headers that the entries `entries[i..]` give, after `acc`, or nothing
/// where a key or a value is no string.
pub open spec fn headers_of(
    entries: Seq<(Value, Value)>,
    i: int,
    acc: Seq<(Seq<char>, Seq<char>)>,
) -> Option<Seq<(Seq<char>, Seq<char>)>>
    decreases entries.len() - i,
{
    if 0 <= i < entries.len() {
        match entries[i] {
            (Value::String(k), Value::String(v)) => headers_of(entries, i + 1, acc.push((k, v))),
            _ => None,
        }
    } else {
        Some(acc)
    }
}

/// The headers that the optional third argument gives, or the error for it.
pub open spec fn headers_value(args: Seq<Value>) -> Result<Seq<(Seq<char>, Seq<char>)>, Value> {
    if args.len() < 3 {
        Ok(Seq::empty())
    } else {
        match args[2] {
            Value::Object(entries) => match headers_of(entries, 0, Seq::empty()) {
                Some(headers) => Ok(headers),
                None => Err(Value::Error(want_strings_text(args[2]))),
            },
            other => Err(Value::Error(want_object_text(other))),
        }
    }
}

/// What the arguments of `request` ask for: a method, a URL and optionally
/// headers; or the error for the first argument that is not as it must be.
pub open spec fn request_value(args: Seq<Value>) -> Result<RequestV, Value> {
    if args.len() < 2 || args.len() > 3 {
        Err(Value::Error(arity_text(args.len(), "2 or 3."@)))
    } else {
        match args[0] {
            Value::String(name) => match args[1] {
                Value::String(url) => match headers_value(args) {
                    Ok(headers) => match method_of(name) {
                        Some(method) => Ok(RequestV { method, url, headers }),
                        None => Err(Value::Error(unknown_method_text(name))),
                    },
                    Err(e) => Err(e),
                },
                other => Err(Value::Error(want_string_text("Second"@, other))),
            },
            other => Err(Value::Error(want_string_text("First"@, other))),
        }
    }
}

/// The line that gives the status of a response.
pub open spec fn status_text(code: u16, reason: Seq<char>) -> Seq<char> {
    decimal(code as nat) + " "@ + reason
}

/// The headers `headers[i..]` as entries of a mapping, put after `acc`. A
/// later header of the same name overwrites an earlier one.
pub open spec fn header_entries(
    headers: Seq<(Seq<char>, Seq<char>)>,
    i: int,
    acc: Seq<(Value, Value)>,
) -> Seq<(Value, Value)>
    decreases headers.len() - i,
{
    if 0 <= i < headers.len() {
        header_entries(
            headers,
            i + 1,
            assoc_set(acc, Value::String(headers[i].0), Value::String(headers[i].1)),
        )
    } else {
        acc
    }
}

/// A response as the program sees it: a mapping with the status line under
/// `status`, the headers under `headers` and the body under `body`.
pub open spec fn response_value(
    code: u16,
    reason: Seq<char>,
    headers: Seq<(Seq<char>, Seq<char>)>,
    body: Seq<char>,
) -> Value {
    Value::Object(
        seq![
            (Value::String("status"@), Value::String(status_text(code, reason))),
            (
                Value::String("headers"@),
                Value::Object(header_entries(headers, 0, Seq::empty())),
            ),
            (Value::String("body"@), Value::String(body)),
        ],
    )
}

/// The conversion of results.
pub open spec fn request_model(r: Result<Request, Object>) -> Result<RequestV, Value> {
    match r {
        Ok(request) => Ok(request@),
        Err(e) => Err(e@),
    }
}

/// An error that says which argument must be a string.
fn want_string(place: &str, o: &Object) -> (e: Object)
    ensures
        e@ == Value::Error(want_string_text(place@, o@)),
{
    let mut m = String::new();
    push_text(&mut m, place);
    push_text(&mut m, " argument must be a string. Got ");
    o.write(&mut m);
    assert(m@ =~= want_string_text(place@, o@));
    Object::Error(m)
}

/// The method that `name` names, if any.
pub fn find_method(name: &str) -> (r: Option<Method>)
    ensures
        r == method_of(name@),
{
    if same_text(name, "GET") {
        Some(Method::Get)
    } else if same_text(name, "POST") {
        Some(Method::Post)
    } else if same_text(name, "PUT") {
        Some(Method::Put)
    } else if same_text(name, "DELETE") {
        Some(Method::Delete)
    } else {
        None
    }
}

/// The headers that the entries of a mapping give, or nothing where a key or
/// a value is no string.
fn read_headers(entries: &Vec<(Object, Object)>) -> (r: Option<Vec<(String, String)>>)
    ensures
        match r {
            Some(headers) => headers_of(entries_model(entries@), 0, Seq::empty()) == Some(
                headers_model(headers@),
            ),
            None => headers_of(entries_model(entries@), 0, Seq::empty()) is None,
        },
{
    let ghost all = entries_model(entries@);
    let mut headers: Vec<(String, String)> = Vec::new();
    assert(headers_model(headers@) =~= Seq::empty());
    let mut i: usize = 0;
    while i < entries.len()
        invariant
            i <= entries.len(),
            all == entries_model(entries@),
            headers_of(all, i as int, headers_model(headers@)) == headers_of(all, 0, Seq::empty()),
        decreases entries.len() - i,
    {
        assert(all[i as int] == (entries[i as int].0@, entries[i as int].1@));
        match (&entries[i].0, &entries[i].1) {
            (Object::String(k), Object::String(v)) => {
                let ghost before = headers_model(headers@);
                headers.push((k.clone(), v.clone()));
                assert(headers_model(headers@) =~= before.push((k@, v@)));
            },
            _ => {
                return None;
            },
        }
        i += 1;
    }
    Some(headers)
}

/// What the arguments of `request` ask for.
pub fn plan_request(args: Vec<Object>) -> (r: Result<Request, Object>)
    ensures
        request_model(r) == request_value(objects_model(args@)),
{
    assert(objects_model(args@).len() == args.len());
    if args.len() < 2 || args.len() > 3 {
        return Err(arity_error(args.len(), "2 or 3."));
    }
    assert(objects_model(args@)[0] == args[0]@);
    assert(objects_model(args@)[1] == args[1]@);
    let name = match &args[0] {
        Object::String(s) => s,
        other => {
            return Err(want_string("First", other));
        },
    };
    let url = match &args[1] {
        Object::String(s) => s,
        other => {
            return Err(want_string("Second", other));
        },
    };
    let headers = if args.len() < 3 {
        let none: Vec<(String, String)> = Vec::new();
        assert(headers_model(none@) =~= Seq::empty());
        none
    } else {
        assert(objects_model(args@)[2] == args[2]@);
        match &args[2] {
            Object::Object(entries) => {
                match read_headers(entries) {
                    Some(headers) => headers,
                    None => {
                        let mut m = String::new();
                        push_text(&mut m, "Headers must be a map of strings. Got ");
                        args[2].write(&mut m);
                        assert(m@ =~= want_strings_text(args[2]@));
                        return Err(Object::Error(m));
                    },
                }
            },
            other => {
                let mut m = String::new();
                push_text(&mut m, "Third argument must be an Object. Got ");
                other.write(&mut m);
                assert(m@ =~= want_object_text(other@));
                return Err(Object::Error(m));
            },
        }
    };
    match find_method(name.as_str()) {
        Some(method) => Ok(Request { method, url: url.clone(), headers }),
        None => {
            let mut m = String::new();
            push_text(&mut m, "Unsupported HTTP method ");
            push_text(&mut m, name.as_str());
            assert(m@ =~= unknown_method_text(name@));
            Err(Object::Error(m))
        },
    }
}

/// A string object with the text `text`.
fn string_object(text: &str) -> (o: Object)
    ensures
        o@ == Value::String(text@),
{
    let mut s = String::new();
    push_text(&mut s, text);
    assert(s@ =~= text@);
    Object::String(s)
}

/// A response as the program sees it.
pub fn response_object(code: u16, reason: String, headers: Vec<(String, String)>, body: String) -> (r:
    Object)
    ensures
        r@ == response_value(code, reason@, headers_model(headers@), body@),
{
    let ghost all = headers_model(headers@);
    let mut fields: Vec<(Object, Object)> = Vec::new();
    assert(entries_model(fields@) =~= Seq::empty());
    let mut i: usize = 0;
    while i < headers.len()
        invariant
            i <= headers.len(),
            all == headers_model(headers@),
            header_entries(all, i as int, entries_model(fields@)) == header_entries(
                all,
                0,
                Seq::empty(),
            ),
        decreases headers.len() - i,
    {
        assert(all[i as int] == (headers[i as int].0@, headers[i as int].1@));
        let key = Object::String(headers[i].0.clone());
        let value = Object::String(headers[i].1.clone());
        put_entry(&mut fields, key, value);
        i += 1;
    }
    let mut status = String::new();
    push_decimal(&mut status, code as u64);
    push_text(&mut status, " ");
    push_text(&mut status, reason.as_str());
    assert(status@ =~= status_text(code, reason@));
    let mut entries: Vec<(Object, Object)> = Vec::new();
    entries.push((string_object("status"), Object::String(status)));
    entries.push((string_object("headers"), Object::Object(fields)));
    entries.push((string_object("body"), Object::String(body)));
    assert(entries_model(entries@) =~= response_value(
        code,
        reason@,
        all,
        body@,
    )->Object_0) by {
        assert(entries[1].1@ == Value::Object(entries_model(fields@)));
    }
    Object::Object(entries)
}

} // verus!
