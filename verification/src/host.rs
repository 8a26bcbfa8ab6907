//! What a driver and its host hand each other: the instance a driver acts for, the calls
//! it asks of the host, and the steps of a setup flow.

use crate::json::Datum;
use crate::json::Json;
use crate::json::Object;
use crate::json::lookup;
use crate::json::seen;
use vstd::prelude::*;

verus! {

/// The number by which a driver knows one of its proxies or controls.
pub type LocalId = u32;

/// The named arguments of a command, an event or a setup step.
pub type Args = Object;

/// A device as the driver sees it: the properties it was given, and what the driver has
/// noted down about it.
#[derive(Debug)]
pub struct Instance {
    pub properties: Object,
    pub scratch: Object,
}

impl Instance {
    /// The property of the given name.
    pub fn property(&self, name: &str) -> (value: Option<&Datum>)
        ensures
            seen(value) == lookup(self.properties@, name@),
    {
        self.properties.get(name)
    }
}

// ---------------------------------------------------------------------------------------
// Calls
// ---------------------------------------------------------------------------------------

/// Something a driver asks of its host.
#[derive(Debug)]
pub enum HostCall {
    /// Send bytes out through a control.
    Tx { control: LocalId, data: Vec<u8> },
    /// Tell whoever is bound to a proxy what happened.
    Notify { proxy: LocalId, event: String, args: Args },
    /// Leave a warning in the log.
    Warn { message: String },
}

/// A `HostCall` as contracts see it.
pub enum Call {
    Tx { control: LocalId, data: Seq<u8> },
    Notify { proxy: LocalId, event: Seq<char>, args: Map<Seq<char>, Json> },
    Warn { message: Seq<char> },
}

impl View for HostCall {
    type V = Call;

    open spec fn view(&self) -> Call {
        match self {
            HostCall::Tx { control, data } => Call::Tx { control: *control, data: data@ },
            HostCall::Notify { proxy, event, args } => Call::Notify {
                proxy: *proxy,
                event: event@,
                args: args@,
            },
            HostCall::Warn { message } => Call::Warn { message: message@ },
        }
    }
}

/// The calls in a list.
pub open spec fn calls(list: Seq<HostCall>) -> Seq<Call> {
    Seq::new(list.len(), |i: int| list[i]@)
}

impl HostCall {
    /// A call that tells a proxy what happened.
    pub fn notify(proxy: LocalId, event: &str, args: Args) -> (call: HostCall)
        ensures
            call@ == (Call::Notify { proxy: proxy, event: event@, args: args@ }),
    {
        HostCall::Notify { proxy, event: event.to_owned(), args }
    }

    /// A call that leaves a warning.
    pub fn warn(message: &str) -> (call: HostCall)
        ensures
            call@ == (Call::Warn { message: message@ }),
    {
        HostCall::Warn { message: message.to_owned() }
    }
}

// ---------------------------------------------------------------------------------------
// Setup steps
// ---------------------------------------------------------------------------------------

/// A request that the host makes for a driver during setup.
#[derive(Debug)]
pub struct HttpRequest {
    pub method: String,
    pub url: String,
    /// Names and values, in the order in which they were added.
    pub headers: Vec<(String, String)>,
    /// The JSON text to send along.
    pub body: Option<String>,
}

/// An `HttpRequest` as contracts see it.
pub struct Request {
    pub method: Seq<char>,
    pub url: Seq<char>,
    pub headers: Seq<(Seq<char>, Seq<char>)>,
    pub body: Option<Seq<char>>,
}

impl View for HttpRequest {
    type V = Request;

    open spec fn view(&self) -> Request {
        Request {
            method: self.method@,
            url: self.url@,
            headers: Seq::new(
                self.headers@.len(),
                |i: int| (self.headers@[i].0@, self.headers@[i].1@),
            ),
            body: match self.body {
                Some(text) => Some(text@),
                None => None,
            },
        }
    }
}

impl HttpRequest {
    /// A request without headers and without a body.
    pub fn new(method: &str, url: String) -> (request: HttpRequest)
        ensures
            request@ == (Request {
                method: method@,
                url: url@,
                headers: Seq::empty(),
                body: None,
            }),
    {
        let request = HttpRequest {
            method: method.to_owned(),
            url,
            headers: Vec::new(),
            body: None,
        };
        assert(request@.headers == Seq::<(Seq<char>, Seq<char>)>::empty());
        request
    }

    /// The request with one more header.
    pub fn header(self, name: &str, value: &str) -> (request: HttpRequest)
        ensures
            request@ == (Request { headers: self@.headers.push((name@, value@)), ..self@ }),
    {
        let mut headers = self.headers;
        headers.push((name.to_owned(), value.to_owned()));
        let request = HttpRequest { method: self.method, url: self.url, headers, body: self.body };
        assert(request@.headers == self@.headers.push((name@, value@)));
        request
    }

    /// The request with the given JSON text as its body.
    pub fn json(self, body: String) -> (request: HttpRequest)
        ensures
            request@ == (Request { body: Some(body@), ..self@ }),
    {
        HttpRequest {
            method: self.method,
            url: self.url,
            headers: self.headers,
            body: Some(body),
        }
    }
}

/// A field of a form that the installer fills in.
#[derive(Debug)]
pub struct Field {
    pub name: String,
    pub label: String,
    pub kind: String,
    pub help: String,
    pub default: Option<Datum>,
    pub options: Vec<Datum>,
    pub required: bool,
}

/// A `Field` as contracts see it.
pub struct FormField {
    pub name: Seq<char>,
    pub label: Seq<char>,
    pub kind: Seq<char>,
    pub help: Seq<char>,
    pub default: Option<Json>,
    pub options: Seq<Json>,
    pub required: bool,
}

impl View for Field {
    type V = FormField;

    open spec fn view(&self) -> FormField {
        FormField {
            name: self.name@,
            label: self.label@,
            kind: self.kind@,
            help: self.help@,
            default: match self.default {
                Some(value) => Some(value@),
                None => None,
            },
            options: Seq::new(self.options@.len(), |i: int| self.options@[i]@),
            required: self.required,
        }
    }
}

/// A device that a setup flow offers for adoption.
#[derive(Debug)]
pub struct Candidate {
    pub label: String,
    pub kind: String,
    pub driver_id: String,
    pub properties: Object,
    pub verified: String,
}

/// A `Candidate` as contracts see it.
pub struct Offer {
    pub label: Seq<char>,
    pub kind: Seq<char>,
    pub driver_id: Seq<char>,
    pub properties: Map<Seq<char>, Json>,
    pub verified: Seq<char>,
}

impl View for Candidate {
    type V = Offer;

    open spec fn view(&self) -> Offer {
        Offer {
            label: self.label@,
            kind: self.kind@,
            driver_id: self.driver_id@,
            properties: self.properties@,
            verified: self.verified@,
        }
    }
}

/// What a setup flow wants next.
#[derive(Debug)]
pub enum SetupStep {
    /// Show something to do, and come back when it is done.
    Instruct { title: String, body: String, continue_label: String },
    /// Ask for some values.
    Form { title: String, body: String, fields: Vec<Field> },
    /// Make a request, and come back with the response or the error.
    Fetch { request: HttpRequest, note: String },
    /// The flow is over and offers these devices.
    Done { devices: Vec<Candidate> },
    /// The flow is over and failed.
    Failed { reason: String },
}

/// A `SetupStep` as contracts see it.
pub enum Step {
    Instruct { title: Seq<char>, body: Seq<char>, continue_label: Seq<char> },
    Form { title: Seq<char>, body: Seq<char>, fields: Seq<FormField> },
    Fetch { request: Request, note: Seq<char> },
    Done { devices: Seq<Offer> },
    Failed { reason: Seq<char> },
}

/// The offers in a list of candidates.
pub open spec fn offers(list: Seq<Candidate>) -> Seq<Offer> {
    Seq::new(list.len(), |i: int| list[i]@)
}

impl View for SetupStep {
    type V = Step;

    open spec fn view(&self) -> Step {
        match self {
            SetupStep::Instruct { title, body, continue_label } => Step::Instruct {
                title: title@,
                body: body@,
                continue_label: continue_label@,
            },
            SetupStep::Form { title, body, fields } => Step::Form {
                title: title@,
                body: body@,
                fields: Seq::new(fields@.len(), |i: int| fields@[i]@),
            },
            SetupStep::Fetch { request, note } => Step::Fetch { request: request@, note: note@ },
            SetupStep::Done { devices } => Step::Done { devices: offers(devices@) },
            SetupStep::Failed { reason } => Step::Failed { reason: reason@ },
        }
    }
}

} // verus!
