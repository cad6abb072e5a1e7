//! What one API call is made of.

use vstd::prelude::*;
use crate::api::path::field_value;
use crate::api::path::resolve;
use crate::api::path::resolved;
use crate::api::query::QueryOptions;
use crate::api::query::QueryOptionsView;
use crate::error::ClientError;
use crate::error::ClientErrorView;

verus! {

/// The HTTP method of a request.
#[derive(Clone, Copy, Debug, PartialEq, Eq, Structural)]
pub enum Method {
    GET,
    PUT,
    POST,
    DELETE,
}

/// A named value that may be absent: a field of a path, or a parameter of a query.
#[derive(Debug, PartialEq, Eq)]
pub struct Param {
    pub name: String,
    pub value: Option<String>,
}

/// A `Param` with its texts as sequences.
pub struct ParamView {
    pub name: Seq<char>,
    pub value: Option<Seq<char>>,
}

impl DeepView for Param {
    type V = ParamView;

    open spec fn deep_view(&self) -> ParamView {
        ParamView { name: self.name@, value: self.value.deep_view() }
    }
}

impl View for Param {
    type V = ParamView;

    open spec fn view(&self) -> ParamView {
        self.deep_view()
    }
}

impl Clone for Param {
    fn clone(&self) -> (r: Self)
        ensures
            r == *self,
    {
        Param { name: self.name.clone(), value: self.value.clone() }
    }
}

/// One API call, before it is sent: the method, the path as a template with the fields
/// that fill it, the parameters and options of the query, and the body as it goes over
/// the wire.
#[derive(Debug, PartialEq, Eq)]
pub struct EndpointDescriptor {
    pub method: Method,
    pub path: String,
    pub fields: Vec<Param>,
    pub query: Vec<Param>,
    pub options: QueryOptions,
    pub body: Option<Vec<u8>>,
}

/// An `EndpointDescriptor` with its texts and lists as sequences.
pub struct EndpointDescriptorView {
    pub method: Method,
    pub path: Seq<char>,
    pub fields: Seq<ParamView>,
    pub query: Seq<ParamView>,
    pub options: QueryOptionsView,
    pub body: Option<Seq<u8>>,
}

/// The bytes of a body that may be absent.
pub open spec fn body_view(body: Option<Vec<u8>>) -> Option<Seq<u8>> {
    match body {
        Some(bytes) => Some(bytes@),
        None => None,
    }
}

impl View for EndpointDescriptor {
    type V = EndpointDescriptorView;

    open spec fn view(&self) -> EndpointDescriptorView {
        EndpointDescriptorView {
            method: self.method,
            path: self.path@,
            fields: self.fields.deep_view(),
            query: self.query.deep_view(),
            options: self.options@,
            body: body_view(self.body),
        }
    }
}

impl EndpointDescriptorView {
    /// Whether the call can be sent: every placeholder of its path is closed and names
    /// a field that has a value.
    pub open spec fn is_complete(self) -> bool {
        resolved(self.path, self.fields) is Ok
    }
}

impl Clone for EndpointDescriptor {
    fn clone(&self) -> (r: Self)
        ensures
            r@ == self@,
    {
        let fields = self.fields.clone();
        let query = self.query.clone();
        let body = self.body.clone();
        proof {
            assert(fields@ =~= self.fields@);
            assert(query@ =~= self.query@);
            if self.body is Some {
                assert(body->Some_0@ =~= self.body->Some_0@);
            }
        }
        EndpointDescriptor {
            method: self.method,
            path: self.path.clone(),
            fields,
            query,
            options: self.options.clone(),
            body,
        }
    }
}

/// A call in the making. Fields, parameters, options and a body are set one by one;
/// `build` hands out the descriptor, or says which required field is missing. The
/// builder stays as it is and can be changed and built from again.
#[derive(Debug, PartialEq, Eq)]
pub struct RequestBuilder {
    draft: EndpointDescriptor,
}

impl View for RequestBuilder {
    type V = EndpointDescriptorView;

    closed spec fn view(&self) -> EndpointDescriptorView {
        self.draft@
    }
}

/// Pushing a parameter onto a list pushes its view onto the list's view.
proof fn lemma_push_param(params: Seq<Param>, param: Param)
    ensures
        Seq::new(params.push(param).len(), |i: int| params.push(param)[i].deep_view()) == Seq::new(
            params.len(),
            |i: int| params[i].deep_view(),
        ).push(param.deep_view()),
{
    assert(Seq::new(params.push(param).len(), |i: int| params.push(param)[i].deep_view())
        =~= Seq::new(params.len(), |i: int| params[i].deep_view()).push(param.deep_view()));
}

impl RequestBuilder {
    /// A call of `method` to the path that `template` gives once its placeholders are
    /// filled in. Each placeholder names a required field. Nothing else is set.
    pub fn new(method: Method, template: &str) -> (r: RequestBuilder)
        ensures
            r@ == (EndpointDescriptorView {
                method,
                path: template@,
                fields: Seq::empty(),
                query: Seq::empty(),
                options: QueryOptionsView::unset(),
                body: None,
            }),
    {
        let draft = EndpointDescriptor {
            method,
            path: String::from_str(template),
            fields: Vec::new(),
            query: Vec::new(),
            options: QueryOptions::default(),
            body: None,
        };
        assert(draft@.fields =~= Seq::empty());
        assert(draft@.query =~= Seq::empty());
        RequestBuilder { draft }
    }

    /// Gives the field `name` a value. A value given before is overridden.
    pub fn field(&mut self, name: &str, value: &str) -> (r: &mut Self)
        ensures
            r@ == (EndpointDescriptorView {
                fields: old(self)@.fields.push(ParamView { name: name@, value: Some(value@) }),
                ..old(self)@
            }),
            *final(self) == *final(r),
    {
        let param = Param { name: String::from_str(name), value: Some(String::from_str(value)) };
        proof {
            lemma_push_param(self.draft.fields@, param);
        }
        self.draft.fields.push(param);
        self
    }

    /// Takes the value of the field `name` away again.
    pub fn clear_field(&mut self, name: &str) -> (r: &mut Self)
        ensures
            r@ == (EndpointDescriptorView {
                fields: old(self)@.fields.push(ParamView { name: name@, value: None }),
                ..old(self)@
            }),
            *final(self) == *final(r),
    {
        let param = Param { name: String::from_str(name), value: None };
        proof {
            lemma_push_param(self.draft.fields@, param);
        }
        self.draft.fields.push(param);
        self
    }

    /// Adds a parameter to the query. A name may come more than once.
    pub fn param(&mut self, name: &str, value: &str) -> (r: &mut Self)
        ensures
            r@ == (EndpointDescriptorView {
                query: old(self)@.query.push(ParamView { name: name@, value: Some(value@) }),
                ..old(self)@
            }),
            *final(self) == *final(r),
    {
        let param = Param { name: String::from_str(name), value: Some(String::from_str(value)) };
        proof {
            lemma_push_param(self.draft.query@, param);
        }
        self.draft.query.push(param);
        self
    }

    /// Sets the options of the query.
    pub fn options(&mut self, options: QueryOptions) -> (r: &mut Self)
        ensures
            r@ == (EndpointDescriptorView { options: options@, ..old(self)@ }),
            *final(self) == *final(r),
    {
        self.draft.options = options;
        self
    }

    /// Sets the body, in the form in which it goes over the wire.
    pub fn body(&mut self, bytes: Vec<u8>) -> (r: &mut Self)
        ensures
            r@ == (EndpointDescriptorView { body: Some(bytes@), ..old(self)@ }),
            *final(self) == *final(r),
    {
        self.draft.body = Some(bytes);
        self
    }

    /// The descriptor of the call as it has been set so far. It fails with a
    /// `ValidationError` where a required field has no value, or where the braces of
    /// the template do not pair up.
    pub fn build(&self) -> (r: Result<EndpointDescriptor, ClientError>)
        ensures
            match resolved(self@.path, self@.fields) {
                Ok(_) => r is Ok && r->Ok_0@ == self@,
                Err(message) => r is Err && r->Err_0@ == (ClientErrorView::ValidationError {
                    message,
                }),
            },
    {
        match resolve(self.draft.path.as_str(), &self.draft.fields) {
            Ok(_) => Ok(self.draft.clone()),
            Err(e) => Err(e),
        }
    }
}

/// A field holds what it was last given.
pub proof fn lemma_field_set(fields: Seq<ParamView>, name: Seq<char>, value: Option<Seq<char>>)
    ensures
        field_value(fields.push(ParamView { name, value }), name) == value,
{
}

/// Giving one field a value leaves the fields of other names as they were.
pub proof fn lemma_field_kept(
    fields: Seq<ParamView>,
    name: Seq<char>,
    value: Option<Seq<char>>,
    other: Seq<char>,
)
    requires
        other != name,
    ensures
        field_value(fields.push(ParamView { name, value }), other) == field_value(fields, other),
{
    assert(fields.push(ParamView { name, value }).drop_last() =~= fields);
}

/// A request that knows the call it stands for, and what comes back from it.
pub trait Endpoint {
    /// The payload that a response to the call holds.
    type Response;

    /// The call that the request stands for.
    spec fn described(&self) -> EndpointDescriptorView;

    /// Describes the call that the request stands for.
    fn descriptor(&self) -> (d: EndpointDescriptor)
        ensures
            d@ == self.described(),
    ;
}

/// A descriptor stands for itself, and what comes back from it is taken as bytes.
impl Endpoint for EndpointDescriptor {
    type Response = Vec<u8>;

    open spec fn described(&self) -> EndpointDescriptorView {
        self@
    }

    fn descriptor(&self) -> (d: EndpointDescriptor) {
        self.clone()
    }
}

} // verus!
