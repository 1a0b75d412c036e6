//! The shapes of the web interface: the table of routes and the envelope in
//! which every answer is sent.

use vstd::prelude::*;
use vstd::string::StringExecFns;

verus! {

/// The envelope of every answer of the web interface: the records asked for,
/// or the reasons why there are none.
#[derive(Debug, PartialEq)]
pub struct JSONResponse<T> {
    pub data: Option<Vec<T>>,
    pub errors: Option<Vec<String>>,
}

impl<T> JSONResponse<T> {
    /// An answer that carries records.
    pub fn with_data(data: Vec<T>) -> (response: Self)
        ensures
            response.data == Some(data),
            response.errors is None,
    {
        JSONResponse { data: Some(data), errors: None }
    }

    /// An answer that reports success and carries nothing.
    pub fn empty() -> (response: Self)
        ensures
            response.data is None,
            response.errors is None,
    {
        JSONResponse { data: None, errors: None }
    }

    /// An answer that carries one reason for a failure.
    pub fn with_error(message: &str) -> (response: Self)
        ensures
            response.data is None,
            response.errors is Some,
            response.errors->0.deep_view() == seq![message@],
    {
        let mut errors: Vec<String> = Vec::new();
        errors.push(String::from_str(message));
        assert(errors.deep_view() =~= seq![message@]);
        JSONResponse { data: None, errors: Some(errors) }
    }
}

/// The request methods that the routes use.
#[derive(Debug, Clone, Copy, PartialEq, Eq, Structural)]
pub enum Method {
    Get,
    Post,
}

impl Method {
    /// The method as it is written in a request.
    pub open spec fn name(self) -> Seq<char> {
        match self {
            Method::Get => "GET"@,
            Method::Post => "POST"@,
        }
    }

    /// The method as it is written in a request.
    pub fn as_str(&self) -> (name: &'static str)
        ensures
            name@ == self.name(),
    {
        match self {
            Method::Get => "GET",
            Method::Post => "POST",
        }
    }
}

/// A route as a mathematical value.
pub struct EndpointView {
    pub path: Seq<char>,
    pub method: Method,
}

/// One route of the web interface.
#[derive(Debug, Clone, Copy)]
pub struct Endpoint {
    pub path: &'static str,
    pub method: Method,
}

impl View for Endpoint {
    type V = EndpointView;

    open spec fn view(&self) -> EndpointView {
        EndpointView { path: self.path@, method: self.method }
    }
}

impl DeepView for Endpoint {
    type V = EndpointView;

    open spec fn deep_view(&self) -> EndpointView {
        self@
    }
}

/// A route in words: its method, a space, its path.
pub open spec fn described(endpoint: EndpointView) -> Seq<char> {
    endpoint.method.name() + " "@ + endpoint.path
}

impl Endpoint {
    /// The route in words, such as `GET /api/health`.
    pub fn describe(&self) -> (text: String)
        ensures
            text@ == described(self@),
    {
        let mut text = String::from_str(self.method.as_str());
        text.append(" ");
        text.append(self.path);
        text
    }
}

/// Every route of the web interface, in the order in which they are listed.
pub open spec fn endpoints() -> Seq<EndpointView> {
    seq![
        EndpointView { path: "/api/health"@, method: Method::Get },
        EndpointView { path: "/api/endpoints"@, method: Method::Get },
        EndpointView { path: "/api/pipelines"@, method: Method::Get },
        EndpointView { path: "/api/pipelines/{id}"@, method: Method::Get },
        EndpointView { path: "/api/pipelines"@, method: Method::Post },
        EndpointView { path: "/api/tasks"@, method: Method::Get },
        EndpointView { path: "/api/tasks"@, method: Method::Post },
        EndpointView { path: "/api/tasks/{id}"@, method: Method::Get },
        EndpointView { path: "/api/task_instances"@, method: Method::Get },
        EndpointView { path: "/api/task_instances/{id}"@, method: Method::Get },
    ]
}

/// Lists every route of the web interface. The server is built from this
/// list, so the list documents what the server offers.
pub fn get_endpoints() -> (routes: Vec<Endpoint>)
    ensures
        routes.deep_view() == endpoints(),
{
    let mut routes: Vec<Endpoint> = Vec::new();
    routes.push(Endpoint { path: "/api/health", method: Method::Get });
    routes.push(Endpoint { path: "/api/endpoints", method: Method::Get });
    routes.push(Endpoint { path: "/api/pipelines", method: Method::Get });
    routes.push(Endpoint { path: "/api/pipelines/{id}", method: Method::Get });
    routes.push(Endpoint { path: "/api/pipelines", method: Method::Post });
    routes.push(Endpoint { path: "/api/tasks", method: Method::Get });
    routes.push(Endpoint { path: "/api/tasks", method: Method::Post });
    routes.push(Endpoint { path: "/api/tasks/{id}", method: Method::Get });
    routes.push(Endpoint { path: "/api/task_instances", method: Method::Get });
    routes.push(Endpoint { path: "/api/task_instances/{id}", method: Method::Get });
    assert(routes.deep_view() =~= endpoints());
    routes
}

/// The answer of the route that lists the routes: each route in words.
pub fn list_endpoints() -> (response: JSONResponse<String>)
    ensures
        response.errors is None,
        response.data is Some,
        response.data->0.deep_view() == endpoints().map_values(
            |endpoint: EndpointView| described(endpoint),
        ),
{
    let routes = get_endpoints();
    let mut texts: Vec<String> = Vec::new();
    let mut i: usize = 0;
    while i < routes.len()
        invariant
            i <= routes.len(),
            routes.deep_view() == endpoints(),
            texts.len() == i,
            forall|k: int| 0 <= k < i ==> (#[trigger] texts[k])@ == described(endpoints()[k]),
        decreases routes.len() - i,
    {
        assert(routes.deep_view()[i as int] == routes[i as int]@);
        texts.push(routes[i].describe());
        i += 1;
    }
    assert(texts.deep_view() =~= endpoints().map_values(
        |endpoint: EndpointView| described(endpoint),
    ));
    JSONResponse::with_data(texts)
}

/// The answer of the health route.
pub fn health() -> (response: JSONResponse<String>)
    ensures
        response.errors is None,
        response.data is Some,
        response.data->0.deep_view() == seq!["Feeling healthy!"@],
{
    let mut data: Vec<String> = Vec::new();
    data.push(String::from_str("Feeling healthy!"));
    assert(data.deep_view() =~= seq!["Feeling healthy!"@]);
    JSONResponse::with_data(data)
}

} // verus!
