//! The rules of the client-facing API: how endpoints are named and
//! registered, who may call them, and how a handler's fate becomes a reply.

use vstd::prelude::*;
use vstd::string::StringExecFns;
use crate::config::ConfigError;
use crate::types::ModuleInstanceId;

verus! {

/// How long a handler may run before the caller is told that it timed out.
pub const API_ENDPOINT_TIMEOUT_SECS: u64 = 60;

/// Error code of a request that ran into [`API_ENDPOINT_TIMEOUT_SECS`].
pub const CODE_REQUEST_TIMEOUT: i32 = -32000;

/// Error code of a request whose handler panicked.
pub const CODE_HANDLER_PANICKED: i32 = 500;

pub const CODE_BAD_REQUEST: i32 = 400;

pub const CODE_UNAUTHORIZED: i32 = 401;

pub const CODE_NOT_FOUND: i32 = 404;

pub const CODE_SERVER_ERROR: i32 = 500;

/// An error that an endpoint hands to its caller.
#[derive(Debug, Clone, PartialEq, Eq)]
pub struct ApiError {
    pub code: i32,
    pub message: String,
}

pub type ApiResult<T> = Result<T, ApiError>;

impl ApiError {
    pub fn new(code: i32, message: String) -> (e: ApiError)
        ensures
            e.code == code,
            e.message == message,
    {
        ApiError { code, message }
    }

    pub fn not_found(message: String) -> (e: ApiError)
        ensures
            e.code == CODE_NOT_FOUND,
            e.message == message,
    {
        ApiError { code: CODE_NOT_FOUND, message }
    }

    pub fn bad_request(message: String) -> (e: ApiError)
        ensures
            e.code == CODE_BAD_REQUEST,
            e.message == message,
    {
        ApiError { code: CODE_BAD_REQUEST, message }
    }

    pub fn unauthorized() -> (e: ApiError)
        ensures
            e.code == CODE_UNAUTHORIZED,
            e.message@ == "Invalid authorization"@,
    {
        ApiError { code: CODE_UNAUTHORIZED, message: String::from_str("Invalid authorization") }
    }

    pub fn server_error(message: String) -> (e: ApiError)
        ensures
            e.code == CODE_SERVER_ERROR,
            e.message == message,
    {
        ApiError { code: CODE_SERVER_ERROR, message }
    }
}

/// Whether `c` may occur in an endpoint path: a digit, a lower-case ASCII
/// letter or an underscore.
pub open spec fn path_char_ok(c: char) -> bool {
    ('0' <= c <= '9') || ('a' <= c <= 'z') || c == '_'
}

/// Whether `path` is an acceptable endpoint path: not empty, and made of
/// acceptable characters only.
pub open spec fn path_ok(path: Seq<char>) -> bool {
    &&& path.len() > 0
    &&& forall|i: int| 0 <= i < path.len() ==> path_char_ok(#[trigger] path[i])
}

/// Whether `path` is an acceptable endpoint path.
pub fn is_valid_path(path: &str) -> (ok: bool)
    ensures
        ok == path_ok(path@),
{
    if !path.is_ascii() {
        proof {
            let i = choose|i: int| 0 <= i < path@.len() && !('\0' <= #[trigger] path@[i] <= '\u{7f}');
            assert(!path_char_ok(path@[i]));
        }
        return false;
    }
    let bytes = path.as_bytes();
    proof {
        vstd::string::is_ascii_spec_bytes(path);
    }
    if bytes.len() == 0 {
        return false;
    }
    let mut i: usize = 0;
    while i < bytes.len()
        invariant
            i <= bytes.len(),
            bytes@.len() == path@.len(),
            vstd::string::is_ascii(path),
            forall|k: int| 0 <= k < bytes@.len() ==> bytes@[k] == path@[k] as u8,
            forall|k: int| 0 <= k < i ==> path_char_ok(#[trigger] path@[k]),
        decreases bytes.len() - i,
    {
        let b = bytes[i];
        let ok = (0x30 <= b && b <= 0x39) || (0x61 <= b && b <= 0x7a) || b == 0x5f;
        proof {
            let c = path@[i as int];
            assert('\0' <= c <= '\u{7f}');
            assert(b == c as u8);
            assert(ok == path_char_ok(c));
        }
        if !ok {
            return false;
        }
        i += 1;
    }
    true
}

/// The character that stands for the digit `d`.
pub open spec fn digit_char(d: nat) -> char
    recommends
        d < 10,
{
    if d == 0 {
        '0'
    } else if d == 1 {
        '1'
    } else if d == 2 {
        '2'
    } else if d == 3 {
        '3'
    } else if d == 4 {
        '4'
    } else if d == 5 {
        '5'
    } else if d == 6 {
        '6'
    } else if d == 7 {
        '7'
    } else if d == 8 {
        '8'
    } else {
        '9'
    }
}

/// `n` written in decimal, without leading zeros.
pub open spec fn decimal(n: nat) -> Seq<char>
    decreases n,
{
    if n < 10 {
        seq![digit_char(n)]
    } else {
        decimal(n / 10).push(digit_char(n % 10))
    }
}

fn digit_str(d: u16) -> (s: &'static str)
    requires
        d < 10,
    ensures
        s@ == seq![digit_char(d as nat)],
{
    proof {
        reveal_strlit("0");
        reveal_strlit("1");
        reveal_strlit("2");
        reveal_strlit("3");
        reveal_strlit("4");
        reveal_strlit("5");
        reveal_strlit("6");
        reveal_strlit("7");
        reveal_strlit("8");
        reveal_strlit("9");
    }
    let s = if d == 0 {
        "0"
    } else if d == 1 {
        "1"
    } else if d == 2 {
        "2"
    } else if d == 3 {
        "3"
    } else if d == 4 {
        "4"
    } else if d == 5 {
        "5"
    } else if d == 6 {
        "6"
    } else if d == 7 {
        "7"
    } else if d == 8 {
        "8"
    } else {
        "9"
    };
    assert(s@ =~= seq![digit_char(d as nat)]);
    s
}

/// `n` written in decimal, without leading zeros.
pub fn decimal_string(n: u16) -> (s: String)
    ensures
        s@ == decimal(n as nat),
    decreases n,
{
    if n < 10 {
        String::from_str(digit_str(n))
    } else {
        let mut s = decimal_string(n / 10);
        s.append(digit_str(n % 10));
        assert(s@ =~= decimal(n as nat));
        s
    }
}

/// The characters of `module_`.
pub open spec fn module_prefix() -> Seq<char> {
    seq!['m', 'o', 'd', 'u', 'l', 'e', '_']
}

/// The path under which an endpoint named `name` is served: the name itself
/// for an endpoint of the server, `module_<id>_<name>` for one of the module
/// instance `id`.
pub open spec fn spec_endpoint_path(name: Seq<char>, module_instance_id: Option<ModuleInstanceId>) -> Seq<char> {
    match module_instance_id {
        Some(id) => module_prefix() + decimal(id as nat) + seq!['_'] + name,
        None => name,
    }
}

/// The path under which an endpoint named `name` is served.
pub fn endpoint_path(name: &str, module_instance_id: Option<ModuleInstanceId>) -> (path: String)
    ensures
        path@ == spec_endpoint_path(name@, module_instance_id),
{
    match module_instance_id {
        Some(id) => {
            proof {
                reveal_strlit("module_");
                reveal_strlit("_");
            }
            let mut path = String::from_str("module_");
            assert(path@ =~= module_prefix());
            let digits = decimal_string(id);
            path.append(digits.as_str());
            path.append("_");
            path.append(name);
            assert(path@ =~= spec_endpoint_path(name@, module_instance_id));
            path
        },
        None => String::from_str(name),
    }
}

/// An endpoint as the server or a module declares it: by its name. The
/// handler behind it stays with whoever declared it.
#[derive(Debug, Clone, PartialEq, Eq)]
pub struct ApiEndpoint {
    pub path: String,
}

/// An endpoint as it is served.
#[derive(Debug, Clone, PartialEq, Eq)]
pub struct RegisteredEndpoint {
    /// The path that callers use.
    pub path: String,
    /// The module instance that declared the endpoint; `None` for the server's own.
    pub module_instance_id: Option<ModuleInstanceId>,
    /// The name under which it was declared.
    pub name: String,
}

impl RegisteredEndpoint {
    /// The path is the one that the declared name and the module id give.
    pub open spec fn consistent(&self) -> bool {
        self.path@ == spec_endpoint_path(self.name@, self.module_instance_id)
    }
}

/// The endpoints that one API server serves, in the order of registration.
pub struct RpcModule {
    methods: Vec<RegisteredEndpoint>,
}

/// The paths of `methods`, in order.
pub open spec fn paths_of(methods: Seq<RegisteredEndpoint>) -> Seq<Seq<char>> {
    methods.map_values(|m: RegisteredEndpoint| m.path@)
}

/// What registering the endpoints named `names` for `module_instance_id` adds.
pub open spec fn registrations(names: Seq<ApiEndpoint>, module_instance_id: Option<ModuleInstanceId>) -> Seq<(Seq<char>, Option<ModuleInstanceId>, Seq<char>)> {
    names.map_values(
        |e: ApiEndpoint| (spec_endpoint_path(e.path@, module_instance_id), module_instance_id, e.path@),
    )
}

/// A registered endpoint as a triple of path, module id and declared name.
pub open spec fn triples_of(methods: Seq<RegisteredEndpoint>) -> Seq<(Seq<char>, Option<ModuleInstanceId>, Seq<char>)> {
    methods.map_values(|m: RegisteredEndpoint| (m.path@, m.module_instance_id, m.name@))
}

/// Whether the `i`-th of `names` cannot be registered after the ones before
/// it: its path is not acceptable, or it is already taken.
pub open spec fn registration_offends(
    taken: Seq<Seq<char>>,
    names: Seq<ApiEndpoint>,
    module_instance_id: Option<ModuleInstanceId>,
    i: int,
) -> bool {
    let path = spec_endpoint_path(names[i].path@, module_instance_id);
    ||| !path_ok(path)
    ||| taken.contains(path)
    ||| exists|j: int|
        0 <= j < i && #[trigger] spec_endpoint_path(names[j].path@, module_instance_id) == path
}

/// The paths of registered endpoints given as triples.
pub open spec fn triple_paths(table: Seq<(Seq<char>, Option<ModuleInstanceId>, Seq<char>)>) -> Seq<Seq<char>> {
    table.map_values(|t: (Seq<char>, Option<ModuleInstanceId>, Seq<char>)| t.0)
}

/// Position of the first of `endpoints` that cannot be registered.
pub open spec fn first_offender(
    taken: Seq<Seq<char>>,
    endpoints: Seq<ApiEndpoint>,
    module_instance_id: Option<ModuleInstanceId>,
) -> int {
    choose|i: int|
        0 <= i < endpoints.len() && registration_offends(taken, endpoints, module_instance_id, i)
            && forall|j: int|
            0 <= j < i ==> !registration_offends(taken, endpoints, module_instance_id, j)
}

/// The table after the endpoints `endpoints` of `module_instance_id` are
/// registered on top of `table`; where one of them cannot be registered,
/// the path of the first such endpoint.
pub open spec fn spec_attach(
    table: Seq<(Seq<char>, Option<ModuleInstanceId>, Seq<char>)>,
    endpoints: Seq<ApiEndpoint>,
    module_instance_id: Option<ModuleInstanceId>,
) -> Result<Seq<(Seq<char>, Option<ModuleInstanceId>, Seq<char>)>, Seq<char>> {
    if exists|i: int|
        0 <= i < endpoints.len() && #[trigger] registration_offends(
            triple_paths(table),
            endpoints,
            module_instance_id,
            i,
        ) {
        Err(
            spec_endpoint_path(
                endpoints[first_offender(triple_paths(table), endpoints, module_instance_id)].path@,
                module_instance_id,
            ),
        )
    } else {
        Ok(table + registrations(endpoints, module_instance_id))
    }
}

impl RpcModule {
    /// The registered endpoints, in the order of registration.
    pub closed spec fn methods(&self) -> Seq<RegisteredEndpoint> {
        self.methods@
    }

    /// Every path is acceptable, no path is served twice, and every path is
    /// the one that its endpoint's name and module id give.
    pub open spec fn wf(&self) -> bool {
        &&& forall|i: int|
            0 <= i < self.methods().len() ==> path_ok(#[trigger] self.methods()[i].path@)
        &&& forall|i: int|
            0 <= i < self.methods().len() ==> (#[trigger] self.methods()[i]).consistent()
        &&& forall|i: int, j: int|
            0 <= i < j < self.methods().len() ==> self.methods()[i].path@ != self.methods()[j].path@
    }

    /// A server without endpoints.
    pub fn new() -> (module: RpcModule)
        ensures
            module.wf(),
            module.methods().len() == 0,
    {
        RpcModule { methods: Vec::new() }
    }

    /// Number of registered endpoints.
    pub fn len(&self) -> (n: usize)
        ensures
            n == self.methods().len(),
    {
        self.methods.len()
    }

    /// The endpoint registered at position `index`.
    pub fn method(&self, index: usize) -> (m: &RegisteredEndpoint)
        requires
            index < self.methods().len(),
        ensures
            *m == self.methods()[index as int],
    {
        &self.methods[index]
    }

    /// Position of the endpoint served under `path`, if there is one.
    pub fn find(&self, path: &String) -> (found: Option<usize>)
        ensures
            match found {
                Some(i) => i < self.methods().len() && self.methods()[i as int].path@ == path@,
                None => !paths_of(self.methods()).contains(path@),
            },
    {
        find_path(&self.methods, path)
    }
}

fn find_path(methods: &Vec<RegisteredEndpoint>, path: &String) -> (found: Option<usize>)
    ensures
        match found {
            Some(i) => i < methods@.len() && methods@[i as int].path@ == path@,
            None => !paths_of(methods@).contains(path@),
        },
{
    let mut i: usize = 0;
    while i < methods.len()
        invariant
            i <= methods.len(),
            forall|k: int| 0 <= k < i ==> methods@[k].path@ != path@,
        decreases methods.len() - i,
    {
        if methods[i].path == *path {
            return Some(i);
        }
        i += 1;
    }
    proof {
        if paths_of(methods@).contains(path@) {
            let k = choose|k: int|
                0 <= k < paths_of(methods@).len() && paths_of(methods@)[k] == path@;
            assert(methods@[k].path@ == path@);
        }
    }
    None
}

/// Registers `endpoints` with `rpc_module`: the server's own where
/// `module_instance_id` is `None`, else those of that module instance, which
/// are served under `module_<id>_<name>`.
///
/// Either all of them are registered, in their order, or, where one of them
/// has an unacceptable path or a path that is already taken, none is: the
/// error then names the path of the first such endpoint.
pub fn attach_endpoints(
    rpc_module: &mut RpcModule,
    endpoints: &Vec<ApiEndpoint>,
    module_instance_id: Option<ModuleInstanceId>,
) -> (res: Result<(), ConfigError>)
    requires
        old(rpc_module).wf(),
    ensures
        final(rpc_module).wf(),
        match res {
            Ok(()) => spec_attach(
                triples_of(old(rpc_module).methods()),
                endpoints@,
                module_instance_id,
            ) == Ok::<Seq<(Seq<char>, Option<ModuleInstanceId>, Seq<char>)>, Seq<char>>(
                triples_of(final(rpc_module).methods()),
            ),
            Err(e) => {
                &&& final(rpc_module).methods() == old(rpc_module).methods()
                &&& spec_attach(
                    triples_of(old(rpc_module).methods()),
                    endpoints@,
                    module_instance_id,
                ) matches Err(path)
                &&& rejects(e, path)
            },
        },
{
    let ghost taken = paths_of(rpc_module.methods());
    assert(triple_paths(triples_of(rpc_module.methods())) =~= taken);
    let mut staged: Vec<RegisteredEndpoint> = Vec::new();
    let mut i: usize = 0;
    while i < endpoints.len()
        invariant
            i <= endpoints.len(),
            rpc_module.wf(),
            *rpc_module == *old(rpc_module),
            taken == paths_of(rpc_module.methods()),
            taken == triple_paths(triples_of(rpc_module.methods())),
            staged@.len() == i,
            triples_of(staged@) == registrations(endpoints@.subrange(0, i as int), module_instance_id),
            forall|k: int|
                0 <= k < i ==> !registration_offends(taken, endpoints@, module_instance_id, k),
        decreases endpoints.len() - i,
    {
        let path = endpoint_path(endpoints[i].path.as_str(), module_instance_id);
        let ghost p = spec_endpoint_path(endpoints@[i as int].path@, module_instance_id);
        if !is_valid_path(path.as_str()) {
            proof {
                lemma_first_offender(taken, endpoints@, module_instance_id, i as int);
            }
            return Err(ConfigError::BadEndpointPath { path });
        }
        let at = rpc_module.find(&path);
        let in_table = at.is_some();
        proof {
            if let Some(k) = at {
                assert(taken[k as int] == p);
            }
        }
        let in_staged = find_path(&staged, &path).is_some();
        proof {
            if in_staged {
                let k = choose|k: int| 0 <= k < staged@.len() && staged@[k].path@ == path@;
                assert(triples_of(staged@)[k].0 == p);
                assert(endpoints@.subrange(0, i as int)[k] == endpoints@[k]);
                assert(spec_endpoint_path(endpoints@[k].path@, module_instance_id) == p);
            } else {
                assert forall|j: int| 0 <= j < i implies spec_endpoint_path(
                    endpoints@[j].path@,
                    module_instance_id,
                ) != p by {
                    assert(endpoints@.subrange(0, i as int)[j] == endpoints@[j]);
                    assert(triples_of(staged@)[j].0 == staged@[j].path@);
                    assert(paths_of(staged@)[j] == staged@[j].path@);
                }
            }
        }
        if in_table || in_staged {
            proof {
                lemma_first_offender(taken, endpoints@, module_instance_id, i as int);
            }
            return Err(ConfigError::DuplicateEndpoint { path });
        }
        let name = endpoints[i].path.clone();
        let ghost prev = staged@;
        staged.push(RegisteredEndpoint { path, module_instance_id, name });
        proof {
            let lhs = triples_of(staged@);
            let rhs = registrations(endpoints@.subrange(0, i + 1), module_instance_id);
            assert forall|k: int| 0 <= k < lhs.len() implies lhs[k] == rhs[k] by {
                if k < i {
                    assert(staged@[k] == prev[k]);
                    assert(triples_of(prev)[k] == registrations(
                        endpoints@.subrange(0, i as int),
                        module_instance_id,
                    )[k]);
                    assert(endpoints@.subrange(0, i as int)[k] == endpoints@.subrange(0, i + 1)[k]);
                } else {
                    assert(endpoints@.subrange(0, i + 1)[k] == endpoints@[i as int]);
                }
            }
            assert(lhs =~= rhs);
        }
        i += 1;
    }
    proof {
        assert(endpoints@.subrange(0, i as int) == endpoints@);
    }
    let ghost before = rpc_module.methods@;
    let ghost added = staged@;
    rpc_module.methods.append(&mut staged);
    proof {
        let after = rpc_module.methods@;
        assert(after == before + added);
        assert(triples_of(after) =~= triples_of(before) + triples_of(added));
        assert forall|k: int| 0 <= k < added.len() implies path_ok(#[trigger] added[k].path@)
            && added[k].consistent() && !taken.contains(added[k].path@) by {
            assert(!registration_offends(taken, endpoints@, module_instance_id, k));
            assert(triples_of(added)[k] == registrations(endpoints@, module_instance_id)[k]);
        }
        assert forall|a: int, b: int| 0 <= a < b < after.len() implies after[a].path@
            != after[b].path@ by {
            if b < before.len() {
            } else if a < before.len() {
                assert(paths_of(before)[a] == before[a].path@);
            } else {
                let ka = a - before.len();
                let kb = b - before.len();
                assert(!registration_offends(taken, endpoints@, module_instance_id, kb));
                assert(triples_of(added)[ka] == registrations(endpoints@, module_instance_id)[ka]);
                assert(triples_of(added)[kb] == registrations(endpoints@, module_instance_id)[kb]);
            }
        }
    }
    Ok(())
}

/// An endpoint that cannot be registered, while all before it can, is the
/// first offender.
proof fn lemma_first_offender(
    taken: Seq<Seq<char>>,
    endpoints: Seq<ApiEndpoint>,
    module_instance_id: Option<ModuleInstanceId>,
    i: int,
)
    requires
        0 <= i < endpoints.len(),
        registration_offends(taken, endpoints, module_instance_id, i),
        forall|j: int| 0 <= j < i ==> !registration_offends(taken, endpoints, module_instance_id, j),
    ensures
        first_offender(taken, endpoints, module_instance_id) == i,
{
    let w = first_offender(taken, endpoints, module_instance_id);
    if w < i {
        assert(!registration_offends(taken, endpoints, module_instance_id, w));
    } else if i < w {
        assert(!registration_offends(taken, endpoints, module_instance_id, i));
    }
}

/// Whether `e` is the error for the endpoint path `path`: a bad path where
/// the path is not acceptable, else a duplicate.
pub open spec fn rejects(e: ConfigError, path: Seq<char>) -> bool {
    if path_ok(path) {
        e matches ConfigError::DuplicateEndpoint { path: p } && p@ == path
    } else {
        e matches ConfigError::BadEndpointPath { path: p } && p@ == path
    }
}

/// How the call of a handler ended.
#[derive(Debug, Clone, PartialEq, Eq)]
pub enum HandlerOutcome {
    /// The handler returned its response, here in serialised form.
    Returned(String),
    /// The request's parameters could not be read as the endpoint's request type.
    BadParams(String),
    /// The handler returned an error.
    Failed(ApiError),
    /// The handler did not finish within [`API_ENDPOINT_TIMEOUT_SECS`].
    TimedOut,
    /// The handler panicked.
    Panicked,
}

/// The error object of a reply.
#[derive(Debug, Clone, PartialEq, Eq)]
pub struct ErrorObject {
    pub code: i32,
    pub message: String,
}

/// The code and the message of the error that a caller is sent for
/// `outcome`; `None` where the caller is sent the handler's response.
pub open spec fn spec_error_of(outcome: HandlerOutcome) -> Option<(i32, Seq<char>)> {
    match outcome {
        HandlerOutcome::Returned(_) => None,
        HandlerOutcome::BadParams(message) => Some((CODE_BAD_REQUEST, message@)),
        HandlerOutcome::Failed(e) => Some((e.code, e.message@)),
        HandlerOutcome::TimedOut => Some((CODE_REQUEST_TIMEOUT, "Request timeout"@)),
        HandlerOutcome::Panicked => Some((CODE_HANDLER_PANICKED, "API handler panicked"@)),
    }
}

/// The reply to a request whose handler ended with `outcome`.
///
/// A panic becomes error 500 and a timeout error -32000; a handler's own
/// error is passed on with its code and message; unreadable parameters are
/// a bad request.
pub fn handler_response(outcome: HandlerOutcome) -> (reply: Result<String, ErrorObject>)
    ensures
        match reply {
            Ok(body) => outcome matches HandlerOutcome::Returned(b) && body == b,
            Err(e) => spec_error_of(outcome) == Some((e.code, e.message@)),
        },
{
    match outcome {
        HandlerOutcome::Returned(body) => Ok(body),
        HandlerOutcome::BadParams(message) => Err(ErrorObject { code: CODE_BAD_REQUEST, message }),
        HandlerOutcome::Failed(e) => Err(ErrorObject { code: e.code, message: e.message }),
        HandlerOutcome::TimedOut => Err(
            ErrorObject { code: CODE_REQUEST_TIMEOUT, message: String::from_str("Request timeout") },
        ),
        HandlerOutcome::Panicked => Err(
            ErrorObject {
                code: CODE_HANDLER_PANICKED,
                message: String::from_str("API handler panicked"),
            },
        ),
    }
}

/// What a handler is told about the request it serves.
pub struct ApiEndpointContext {
    has_auth: bool,
    module_instance_id: Option<ModuleInstanceId>,
}

impl ApiEndpointContext {
    /// Whether the request carried the administrative credential.
    pub closed spec fn spec_has_auth(&self) -> bool {
        self.has_auth
    }

    /// The module instance whose endpoint is called, if it is a module's.
    pub closed spec fn spec_module_instance_id(&self) -> Option<ModuleInstanceId> {
        self.module_instance_id
    }

    /// The context of a request that carried the credential `request_auth`,
    /// on a server whose administrative credential is `api_auth`. The request
    /// is authenticated where it carries exactly that credential.
    pub fn new(
        request_auth: Option<&String>,
        api_auth: &String,
        module_instance_id: Option<ModuleInstanceId>,
    ) -> (context: ApiEndpointContext)
        ensures
            context.spec_has_auth() == (request_auth matches Some(given) && given@ == api_auth@),
            context.spec_module_instance_id() == module_instance_id,
    {
        let has_auth = match request_auth {
            Some(given) => *given == *api_auth,
            None => false,
        };
        ApiEndpointContext { has_auth, module_instance_id }
    }

    #[verifier::when_used_as_spec(spec_has_auth)]
    pub fn has_auth(&self) -> (yes: bool)
        ensures
            yes == self.spec_has_auth(),
    {
        self.has_auth
    }

    #[verifier::when_used_as_spec(spec_module_instance_id)]
    pub fn module_instance_id(&self) -> (id: Option<ModuleInstanceId>)
        ensures
            id == self.spec_module_instance_id(),
    {
        self.module_instance_id
    }
}

/// Lets an administrative endpoint go on only for an authenticated request:
/// any other request gets the `unauthorized` error, code 401.
pub fn check_auth(context: &mut ApiEndpointContext) -> (res: ApiResult<()>)
    ensures
        *final(context) == *old(context),
        res is Ok <==> old(context).has_auth(),
        res matches Err(e) ==> e.code == CODE_UNAUTHORIZED && e.message@
            == "Invalid authorization"@,
{
    if !context.has_auth() {
        Err(ApiError::unauthorized())
    } else {
        Ok(())
    }
}

/// How long the answer of the consensus status endpoint may be reused.
pub const CONSENSUS_STATUS_CACHE_TTL_MS: u64 = 500;

/// A value that may be reused for a while after it was computed.
///
/// Time is whatever monotonic count of milliseconds the caller reads; the
/// cache itself never looks at a clock.
pub struct ExpiringCache<T> {
    ttl_ms: u64,
    entry: Option<(T, u64)>,
}

impl<T> ExpiringCache<T> {
    /// For how many milliseconds a stored value stays usable.
    pub closed spec fn ttl_ms(&self) -> u64 {
        self.ttl_ms
    }

    /// The stored value and the time at which it was stored.
    pub closed spec fn entry(&self) -> Option<(T, u64)> {
        self.entry
    }

    /// What a lookup at time `now_ms` finds: the stored value, as long as
    /// fewer than `ttl_ms` milliseconds have passed since it was stored.
    pub open spec fn fresh_at(&self, now_ms: u64) -> Option<T> {
        match self.entry() {
            Some((value, stored_at)) => if stored_at <= now_ms && now_ms - stored_at
                < self.ttl_ms() {
                Some(value)
            } else {
                None
            },
            None => None,
        }
    }

    /// An empty cache whose values stay usable for `ttl_ms` milliseconds.
    pub fn new(ttl_ms: u64) -> (cache: ExpiringCache<T>)
        ensures
            cache.ttl_ms() == ttl_ms,
            cache.entry() is None,
    {
        ExpiringCache { ttl_ms, entry: None }
    }

    /// The stored value, if it is still usable at time `now_ms`. On `None`
    /// the caller computes the value anew and stores it with [`Self::put`].
    pub fn get(&self, now_ms: u64) -> (hit: Option<&T>)
        ensures
            match hit {
                Some(value) => self.fresh_at(now_ms) == Some(*value),
                None => self.fresh_at(now_ms) is None,
            },
    {
        match &self.entry {
            Some((value, stored_at)) => {
                if *stored_at <= now_ms && now_ms - *stored_at < self.ttl_ms {
                    Some(value)
                } else {
                    None
                }
            },
            None => None,
        }
    }

    /// Stores `value` as computed at time `now_ms`, in place of what was stored.
    pub fn put(&mut self, value: T, now_ms: u64)
        ensures
            final(self).ttl_ms() == old(self).ttl_ms(),
            final(self).entry() == Some((value, now_ms)),
    {
        self.entry = Some((value, now_ms));
    }
}

} // verus!
