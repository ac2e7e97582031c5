use vstd::prelude::*;
use vstd::string::*;
use crate::dispatch::{JsonRpcRequest, join, replies_match, run};
use crate::home::{Home, texts};
use crate::json::{JsonValue, field, has_member, str_of, to_serde};
use crate::queue::RPCQueue;
use crate::rpc::{JsonRpcError, Reply, invalid_request, is_error, parse_error};

verus! {

#[verifier::external_type_specification]
#[verifier::external_body]
pub struct ExValidator(jsonschema::Validator);

/// What the server sends back for one request.
pub enum Response {
    /// The request as a whole was refused: one error object.
    Single(JsonRpcError),
    /// One reply per command executed.
    Batch(Vec<Reply>),
}

/// A schema violation: its message and the path of the offending value.
pub struct Violation {
    pub message: String,
    pub path: String,
}

/// What became of a request's text before any command runs.
pub enum Inbound {
    /// It is not JSON; the parser's message.
    Malformed(String),
    /// It is JSON that the schema refuses; every violation.
    Invalid(Vec<Violation>),
    /// It is JSON that the schema accepts.
    Accepted(JsonValue),
}

/// How a violation with message `m` at path `p` is described.
pub open spec fn line_text(m: Seq<char>, p: Seq<char>) -> Seq<char> {
    "Error: "@ + m + "\n\n Location: "@ + p + "\n\n"@
}

/// How one violation is described.
pub open spec fn violation_text(v: Violation) -> Seq<char> {
    line_text(v.message@, v.path@)
}

/// Every violation (message, path) described, joined with `;`.
pub open spec fn pairs_text(ps: Seq<(Seq<char>, Seq<char>)>) -> Seq<char> {
    join(Seq::new(ps.len(), |i: int| line_text(ps[i].0, ps[i].1)))
}

/// Every violation described, joined with `;`.
pub open spec fn violations_text(vs: Seq<Violation>) -> Seq<char> {
    join(Seq::new(vs.len(), |i: int| violation_text(vs[i])))
}

/// Whether `v` reads as a command: an object whose `id`, `jsonrpc` and
/// `method` are strings and which has a member `params` (of any value).
#[verifier::opaque]
pub open spec fn is_request(v: JsonValue) -> bool {
    &&& v is Object
    &&& has_member(v->Object_0@, "params"@)
    &&& str_of(field(v, "id"@)) is Some
    &&& str_of(field(v, "jsonrpc"@)) is Some
    &&& str_of(field(v, "method"@)) is Some
}

/// Whether `v` reads as a batch: an array of commands.
pub open spec fn is_batch(v: JsonValue) -> bool {
    v is Array && forall|i: int|
        0 <= i < v->Array_0@.len() ==> is_request(#[trigger] v->Array_0@[i])
}

/// Whether `r` is the command that `v` reads as.
#[verifier::opaque]
pub open spec fn request_of(v: JsonValue, r: JsonRpcRequest) -> bool {
    &&& Some(r.id@) == str_of(field(v, "id"@))
    &&& Some(r.jsonrpc@) == str_of(field(v, "jsonrpc"@))
    &&& Some(r.method@) == str_of(field(v, "method"@))
    &&& r.params == field(v, "params"@)
}

/// Whether `b` is the batch that `v` reads as, in order.
pub open spec fn batch_of(v: JsonValue, b: Seq<JsonRpcRequest>) -> bool {
    &&& b.len() == v->Array_0@.len()
    &&& forall|i: int| 0 <= i < b.len() ==> request_of(v->Array_0@[i], #[trigger] b[i])
}

/// The data of the reply to a value that the schema accepted but that does
/// not read as a batch.
pub open spec fn not_a_batch_text() -> Seq<char> {
    "expected an array of requests with string id, jsonrpc and method, and params"@
}

fn text_field(v: &JsonValue, key: &str) -> (r: Option<String>)
    ensures
        r matches Some(s) ==> str_of(field(*v, key@)) == Some(s@),
        r is None ==> str_of(field(*v, key@)) is None,
{
    match v.get(key) {
        Some(x) => match x.as_str() {
            Some(s) => Some(String::from_str(s)),
            None => None,
        },
        None => None,
    }
}

/// The command that `v` reads as.
fn decode_request(v: JsonValue) -> (r: Option<JsonRpcRequest>)
    ensures
        r is Some <==> is_request(v),
        r matches Some(req) ==> request_of(v, req),
{
    reveal(is_request);
    reveal(request_of);
    let id = text_field(&v, "id");
    let jsonrpc = text_field(&v, "jsonrpc");
    let method = text_field(&v, "method");
    let present = v.get("params").is_some();
    let params = v.take_field("params");
    match (id, jsonrpc, method) {
        (Some(id), Some(jsonrpc), Some(method)) => if present {
            Some(JsonRpcRequest { id, jsonrpc, method, params })
        } else {
            None
        },
        _ => None,
    }
}

/// The batch that `v` reads as.
pub fn decode_batch(v: JsonValue) -> (r: Option<Vec<JsonRpcRequest>>)
    ensures
        r is Some <==> is_batch(v),
        r matches Some(b) ==> batch_of(v, b@),
{
    let ghost whole = v;
    match v {
        JsonValue::Array(mut a) => {
            let ghost a0 = a@;
            assert(whole->Array_0@ == a0);
            assert(a0.len() == a.len());
            let mut out: Vec<JsonRpcRequest> = Vec::new();
            let mut k: usize = 0;
            while a.len() > 0
                invariant
                    whole is Array,
                    whole->Array_0@ == a0,
                    v == whole,
                    k + a@.len() == a0.len(),
                    a0.len() <= usize::MAX,
                    a@ == a0.skip(k as int),
                    out@.len() == k,
                    forall|t: int| 0 <= t < k ==> is_request(#[trigger] a0[t]),
                    forall|t: int| 0 <= t < k ==> request_of(a0[t], #[trigger] out@[t]),
                decreases a@.len(),
            {
                let x = a.remove(0);
                assert(x == a0[k as int]);
                match decode_request(x) {
                    Some(req) => {
                        out.push(req);
                    },
                    None => {
                        assert(!is_request(whole->Array_0@[k as int]));
                        return None;
                    },
                }
                k = k + 1;
                assert(a@ =~= a0.skip(k as int));
            }
            Some(out)
        },
        _ => None,
    }
}

/// Every violation described, joined with `;`.
pub fn describe_violations(vs: &Vec<Violation>) -> (r: String)
    ensures
        r@ == violations_text(vs@),
{
    let mut lines: Vec<String> = Vec::new();
    let mut i: usize = 0;
    while i < vs.len()
        invariant
            i <= vs@.len(),
            lines@.len() == i,
            forall|t: int| 0 <= t < i ==> (#[trigger] lines@[t])@ == violation_text(vs@[t]),
        decreases vs@.len() - i,
    {
        let mut line = String::from_str("Error: ");
        line.append(vs[i].message.as_str());
        line.append("\n\n Location: ");
        line.append(vs[i].path.as_str());
        line.append("\n\n");
        lines.push(line);
        i = i + 1;
    }
    assert(texts(lines@) =~= Seq::new(vs@.len(), |t: int| violation_text(vs@[t])));
    crate::dispatch::join_names(&lines)
}

/// What `serde_json` makes of the text `s`: the value it reads, or the
/// message of the error it reports.
pub uninterp spec fn parse_outcome(s: Seq<char>) -> core::result::Result<JsonValue, Seq<char>>;

/// Whether `serde_json` reads `s` as one JSON value.
pub open spec fn parses_as_json(s: Seq<char>) -> bool {
    parse_outcome(s) is Ok
}

/// Relies on `serde_json::from_str` (reading one `serde_json::Value`, or an
/// error whose `Display` says why); the value is converted by `model_of`.
#[verifier::external_body]
fn parse_json(text: &str) -> (r: core::result::Result<JsonValue, String>)
    ensures
        r is Ok ==> parse_outcome(text@) == core::result::Result::<JsonValue, Seq<char>>::Ok(
            r->Ok_0,
        ),
        r is Err ==> parse_outcome(text@) == core::result::Result::<JsonValue, Seq<char>>::Err(
            r->Err_0@,
        ),
{
    serde_json::from_str::<serde_json::Value>(text).map(model_of).map_err(|e| e.to_string())
}

/// The message with which `jsonschema` refuses to compile `schema`, if it
/// does.
pub uninterp spec fn schema_compile_failure(schema: JsonValue) -> Option<Seq<char>>;

/// Whether the validator compiled from `schema` accepts `v`.
pub uninterp spec fn schema_admits(schema: JsonValue, v: JsonValue) -> bool;

/// The violations (message, instance path) that the validator compiled from
/// `schema` finds in `v`.
pub uninterp spec fn schema_violation_list(schema: JsonValue, v: JsonValue) -> Seq<
    (Seq<char>, Seq<char>),
>;

/// Relies on `jsonschema::validator_for`, which compiles a schema or fails
/// with an error whose `Display` says why.
#[verifier::external_body]
fn compile_schema(schema: &JsonValue) -> (r: core::result::Result<jsonschema::Validator, String>)
    ensures
        r is Ok <==> schema_compile_failure(*schema) is None,
        r is Err ==> schema_compile_failure(*schema) == Some(r->Err_0@),
{
    jsonschema::validator_for(&to_serde(schema)).map_err(|e| e.to_string())
}

/// A compiled schema, with the schema it was compiled from.
pub struct SchemaChecker {
    validator: jsonschema::Validator,
    schema: JsonValue,
}

impl SchemaChecker {
    /// The schema the checker was compiled from.
    pub closed spec fn schema(&self) -> JsonValue {
        self.schema
    }

    /// Reads a schema document and compiles it.
    pub fn from_text(text: &str) -> (r: core::result::Result<SchemaChecker, String>)
        ensures
            parse_outcome(text@) is Err ==> (r matches Err(m) && m@ == parse_outcome(
                text@,
            )->Err_0),
            parse_outcome(text@) is Ok && schema_compile_failure(parse_outcome(text@)->Ok_0) is Some ==> (
            r matches Err(m) && Some(m@) == schema_compile_failure(parse_outcome(text@)->Ok_0)),
            parse_outcome(text@) is Ok && schema_compile_failure(parse_outcome(text@)->Ok_0) is None ==> (
            r matches Ok(c) && c.schema() == parse_outcome(text@)->Ok_0),
    {
        match parse_json(text) {
            Err(m) => Err(m),
            Ok(schema) => match compile_schema(&schema) {
                Ok(validator) => Ok(SchemaChecker { validator, schema }),
                Err(m) => Err(m),
            },
        }
    }
}

/// Relies on `jsonschema::Validator::is_valid`, on the validator compiled
/// from the checker's schema.
#[verifier::external_body]
fn schema_accepts(checker: &SchemaChecker, v: &JsonValue) -> (r: bool)
    ensures
        r == schema_admits(checker.schema(), *v),
{
    checker.validator.is_valid(&to_serde(v))
}

/// Relies on `jsonschema::Validator::iter_errors`, on the validator compiled
/// from the checker's schema: each violation, with its `Display` message and
/// the path of the offending value.
#[verifier::external_body]
fn schema_violations(checker: &SchemaChecker, v: &JsonValue) -> (r: Vec<Violation>)
    ensures
        r@.len() == schema_violation_list(checker.schema(), *v).len(),
        forall|i: int|
            0 <= i < r@.len() ==> (#[trigger] r@[i]).message@ == schema_violation_list(
                checker.schema(),
                *v,
            )[i].0 && r@[i].path@ == schema_violation_list(checker.schema(), *v)[i].1,
{
    let instance = to_serde(v);
    checker.validator.iter_errors(&instance).map(
        |e| Violation { message: e.to_string(), path: e.instance_path.to_string() },
    ).collect()
}

/// Converts a `serde_json::Value` to a `JsonValue`, variant by variant; a
/// number keeps the text that `serde_json::Number`'s `Display` writes for it.
#[verifier::external_body]
fn model_of(v: serde_json::Value) -> JsonValue {
    match v {
        serde_json::Value::Null => JsonValue::Null,
        serde_json::Value::Bool(b) => JsonValue::Bool(b),
        serde_json::Value::Number(n) => JsonValue::Number(n.to_string()),
        serde_json::Value::String(s) => JsonValue::Str(s),
        serde_json::Value::Array(a) => JsonValue::Array(a.into_iter().map(model_of).collect()),
        serde_json::Value::Object(o) => JsonValue::Object(
            o.into_iter().map(|(k, x)| (k, model_of(x))).collect(),
        ),
    }
}

impl Home {
    /// Answers one request whose text has been read as `inbound`: text that
    /// is not JSON gets a single parse error, JSON that the schema refuses a
    /// single invalid-request error listing every violation; an accepted
    /// batch is queued and executed, one reply per command executed.
    pub fn respond(&mut self, queue: &mut RPCQueue<JsonRpcRequest>, inbound: Inbound) -> (r: Response)
        requires
            old(self).wf(),
        ensures
            final(self).wf(),
            inbound is Malformed ==> (r matches Response::Single(e) && is_error(
                e,
                -32700,
                inbound->Malformed_0@,
            )) && final(self)@ == old(self)@ && final(queue)@ == old(queue)@,
            inbound is Invalid ==> (r matches Response::Single(e) && is_error(
                e,
                -32600,
                violations_text(inbound->Invalid_0@),
            )) && final(self)@ == old(self)@ && final(queue)@ == old(queue)@,
            inbound is Accepted && !is_batch(inbound->Accepted_0) ==> (r matches Response::Single(e)
                && is_error(e, -32600, not_a_batch_text())) && final(self)@ == old(self)@
                && final(queue)@ == old(queue)@,
            inbound is Accepted && is_batch(inbound->Accepted_0) ==> exists|b: Seq<JsonRpcRequest>|
                batch_of(inbound->Accepted_0, b) && final(self)@ == run(old(self)@, old(queue)@ + b).0
                && (r matches Response::Batch(rs) && replies_match(
                rs@,
                run(old(self)@, old(queue)@ + b).1,
            )) && final(queue)@.len() == 0,
    {
        match inbound {
            Inbound::Malformed(msg) => Response::Single(parse_error(msg)),
            Inbound::Invalid(vs) => Response::Single(invalid_request(describe_violations(&vs))),
            Inbound::Accepted(v) => {
                let ghost value = v;
                match decode_batch(v) {
                    None => Response::Single(
                        invalid_request(
                            String::from_str(
                                "expected an array of requests with string id, jsonrpc and method, and params",
                            ),
                        ),
                    ),
                    Some(batch) => {
                        let ghost b = batch@;
                        queue.push(batch);
                        let replies = self.execute(queue);
                        assert(batch_of(value, b));
                        Response::Batch(replies)
                    },
                }
            },
        }
    }

    /// Answers the request text `request`: it is read as JSON, checked
    /// against `checker`'s schema, and then answered as `respond` says.
    pub fn handle(&mut self, queue: &mut RPCQueue<JsonRpcRequest>, checker: &SchemaChecker, request: &str) -> (r: Response)
        requires
            old(self).wf(),
        ensures
            final(self).wf(),
            parse_outcome(request@) is Err ==> (r matches Response::Single(e) && is_error(
                e,
                -32700,
                parse_outcome(request@)->Err_0,
            )) && final(self)@ == old(self)@ && final(queue)@ == old(queue)@,
            parse_outcome(request@) is Ok && !schema_admits(
                checker.schema(),
                parse_outcome(request@)->Ok_0,
            ) ==> (r matches Response::Single(e) && is_error(
                e,
                -32600,
                pairs_text(schema_violation_list(checker.schema(), parse_outcome(request@)->Ok_0)),
            )) && final(self)@ == old(self)@ && final(queue)@ == old(queue)@,
            parse_outcome(request@) is Ok && schema_admits(
                checker.schema(),
                parse_outcome(request@)->Ok_0,
            ) && !is_batch(parse_outcome(request@)->Ok_0) ==> (r matches Response::Single(e)
                && is_error(e, -32600, not_a_batch_text())) && final(self)@ == old(self)@
                && final(queue)@ == old(queue)@,
            parse_outcome(request@) is Ok && schema_admits(
                checker.schema(),
                parse_outcome(request@)->Ok_0,
            ) && is_batch(parse_outcome(request@)->Ok_0) ==> exists|b: Seq<JsonRpcRequest>|
                batch_of(parse_outcome(request@)->Ok_0, b) && final(self)@ == run(
                    old(self)@,
                    old(queue)@ + b,
                ).0 && (r matches Response::Batch(rs) && replies_match(
                    rs@,
                    run(old(self)@, old(queue)@ + b).1,
                )) && final(queue)@.len() == 0,
    {
        match parse_json(request) {
            Err(msg) => self.respond(queue, Inbound::Malformed(msg)),
            Ok(v) => if schema_accepts(checker, &v) {
                self.respond(queue, Inbound::Accepted(v))
            } else {
                let vs = schema_violations(checker, &v);
                proof {
                    let n = schema_violation_list(checker.schema(), v);
                    assert(Seq::new(vs@.len(), |i: int| violation_text(vs@[i])) =~= Seq::new(
                        n.len(),
                        |i: int| line_text(n[i].0, n[i].1),
                    ));
                }
                self.respond(queue, Inbound::Invalid(vs))
            },
        }
    }
}

} // verus!
