//! Executing the user-supplied transformation script: the rendered template
//! and the parameter mapping are serialized into a self-contained script
//! that defines `template`, `params` and a fresh per-request `context`,
//! loads the transformer, demands a `transform` function of arity 3, calls
//! it, and stringifies its return value. The script runs in a fresh,
//! isolated engine per request, with no filesystem, network or process
//! access; its outcome depends on the engine's clock and random source, so
//! nothing is assumed of it beyond being checked as JSON afterwards.

use vstd::prelude::*;
use crate::errors::MockError;
use crate::jsontext::{canon_json, json_canon_of, json_quoted, json_wf};
use crate::params::Params;

verus! {

/// One `"name":"value"` member of the parameter object.
pub open spec fn pair_text(kv: (Seq<char>, Seq<char>)) -> Seq<char> {
    json_quoted(kv.0) + seq![':'] + json_quoted(kv.1)
}

/// The comma-separated members, in insertion order.
pub open spec fn pairs_text(kvs: Seq<(Seq<char>, Seq<char>)>) -> Seq<char>
    decreases kvs.len(),
{
    if kvs.len() == 0 {
        Seq::empty()
    } else if kvs.len() == 1 {
        pair_text(kvs[0])
    } else {
        pairs_text(kvs.drop_last()) + seq![','] + pair_text(kvs.last())
    }
}

/// The JSON object text of a parameter mapping.
pub open spec fn params_object_text(kvs: Seq<(Seq<char>, Seq<char>)>) -> Seq<char> {
    seq!['{'] + pairs_text(kvs) + seq!['}']
}

/// Serialize the parameter mapping as a JSON object, entries in insertion
/// order.
pub fn params_to_json(params: &Params) -> (r: String)
    ensures
        r@ == params_object_text(params.kvs()),
{
    let entries = params.entries_vec();
    let ghost kvs = params.kvs();
    let n = entries.len();
    let mut out = String::from_str("{");
    proof {
        reveal_strlit("{");
        assert(out@ =~= seq!['{'] + pairs_text(kvs.take(0)));
    }
    let mut i: usize = 0;
    while i < n
        invariant
            n == entries.len(),
            entries.deep_view() == kvs,
            0 <= i <= n,
            out@ == seq!['{'] + pairs_text(kvs.take(i as int)),
        decreases n - i,
    {
        proof {
            assert(entries[i as int].0@ == kvs[i as int].0);
            assert(entries[i as int].1@ == kvs[i as int].1);
        }
        if i > 0 {
            out.append(",");
        }
        let qk = crate::jsontext::json_quote(entries[i].0.as_str());
        out.append(qk.as_str());
        out.append(":");
        let qv = crate::jsontext::json_quote(entries[i].1.as_str());
        out.append(qv.as_str());
        proof {
            reveal_strlit(",");
            reveal_strlit(":");
            let cur = kvs.take(i + 1);
            assert(cur.drop_last() =~= kvs.take(i as int));
            assert(cur.last() == kvs[i as int]);
            if i == 0 {
                assert(pairs_text(cur) == pair_text(kvs[0]));
            }
            assert(out@ =~= seq!['{'] + pairs_text(cur));
        }
        i += 1;
    }
    out.append("}");
    proof {
        reveal_strlit("}");
        assert(kvs.take(n as int) =~= kvs);
        assert(out@ =~= params_object_text(kvs));
    }
    out
}

/// The full script handed to the engine: the rendered template and the
/// parameter object bound as constants, a fresh context with a timestamp
/// and a random request id, the transformer source, a check that it
/// defined `transform`, the call, and stringification of the result.
pub open spec fn script_text(
    template: Seq<char>,
    params_json: Seq<char>,
    transformer: Seq<char>,
) -> Seq<char> {
    "const template = "@ + template + ";\nconst params = "@ + params_json
        + ";\nconst context = {\n    timestamp: new Date().toISOString(),\n    requestId: Math.random().toString(36).substr(2, 9)\n};\n"@
        + transformer
        + "\nif (typeof transform !== 'function') {\n    throw new Error('transform function not defined in transformer');\n}\nconst result = transform(template, params, context);\nJSON.stringify(result);\n"@
}

/// Assemble the script.
pub fn build_transform_script(template: &str, params_json: &str, transformer: &str) -> (r: String)
    ensures
        r@ == script_text(template@, params_json@, transformer@),
{
    let out = String::from_str("const template = ").concat(template).concat(
        ";\nconst params = ",
    ).concat(params_json).concat(
        ";\nconst context = {\n    timestamp: new Date().toISOString(),\n    requestId: Math.random().toString(36).substr(2, 9)\n};\n",
    ).concat(transformer).concat(
        "\nif (typeof transform !== 'function') {\n    throw new Error('transform function not defined in transformer');\n}\nconst result = transform(template, params, context);\nJSON.stringify(result);\n",
    );
    proof {
        assert(out@ =~= script_text(template@, params_json@, transformer@));
    }
    out
}

/// Relies on rquickjs: `Runtime::new`, `Runtime::set_interrupt_handler`,
/// `Context::full` and `Ctx::eval`. The script runs in a freshly created
/// engine holding nothing but the language's own globals: no filesystem,
/// network, process or host bindings, and no state from any earlier
/// request. A deadline is installed through the engine's interrupt
/// handler, so a script that exceeds its time budget is interrupted with
/// an uncatchable exception and reported as an error rather than running
/// unboundedly. The script's final expression is returned as a string; any
/// engine or script error is reported as text. The outcome may depend on
/// the engine's clock and random source, so no ensures is assumed about
/// it.
#[verifier::external_body]
fn js_eval(code: &str) -> (r: Result<String, String>) {
    let rt = match rquickjs::Runtime::new() {
        Ok(x) => x,
        Err(e) => return Err(format!("{}", e)),
    };
    let deadline = std::time::Instant::now() + std::time::Duration::from_secs(5);
    rt.set_interrupt_handler(Some(Box::new(move || std::time::Instant::now() >= deadline)));
    let cx = match rquickjs::Context::full(&rt) {
        Ok(x) => x,
        Err(e) => return Err(format!("{}", e)),
    };
    cx.with(|ctx| ctx.eval::<String, _>(code.as_bytes()).map_err(|e| format!("{}", e)))
}

/// Turn the engine's outcome into the response body: an engine or script
/// error is an execution error; output that is not JSON is an execution
/// error; JSON output is returned in canonical text.
pub fn transform_result_of(eval: Result<String, String>) -> (r: Result<String, MockError>)
    ensures
        eval is Err ==> (r matches Err(e) && e matches MockError::Execution(_)),
        eval is Ok && json_wf(eval->Ok_0@) ==> (r matches Ok(c) && c@ == json_canon_of(
            eval->Ok_0@,
        ) && json_wf(c@) && json_canon_of(c@) == c@),
        eval is Ok && !json_wf(eval->Ok_0@) ==> (r matches Err(e2) && e2
            matches MockError::Execution(_)),
{
    match eval {
        Err(m) => Err(MockError::Execution(m)),
        Ok(s) => {
            match canon_json(s.as_str()) {
                Some(c) => Ok(c),
                None => Err(
                    MockError::Execution(
                        String::from_str("the transformer returned a value that is not JSON"),
                    ),
                ),
            }
        },
    }
}

/// Run the transformer against a rendered template and the captured
/// parameters, in a fresh isolated environment with a bounded time budget.
/// Whatever the script does — including overrunning the budget, which
/// interrupts it — a successful response is canonical JSON text, and every
/// failure is an execution error.
pub fn execute_transformer(template: &str, transformer: &str, params: &Params) -> (r: Result<
    String,
    MockError,
>)
    ensures
        r matches Ok(s) ==> json_wf(s@) && json_canon_of(s@) == s@,
        r matches Err(e) ==> e matches MockError::Execution(_),
{
    let params_json = params_to_json(params);
    let code = build_transform_script(template, params_json.as_str(), transformer);
    transform_result_of(js_eval(code.as_str()))
}

} // verus!
