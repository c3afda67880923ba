//! Assembling invocations of the external tool, and the small decisions the
//! command layer makes around them.
//!
//! Each GUI-facing operation maps its named fields to one invocation: a
//! target name for the tool plus `KEY=value` tokens. The functions here
//! compute those strings, the acknowledgement messages the operations
//! return, and the one purely local decision (which cost optimisation to
//! apply).

use vstd::prelude::*;
use vstd::string::StringExecFns;
use crate::outcome::result_view;

verus! {

/// One planned invocation of the external tool: the target name, passed
/// first, and the remaining argument tokens in order.
pub struct CommandPlan {
    pub command: String,
    pub args: Vec<String>,
}

/// The invocation that starts a consensus debate: target `cod-<mode>`, with
/// the topic as the single `TOPIC=` token.
pub fn plan_cod_debate(topic: &str, mode: &str) -> (p: CommandPlan)
    ensures
        p.command@ == "cod-"@ + mode@,
        p.args@.len() == 1,
        p.args@[0]@ == "TOPIC="@ + topic@,
{
    let command = "cod-".to_owned().concat(mode);
    let arg = "TOPIC=".to_owned().concat(topic);
    let mut args: Vec<String> = Vec::new();
    args.push(arg);
    CommandPlan { command, args }
}

/// The invocation that runs a chat message through a local model: target
/// `local-chat`, with the message as the single `TEXT=` token.
pub fn plan_local_chat(message: &str) -> (p: CommandPlan)
    ensures
        p.command@ == "local-chat"@,
        p.args@.len() == 1,
        p.args@[0]@ == "TEXT="@ + message@,
{
    let arg = "TEXT=".to_owned().concat(message);
    let mut args: Vec<String> = Vec::new();
    args.push(arg);
    CommandPlan { command: "local-chat".to_owned(), args }
}

/// The argument-free invocation that lists the local models.
pub fn plan_local_models() -> (p: CommandPlan)
    ensures
        p.command@ == "local-models"@,
        p.args@.len() == 0,
{
    CommandPlan { command: "local-models".to_owned(), args: Vec::new() }
}

/// The argument-free invocation that reports local model status.
pub fn plan_local_status() -> (p: CommandPlan)
    ensures
        p.command@ == "local-status"@,
        p.args@.len() == 0,
{
    CommandPlan { command: "local-status".to_owned(), args: Vec::new() }
}

/// The argument-free invocation that checks system health.
pub fn plan_health_check() -> (p: CommandPlan)
    ensures
        p.command@ == "health-check"@,
        p.args@.len() == 0,
{
    CommandPlan { command: "health-check".to_owned(), args: Vec::new() }
}

/// The character for one decimal digit.
pub open spec fn digit_char(d: nat) -> char {
    if d == 0 {
        '0'
    } else if d == 1 {
        '1'
    } else if d == 2 {
        '2'
    } else if d == 3 {
        '3'
    } else if d == 4 {
        '4'
    } else if d == 5 {
        '5'
    } else if d == 6 {
        '6'
    } else if d == 7 {
        '7'
    } else if d == 8 {
        '8'
    } else {
        '9'
    }
}

#[via_fn]
proof fn dec_digits_decreases(n: nat) {
    if n >= 10 {
        assert(n / 10 < n) by (nonlinear_arith)
            requires n >= 10;
    }
}

/// The decimal digit characters of `n`, most significant first, with no
/// leading zeros (a single `0` for zero).
pub open spec fn dec_digits(n: nat) -> Seq<char>
    decreases n,
    via dec_digits_decreases
{
    if n < 10 {
        seq![digit_char(n)]
    } else {
        dec_digits(n / 10).push(digit_char(n % 10))
    }
}

/// Renders `n` in decimal.
pub fn u64_to_decimal(n: u64) -> (r: String)
    ensures
        r@ == dec_digits(n as nat),
    decreases n,
{
    let d = n % 10;
    let ds: &str = if d == 0 {
        "0"
    } else if d == 1 {
        "1"
    } else if d == 2 {
        "2"
    } else if d == 3 {
        "3"
    } else if d == 4 {
        "4"
    } else if d == 5 {
        "5"
    } else if d == 6 {
        "6"
    } else if d == 7 {
        "7"
    } else if d == 8 {
        "8"
    } else {
        "9"
    };
    proof {
        reveal_strlit("0");
        reveal_strlit("1");
        reveal_strlit("2");
        reveal_strlit("3");
        reveal_strlit("4");
        reveal_strlit("5");
        reveal_strlit("6");
        reveal_strlit("7");
        reveal_strlit("8");
        reveal_strlit("9");
        assert(ds@ =~= seq![digit_char((n % 10) as nat)]);
    }
    if n < 10 {
        ds.to_owned()
    } else {
        let prefix = u64_to_decimal(n / 10);
        let r = prefix.concat(ds);
        proof {
            assert(dec_digits((n as nat) / 10).push(digit_char((n % 10) as nat)) =~= dec_digits(
                (n as nat) / 10,
            ) + seq![digit_char((n % 10) as nat)]);
        }
        r
    }
}

/// The identifier under which a debate started at `now_secs` (seconds since
/// the epoch) is reported back: `debate_` followed by the time in decimal.
pub fn debate_id_for(now_secs: u64) -> (r: String)
    ensures
        r@ == "debate_"@ + dec_digits(now_secs as nat),
{
    let digits = u64_to_decimal(now_secs);
    "debate_".to_owned().concat(digits.as_str())
}

/// The acknowledgement returned when a model start is initiated.
pub fn start_model_message(model_id: &str) -> (r: String)
    ensures
        r@ == "Model "@ + model_id@ + " start initiated"@,
{
    "Model ".to_owned().concat(model_id).concat(" start initiated")
}

/// The acknowledgement returned when a model stop is initiated.
pub fn stop_model_message(model_id: &str) -> (r: String)
    ensures
        r@ == "Model "@ + model_id@ + " stop initiated"@,
{
    "Model ".to_owned().concat(model_id).concat(" stop initiated")
}

/// The cost-optimisation decision: which of the three known strategy labels
/// was requested, and the acknowledgement or error for each.
pub open spec fn optimize_costs_spec(t: Seq<char>) -> Result<Seq<char>, Seq<char>> {
    if t == "prefer_local"@ {
        Ok("Local model preference enabled"@)
    } else if t == "batch_requests"@ {
        Ok("Request batching enabled"@)
    } else if t == "cache_results"@ {
        Ok("Result caching enabled"@)
    } else {
        Err("Unknown optimization type"@)
    }
}

/// Applies a cost-optimisation strategy: succeeds with the strategy's
/// acknowledgement exactly when the label is one of the three known ones,
/// and fails with the fixed error otherwise.
pub fn optimize_costs(optimization_type: &str) -> (r: Result<String, String>)
    ensures
        result_view(r) == optimize_costs_spec(optimization_type@),
{
    let ot = optimization_type.to_owned();
    if ot == "prefer_local".to_owned() {
        Ok("Local model preference enabled".to_owned())
    } else if ot == "batch_requests".to_owned() {
        Ok("Request batching enabled".to_owned())
    } else if ot == "cache_results".to_owned() {
        Ok("Result caching enabled".to_owned())
    } else {
        Err("Unknown optimization type".to_owned())
    }
}

} // verus!
