//! What the `route` and `cron` attributes decide about a handler from its
//! signature: which runner wraps it, or why it is refused. The signature
//! arrives as plain values; producing code from the answer is the macros'
//! own work.
use crate::text::str_eq;
use vstd::prelude::*;

verus! {

/// Which attribute a handler carries.
pub enum HandlerKind {
    Route,
    Cron,
}

/// The generic arguments of the last segment of a type path.
pub enum SegmentArgs {
    /// No angle brackets.
    NoArgs,
    /// Angle brackets whose first argument is a type, written out.
    FirstType(String),
    /// Anything else: empty angle brackets, a first argument that is not a
    /// type, or parenthesized arguments.
    Other,
}

/// The type of a handler's argument: for a path type, the name of its last
/// segment and that segment's generic arguments; `None` for any other type.
pub struct ArgType {
    pub last_segment: Option<(String, SegmentArgs)>,
}

/// A handler's argument.
pub enum HandlerArg {
    /// `self` in any form.
    Receiver,
    Typed(ArgType),
}

/// What the attributes read of a handler's signature and body.
pub struct HandlerSignature {
    pub args: Vec<HandlerArg>,
    /// The name of the last segment of the return type, when the return
    /// type is a path; `None` when there is none or it is not a path.
    pub return_last_segment: Option<String>,
    /// Whether the body ends with an expression without a semicolon.
    pub ends_with_expression: bool,
}

/// The runner that wraps a handler.
pub enum HandlerRunner {
    /// `run_route_empty`.
    RouteEmpty,
    /// `run_route` with the request body type, written out.
    Route(String),
    /// `run_cron_empty`.
    CronEmpty,
    /// `run_cron`.
    Cron,
}

pub open spec fn opt_string(s: Option<String>) -> Option<Seq<char>> {
    match s {
        Some(t) => Some(t@),
        None => None,
    }
}

/// The body type of a route handler's argument: `()` for a bare `Request`,
/// the first type argument of `Request<..>`, else none.
pub open spec fn body_type_of(ty: ArgType) -> Option<Seq<char>> {
    match ty.last_segment {
        Some((name, args)) => if name@ != "Request"@ {
            None
        } else {
            match args {
                SegmentArgs::NoArgs => Some("()"@),
                SegmentArgs::FirstType(t) => Some(t@),
                SegmentArgs::Other => None,
            }
        },
        None => None,
    }
}

/// The runner's view: which one, and the body type of a route runner.
pub open spec fn runner_view(r: HandlerRunner) -> (int, Seq<char>) {
    match r {
        HandlerRunner::RouteEmpty => (0, seq![]),
        HandlerRunner::Route(t) => (1, t@),
        HandlerRunner::CronEmpty => (2, seq![]),
        HandlerRunner::Cron => (3, seq![]),
    }
}

/// The decision, checked in this order: at most one argument; a return
/// type named `Response`; a body ending with an expression; then by kind
/// and argument: no argument takes the empty runner, `self` is refused, a
/// route takes `Request<T>` and a cron `CronEvent`.
pub open spec fn handler_plan_of(kind: HandlerKind, sig: HandlerSignature) -> Result<(int, Seq<char>), Seq<char>> {
    if sig.args@.len() > 1 {
        Err("rack handlers accept zero args or one rack::Request<T>/rack::CronEvent arg"@)
    } else if opt_string(sig.return_last_segment) != Some("Response"@) {
        Err("rack handlers must return rack::Response"@)
    } else if !sig.ends_with_expression {
        Err("rack handlers must end with a rack::Response expression"@)
    } else if sig.args@.len() == 0 {
        match kind {
            HandlerKind::Route => Ok((0, seq![])),
            HandlerKind::Cron => Ok((2, seq![])),
        }
    } else {
        match sig.args@[0] {
            HandlerArg::Receiver => Err("rack handlers cannot take self"@),
            HandlerArg::Typed(ty) => match kind {
                HandlerKind::Route => match body_type_of(ty) {
                    Some(t) => Ok((1, t)),
                    None => Err("route handlers take rack::Request<T> or no args"@),
                },
                HandlerKind::Cron => match ty.last_segment {
                    Some((name, _)) if name@ == "CronEvent"@ => Ok((3, seq![])),
                    _ => Err("cron handlers take rack::CronEvent or no args"@),
                },
            },
        }
    }
}

fn request_body_type(ty: &ArgType) -> (r: Option<String>)
    ensures
        opt_string(r) == body_type_of(*ty),
{
    match &ty.last_segment {
        Some((name, args)) => {
            if !str_eq(name.as_str(), "Request") {
                return None;
            }
            match args {
                SegmentArgs::NoArgs => Some("()".to_string()),
                SegmentArgs::FirstType(t) => Some(t.clone()),
                SegmentArgs::Other => None,
            }
        },
        None => None,
    }
}

/// Decides how a `route` or `cron` handler is wrapped, or why it is
/// refused, as `handler_plan_of` says.
pub fn handler_plan(kind: HandlerKind, sig: &HandlerSignature) -> (r: Result<HandlerRunner, String>)
    ensures
        match handler_plan_of(kind, *sig) {
            Ok(v) => r matches Ok(runner) && runner_view(runner) == v,
            Err(e) => r matches Err(m) && m@ == e,
        },
{
    if sig.args.len() > 1 {
        return Err("rack handlers accept zero args or one rack::Request<T>/rack::CronEvent arg".to_string());
    }
    let returns_response = match &sig.return_last_segment {
        Some(name) => str_eq(name.as_str(), "Response"),
        None => false,
    };
    if !returns_response {
        return Err("rack handlers must return rack::Response".to_string());
    }
    if !sig.ends_with_expression {
        return Err("rack handlers must end with a rack::Response expression".to_string());
    }
    if sig.args.len() == 0 {
        return match kind {
            HandlerKind::Route => Ok(HandlerRunner::RouteEmpty),
            HandlerKind::Cron => Ok(HandlerRunner::CronEmpty),
        };
    }
    match &sig.args[0] {
        HandlerArg::Receiver => Err("rack handlers cannot take self".to_string()),
        HandlerArg::Typed(ty) => match kind {
            HandlerKind::Route => match request_body_type(ty) {
                Some(t) => Ok(HandlerRunner::Route(t)),
                None => Err("route handlers take rack::Request<T> or no args".to_string()),
            },
            HandlerKind::Cron => {
                let is_event = match &ty.last_segment {
                    Some((name, _)) => str_eq(name.as_str(), "CronEvent"),
                    None => false,
                };
                if is_event {
                    Ok(HandlerRunner::Cron)
                } else {
                    Err("cron handlers take rack::CronEvent or no args".to_string())
                }
            },
        },
    }
}

} // verus!
