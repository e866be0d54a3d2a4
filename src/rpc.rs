//! Guest-to-host requests of a sandbox supervisor: authentication and dispatch.
use vstd::prelude::*;
use vstd::string::*;
use crate::text::{has_sub, name_in, views};

verus! {

/// A notification the guest asks the host to give.
pub enum NotifyRequest {
    /// Play a sound with the host's player, passing these arguments.
    Sound { args: Vec<String> },
}

/// What the guest asks of the host.
pub enum RpcOp {
    Notify(NotifyRequest),
    /// Run an allow-listed command on the host.
    HostExec { command: String, args: Vec<String> },
}

/// A request, with the bearer token it presents.
pub struct RpcRequest {
    pub token: String,
    pub op: RpcOp,
}

/// The host's answer.
pub enum RpcResponse {
    Success,
    /// A host command ran and exited with this code.
    Exit { code: i32 },
    Error { message: String },
}

/// What the supervisor does with a request.
pub enum RpcAction {
    /// Answer with this error and close the connection.
    Reject { message: String },
    /// Play a sound with these arguments.
    PlaySound { args: Vec<String> },
    /// Run this allow-listed host command.
    RunHost { command: String, args: Vec<String> },
}

/// The answer to a request that presents a wrong token.
pub open spec fn auth_failed_message() -> Seq<char> {
    "authentication failed"@
}

/// Compares two tokens without stopping at the first difference.
pub fn tokens_match(presented: &str, expected: &str) -> (r: bool)
    ensures
        r == (presented@ == expected@),
{
    let n = presented.unicode_len();
    let m = expected.unicode_len();
    let mut diffs: usize = 0;
    let len = if n < m {
        n
    } else {
        m
    };
    let mut i: usize = 0;
    while i < len
        invariant
            n == presented@.len(),
            m == expected@.len(),
            len <= n,
            len <= m,
            len == n || len == m,
            i <= len,
            diffs <= i,
            (diffs == 0) == (forall|k: int| 0 <= k < i ==> presented@[k] == expected@[k]),
        decreases len - i,
    {
        let eq = presented.get_char(i) == expected.get_char(i);
        let step: usize = if eq {
            0
        } else {
            1
        };
        diffs = diffs + step;
        i = i + 1;
    }
    let same = n == m && diffs == 0;
    if same {
        assert(presented@ =~= expected@);
    }
    same
}

fn copy_strings(v: &Vec<String>) -> (r: Vec<String>)
    ensures
        views(r@) == views(v@),
{
    let mut out: Vec<String> = Vec::new();
    let mut i: usize = 0;
    while i < v.len()
        invariant
            i <= v@.len(),
            views(out@) == views(v@.subrange(0, i as int)),
        decreases v.len() - i,
    {
        out.push(v[i].clone());
        assert(views(v@.subrange(0, i + 1)) =~= views(v@.subrange(0, i as int)).push(v@[i as int]@));
        i = i + 1;
    }
    assert(v@.subrange(0, v@.len() as int) =~= v@);
    out
}

/// What the supervisor does with `req`: a wrong token is rejected with the
/// authentication error; otherwise a sound is played with the request's
/// arguments, and a host command is run with its arguments only when `allowed`
/// lists it, else rejected naming the command.
pub open spec fn dispatch_spec(req: RpcRequest, token: Seq<char>, allowed: Seq<Seq<char>>, r: RpcAction) -> bool {
    &&& req.token@ != token ==> (r matches RpcAction::Reject { message } && message@
        == auth_failed_message())
    &&& req.token@ == token ==> match req.op {
        RpcOp::Notify(NotifyRequest::Sound { args }) => r matches RpcAction::PlaySound { args: a }
            && views(a@) == views(args@),
        RpcOp::HostExec { command, args } => if allowed.contains(command@) {
            r matches RpcAction::RunHost { command: c, args: a } && c@ == command@ && views(a@)
                == views(args@)
        } else {
            r matches RpcAction::Reject { message } && message@ == "command not allowed: "@
                + command@
        },
    }
}

/// Decides what to do with `req`: reject it unless it presents `token`, and run
/// host commands only when `allowed` lists them.
pub fn dispatch(req: &RpcRequest, token: &str, allowed: &Vec<String>) -> (r: RpcAction)
    ensures
        dispatch_spec(*req, token@, views(allowed@), r),
{
    if !tokens_match(req.token.as_str(), token) {
        return RpcAction::Reject { message: String::from_str("authentication failed") };
    }
    match &req.op {
        RpcOp::Notify(NotifyRequest::Sound { args }) => RpcAction::PlaySound {
            args: copy_strings(args),
        },
        RpcOp::HostExec { command, args } => {
            if name_in(allowed, command.as_str()) {
                RpcAction::RunHost { command: command.clone(), args: copy_strings(args) }
            } else {
                let mut message = String::from_str("command not allowed: ");
                message.append(command.as_str());
                RpcAction::Reject { message }
            }
        },
    }
}

/// The answer to a request with a wrong token does not reveal the supervisor's
/// token (a hex encoding of 32 random bytes).
pub proof fn lemma_rejection_hides_token(token: Seq<char>)
    requires
        token.len() == 64,
    ensures
        !has_sub(auth_failed_message(), token),
{
    reveal_strlit("authentication failed");
    assert(auth_failed_message().len() == 21);
    assert forall|i: int| !crate::text::occurs_at(auth_failed_message(), token, i) by {}
}

/// The supervisor's answer to a rejected request.
pub fn rejection(action: &RpcAction) -> (r: Option<RpcResponse>)
    ensures
        match action {
            RpcAction::Reject { message } => r matches Some(RpcResponse::Error { message: m }) && m@
                == message@,
            _ => r is None,
        },
{
    match action {
        RpcAction::Reject { message } => Some(RpcResponse::Error { message: message.clone() }),
        _ => None,
    }
}

/// The immediate answer to a request: an error for a rejected request, `None`
/// when the host must act first. A request with a wrong token is always
/// answered with an error that does not reveal the supervisor's token, and its
/// operation is never handed on.
pub fn immediate_answer(req: &RpcRequest, token: &str, allowed: &Vec<String>) -> (r: (
    Option<RpcResponse>,
    RpcAction,
))
    ensures
        dispatch_spec(*req, token@, views(allowed@), r.1),
        match r.1 {
            RpcAction::Reject { message } => r.0 matches Some(RpcResponse::Error { message: m })
                && m@ == message@,
            _ => r.0 is None,
        },
        req.token@ != token@ && token@.len() == 64 ==> (r.0 matches Some(
            RpcResponse::Error { message },
        ) && !has_sub(message@, token@)),
{
    let action = dispatch(req, token, allowed);
    let answer = rejection(&action);
    proof {
        if req.token@ != token@ && token@.len() == 64 {
            lemma_rejection_hides_token(token@);
        }
    }
    (answer, action)
}

} // verus!
