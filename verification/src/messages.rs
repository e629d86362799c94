//! Labels and messages for the audit-log events.
//!
//! Every event the supervisor appends to the external log carries a fixed
//! per-run label naming the supervising host, and a message describing the
//! lifecycle transition; both are built here, as is the command line they
//! quote.

use vstd::prelude::*;
use vstd::string::StrSliceExecFns;
use vstd::string::StringExecFns;

verus! {

/// The words of a command line joined with single spaces.
pub open spec fn joined(parts: Seq<Seq<char>>) -> Seq<char>
    decreases parts.len(),
{
    if parts.len() == 0 {
        Seq::empty()
    } else if parts.len() == 1 {
        parts[0]
    } else {
        joined(parts.drop_last()) + seq![' '] + parts.last()
    }
}

/// The fixed per-run event label, naming the supervising host.
pub open spec fn label_text(hostname: Seq<char>) -> Seq<char> {
    "supervised-by("@ + hostname + ")"@
}

/// The message of the one event appended before the initial launch.
pub open spec fn starting_text(cmd: Seq<Seq<char>>) -> Seq<char> {
    "Starting command: "@ + joined(cmd)
}

/// The message of the event appended on each restart.
pub open spec fn restart_text(cmd: Seq<Seq<char>>) -> Seq<char> {
    "Command exited, restarting: "@ + joined(cmd)
}

/// Join the command's words with single spaces, as the event messages and
/// the console quote the command line.
pub fn join_command(cmd: &Vec<String>) -> (r: String)
    ensures
        r@ == joined(cmd.deep_view()),
{
    let ghost dv = cmd.deep_view();
    let mut r = String::new();
    let n = cmd.len();
    let mut i: usize = 0;
    while i < n
        invariant
            i <= n,
            n == cmd.len(),
            dv == cmd.deep_view(),
            dv.len() == n,
            r@ == joined(dv.take(i as int)),
        decreases n - i,
    {
        if i > 0 {
            r.append(" ");
        }
        r.append(cmd[i].as_str());
        proof {
            reveal_strlit(" ");
            assert(" "@ =~= seq![' ']);
            assert(dv[i as int] == cmd@[i as int].deep_view());
            if i == 0 {
                assert(dv.take(1).len() == 1);
                assert(dv.take(1)[0] == dv[0]);
                assert(joined(dv.take(1)) == dv[0]);
                assert(r@ =~= joined(dv.take(1)));
            } else {
                assert(dv.take(i + 1).drop_last() =~= dv.take(i as int));
                assert(dv.take(i + 1).last() == dv[i as int]);
                assert(joined(dv.take(i + 1)) == joined(dv.take(i as int)) + seq![' '] + dv[i as int]);
                assert(r@ =~= joined(dv.take(i + 1)));
            }
        }
        i = i + 1;
    }
    proof {
        assert(dv.take(n as int) =~= dv);
    }
    r
}

/// Build the per-run event label from the hostname.
pub fn event_label(hostname: &str) -> (r: String)
    ensures
        r@ == label_text(hostname@),
{
    let mut r = String::from_str("supervised-by(");
    r.append(hostname);
    r.append(")");
    proof {
        assert(r@ =~= label_text(hostname@));
    }
    r
}

/// Build the message of the initial-launch event.
pub fn starting_message(cmd: &Vec<String>) -> (r: String)
    ensures
        r@ == starting_text(cmd.deep_view()),
{
    let mut r = String::from_str("Starting command: ");
    let tail = join_command(cmd);
    r.append(tail.as_str());
    r
}

/// Build the message of a restart event.
pub fn restart_message(cmd: &Vec<String>) -> (r: String)
    ensures
        r@ == restart_text(cmd.deep_view()),
{
    let mut r = String::from_str("Command exited, restarting: ");
    let tail = join_command(cmd);
    r.append(tail.as_str());
    r
}

/// The static body served on the status endpoint's root path.
pub fn welcome_message() -> (r: String)
    ensures
        r@ == "Welcome to ForEver"@,
{
    String::from_str("Welcome to ForEver")
}

} // verus!
