//! Startup gate decisions: whether the session may start, given the outcome
//! of the user-identity command and the presence of each required external
//! tool. The commands themselves run outside; only their outputs are judged
//! here.
use vstd::prelude::*;

verus! {

/// An ASCII whitespace character, as command output ends with.
pub open spec fn is_ws(c: char) -> bool {
    c == ' ' || c == '\n' || c == '\t' || c == '\r'
}

/// `s` without its trailing whitespace.
pub open spec fn trim_end_spec(s: Seq<char>) -> Seq<char>
    decreases s.len(),
{
    if s.len() > 0 && is_ws(s[s.len() - 1]) {
        trim_end_spec(s.drop_last())
    } else {
        s
    }
}

/// Why the session may not start.
pub enum PrereqError {
    /// The user-identity check succeeded and did not report the superuser.
    NotRoot,
    /// The tool with this index is missing; all earlier ones were found.
    MissingTool(usize),
}

/// The user check passes when the identity command reported the superuser;
/// a command that could not run at all is let through.
pub open spec fn user_ok(cmd_ok: bool, out: Seq<char>) -> bool {
    !cmd_ok || trim_end_spec(out) == seq!['0']
}

/// Judges the user-identity command's output: the trimmed output must name
/// the superuser; a command that failed to run does not block the start.
pub fn check_user(cmd_ok: bool, stdout: &Vec<char>) -> (r: bool)
    ensures
        r == user_ok(cmd_ok, stdout@),
{
    if !cmd_ok {
        return true;
    }
    let mut n = stdout.len();
    proof {
        assert(stdout@.subrange(0, stdout@.len() as int) =~= stdout@);
    }
    while n > 0 && (stdout[n - 1] == ' ' || stdout[n - 1] == '\n' || stdout[n - 1] == '\t' || stdout[
        n - 1
    ] == '\r')
        invariant
            n <= stdout@.len(),
            trim_end_spec(stdout@) == trim_end_spec(stdout@.subrange(0, n as int)),
        decreases n,
    {
        proof {
            assert(stdout@.subrange(0, n as int).drop_last() =~= stdout@.subrange(0, n - 1));
        }
        n -= 1;
    }
    proof {
        assert(stdout@.subrange(0, stdout@.len() as int) =~= stdout@);
        assert(trim_end_spec(stdout@) == stdout@.subrange(0, n as int));
    }
    if n != 1 {
        assert(trim_end_spec(stdout@).len() != 1);
        return false;
    }
    let c = stdout[0];
    proof {
        assert(stdout@.subrange(0, 1)[0] == stdout@[0]);
        if c == '0' {
            assert(trim_end_spec(stdout@) =~= seq!['0']);
        }
    }
    c == '0'
}

/// Judges one tool-lookup result: the tool must have been found.
pub fn check_executable(found: bool) -> (r: bool)
    ensures
        r == found,
{
    found
}

/// The whole startup gate: the user check first, then each required tool in
/// order; the first failure names itself, and the session may start only
/// when none fails.
pub fn check_prerequisites(user_cmd_ok: bool, user_stdout: &Vec<char>, tools_found: &Vec<bool>) -> (r:
    Option<PrereqError>)
    ensures
        (match r {
            None => user_ok(user_cmd_ok, user_stdout@) && forall|k: int|
                0 <= k < tools_found@.len() ==> tools_found@[k],
            Some(e) => match e {
                PrereqError::NotRoot => !user_ok(user_cmd_ok, user_stdout@),
                PrereqError::MissingTool(k) => user_ok(user_cmd_ok, user_stdout@) && k
                    < tools_found@.len() && !tools_found@[k as int] && forall|j: int|
                    0 <= j < k ==> tools_found@[j],
            },
        }),
{
    if !check_user(user_cmd_ok, user_stdout) {
        return Some(PrereqError::NotRoot);
    }
    let mut k: usize = 0;
    while k < tools_found.len()
        invariant
            k <= tools_found@.len(),
            user_ok(user_cmd_ok, user_stdout@),
            forall|j: int| 0 <= j < k ==> tools_found@[j],
        decreases tools_found@.len() - k,
    {
        if !check_executable(tools_found[k]) {
            return Some(PrereqError::MissingTool(k));
        }
        k += 1;
    }
    None
}

} // verus!
