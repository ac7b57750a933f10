//! Window-manager workspace names: the command that switches to one and the
//! environment name one carries.
use vstd::prelude::*;

use crate::text::{split_once, split_once_spec, trim, trimmed};

verus! {

/// One character as it stands inside a double-quoted workspace command:
/// backslash and double quote are escaped with a backslash.
pub open spec fn escape_char(c: char) -> Seq<char> {
    if c == '\\' {
        seq!['\\', '\\']
    } else if c == '"' {
        seq!['\\', '"']
    } else {
        seq![c]
    }
}

/// `s` with every character escaped.
pub open spec fn escaped(s: Seq<char>) -> Seq<char>
    decreases s.len(),
{
    if s.len() == 0 {
        Seq::empty()
    } else {
        escaped(s.drop_last()) + escape_char(s.last())
    }
}

/// The command that switches to the workspace `name`: `workspace "…"` with
/// the name escaped, so that nothing in it ends the quoted string.
pub open spec fn workspace_command(name: Seq<char>) -> Seq<char> {
    seq!['w', 'o', 'r', 'k', 's', 'p', 'a', 'c', 'e', ' ', '"'] + escaped(name) + seq!['"']
}

/// The command that switches to the workspace `workspace_name`.
pub fn build_workspace_command(workspace_name: &str) -> (r: String)
    ensures
        r@ == workspace_command(workspace_name@),
{
    let n = workspace_name.unicode_len();
    let mut out = String::new();
    proof {
        reveal_strlit("workspace \"");
        reveal_strlit("\"");
    }
    out.append("workspace \"");
    let ghost head = out@;
    assert(head + Seq::<char>::empty() =~= head);
    let mut i: usize = 0;
    while i < n
        invariant
            n == workspace_name@.len(),
            i <= n,
            head == seq!['w', 'o', 'r', 'k', 's', 'p', 'a', 'c', 'e', ' ', '"'],
            out@ == head + escaped(workspace_name@.subrange(0, i as int)),
        decreases n - i,
    {
        let c = workspace_name.get_char(i);
        let ghost before = out@;
        proof {
            reveal_strlit("\\\\");
            reveal_strlit("\\\"");
        }
        if c == '\\' {
            out.append("\\\\");
        } else if c == '"' {
            out.append("\\\"");
        } else {
            out.append(workspace_name.substring_char(i, i + 1));
            assert(workspace_name@.subrange(i as int, i + 1) =~= seq![c]);
        }
        assert(workspace_name@.subrange(0, i + 1).drop_last() =~= workspace_name@.subrange(
            0,
            i as int,
        ));
        assert(workspace_name@.subrange(0, i + 1).last() == c);
        assert(out@ =~= before + escape_char(c));
        assert(out@ =~= head + escaped(workspace_name@.subrange(0, i + 1)));
        i = i + 1;
    }
    assert(workspace_name@.subrange(0, n as int) =~= workspace_name@);
    out.append("\"");
    out
}

/// The environment a workspace name `number: name` carries: what follows the
/// first colon, trimmed; empty where there is no colon.
pub open spec fn environment_of_workspace(name: Seq<char>) -> Seq<char> {
    match split_once_spec(name, ':') {
        Some((_, rest)) => trimmed(rest),
        None => Seq::empty(),
    }
}

/// The environment name a workspace name carries.
pub fn extract_environment_name(workspace_name: &str) -> (r: String)
    ensures
        r@ == environment_of_workspace(workspace_name@),
{
    match split_once(workspace_name, ':') {
        Some((_, rest)) => trim(rest).to_owned(),
        None => String::new(),
    }
}

} // verus!
