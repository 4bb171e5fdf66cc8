//! The Command Translator: a pure mapping from a logical command and a
//! target name to the concrete shell command that runs inside the
//! workload. An unknown command, or a name that carries fewer than two
//! hyphen-separated tokens and so cannot address a VM, translates to
//! nothing; the caller treats that as a no-op, never as a failure.

use vstd::prelude::*;
use crate::text::{find_first, first_index_of, lemma_first_index_of, str_eq};

verus! {

/// The first two hyphen-separated tokens of a target name, when the
/// name holds at least two (that is, contains a hyphen at all).
pub open spec fn vm_identity(name: Seq<char>) -> Option<(Seq<char>, Seq<char>)> {
    let d1 = first_index_of(name, '-');
    if d1 == -1 {
        None
    } else {
        let rest = name.subrange(d1 + 1, name.len() as int);
        let d2 = first_index_of(rest, '-');
        let second = if d2 == -1 {
            rest
        } else {
            rest.subrange(0, d2)
        };
        Some((name.subrange(0, d1), second))
    }
}

/// What a logical command translates to for a target name: `getxml`
/// dumps the hypervisor domain definition of the VM named by the first
/// two hyphen-separated tokens, non-interactively; `logs` reads the
/// hypervisor daemon's log file; everything else, and every name
/// without a hyphen, translates to nothing.
pub open spec fn convert_model(cmd: Seq<char>, name: Seq<char>) -> Option<Seq<char>> {
    match vm_identity(name) {
        None => None,
        Some(id) => if cmd == "getxml"@ {
            Some("virsh dumpxml "@ + id.0 + "-"@ + id.1 + " --inactive"@)
        } else if cmd == "logs"@ {
            Some("cat /var/log/libvirt/libvirtd.log"@)
        } else {
            None
        },
    }
}

/// Translates a logical command for a target name into the concrete
/// shell command, exactly as `convert_model` says.
pub fn convert_command(cmd: &str, pod_name: &str) -> (r: Option<String>)
    ensures
        r is Some <==> convert_model(cmd@, pod_name@) is Some,
        r is Some ==> r->0@ == convert_model(cmd@, pod_name@)->0,
{
    proof {
        lemma_first_index_of(pod_name@, '-');
    }
    let n = pod_name.unicode_len();
    let d1 = match find_first(pod_name, '-') {
        Some(i) => i,
        None => {
            return None;
        },
    };
    let first = pod_name.substring_char(0, d1);
    let rest = pod_name.substring_char(d1 + 1, n);
    proof {
        lemma_first_index_of(rest@, '-');
    }
    let second = match find_first(rest, '-') {
        Some(j) => rest.substring_char(0, j),
        None => rest,
    };
    if str_eq(cmd, "getxml") {
        let mut s = String::from_str("virsh dumpxml ");
        s.append(first);
        s.append("-");
        s.append(second);
        s.append(" --inactive");
        Some(s)
    } else if str_eq(cmd, "logs") {
        Some(String::from_str("cat /var/log/libvirt/libvirtd.log"))
    } else {
        None
    }
}

/// The argv that runs one shell command inside a workload.
pub fn shell_invocation(command: &str) -> (v: Vec<String>)
    ensures
        v@.len() == 3,
        v@[0]@ == "bash"@,
        v@[1]@ == "-c"@,
        v@[2]@ == command@,
{
    let mut v: Vec<String> = Vec::new();
    v.push(String::from_str("bash"));
    v.push(String::from_str("-c"));
    v.push(String::from_str(command));
    v
}

} // verus!
