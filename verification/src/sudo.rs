//! Elevated-privilege helpers: the sudoers entry this tool can install,
//! and the argument list handed to `sudo`. Password prompting and process
//! execution live in the surrounding program.

use vstd::prelude::*;

verus! {

/// The path of the sudoers entry this tool manages.
pub fn sudoers_entry_path() -> (r: String)
    ensures
        r@ == "/etc/sudoers.d/khost"@,
{
    String::from_str("/etc/sudoers.d/khost")
}

/// The sudoers line that lets the account run anything without a
/// password prompt.
pub fn sudoers_entry(username: &str) -> (r: String)
    ensures
        r@ == username@ + " ALL=ALL NOPASSWD: ALL\n"@,
{
    let mut out = username.to_owned();
    out.append(" ALL=ALL NOPASSWD: ALL\n");
    out
}

/// The argument list handed to `sudo`: with a stored password the command
/// reads it from standard input (`-kS -p ""`), without one `sudo` prompts
/// on its own.
pub fn sudo_args(password_set: bool, program: &String, args: &Vec<String>) -> (r: Vec<String>)
    ensures
        r@.map_values(|s: String| s@) == (if password_set {
            seq!["-kS"@, "-p"@, ""@, program@] + args@.map_values(|s: String| s@)
        } else {
            seq![program@] + args@.map_values(|s: String| s@)
        }),
{
    let mut out: Vec<String> = Vec::new();
    if password_set {
        out.push(String::from_str("-kS"));
        out.push(String::from_str("-p"));
        out.push(String::from_str(""));
    }
    out.push(program.clone());
    let mut i: usize = 0;
    let ghost prefix = out@.map_values(|s: String| s@);
    proof {
        if password_set {
            assert(prefix =~= seq!["-kS"@, "-p"@, ""@, program@]);
        } else {
            assert(prefix =~= seq![program@]);
        }
        assert(args@.map_values(|s: String| s@).take(0) =~= Seq::<Seq<char>>::empty());
        assert(out@.map_values(|s: String| s@) =~= prefix + args@.map_values(
            |s: String| s@,
        ).take(0));
    }
    while i < args.len()
        invariant
            i <= args@.len(),
            out@.map_values(|s: String| s@) =~= prefix + args@.map_values(|s: String| s@).take(
                i as int,
            ),
        decreases args@.len() - i,
    {
        let ghost before = out@.map_values(|s: String| s@);
        out.push(args[i].clone());
        proof {
            assert(out@.map_values(|s: String| s@) =~= before + seq![args@[i as int]@]);
            assert(out@.map_values(|s: String| s@) =~= prefix + args@.map_values(
                |s: String| s@,
            ).take(i as int + 1));
        }
        i = i + 1;
    }
    proof {
        assert(args@.map_values(|s: String| s@).take(args@.len() as int) =~= args@.map_values(
            |s: String| s@,
        ));
    }
    out
}

} // verus!
