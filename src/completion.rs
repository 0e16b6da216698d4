use vstd::prelude::*;

verus! {

/// One arm of the shell wrapper's `case`.
#[derive(Clone, Debug)]
pub struct ZshCase {
    pub pattern: String,
    pub body: String,
}

/// A command after which the shell follows into the new workspace.
pub open spec fn cd_into_text(cmd: Seq<char>) -> Seq<char> {
    "shift\n      command \"$ws_bin\" "@ + cmd + " \"$@\" || return\n      local ws_dir=\"$HOME/dev/workspaces/$1\"\n      cd \"$ws_dir\""@
}

/// A command before which the shell leaves the workspace it removes.
pub open spec fn cd_out_text(cmd: Seq<char>) -> Seq<char> {
    "shift\n      if [[ -n \"$1\" ]]; then\n        local ws_dir=\"$HOME/dev/workspaces/$1\"\n        if [[ \"$PWD\" = \"$ws_dir\"* ]]; then\n          cd \"$HOME/dev/workspaces\" || cd \"$HOME\"\n        fi\n        command \"$ws_bin\" "@
        + cmd + " \"$@\"\n      else\n        command \"$ws_bin\" "@ + cmd
        + " \"$@\" || return\n        if [[ ! -d \"$PWD\" ]]; then\n          cd \"$HOME/dev/workspaces\" || cd \"$HOME\"\n        fi\n      fi"@
}

pub fn build_cd_into_body(cmd_name: &str) -> (r: String)
    ensures
        r@ == cd_into_text(cmd_name@),
{
    let mut s = String::from_str("shift\n      command \"$ws_bin\" ");
    s.append(cmd_name);
    s.append(" \"$@\" || return\n      local ws_dir=\"$HOME/dev/workspaces/$1\"\n      cd \"$ws_dir\"");
    s
}

pub fn build_cd_out_body(cmd_name: &str) -> (r: String)
    ensures
        r@ == cd_out_text(cmd_name@),
{
    let mut s = String::from_str(
        "shift\n      if [[ -n \"$1\" ]]; then\n        local ws_dir=\"$HOME/dev/workspaces/$1\"\n        if [[ \"$PWD\" = \"$ws_dir\"* ]]; then\n          cd \"$HOME/dev/workspaces\" || cd \"$HOME\"\n        fi\n        command \"$ws_bin\" ",
    );
    s.append(cmd_name);
    s.append(" \"$@\"\n      else\n        command \"$ws_bin\" ");
    s.append(cmd_name);
    s.append(
        " \"$@\" || return\n        if [[ ! -d \"$PWD\" ]]; then\n          cd \"$HOME/dev/workspaces\" || cd \"$HOME\"\n        fi\n      fi",
    );
    s
}

/// The wrapper's arms: `new` follows into the workspace, `remove` and `rm`
/// leave it first.
pub fn build_cases() -> (r: Vec<ZshCase>)
    ensures
        r.len() == 3,
        r@[0].pattern@ == "new"@ && r@[0].body@ == cd_into_text("new"@),
        r@[1].pattern@ == "remove"@ && r@[1].body@ == cd_out_text("remove"@),
        r@[2].pattern@ == "rm"@ && r@[2].body@ == cd_out_text("remove"@),
{
    let mut v: Vec<ZshCase> = Vec::new();
    v.push(ZshCase { pattern: String::from_str("new"), body: build_cd_into_body("new") });
    v.push(ZshCase { pattern: String::from_str("remove"), body: build_cd_out_body("remove") });
    v.push(ZshCase { pattern: String::from_str("rm"), body: build_cd_out_body("remove") });
    v
}

/// The arms of a `case`, in order.
pub open spec fn cases_text(cases: Seq<ZshCase>) -> Seq<char>
    decreases cases.len(),
{
    if cases.len() == 0 {
        seq![]
    } else {
        cases_text(cases.drop_last()) + "    "@ + cases.last().pattern@ + ")\n      "@ + cases.last().body@
            + "\n      ;;\n"@
    }
}

/// The shell function that wraps the binary at `bin`.
pub open spec fn wrapper_text(bin: Seq<char>, cases: Seq<ZshCase>) -> Seq<char> {
    "# ws shell integration \u{2014} source with: eval \"$(ws completion zsh)\"\n\nws() {\n  local ws_bin="@ + bin
        + "\n\n  case \"$1\" in\n"@ + cases_text(cases)
        + "    *)\n      command \"$ws_bin\" \"$@\"\n      ;;\n  esac\n}\n\n"@
}

/// The zsh wrapper function, before the generated completions.
pub fn zsh_wrapper(bin: &str) -> (r: String)
    ensures
        exists|cases: Seq<ZshCase>| cases.len() == 3 && r@ == wrapper_text(bin@, cases) && cases[0].pattern@
            == "new"@ && cases[1].pattern@ == "remove"@ && cases[2].pattern@ == "rm"@,
{
    let cases = build_cases();
    let mut s = String::from_str("# ws shell integration \u{2014} source with: eval \"$(ws completion zsh)\"\n\nws() {\n  local ws_bin=");
    s.append(bin);
    s.append("\n\n  case \"$1\" in\n");
    let ghost head = s@;
    let mut i: usize = 0;
    while i < cases.len()
        invariant
            i <= cases.len(),
            s@ == head + cases_text(cases@.subrange(0, i as int)),
        decreases cases.len() - i,
    {
        let ghost pre = cases@.subrange(0, i as int + 1);
        assert(pre.drop_last() =~= cases@.subrange(0, i as int));
        s.append("    ");
        s.append(cases[i].pattern.as_str());
        s.append(")\n      ");
        s.append(cases[i].body.as_str());
        s.append("\n      ;;\n");
        assert(s@ =~= head + cases_text(pre));
        i += 1;
    }
    assert(cases@.subrange(0, i as int) =~= cases@);
    s.append("    *)\n      command \"$ws_bin\" \"$@\"\n      ;;\n  esac\n}\n\n");
    s
}

} // verus!
