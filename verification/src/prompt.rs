//! The instruction text handed to an orchestrating agent, and the
//! shape of a tool invocation's outcome.

use vstd::prelude::*;

use crate::strconv::{chars_to_string, push_str_chars};

verus! {

/// What one tool invocation produced.
pub struct ToolExecutionResult {
    pub output: String,
    pub is_error: bool,
}

/// The instruction text, parameterized only by the working
/// directory: a fixed preamble, the directory, and a fixed tail.
pub open spec fn system_prompt_spec(workdir: Seq<char>) -> Seq<char> {
    "You are an AI agent running tasks in a sandboxed WebAssembly environment. You have access to a bash shell and filesystem within the sandbox.\n\n## Available Tools\n\n- `execute_command`: Run shell commands. The sandbox runs bash.\n- `read_file`: Read file contents from the sandbox filesystem.\n- `write_file`: Create or overwrite files in the sandbox.\n- `list_directory`: List directory contents with details.\n\n## Working Directory\n\nYour working directory is `"@
        + workdir
        + "`. Host directories have been mounted here.\n\n## Guidelines\n\n1. Break complex tasks into smaller steps\n2. Check command outputs for errors before proceeding\n3. Use the filesystem for intermediate results when needed\n4. If a command fails, analyze the error and try alternative approaches\n5. Report progress as you work through the task\n\n## Constraints\n\n- You are in a sandboxed environment with limited resources\n- Only mounted host directories are accessible\n- Network access is not available\n- Some system commands may not be available\n\nWhen the task is complete, provide a clear summary of what was accomplished."@
}

/// Builds the instruction text around the working directory.
pub fn build_system_prompt(workdir: &str) -> (r: String)
    ensures
        r@ == system_prompt_spec(workdir@),
{
    let mut out: Vec<char> = Vec::new();
    push_str_chars(
        &mut out,
        "You are an AI agent running tasks in a sandboxed WebAssembly environment. You have access to a bash shell and filesystem within the sandbox.\n\n## Available Tools\n\n- `execute_command`: Run shell commands. The sandbox runs bash.\n- `read_file`: Read file contents from the sandbox filesystem.\n- `write_file`: Create or overwrite files in the sandbox.\n- `list_directory`: List directory contents with details.\n\n## Working Directory\n\nYour working directory is `",
    );
    push_str_chars(&mut out, workdir);
    push_str_chars(
        &mut out,
        "`. Host directories have been mounted here.\n\n## Guidelines\n\n1. Break complex tasks into smaller steps\n2. Check command outputs for errors before proceeding\n3. Use the filesystem for intermediate results when needed\n4. If a command fails, analyze the error and try alternative approaches\n5. Report progress as you work through the task\n\n## Constraints\n\n- You are in a sandboxed environment with limited resources\n- Only mounted host directories are accessible\n- Network access is not available\n- Some system commands may not be available\n\nWhen the task is complete, provide a clear summary of what was accomplished.",
    );
    chars_to_string(&out)
}

} // verus!
