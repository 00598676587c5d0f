//! The built-in tools: `run_command`, `read_file`, `write_file` and
//! `list_dir`.
//!
//! Each tool has a name, a description, typed arguments and the pure part of
//! its work here; the process and file-system work happens where the tools
//! are executed.
use vstd::prelude::*;

use std::sync::Arc;

use crate::tools::registry::{ToolDefinition, ToolRegistry};
use crate::tools::schema::ParamSchema;

pub mod list_dir;
pub mod read_file;
pub mod run_command;
pub mod write_file;

verus! {

/// One of the built-in tools.
#[derive(Debug, Clone, Copy, PartialEq, Eq, Structural)]
pub enum BuiltinTool {
    RunCommand,
    ReadFile,
    WriteFile,
    ListDir,
}

/// The name of a built-in tool.
pub open spec fn builtin_name(b: BuiltinTool) -> Seq<char> {
    match b {
        BuiltinTool::RunCommand => "run_command"@,
        BuiltinTool::ReadFile => "read_file"@,
        BuiltinTool::WriteFile => "write_file"@,
        BuiltinTool::ListDir => "list_dir"@,
    }
}

/// The description of a built-in tool.
pub open spec fn builtin_description(b: BuiltinTool) -> Seq<char> {
    match b {
        BuiltinTool::RunCommand => run_command::DESCRIPTION@,
        BuiltinTool::ReadFile => read_file::DESCRIPTION@,
        BuiltinTool::WriteFile => write_file::DESCRIPTION@,
        BuiltinTool::ListDir => list_dir::DESCRIPTION@,
    }
}

impl BuiltinTool {
    /// The tool's name.
    pub fn name(&self) -> (r: &'static str)
        ensures
            r@ == builtin_name(*self),
    {
        match self {
            BuiltinTool::RunCommand => "run_command",
            BuiltinTool::ReadFile => "read_file",
            BuiltinTool::WriteFile => "write_file",
            BuiltinTool::ListDir => "list_dir",
        }
    }

    /// The tool's description.
    pub fn description(&self) -> (r: &'static str)
        ensures
            r@ == builtin_description(*self),
    {
        match self {
            BuiltinTool::RunCommand => run_command::DESCRIPTION,
            BuiltinTool::ReadFile => read_file::DESCRIPTION,
            BuiltinTool::WriteFile => write_file::DESCRIPTION,
            BuiltinTool::ListDir => list_dir::DESCRIPTION,
        }
    }

    /// The tool's definition, given the schema of its arguments.
    pub fn definition(&self, parameters: ParamSchema) -> (r: ToolDefinition)
        ensures
            r.name@ == builtin_name(*self),
            r.description@ == builtin_description(*self),
            r.parameters == parameters,
    {
        ToolDefinition {
            name: crate::text::owned(self.name()),
            description: crate::text::owned(self.description()),
            parameters,
        }
    }
}

/// `reg` holds the built-in tool `b`, as `make` builds it.
pub open spec fn holds_builtin<T: ?Sized, F: Fn(BuiltinTool) -> (ParamSchema, Arc<T>)>(
    reg: ToolRegistry<T>,
    make: F,
    b: BuiltinTool,
) -> bool {
    &&& reg@.contains_key(builtin_name(b))
    &&& reg@[builtin_name(b)].0.name@ == builtin_name(b)
    &&& reg@[builtin_name(b)].0.description@ == builtin_description(b)
    &&& call_ensures(make, (b,), (reg@[builtin_name(b)].0.parameters, reg@[builtin_name(b)].1))
}

/// Registers the four built-in tools, in the order `run_command`,
/// `read_file`, `write_file`, `list_dir`. `make` gives each tool's argument
/// schema and implementation.
pub fn register_all<T: ?Sized, F: Fn(BuiltinTool) -> (ParamSchema, Arc<T>)>(
    reg: &mut ToolRegistry<T>,
    make: F,
)
    requires
        old(reg).wf(),
        forall|b: BuiltinTool| make.requires((b,)),
    ensures
        final(reg).wf(),
        final(reg)@.dom() == old(reg)@.dom().insert("run_command"@).insert("read_file"@).insert(
            "write_file"@,
        ).insert("list_dir"@),
        holds_builtin(*final(reg), make, BuiltinTool::RunCommand),
        holds_builtin(*final(reg), make, BuiltinTool::ReadFile),
        holds_builtin(*final(reg), make, BuiltinTool::WriteFile),
        holds_builtin(*final(reg), make, BuiltinTool::ListDir),
        forall|k: Seq<char>|
            #[trigger] old(reg)@.contains_key(k) && k != "run_command"@ && k != "read_file"@ && k
                != "write_file"@ && k != "list_dir"@ ==> final(reg)@[k] == old(reg)@[k],
{
    proof {
        reveal_strlit("run_command");
        reveal_strlit("read_file");
        reveal_strlit("write_file");
        reveal_strlit("list_dir");
    }
    let ghost r0 = *reg;
    let ghost rc = "run_command"@;
    let ghost rf = "read_file"@;
    let ghost wf = "write_file"@;
    let ghost ld = "list_dir"@;
    assert(rc != rf && rc != wf && rc != ld && rf != wf && rf != ld && wf != ld) by {
        assert(rc.len() != rf.len());
        assert(rc.len() != wf.len());
        assert(rc.len() != ld.len());
        assert(rf[0] != wf[0]);
        assert(rf.len() != ld.len());
        assert(wf.len() != ld.len());
    }
    let (s, t) = make(BuiltinTool::RunCommand);
    let ghost e1 = (s, t);
    reg.register_arc(BuiltinTool::RunCommand.definition(s), t);
    let (s, t) = make(BuiltinTool::ReadFile);
    let ghost e2 = (s, t);
    reg.register_arc(BuiltinTool::ReadFile.definition(s), t);
    let (s, t) = make(BuiltinTool::WriteFile);
    let ghost e3 = (s, t);
    reg.register_arc(BuiltinTool::WriteFile.definition(s), t);
    let (s, t) = make(BuiltinTool::ListDir);
    let ghost e4 = (s, t);
    reg.register_arc(BuiltinTool::ListDir.definition(s), t);
    assert(call_ensures(make, (BuiltinTool::RunCommand,), e1));
    assert(reg@[rc].0.parameters == e1.0 && reg@[rc].1 == e1.1);
    assert(reg@[rf].0.parameters == e2.0 && reg@[rf].1 == e2.1);
    assert(reg@[wf].0.parameters == e3.0 && reg@[wf].1 == e3.1);
    assert(reg@.dom() =~= r0@.dom().insert(rc).insert(rf).insert(wf).insert(ld));
}

} // verus!
