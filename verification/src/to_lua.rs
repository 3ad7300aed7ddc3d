use vstd::prelude::*;

use crate::ir::{AnalyzerValue, IRCall, IRFunction, IRInstruction, IRInstructionType, IRVariable};
use crate::text::{i64_to_text, int_text, repeat_space, spaces};

verus! {

/// The Lua spelling of an operator.
pub open spec fn operator_text(op: IRInstructionType) -> Seq<char> {
    match op {
        IRInstructionType::Add => "+"@,
        IRInstructionType::Sub => "-"@,
        IRInstructionType::Mul => "*"@,
        IRInstructionType::Div => "/"@,
        IRInstructionType::GreaterEqual => ">="@,
        IRInstructionType::Greater => ">"@,
        IRInstructionType::LessEqual => "<="@,
        IRInstructionType::Less => "<"@,
        IRInstructionType::Equal => "=="@,
        IRInstructionType::NotEqual => "~="@,
        IRInstructionType::And => "and"@,
        IRInstructionType::Or => "or"@,
        IRInstructionType::Not => "not"@,
        IRInstructionType::Assign => "="@,
        IRInstructionType::AssignAdd => "+="@,
        IRInstructionType::AssignSub => "-="@,
        IRInstructionType::Mod => "%"@,
        IRInstructionType::Concatenate => ".."@,
    }
}

/// The Lua text of a constant.
pub open spec fn literal_text(v: AnalyzerValue) -> Seq<char>
    decreases v,
{
    match v {
        AnalyzerValue::Int(n) => int_text(n as int),
        AnalyzerValue::String(s) => "\""@ + s@ + "\""@,
        AnalyzerValue::Double(text) => text@,
        AnalyzerValue::Boolean(b) => if b {
            "true"@
        } else {
            "false"@
        },
        AnalyzerValue::Return(r) => literal_text(*r),
        AnalyzerValue::Function(f) => f.name.span.literal@,
        AnalyzerValue::Null => "nil"@,
        AnalyzerValue::NoneValue => "nil"@,
    }
}

/// The names of `params`, with `", "` between each two.
pub open spec fn parameter_list(params: Seq<IRVariable>) -> Seq<char>
    decreases params.len(),
{
    if params.len() == 0 {
        Seq::empty()
    } else if params.len() == 1 {
        params[0].name@
    } else {
        parameter_list(params.drop_last()) + ", "@ + params.last().name@
    }
}

/// The table of exported names that closes a chunk, or nothing when no name
/// is exported.
pub open spec fn export_table(names: Seq<Seq<char>>, indent: nat) -> Seq<char> {
    if names.len() == 0 {
        Seq::empty()
    } else {
        spaces(indent) + "return {\n"@ + export_entries(names, indent + 2) + spaces(indent) + "}\n"@
    }
}

/// One `name,` line for each exported name.
pub open spec fn export_entries(names: Seq<Seq<char>>, indent: nat) -> Seq<char>
    decreases names.len(),
{
    if names.len() == 0 {
        Seq::empty()
    } else {
        export_entries(names.drop_last(), indent) + spaces(indent) + names.last() + ",\n"@
    }
}

/// The names that an instruction exports: a function with a body that is
/// marked exported exports its own name.
pub open spec fn exported_names(instr: IRInstruction) -> Seq<Seq<char>> {
    match instr {
        IRInstruction::Function(f) => if f.body is Some && f.metadata.is_exported {
            seq![f.name@]
        } else {
            Seq::empty()
        },
        _ => Seq::empty(),
    }
}

/// The Lua text of an instruction at indentation `indent`, followed by the
/// table of what it exports.
pub open spec fn lua(instr: IRInstruction, indent: nat) -> Seq<char>
    decreases instr, 1nat,
{
    lua_body(instr, indent) + export_table(exported_names(instr), indent)
}

/// The Lua text of an instruction at indentation `indent`.
pub open spec fn lua_body(instr: IRInstruction, indent: nat) -> Seq<char>
    decreases instr, 0nat,
{
    match instr {
        IRInstruction::Literal(l) => literal_text(l.value),
        IRInstruction::Binary(b) => lua(*b.left, indent) + " "@ + operator_text(b.instruction_type)
            + " "@ + lua(*b.right, indent),
        IRInstruction::Block(b) => lua_seq(b.instructions@, indent),
        IRInstruction::Function(f) => lua_function(f, indent),
        IRInstruction::Unary(u) => operator_text(u.instruction_type) + " "@ + lua(*u.right, indent),
        IRInstruction::Variable(v) => lua_variable(v, indent),
        IRInstruction::Logical(l) => lua(*l.left, indent) + " "@ + operator_text(l.instruction_type)
            + " "@ + lua(*l.right, indent),
        IRInstruction::If(x) => spaces(indent) + "if "@ + lua(*x.condition, indent) + " then\n"@
            + lua(*x.then_branch, indent) + match x.else_branch {
            Some(e) => spaces(indent) + "else\n"@ + lua(*e, indent),
            None => Seq::empty(),
        } + spaces(indent) + " end\n"@,
        IRInstruction::While(w) => spaces(indent) + "while "@ + lua(*w.condition, indent) + " do\n"@
            + lua(*w.body, indent + 2) + spaces(indent) + "end\n"@,
        IRInstruction::Call(c) => lua_call(c, indent),
        IRInstruction::Return(r) => spaces(indent) + "return "@ + lua(*r.value, indent) + "\n"@,
        IRInstruction::Assign(a) => spaces(indent) + a.name@ + " = "@ + lua(*a.value, 0) + "\n"@,
        IRInstruction::Class(_) => Seq::empty(),
        IRInstruction::Ternary(t) => lua(*t.condition, indent) + " and "@ + lua(*t.then_branch, indent)
            + " or "@ + lua(*t.else_branch, indent),
        IRInstruction::ForIn(f) => spaces(indent) + "for _, "@ + f.variable.name@ + " in pairs("@
            + lua(*f.iterable, indent) + ") do\n"@ + lua(*f.body, indent + 2) + spaces(indent)
            + "end\n"@,
        IRInstruction::Array(a) => spaces(indent) + "{"@ + lua_list(a.elements@, indent + 2) + "}\n"@,
        IRInstruction::Import => Seq::empty(),
    }
}

/// The Lua texts of `instrs`, one after another.
pub open spec fn lua_seq(instrs: Seq<IRInstruction>, indent: nat) -> Seq<char>
    decreases instrs, 0nat,
{
    if instrs.len() == 0 {
        Seq::empty()
    } else {
        lua_seq(instrs.drop_last(), indent) + lua(instrs.last(), indent)
    }
}

/// The Lua texts of `instrs`, with `", "` between each two.
pub open spec fn lua_list(instrs: Seq<IRInstruction>, indent: nat) -> Seq<char>
    decreases instrs, 0nat,
{
    if instrs.len() == 0 {
        Seq::empty()
    } else if instrs.len() == 1 {
        lua(instrs[0], indent)
    } else {
        lua_list(instrs.drop_last(), indent) + ", "@ + lua(instrs.last(), indent)
    }
}

/// A function becomes a `local` binding of an anonymous function; a
/// recursive one is declared first so that its body can name it. A function
/// without a body produces nothing.
pub open spec fn lua_function(f: IRFunction, indent: nat) -> Seq<char>
    decreases f, 0nat,
{
    match f.body {
        Some(body) => {
            let header = if f.metadata.is_recursive {
                spaces(indent) + "local "@ + f.name@ + "\n"@ + spaces(indent) + f.name@ + " = function("@
                    + parameter_list(f.parameters@) + ")\n"@
            } else {
                spaces(indent) + "local "@ + f.name@ + " = function("@ + parameter_list(f.parameters@)
                    + ")\n"@
            };
            header + lua_seq(body.instructions@, indent + 2) + spaces(indent) + "end\n"@
        },
        None => Seq::empty(),
    }
}

/// A call: `println` is Lua's `print`; `toString` is its argument itself;
/// any other name is called as it is, on its own line.
pub open spec fn lua_call(c: IRCall, indent: nat) -> Seq<char>
    decreases c, 0nat,
{
    if c.name@ == "toString"@ {
        if c.arguments@.len() > 0 {
            spaces(indent) + lua(c.arguments@[0], indent)
        } else {
            spaces(indent)
        }
    } else {
        let name = if c.name@ == "println"@ {
            "print"@
        } else {
            c.name@
        };
        spaces(indent) + name + "("@ + lua_list(c.arguments@, indent) + ")"@ + "\n"@
    }
}

/// A declaration is a `local` line; any other variable is its bare name.
pub open spec fn lua_variable(v: IRVariable, indent: nat) -> Seq<char>
    decreases v, 0nat,
{
    if v.metadata.is_declaration {
        let value = match v.value {
            Some(x) => lua(*x, 0),
            None => Seq::empty(),
        };
        spaces(indent) + "local "@ + v.name@ + " = "@ + value + "\n"@
    } else {
        v.name@
    }
}

/// Whether the Lua back end can translate an instruction at indentation
/// `indent`: it holds no class, every `toString` call has an argument, and
/// every deeper indentation fits in a `usize`.
pub open spec fn lua_ok(instr: IRInstruction, indent: nat) -> bool
    decreases instr, 1nat,
{
    &&& lua_body_ok(instr, indent)
    &&& exported_names(instr).len() > 0 ==> indent + 2 <= usize::MAX
}

pub open spec fn lua_body_ok(instr: IRInstruction, indent: nat) -> bool
    decreases instr, 0nat,
{
    match instr {
        IRInstruction::Literal(_) => true,
        IRInstruction::Binary(b) => lua_ok(*b.left, indent) && lua_ok(*b.right, indent),
        IRInstruction::Block(b) => lua_seq_ok(b.instructions@, indent),
        IRInstruction::Function(f) => lua_function_ok(f, indent),
        IRInstruction::Unary(u) => lua_ok(*u.right, indent),
        IRInstruction::Variable(v) => lua_variable_ok(v),
        IRInstruction::Logical(l) => lua_ok(*l.left, indent) && lua_ok(*l.right, indent),
        IRInstruction::If(x) => {
            &&& lua_ok(*x.condition, indent)
            &&& lua_ok(*x.then_branch, indent)
            &&& x.else_branch matches Some(e) ==> lua_ok(*e, indent)
        },
        IRInstruction::While(w) => {
            &&& indent + 2 <= usize::MAX
            &&& lua_ok(*w.condition, indent)
            &&& lua_ok(*w.body, indent + 2)
        },
        IRInstruction::Call(c) => lua_call_ok(c, indent),
        IRInstruction::Return(r) => lua_ok(*r.value, indent),
        IRInstruction::Assign(a) => lua_ok(*a.value, 0),
        IRInstruction::Class(_) => false,
        IRInstruction::Ternary(t) => {
            &&& lua_ok(*t.condition, indent)
            &&& lua_ok(*t.then_branch, indent)
            &&& lua_ok(*t.else_branch, indent)
        },
        IRInstruction::ForIn(f) => {
            &&& indent + 2 <= usize::MAX
            &&& lua_ok(*f.iterable, indent)
            &&& lua_ok(*f.body, indent + 2)
        },
        IRInstruction::Array(a) => indent + 2 <= usize::MAX && lua_seq_ok(a.elements@, indent + 2),
        IRInstruction::Import => true,
    }
}

pub open spec fn lua_seq_ok(instrs: Seq<IRInstruction>, indent: nat) -> bool
    decreases instrs, 0nat,
{
    instrs.len() > 0 ==> lua_seq_ok(instrs.drop_last(), indent) && lua_ok(instrs.last(), indent)
}

pub open spec fn lua_function_ok(f: IRFunction, indent: nat) -> bool
    decreases f, 0nat,
{
    match f.body {
        Some(body) => indent + 2 <= usize::MAX && lua_seq_ok(body.instructions@, indent + 2),
        None => true,
    }
}

pub open spec fn lua_call_ok(c: IRCall, indent: nat) -> bool
    decreases c, 0nat,
{
    if c.name@ == "toString"@ {
        c.arguments@.len() > 0 && lua_ok(c.arguments@[0], indent)
    } else {
        lua_seq_ok(c.arguments@, indent)
    }
}

pub open spec fn lua_variable_ok(v: IRVariable) -> bool
    decreases v, 0nat,
{
    v.value matches Some(x) ==> lua_ok(*x, 0)
}

proof fn lemma_seq_ok_item(instrs: Seq<IRInstruction>, indent: nat, i: int)
    requires
        lua_seq_ok(instrs, indent),
        0 <= i < instrs.len(),
    ensures
        lua_ok(instrs[i], indent),
    decreases instrs.len(),
{
    if i < instrs.len() - 1 {
        lemma_seq_ok_item(instrs.drop_last(), indent, i);
    }
}

proof fn lemma_seq_ok_prefix(instrs: Seq<IRInstruction>, indent: nat, i: int)
    requires
        0 <= i < instrs.len(),
    ensures
        lua_seq(instrs.take(i + 1), indent) == lua_seq(instrs.take(i), indent) + lua(instrs[i], indent),
        i > 0 ==> lua_list(instrs.take(i + 1), indent) == lua_list(instrs.take(i), indent) + ", "@ + lua(
            instrs[i],
            indent,
        ),
        i == 0 ==> lua_list(instrs.take(1), indent) == lua(instrs[0], indent),
{
    assert(instrs.take(i + 1).drop_last() =~= instrs.take(i));
    assert(instrs.take(i + 1).last() == instrs[i]);
}

struct State {
    pub statement_exported: Vec<String>,
}

fn transpile_opeartor_to_lua(operator: &IRInstructionType) -> (res: String)
    ensures
        res@ == operator_text(*operator),
{
    match operator {
        IRInstructionType::Add => String::from_str("+"),
        IRInstructionType::Sub => String::from_str("-"),
        IRInstructionType::Mul => String::from_str("*"),
        IRInstructionType::Div => String::from_str("/"),
        IRInstructionType::GreaterEqual => String::from_str(">="),
        IRInstructionType::Greater => String::from_str(">"),
        IRInstructionType::LessEqual => String::from_str("<="),
        IRInstructionType::Less => String::from_str("<"),
        IRInstructionType::Equal => String::from_str("=="),
        IRInstructionType::NotEqual => String::from_str("~="),
        IRInstructionType::And => String::from_str("and"),
        IRInstructionType::Or => String::from_str("or"),
        IRInstructionType::Not => String::from_str("not"),
        IRInstructionType::Assign => String::from_str("="),
        IRInstructionType::AssignAdd => String::from_str("+="),
        IRInstructionType::AssignSub => String::from_str("-="),
        IRInstructionType::Mod => String::from_str("%"),
        IRInstructionType::Concatenate => String::from_str(".."),
    }
}

fn transpile_literal_to_lua(value: &AnalyzerValue) -> (res: String)
    ensures
        res@ == literal_text(*value),
    decreases value,
{
    match value {
        AnalyzerValue::Int(num) => i64_to_text(*num),
        AnalyzerValue::String(s) => {
            let mut code = String::from_str("\"");
            code.append(s.as_str());
            code.append("\"");
            code
        },
        AnalyzerValue::Double(text) => text.clone(),
        AnalyzerValue::Boolean(b) => if *b {
            String::from_str("true")
        } else {
            String::from_str("false")
        },
        AnalyzerValue::Return(r) => transpile_literal_to_lua(r),
        AnalyzerValue::Function(f) => f.name.span.literal.clone(),
        AnalyzerValue::Null => String::from_str("nil"),
        AnalyzerValue::NoneValue => String::from_str("nil"),
    }
}

fn transpile_parameters_to_lua(params: &Vec<IRVariable>) -> (res: String)
    ensures
        res@ == parameter_list(params@),
{
    let mut code = String::new();
    let mut i: usize = 0;
    while i < params.len()
        invariant
            i <= params.len(),
            code@ == parameter_list(params@.take(i as int)),
        decreases params.len() - i,
    {
        if i > 0 {
            code.append(", ");
        }
        code.append(params[i].name.as_str());
        proof {
            assert(params@.take(i + 1).drop_last() =~= params@.take(i as int));
        }
        i = i + 1;
    }
    proof {
        assert(params@.take(params.len() as int) =~= params@);
    }
    code
}

#[verifier::loop_isolation(false)]
fn transpile_function_to_lua(func: &IRFunction, indent_level: usize, state: &mut State) -> (res: String)
    requires
        lua_function_ok(*func, indent_level as nat),
    ensures
        res@ == lua_function(*func, indent_level as nat),
        final(state).statement_exported@ == old(state).statement_exported@ + if func.body is Some
            && func.metadata.is_exported {
            seq![func.name]
        } else {
            Seq::empty()
        },
    decreases func, 0nat,
{
    let ghost inner = (indent_level + 2) as nat;
    let mut code = String::new();
    if let Some(body) = &func.body {
        let parameters = transpile_parameters_to_lua(&func.parameters);
        if func.metadata.is_exported {
            state.statement_exported.push(func.name.clone());
        }
        if func.metadata.is_recursive {
            let pad = repeat_space(indent_level);
            code.append(pad.as_str());
            code.append("local ");
            code.append(func.name.as_str());
            code.append("\n");
            code.append(pad.as_str());
            code.append(func.name.as_str());
            code.append(" = function(");
            code.append(parameters.as_str());
            code.append(")\n");
        } else {
            let pad = repeat_space(indent_level);
            code.append(pad.as_str());
            code.append("local ");
            code.append(func.name.as_str());
            code.append(" = function(");
            code.append(parameters.as_str());
            code.append(")\n");
        }
        let ghost header = code@;
        let mut i: usize = 0;
        while i < body.instructions.len()
            invariant
                i <= body.instructions.len(),
                indent_level + 2 <= usize::MAX,
                inner == indent_level + 2,
                lua_seq_ok(body.instructions@, inner),
                code@ == header + lua_seq(body.instructions@.take(i as int), inner),
            decreases body.instructions.len() - i,
        {
            proof {
                lemma_seq_ok_item(body.instructions@, inner, i as int);
                lemma_seq_ok_prefix(body.instructions@, inner, i as int);
            }
            let item = transpile_ir_to_lua(&body.instructions[i], indent_level + 2);
            code.append(item.as_str());
            i = i + 1;
        }
        proof {
            assert(body.instructions@.take(body.instructions.len() as int) =~= body.instructions@);
        }
        let pad = repeat_space(indent_level);
        code.append(pad.as_str());
        code.append("end\n");
    }
    proof {
        if func.body is None || !func.metadata.is_exported {
            assert(final(state).statement_exported@ =~= old(state).statement_exported@ + Seq::empty());
        }
    }
    code
}

#[verifier::loop_isolation(false)]
fn transpile_call_to_lua(call: &IRCall, indent_level: usize) -> (res: String)
    requires
        lua_call_ok(*call, indent_level as nat),
    ensures
        res@ == lua_call(*call, indent_level as nat),
    decreases call, 0nat,
{
    let mut code = String::new();
    let println_name = String::from_str("println");
    let to_string_name = String::from_str("toString");
    if call.name == to_string_name {
        let pad = repeat_space(indent_level);
        code.append(pad.as_str());
        let argument = transpile_ir_to_lua(&call.arguments[0], indent_level);
        code.append(argument.as_str());
        return code;
    }
    let name = if call.name == println_name {
        String::from_str("print")
    } else {
        call.name.clone()
    };
    let pad = repeat_space(indent_level);
    code.append(pad.as_str());
    code.append(name.as_str());
    code.append("(");
    let ghost prefix = code@;
    let mut i: usize = 0;
    while i < call.arguments.len()
        invariant
            i <= call.arguments.len(),
            lua_seq_ok(call.arguments@, indent_level as nat),
            code@ == prefix + lua_list(call.arguments@.take(i as int), indent_level as nat),
        decreases call.arguments.len() - i,
    {
        proof {
            lemma_seq_ok_item(call.arguments@, indent_level as nat, i as int);
            lemma_seq_ok_prefix(call.arguments@, indent_level as nat, i as int);
        }
        if i > 0 {
            code.append(", ");
        }
        let item = transpile_ir_to_lua(&call.arguments[i], indent_level);
        code.append(item.as_str());
        i = i + 1;
    }
    proof {
        assert(call.arguments@.take(call.arguments.len() as int) =~= call.arguments@);
    }
    code.append(")");
    code.append("\n");
    code
}

fn transpile_variable_to_lua(variable: &IRVariable, indent_level: usize) -> (res: String)
    requires
        lua_variable_ok(*variable),
    ensures
        res@ == lua_variable(*variable, indent_level as nat),
    decreases variable, 0nat,
{
    let var_value = if let Some(value) = &variable.value {
        transpile_ir_to_lua(value, 0)
    } else {
        String::new()
    };
    if variable.metadata.is_declaration {
        let mut code = repeat_space(indent_level);
        code.append("local ");
        code.append(variable.name.as_str());
        code.append(" = ");
        code.append(var_value.as_str());
        code.append("\n");
        code
    } else {
        variable.name.clone()
    }
}

/// Translates one instruction into Lua source at indentation
/// `indent_level`, closing the chunk with a table of the names it exports.
#[verifier::loop_isolation(false)]
#[verifier::rlimit(40)]
pub fn transpile_ir_to_lua(instruction: &IRInstruction, indent_level: usize) -> (res: String)
    requires
        lua_ok(*instruction, indent_level as nat),
    ensures
        res@ == lua(*instruction, indent_level as nat),
    decreases instruction, 1nat,
{
    let ghost n = indent_level as nat;
    let mut code = String::new();
    let mut state = State { statement_exported: Vec::new() };
    match instruction {
        IRInstruction::Literal(literal) => {
            code = transpile_literal_to_lua(&literal.value);
        },
        IRInstruction::Binary(binary) => {
            let left = transpile_ir_to_lua(&binary.left, indent_level);
            let right = transpile_ir_to_lua(&binary.right, indent_level);
            let op = transpile_opeartor_to_lua(&binary.instruction_type);
            code = left;
            code.append(" ");
            code.append(op.as_str());
            code.append(" ");
            code.append(right.as_str());
        },
        IRInstruction::Block(block) => {
            let mut i: usize = 0;
            while i < block.instructions.len()
                invariant
                    i <= block.instructions.len(),
                    lua_seq_ok(block.instructions@, n),
                    n == indent_level,
                    code@ == lua_seq(block.instructions@.take(i as int), n),
                decreases block.instructions.len() - i,
            {
                proof {
                    lemma_seq_ok_item(block.instructions@, n, i as int);
                    lemma_seq_ok_prefix(block.instructions@, n, i as int);
                }
                let item = transpile_ir_to_lua(&block.instructions[i], indent_level);
                code.append(item.as_str());
                i = i + 1;
            }
            proof {
                assert(block.instructions@.take(block.instructions.len() as int) =~= block.instructions@);
            }
        },
        IRInstruction::Function(func) => {
            code = transpile_function_to_lua(func, indent_level, &mut state);
        },
        IRInstruction::Unary(unary) => {
            let value = transpile_ir_to_lua(&unary.right, indent_level);
            let op = transpile_opeartor_to_lua(&unary.instruction_type);
            code = op;
            code.append(" ");
            code.append(value.as_str());
        },
        IRInstruction::Variable(var) => {
            code = transpile_variable_to_lua(var, indent_level);
        },
        IRInstruction::Logical(logical) => {
            let left = transpile_ir_to_lua(&logical.left, indent_level);
            let right = transpile_ir_to_lua(&logical.right, indent_level);
            let op = transpile_opeartor_to_lua(&logical.instruction_type);
            code = left;
            code.append(" ");
            code.append(op.as_str());
            code.append(" ");
            code.append(right.as_str());
        },
        IRInstruction::If(if_instruction) => {
            let pad = repeat_space(indent_level);
            let condition = transpile_ir_to_lua(&if_instruction.condition, indent_level);
            code.append(pad.as_str());
            code.append("if ");
            code.append(condition.as_str());
            code.append(" then\n");
            let then_branch = transpile_ir_to_lua(&if_instruction.then_branch, indent_level);
            code.append(then_branch.as_str());
            let ghost before_else = code@;
            if let Some(else_branch) = &if_instruction.else_branch {
                code.append(pad.as_str());
                code.append("else\n");
                let else_code = transpile_ir_to_lua(else_branch, indent_level);
                code.append(else_code.as_str());
            }
            proof {
                if if_instruction.else_branch is None {
                    assert(code@ =~= before_else + Seq::<char>::empty());
                }
            }
            code.append(pad.as_str());
            code.append(" end\n");
        },
        IRInstruction::While(ir_while) => {
            let condition = transpile_ir_to_lua(&ir_while.condition, indent_level);
            let pad = repeat_space(indent_level);
            code.append(pad.as_str());
            code.append("while ");
            code.append(condition.as_str());
            code.append(" do\n");
            let body = transpile_ir_to_lua(&ir_while.body, indent_level + 2);
            code.append(body.as_str());
            code.append(pad.as_str());
            code.append("end\n");
        },
        IRInstruction::Call(call) => {
            code = transpile_call_to_lua(call, indent_level);
        },
        IRInstruction::Return(r) => {
            let value = transpile_ir_to_lua(&r.value, indent_level);
            code = repeat_space(indent_level);
            code.append("return ");
            code.append(value.as_str());
            code.append("\n");
        },
        IRInstruction::Assign(assign) => {
            let value = transpile_ir_to_lua(&assign.value, 0);
            code = repeat_space(indent_level);
            code.append(assign.name.as_str());
            code.append(" = ");
            code.append(value.as_str());
            code.append("\n");
        },
        IRInstruction::Class(_) => {},
        IRInstruction::Ternary(ternary) => {
            let condition = transpile_ir_to_lua(&ternary.condition, indent_level);
            let then_branch = transpile_ir_to_lua(&ternary.then_branch, indent_level);
            let else_branch = transpile_ir_to_lua(&ternary.else_branch, indent_level);
            code = condition;
            code.append(" and ");
            code.append(then_branch.as_str());
            code.append(" or ");
            code.append(else_branch.as_str());
        },
        IRInstruction::ForIn(for_in) => {
            let pad = repeat_space(indent_level);
            let iterable = transpile_ir_to_lua(&for_in.iterable, indent_level);
            code.append(pad.as_str());
            code.append("for _, ");
            code.append(for_in.variable.name.as_str());
            code.append(" in pairs(");
            code.append(iterable.as_str());
            code.append(") do\n");
            let body = transpile_ir_to_lua(&for_in.body, indent_level + 2);
            code.append(body.as_str());
            code.append(pad.as_str());
            code.append("end\n");
        },
        IRInstruction::Array(array) => {
            let pad = repeat_space(indent_level);
            code.append(pad.as_str());
            code.append("{");
            let ghost prefix = code@;
            let inner = indent_level + 2;
            let mut i: usize = 0;
            while i < array.elements.len()
                invariant
                    i <= array.elements.len(),
                    inner == indent_level + 2,
                    lua_seq_ok(array.elements@, inner as nat),
                    code@ == prefix + lua_list(array.elements@.take(i as int), inner as nat),
                decreases array.elements.len() - i,
            {
                proof {
                    lemma_seq_ok_item(array.elements@, inner as nat, i as int);
                    lemma_seq_ok_prefix(array.elements@, inner as nat, i as int);
                }
                if i > 0 {
                    code.append(", ");
                }
                let item = transpile_ir_to_lua(&array.elements[i], inner);
                code.append(item.as_str());
                i = i + 1;
            }
            proof {
                assert(array.elements@.take(array.elements.len() as int) =~= array.elements@);
            }
            code.append("}\n");
        },
        IRInstruction::Import => {},
    }
    let ghost body_code = code@;
    proof {
        assert(body_code == lua_body(*instruction, n));
        assert(state.statement_exported@.map_values(|s: String| s@) =~= exported_names(*instruction));
    }
    if state.statement_exported.len() > 0 {
        let pad = repeat_space(indent_level);
        code.append(pad.as_str());
        code.append("return {\n");
        let inner = repeat_space(indent_level + 2);
        let ghost entries_start = code@;
        let mut i: usize = 0;
        while i < state.statement_exported.len()
            invariant
                i <= state.statement_exported.len(),
                inner@ == spaces(n + 2),
                code@ == entries_start + export_entries(
                    state.statement_exported@.take(i as int).map_values(|s: String| s@),
                    n + 2,
                ),
            decreases state.statement_exported.len() - i,
        {
            code.append(inner.as_str());
            code.append(state.statement_exported[i].as_str());
            code.append(",\n");
            proof {
                let names = state.statement_exported@.take(i + 1).map_values(|s: String| s@);
                assert(names.drop_last() =~= state.statement_exported@.take(i as int).map_values(
                    |s: String| s@,
                ));
            }
            i = i + 1;
        }
        proof {
            assert(state.statement_exported@.take(state.statement_exported.len() as int) =~= state.statement_exported@);
        }
        code.append(pad.as_str());
        code.append("}\n");
    }
    code
}

/// Whether `transpile_ir_to_lua` can translate `instruction` at
/// indentation `indent_level` (see `lua_ok`).
pub fn lua_translatable(instruction: &IRInstruction, indent_level: usize) -> (res: bool)
    ensures
        res == lua_ok(*instruction, indent_level as nat),
    decreases instruction, 1nat,
{
    let body_ok = lua_body_translatable(instruction, indent_level);
    let exports = match instruction {
        IRInstruction::Function(f) => f.body.is_some() && f.metadata.is_exported,
        _ => false,
    };
    body_ok && (!exports || indent_level <= usize::MAX - 2)
}

fn lua_body_translatable(instruction: &IRInstruction, indent_level: usize) -> (res: bool)
    ensures
        res == lua_body_ok(*instruction, indent_level as nat),
    decreases instruction, 0nat,
{
    let room = indent_level <= usize::MAX - 2;
    match instruction {
        IRInstruction::Literal(_) => true,
        IRInstruction::Binary(b) => lua_translatable(&b.left, indent_level) && lua_translatable(
            &b.right,
            indent_level,
        ),
        IRInstruction::Block(b) => lua_all_translatable(&b.instructions, indent_level),
        IRInstruction::Function(f) => match &f.body {
            Some(body) => room && lua_all_translatable(&body.instructions, indent_level + 2),
            None => true,
        },
        IRInstruction::Unary(u) => lua_translatable(&u.right, indent_level),
        IRInstruction::Variable(v) => match &v.value {
            Some(x) => lua_translatable(x, 0),
            None => true,
        },
        IRInstruction::Logical(l) => lua_translatable(&l.left, indent_level) && lua_translatable(
            &l.right,
            indent_level,
        ),
        IRInstruction::If(x) => {
            let else_ok = match &x.else_branch {
                Some(e) => lua_translatable(e, indent_level),
                None => true,
            };
            lua_translatable(&x.condition, indent_level) && lua_translatable(&x.then_branch, indent_level)
                && else_ok
        },
        IRInstruction::While(w) => room && lua_translatable(&w.condition, indent_level)
            && lua_translatable(&w.body, indent_level + 2),
        IRInstruction::Call(c) => {
            let to_string_name = String::from_str("toString");
            if c.name == to_string_name {
                c.arguments.len() > 0 && lua_translatable(&c.arguments[0], indent_level)
            } else {
                lua_all_translatable(&c.arguments, indent_level)
            }
        },
        IRInstruction::Return(r) => lua_translatable(&r.value, indent_level),
        IRInstruction::Assign(a) => lua_translatable(&a.value, 0),
        IRInstruction::Class(_) => false,
        IRInstruction::Ternary(t) => lua_translatable(&t.condition, indent_level) && lua_translatable(
            &t.then_branch,
            indent_level,
        ) && lua_translatable(&t.else_branch, indent_level),
        IRInstruction::ForIn(f) => room && lua_translatable(&f.iterable, indent_level)
            && lua_translatable(&f.body, indent_level + 2),
        IRInstruction::Array(a) => room && lua_all_translatable(&a.elements, indent_level + 2),
        IRInstruction::Import => true,
    }
}

/// Whether every instruction of `instructions` can be translated at
/// indentation `indent_level`.
pub fn lua_all_translatable(instructions: &Vec<IRInstruction>, indent_level: usize) -> (res: bool)
    ensures
        res == lua_seq_ok(instructions@, indent_level as nat),
    decreases instructions, 0nat,
{
    let mut i: usize = 0;
    while i < instructions.len()
        invariant
            i <= instructions.len(),
            lua_seq_ok(instructions@.take(i as int), indent_level as nat),
        decreases instructions.len() - i,
    {
        let ok = lua_translatable(&instructions[i], indent_level);
        proof {
            assert(instructions@.take(i + 1).drop_last() =~= instructions@.take(i as int));
            if lua_seq_ok(instructions@, indent_level as nat) {
                lemma_seq_ok_item(instructions@, indent_level as nat, i as int);
            }
        }
        if !ok {
            return false;
        }
        i = i + 1;
    }
    proof {
        assert(instructions@.take(instructions.len() as int) =~= instructions@);
    }
    true
}

/// The Lua back end: the code of the last module it translated.
pub struct TranspilerToLua {
    pub code: String,
}

impl TranspilerToLua {
    pub fn new() -> (res: Self)
        ensures
            res.code@ == Seq::<char>::empty(),
    {
        TranspilerToLua { code: String::new() }
    }

    /// Translates a module, its instructions one after another at the
    /// outermost indentation, into `self.code`.
    pub fn transpile(&mut self, instructions: &Vec<IRInstruction>)
        requires
            lua_seq_ok(instructions@, 0),
        ensures
            final(self).code@ == lua_seq(instructions@, 0),
    {
        let mut code = String::new();
        let mut i: usize = 0;
        while i < instructions.len()
            invariant
                i <= instructions.len(),
                lua_seq_ok(instructions@, 0),
                code@ == lua_seq(instructions@.take(i as int), 0),
            decreases instructions.len() - i,
        {
            proof {
                lemma_seq_ok_item(instructions@, 0, i as int);
                lemma_seq_ok_prefix(instructions@, 0, i as int);
            }
            let item = transpile_ir_to_lua(&instructions[i], 0);
            code.append(item.as_str());
            i = i + 1;
        }
        proof {
            assert(instructions@.take(instructions.len() as int) =~= instructions@);
        }
        self.code = code;
    }
}

/// A module's translation is its instructions' translations one after
/// another, exactly as a block of those instructions is translated.
pub proof fn law_module_is_block(block: crate::ir::IRBlock)
    ensures
        lua(IRInstruction::Block(block), 0) == lua_seq(block.instructions@, 0),
{
    assert(lua(IRInstruction::Block(block), 0) =~= lua_seq(block.instructions@, 0) + Seq::empty());
}

/// Whether an instruction is written on lines of its own: conditionals,
/// loops, returns, assignments, arrays, variable declarations and calls.
pub open spec fn starts_a_line(instr: IRInstruction) -> bool {
    match instr {
        IRInstruction::If(_) | IRInstruction::While(_) | IRInstruction::Return(_)
        | IRInstruction::Assign(_) | IRInstruction::ForIn(_) | IRInstruction::Array(_)
        | IRInstruction::Call(_) => true,
        IRInstruction::Variable(v) => v.metadata.is_declaration,
        IRInstruction::Function(f) => f.body is Some,
        _ => false,
    }
}

proof fn lemma_spaces_len(n: nat)
    ensures
        spaces(n).len() == n,
    decreases n,
{
    reveal_strlit(" ");
    if n > 0 {
        lemma_spaces_len((n - 1) as nat);
    }
}

proof fn lemma_starts_with(text: Seq<char>, pad: Seq<char>, rest: Seq<char>)
    requires
        text == pad + rest,
    ensures
        text.len() >= pad.len(),
        text.take(pad.len() as int) == pad,
{
    assert(text.take(pad.len() as int) =~= pad);
}

/// Whatever is written on lines of its own is indented by exactly the
/// indentation it is translated at.
#[verifier::rlimit(100)]
#[verifier::spinoff_prover]
pub proof fn law_lines_are_indented(instr: IRInstruction, indent: nat)
    requires
        starts_a_line(instr),
    ensures
        lua(instr, indent).len() >= indent,
        lua(instr, indent).take(indent as int) == spaces(indent),
{
    lemma_spaces_len(indent);
    let pad = spaces(indent);
    let body = lua_body(instr, indent);
    match instr {
        IRInstruction::If(x) => {
            let rest = ("if "@ + lua(*x.condition, indent) + " then\n"@ + lua(
                *x.then_branch,
                indent,
            ) + match x.else_branch {
                Some(e) => spaces(indent) + "else\n"@ + lua(*e, indent),
                None => Seq::empty(),
            } + spaces(indent) + " end\n"@);
            assert(body =~= pad + rest);
            lemma_starts_with(body, pad, rest);
        },
        IRInstruction::While(w) => {
            let rest = ("while "@ + lua(*w.condition, indent) + " do\n"@ + lua(
                *w.body,
                indent + 2,
            ) + spaces(indent) + "end\n"@);
            assert(body =~= pad + rest);
            lemma_starts_with(body, pad, rest);
        },
        IRInstruction::Return(r) => {
            let rest = ("return "@ + lua(*r.value, indent) + "\n"@);
            assert(body =~= pad + rest);
            lemma_starts_with(body, pad, rest);
        },
        IRInstruction::Assign(a) => {
            let rest = (a.name@ + " = "@ + lua(*a.value, 0) + "\n"@);
            assert(body =~= pad + rest);
            lemma_starts_with(body, pad, rest);
        },
        IRInstruction::ForIn(f) => {
            let rest = ("for _, "@ + f.variable.name@ + " in pairs("@ + lua(
                *f.iterable,
                indent,
            ) + ") do\n"@ + lua(*f.body, indent + 2) + spaces(indent) + "end\n"@);
            assert(body =~= pad + rest);
            lemma_starts_with(body, pad, rest);
        },
        IRInstruction::Array(a) => {
            let rest = ("{"@ + lua_list(a.elements@, indent + 2) + "}\n"@);
            assert(body =~= pad + rest);
            lemma_starts_with(body, pad, rest);
        },
        IRInstruction::Call(c) => {
            if c.name@ == "toString"@ {
                if c.arguments@.len() > 0 {
                    let rest = lua(c.arguments@[0], indent);
                    assert(body =~= pad + rest);
                    lemma_starts_with(body, pad, rest);
                } else {
                    let rest = Seq::<char>::empty();
                    assert(body =~= pad + rest);
                    lemma_starts_with(body, pad, rest);
                }
            } else {
                let name = if c.name@ == "println"@ {
                    "print"@
                } else {
                    c.name@
                };
                let rest = (name + "("@ + lua_list(c.arguments@, indent) + ")"@ + "\n"@);
                assert(body =~= pad + rest);
                lemma_starts_with(body, pad, rest);
            }
        },
        IRInstruction::Variable(v) => {
            let value = match v.value {
                Some(x) => lua(*x, 0),
                None => Seq::empty(),
            };
            let rest = ("local "@ + v.name@ + " = "@ + value + "\n"@);
            assert(body =~= pad + rest);
            lemma_starts_with(body, pad, rest);
        },
        IRInstruction::Function(f) => {
            let block = f.body->Some_0;
            let tail = lua_seq(block.instructions@, indent + 2) + spaces(indent) + "end\n"@;
            if f.metadata.is_recursive {
                let rest = ("local "@ + f.name@ + "\n"@ + spaces(indent) + f.name@
                    + " = function("@ + parameter_list(f.parameters@) + ")\n"@ + tail);
                assert(body =~= pad + rest);
                lemma_starts_with(body, pad, rest);
            } else {
                let rest = ("local "@ + f.name@ + " = function("@ + parameter_list(
                    f.parameters@,
                ) + ")\n"@ + tail);
                assert(body =~= pad + rest);
                lemma_starts_with(body, pad, rest);
            }
        },
        _ => {},
    }
    let text = lua(instr, indent);
    assert(text.take(indent as int) =~= body.take(indent as int));
}

/// The table that closes the chunk of an exported function: `return {`,
/// the function's name, `}`.
pub open spec fn return_table(name: Seq<char>, indent: nat) -> Seq<char> {
    spaces(indent) + "return {\n"@ + spaces(indent + 2) + name + ",\n"@ + spaces(indent) + "}\n"@
}

/// A function with a body that is marked exported, recursive or not, is
/// followed by the table that exports its name; any other function is
/// followed by nothing.
pub proof fn law_exported_function_closes_with_table(f: IRFunction, indent: nat)
    ensures
        f.body is Some && f.metadata.is_exported ==> lua(IRInstruction::Function(f), indent)
            == lua_function(f, indent) + return_table(f.name@, indent),
        !(f.body is Some && f.metadata.is_exported) ==> lua(IRInstruction::Function(f), indent)
            == lua_function(f, indent),
{
    let instr = IRInstruction::Function(f);
    if f.body is Some && f.metadata.is_exported {
        let names = seq![f.name@];
        assert(names.drop_last() =~= Seq::<Seq<char>>::empty());
        assert(names.last() == f.name@);
        assert(export_entries(names.drop_last(), indent + 2) == Seq::<char>::empty());
        assert(export_entries(names, indent + 2) =~= Seq::<char>::empty() + spaces(indent + 2) + f.name@
            + ",\n"@);
        assert(lua(instr, indent) =~= lua_function(f, indent) + return_table(f.name@, indent));
    } else {
        assert(lua(instr, indent) =~= lua_function(f, indent));
    }
}

/// Only functions export names: every other instruction is followed by
/// nothing.
pub proof fn law_only_functions_export(instr: IRInstruction, indent: nat)
    requires
        !(instr is Function),
    ensures
        lua(instr, indent) == lua_body(instr, indent),
{
    assert(lua(instr, indent) =~= lua_body(instr, indent));
}

proof fn lemma_all_ok_seq_ok(instrs: Seq<IRInstruction>, indent: nat)
    requires
        forall|i: int| 0 <= i < instrs.len() ==> lua_ok(#[trigger] instrs[i], indent),
    ensures
        lua_seq_ok(instrs, indent),
    decreases instrs.len(),
{
    if instrs.len() > 0 {
        let front = instrs.drop_last();
        assert forall|i: int| 0 <= i < front.len() implies lua_ok(#[trigger] front[i], indent) by {
            assert(front[i] == instrs[i]);
        }
        lemma_all_ok_seq_ok(front, indent);
        assert(lua_ok(instrs[instrs.len() - 1], indent));
    }
}

/// Only a class stops translation: every other instruction whose parts are
/// translatable (with room for two more columns where it indents them, and
/// an argument for `toString`) is translatable itself.
pub proof fn law_translatable_unless_class(instr: IRInstruction, indent: nat)
    ensures
        instr is Class ==> !lua_ok(instr, indent),
        instr is Literal || instr is Import ==> lua_ok(instr, indent),
        instr matches IRInstruction::Binary(b) ==> (lua_ok(*b.left, indent) && lua_ok(*b.right, indent) ==> lua_ok(instr, indent)),
        instr matches IRInstruction::Logical(b) ==> (lua_ok(*b.left, indent) && lua_ok(*b.right, indent) ==> lua_ok(instr, indent)),
        instr matches IRInstruction::Unary(u) ==> (lua_ok(*u.right, indent) ==> lua_ok(instr, indent)),
        instr matches IRInstruction::Return(r) ==> (lua_ok(*r.value, indent) ==> lua_ok(instr, indent)),
        instr matches IRInstruction::Assign(a) ==> (lua_ok(*a.value, 0) ==> lua_ok(instr, indent)),
        instr matches IRInstruction::Ternary(t) ==> (lua_ok(*t.condition, indent) && lua_ok(
            *t.then_branch,
            indent,
        ) && lua_ok(*t.else_branch, indent) ==> lua_ok(instr, indent)),
        instr matches IRInstruction::If(x) ==> (lua_ok(*x.condition, indent) && lua_ok(
            *x.then_branch,
            indent,
        ) && (x.else_branch matches Some(e) ==> lua_ok(*e, indent)) ==> lua_ok(instr, indent)),
        instr matches IRInstruction::While(w) ==> (indent + 2 <= usize::MAX && lua_ok(*w.condition, indent)
            && lua_ok(*w.body, indent + 2) ==> lua_ok(instr, indent)),
        instr matches IRInstruction::ForIn(f) ==> (indent + 2 <= usize::MAX && lua_ok(*f.iterable, indent)
            && lua_ok(*f.body, indent + 2) ==> lua_ok(instr, indent)),
        instr matches IRInstruction::Variable(v) ==> ((v.value matches Some(x) ==> lua_ok(*x, 0)) ==> lua_ok(instr, indent)),
        instr matches IRInstruction::Block(b) ==> ((forall|i: int|
            0 <= i < b.instructions@.len() ==> lua_ok(#[trigger] b.instructions@[i], indent)) ==> lua_ok(instr, indent)),
        instr matches IRInstruction::Array(a) ==> (indent + 2 <= usize::MAX && (forall|i: int|
            0 <= i < a.elements@.len() ==> lua_ok(#[trigger] a.elements@[i], indent + 2)) ==> lua_ok(instr, indent)),
        instr matches IRInstruction::Call(c) ==> (c.name@ != "toString"@ && (forall|i: int|
            0 <= i < c.arguments@.len() ==> lua_ok(#[trigger] c.arguments@[i], indent)) ==> lua_ok(instr, indent)),
        instr matches IRInstruction::Call(c) ==> (c.name@ == "toString"@ && c.arguments@.len() > 0 && lua_ok(c.arguments@[0], indent) ==> lua_ok(instr, indent)),
        instr matches IRInstruction::Function(f) ==> (indent + 2 <= usize::MAX && (f.body matches Some(
            body,
        ) ==> forall|i: int|
            0 <= i < body.instructions@.len() ==> lua_ok(#[trigger] body.instructions@[i], indent + 2)) ==> lua_ok(instr, indent)),
{
    match instr {
        IRInstruction::Block(b) => {
            if forall|i: int| 0 <= i < b.instructions@.len() ==> lua_ok(#[trigger] b.instructions@[i], indent) {
                lemma_all_ok_seq_ok(b.instructions@, indent);
            }
        },
        IRInstruction::Array(a) => {
            if forall|i: int| 0 <= i < a.elements@.len() ==> lua_ok(#[trigger] a.elements@[i], indent + 2) {
                lemma_all_ok_seq_ok(a.elements@, indent + 2);
            }
        },
        IRInstruction::Call(c) => {
            if forall|i: int| 0 <= i < c.arguments@.len() ==> lua_ok(#[trigger] c.arguments@[i], indent) {
                lemma_all_ok_seq_ok(c.arguments@, indent);
                if c.name@ != "toString"@ {
                    assert(lua_call_ok(c, indent));
                    assert(lua_body_ok(instr, indent));
                }
            }
            if c.name@ == "toString"@ && c.arguments@.len() > 0 && lua_ok(c.arguments@[0], indent) {
                assert(lua_call_ok(c, indent));
                assert(lua_body_ok(instr, indent));
            }
        },
        IRInstruction::Variable(v) => {
            if v.value matches Some(x) ==> lua_ok(*x, 0) {
                assert(lua_variable_ok(v));
                assert(lua_body_ok(instr, indent));
            }
        },
        IRInstruction::Function(f) => {
            match f.body {
                Some(body) => {
                    if forall|i: int|
                        0 <= i < body.instructions@.len() ==> lua_ok(
                            #[trigger] body.instructions@[i],
                            indent + 2,
                        ) {
                        lemma_all_ok_seq_ok(body.instructions@, indent + 2);
                        if indent + 2 <= usize::MAX {
                            assert(lua_function_ok(f, indent));
                            assert(lua_body_ok(instr, indent));
                        }
                    }
                },
                None => {
                    assert(lua_function_ok(f, indent));
                    assert(lua_body_ok(instr, indent));
                },
            }
        },
        _ => {},
    }
}

} // verus!
