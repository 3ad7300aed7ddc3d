use ignis::ir::{
    AnalyzerValue, FunctionValue, IRArray, IRAssign, IRBinary, IRBlock, IRCall, IRClass, IRForIn, IRFunction,
    IRFunctionMetadata, IRIf, IRInstruction, IRInstructionType, IRLiteral, IRLogical, IRReturn, IRTernary, IRUnary,
    IRVariable, IRVariableMetadata, IRWhile,
};
use ignis::to_lua::{lua_all_translatable, lua_translatable, transpile_ir_to_lua, TranspilerToLua};
use ignis::token::{Span, Token, TokenType};

fn lit(value: AnalyzerValue) -> IRInstruction {
    IRInstruction::Literal(IRLiteral { value })
}

fn number(n: i64) -> Box<IRInstruction> {
    Box::new(lit(AnalyzerValue::Int(n)))
}

fn name(n: &str) -> IRVariable {
    IRVariable { name: n.to_string(), value: None, metadata: IRVariableMetadata { is_declaration: false } }
}

fn var(n: &str) -> Box<IRInstruction> {
    Box::new(IRInstruction::Variable(name(n)))
}

fn call(n: &str, arguments: Vec<IRInstruction>) -> IRInstruction {
    IRInstruction::Call(IRCall { name: n.to_string(), arguments })
}

fn function(n: &str, exported: bool, recursive: bool, body: Vec<IRInstruction>) -> IRInstruction {
    IRInstruction::Function(IRFunction {
        name: n.to_string(),
        parameters: vec![name("a"), name("b")],
        body: Some(IRBlock { instructions: body }),
        metadata: IRFunctionMetadata { is_exported: exported, is_recursive: recursive },
    })
}

#[test]
fn literals() {
    assert_eq!(transpile_ir_to_lua(&lit(AnalyzerValue::Int(42)), 0), "42");
    assert_eq!(transpile_ir_to_lua(&lit(AnalyzerValue::Int(-7)), 0), "-7");
    assert_eq!(transpile_ir_to_lua(&lit(AnalyzerValue::Int(0)), 0), "0");
    assert_eq!(transpile_ir_to_lua(&lit(AnalyzerValue::Int(i64::MIN)), 0), i64::MIN.to_string());
    assert_eq!(transpile_ir_to_lua(&lit(AnalyzerValue::Int(i64::MAX)), 0), i64::MAX.to_string());
    assert_eq!(transpile_ir_to_lua(&lit(AnalyzerValue::String("hi".to_string())), 0), "\"hi\"");
    assert_eq!(transpile_ir_to_lua(&lit(AnalyzerValue::Double("2.5".to_string())), 0), "2.5");
    assert_eq!(transpile_ir_to_lua(&lit(AnalyzerValue::Boolean(true)), 0), "true");
    assert_eq!(transpile_ir_to_lua(&lit(AnalyzerValue::Boolean(false)), 0), "false");
    assert_eq!(transpile_ir_to_lua(&lit(AnalyzerValue::Null), 0), "nil");
    assert_eq!(transpile_ir_to_lua(&lit(AnalyzerValue::NoneValue), 0), "nil");
    assert_eq!(transpile_ir_to_lua(&lit(AnalyzerValue::Return(Box::new(AnalyzerValue::Int(3)))), 0), "3");
    let f = FunctionValue {
        name: Token::new(TokenType::Identifier, Span::new("m.ign".to_string(), 1, 0, 3, "add".to_string())),
    };
    assert_eq!(transpile_ir_to_lua(&lit(AnalyzerValue::Function(Box::new(f))), 0), "add");
}

#[test]
fn operators() {
    let cases = [
        (IRInstructionType::Add, "1 + 2"),
        (IRInstructionType::Sub, "1 - 2"),
        (IRInstructionType::Mul, "1 * 2"),
        (IRInstructionType::Div, "1 / 2"),
        (IRInstructionType::Mod, "1 % 2"),
        (IRInstructionType::Equal, "1 == 2"),
        (IRInstructionType::NotEqual, "1 ~= 2"),
        (IRInstructionType::Less, "1 < 2"),
        (IRInstructionType::LessEqual, "1 <= 2"),
        (IRInstructionType::Greater, "1 > 2"),
        (IRInstructionType::GreaterEqual, "1 >= 2"),
        (IRInstructionType::Concatenate, "1 .. 2"),
        (IRInstructionType::Assign, "1 = 2"),
        (IRInstructionType::AssignAdd, "1 += 2"),
        (IRInstructionType::AssignSub, "1 -= 2"),
    ];
    for (op, expected) in cases {
        let b = IRInstruction::Binary(IRBinary { instruction_type: op, left: number(1), right: number(2) });
        assert_eq!(transpile_ir_to_lua(&b, 4), expected);
    }
    let l = IRInstruction::Logical(IRLogical { instruction_type: IRInstructionType::And, left: var("p"), right: var("q") });
    assert_eq!(transpile_ir_to_lua(&l, 0), "p and q");
    let l = IRInstruction::Logical(IRLogical { instruction_type: IRInstructionType::Or, left: var("p"), right: var("q") });
    assert_eq!(transpile_ir_to_lua(&l, 0), "p or q");
    let u = IRInstruction::Unary(IRUnary { instruction_type: IRInstructionType::Not, right: var("p") });
    assert_eq!(transpile_ir_to_lua(&u, 0), "not p");
    let u = IRInstruction::Unary(IRUnary { instruction_type: IRInstructionType::Sub, right: number(5) });
    assert_eq!(transpile_ir_to_lua(&u, 0), "- 5");
}

#[test]
fn variables_and_assignments() {
    let decl = IRInstruction::Variable(IRVariable {
        name: "x".to_string(),
        value: Some(number(1)),
        metadata: IRVariableMetadata { is_declaration: true },
    });
    assert_eq!(transpile_ir_to_lua(&decl, 2), "  local x = 1\n");
    let empty = IRInstruction::Variable(IRVariable {
        name: "y".to_string(),
        value: None,
        metadata: IRVariableMetadata { is_declaration: true },
    });
    assert_eq!(transpile_ir_to_lua(&empty, 0), "local y = \n");
    assert_eq!(transpile_ir_to_lua(&var("z"), 6), "z");
    let assign = IRInstruction::Assign(IRAssign { name: "x".to_string(), value: number(3) });
    assert_eq!(transpile_ir_to_lua(&assign, 2), "  x = 3\n");
}

#[test]
fn calls() {
    assert_eq!(transpile_ir_to_lua(&call("println", vec![*number(1)]), 0), "print(1)\n");
    assert_eq!(transpile_ir_to_lua(&call("max", vec![*number(1), *number(2)]), 2), "  max(1, 2)\n");
    assert_eq!(transpile_ir_to_lua(&call("now", vec![]), 0), "now()\n");
    assert_eq!(transpile_ir_to_lua(&call("toString", vec![*number(5)]), 2), "  5");
}

#[test]
fn conditionals_and_loops() {
    let if_only = IRInstruction::If(IRIf {
        condition: var("c"),
        then_branch: Box::new(IRInstruction::Return(IRReturn { value: number(1) })),
        else_branch: None,
    });
    assert_eq!(transpile_ir_to_lua(&if_only, 0), "if c then\nreturn 1\n end\n");
    let if_else = IRInstruction::If(IRIf {
        condition: var("c"),
        then_branch: Box::new(IRInstruction::Return(IRReturn { value: number(1) })),
        else_branch: Some(Box::new(IRInstruction::Return(IRReturn { value: number(2) }))),
    });
    assert_eq!(transpile_ir_to_lua(&if_else, 2), "  if c then\n  return 1\n  else\n  return 2\n   end\n");
    let w = IRInstruction::While(IRWhile {
        condition: var("go"),
        body: Box::new(IRInstruction::Assign(IRAssign { name: "i".to_string(), value: number(0) })),
    });
    assert_eq!(transpile_ir_to_lua(&w, 0), "while go do\n  i = 0\nend\n");
    let f = IRInstruction::ForIn(IRForIn {
        variable: name("item"),
        iterable: var("items"),
        body: Box::new(call("println", vec![IRInstruction::Variable(name("item"))])),
    });
    assert_eq!(transpile_ir_to_lua(&f, 0), "for _, item in pairs(items) do\n  print(item)\nend\n");
    let t = IRInstruction::Ternary(IRTernary { condition: var("c"), then_branch: number(1), else_branch: number(2) });
    assert_eq!(transpile_ir_to_lua(&t, 0), "c and 1 or 2");
}

#[test]
fn arrays_blocks_and_imports() {
    let a = IRInstruction::Array(IRArray { elements: vec![*number(1), *number(2), *number(3)] });
    assert_eq!(transpile_ir_to_lua(&a, 0), "{1, 2, 3}\n");
    let empty = IRInstruction::Array(IRArray { elements: vec![] });
    assert_eq!(transpile_ir_to_lua(&empty, 2), "  {}\n");
    let block = IRInstruction::Block(IRBlock {
        instructions: vec![
            IRInstruction::Assign(IRAssign { name: "a".to_string(), value: number(1) }),
            IRInstruction::Assign(IRAssign { name: "b".to_string(), value: number(2) }),
        ],
    });
    assert_eq!(transpile_ir_to_lua(&block, 2), "  a = 1\n  b = 2\n");
    assert_eq!(transpile_ir_to_lua(&IRInstruction::Import, 4), "");
}

#[test]
fn functions() {
    let body = vec![IRInstruction::Return(IRReturn { value: var("a") })];
    assert_eq!(
        transpile_ir_to_lua(&function("first", false, false, body), 0),
        "local first = function(a, b)\n  return a\nend\n"
    );
    let body = vec![IRInstruction::Return(IRReturn { value: var("a") })];
    assert_eq!(
        transpile_ir_to_lua(&function("again", false, true, body), 0),
        "local again\nagain = function(a, b)\n  return a\nend\n"
    );
    let body = vec![IRInstruction::Return(IRReturn { value: var("b") })];
    assert_eq!(
        transpile_ir_to_lua(&function("second", true, false, body), 0),
        "local second = function(a, b)\n  return b\nend\nreturn {\n  second,\n}\n"
    );
    let declared = IRInstruction::Function(IRFunction {
        name: "ext".to_string(),
        parameters: vec![],
        body: None,
        metadata: IRFunctionMetadata { is_exported: true, is_recursive: false },
    });
    assert_eq!(transpile_ir_to_lua(&declared, 0), "");
}

#[test]
fn nested_exported_function_has_own_table() {
    let inner = function("inner", true, false, vec![]);
    let outer = function("outer", false, false, vec![inner]);
    assert_eq!(
        transpile_ir_to_lua(&outer, 0),
        "local outer = function(a, b)\n  local inner = function(a, b)\n  end\n  return {\n    inner,\n  }\nend\n"
    );
}

#[test]
fn module_translation() {
    let mut t = TranspilerToLua::new();
    assert_eq!(t.code, "");
    let module = vec![
        IRInstruction::Variable(IRVariable {
            name: "x".to_string(),
            value: Some(number(1)),
            metadata: IRVariableMetadata { is_declaration: true },
        }),
        call("println", vec![IRInstruction::Variable(name("x"))]),
    ];
    assert!(lua_all_translatable(&module, 0));
    t.transpile(&module);
    assert_eq!(t.code, "local x = 1\nprint(x)\n");
    let block = IRInstruction::Block(IRBlock { instructions: module });
    assert_eq!(transpile_ir_to_lua(&block, 0), t.code);
}

#[test]
fn translatable_checks() {
    assert!(lua_translatable(&lit(AnalyzerValue::Int(1)), 0));
    let class = IRInstruction::Class(IRClass { name: "C".to_string() });
    assert!(!lua_translatable(&class, 0));
    let nested = IRInstruction::Block(IRBlock { instructions: vec![*number(1), IRInstruction::Class(IRClass { name: "C".to_string() })] });
    assert!(!lua_translatable(&nested, 0));
    assert!(!lua_translatable(&call("toString", vec![]), 0));
    assert!(lua_translatable(&call("toString", vec![*number(1)]), 0));
    let w = IRInstruction::While(IRWhile { condition: var("c"), body: var("d") });
    assert!(!lua_translatable(&w, usize::MAX - 1));
    assert!(lua_translatable(&w, usize::MAX - 2));
}
