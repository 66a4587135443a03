use aria_lang::mir::{
    BinOp, BlockId, EffectClassification, EffectId, EffectOperation, EffectRow, EffectStatementKind,
    EffectTerminatorKind, EffectType, EvidenceSlot, FfiBarrierStrategy, FunctionId, HandlerBlock, HandlerId,
    Local, MirFunction, MirProgram, MirType, Operand, OperationId, Place, Rvalue, Span, Statement,
    StatementKind, SwitchTargets, Terminator, TerminatorKind, TypeVarId, Constant, CastKind,
};
use aria_lang::piece::Piece;
use aria_lang::pretty::{pretty_function_pieces, pretty_pieces};

fn render(pieces: &[Piece]) -> String {
    let mut s = String::new();
    for p in pieces {
        match p {
            Piece::Char(c) => s.push(char::from_u32(*c).unwrap()),
            Piece::Float64(bits) => s.push_str(&format!("{}", f64::from_bits(*bits))),
            Piece::Float32(bits) => s.push_str(&format!("{}", f32::from_bits(*bits))),
        }
    }
    s
}

fn pretty_print(program: &MirProgram) -> String {
    render(&pretty_pieces(program))
}

#[test]
fn test_pretty_print_empty_program() {
    let program = MirProgram::new();
    let output = pretty_print(&program);
    assert!(output.is_empty() || output.trim().is_empty());
}

#[test]
fn test_pretty_print_effect_definition() {
    let mut program = MirProgram::new();

    let effect_id = program.new_effect("State".into(), Span::dummy());
    {
        let effect = program.effect_mut(effect_id).unwrap();
        effect.type_params.push("T".into());
        effect.add_operation(EffectOperation {
            id: OperationId(0),
            name: "get".into(),
            params: vec![],
            return_ty: MirType::Int,
        });
        effect.add_operation(EffectOperation {
            id: OperationId(1),
            name: "set".into(),
            params: vec![MirType::Int],
            return_ty: MirType::Unit,
        });
    }

    let output = pretty_print(&program);
    assert!(output.contains("effect State[T]"));
    assert!(output.contains("get:"));
    assert!(output.contains("set:"));
}

#[test]
fn test_pretty_print_handler() {
    let mut program = MirProgram::new();

    let effect_type = EffectType::new(EffectId(0), "State".into());
    let handler_id = program.new_handler(effect_type, Span::dummy());
    {
        let handler = program.handler_mut(handler_id).unwrap();
        handler.operation_blocks.push(BlockId(1));
        handler.operation_blocks.push(BlockId(2));
        handler.return_block = Some(BlockId(3));
    }

    let output = pretty_print(&program);
    assert!(output.contains("handler for State"));
    assert!(output.contains("[tail-resumptive]"));
    assert!(output.contains("op#0 -> bb1"));
    assert!(output.contains("op#1 -> bb2"));
    assert!(output.contains("return -> bb3"));
}

#[test]
fn test_pretty_print_effectful_function() {
    let mut program = MirProgram::new();

    let mut func = MirFunction::new("counter".into(), MirType::Int, Span::dummy());
    func.is_public = true;

    let state_effect = EffectType::new(EffectId(0), "State".into()).with_type_params(vec![MirType::Int]);
    func.set_effect_row(EffectRow::new().with_effect(state_effect.clone()));

    func.add_evidence_param(state_effect.clone(), true);

    let n = func.new_local(MirType::Int, Some("n".into()));
    func.params = vec![n];

    let entry = func.new_block();

    let result = func.new_local(MirType::Int, Some("result".into()));
    func.block_mut(entry).push_stmt(Statement { kind: StatementKind::Nop, span: Span::dummy() });

    let effect_stmt = EffectStatementKind::PerformEffect {
        effect: state_effect.clone(),
        operation: OperationId(0),
        args: vec![],
        evidence_slot: EvidenceSlot::Static(0),
        dest: Place::from_local(result),
        classification: EffectClassification::TailResumptive,
    };
    func.add_effect_statement(entry, 0, effect_stmt);

    func.block_mut(entry).set_terminator(Terminator { kind: TerminatorKind::Return, span: Span::dummy() });

    let fn_id = FunctionId(0);
    program.functions.insert(fn_id, func);

    let output = pretty_print(&program);
    assert!(output.contains("fn counter"));
    assert!(output.contains("{State[Int]}"));
    assert!(output.contains("// evidence:"));
    assert!(output.contains("effect.perform.tail-resumptive"));
}

#[test]
fn test_pretty_print_effect_terminator() {
    let mut program = MirProgram::new();

    let mut func = MirFunction::new("test_resume".into(), MirType::Int, Span::dummy());

    let block1 = func.new_block();
    let block2 = func.new_block();

    let effect_term = EffectTerminatorKind::Resume {
        continuation: Operand::Copy(Place::from_local(Local(1))),
        value: Operand::const_int(42),
        target: block2,
    };
    func.set_effect_terminator(block1, effect_term);

    func.block_mut(block2).set_terminator(Terminator { kind: TerminatorKind::Return, span: Span::dummy() });

    let fn_id = FunctionId(0);
    program.functions.insert(fn_id, func);

    let output = pretty_print(&program);
    assert!(output.contains("effect.resume"));
    assert!(output.contains("42"));
}

#[test]
fn test_pretty_print_handler_block() {
    let mut program = MirProgram::new();

    let mut func = MirFunction::new("with_handler".into(), MirType::Int, Span::dummy());

    let entry = func.new_block();
    func.block_mut(entry).set_terminator(Terminator { kind: TerminatorKind::Return, span: Span::dummy() });

    let hb = HandlerBlock {
        block_id: BlockId(1),
        effect: EffectType::new(EffectId(0), "State".into()),
        operation: OperationId(0),
        params: vec![Local(2)],
        continuation: Some(Local(3)),
        resume_block: Some(BlockId(2)),
    };
    func.add_handler_block(hb);

    let fn_id = FunctionId(0);
    program.functions.insert(fn_id, func);

    let output = pretty_print(&program);
    assert!(output.contains("// handler blocks:"));
    assert!(output.contains("@State.op#0"));
    assert!(output.contains("cont:"));
    assert!(output.contains("resume bb2"));
}

#[test]
fn test_pretty_print_simple_function() {
    let mut program = MirProgram::new();

    let mut func = MirFunction::new("add".into(), MirType::Int, Span::dummy());
    func.is_public = true;

    let a = func.new_local(MirType::Int, Some("a".into()));
    let b = func.new_local(MirType::Int, Some("b".into()));
    func.params = vec![a, b];

    let entry = func.new_block();

    let result = func.new_local(MirType::Int, Some("result".into()));

    func.block_mut(entry).push_stmt(Statement {
        kind: StatementKind::Assign(
            Place::from_local(result),
            Rvalue::BinaryOp(BinOp::Add, Operand::Copy(Place::from_local(a)), Operand::Copy(Place::from_local(b))),
        ),
        span: Span::dummy(),
    });

    func.block_mut(entry).push_stmt(Statement {
        kind: StatementKind::Assign(Place::return_place(), Rvalue::Use(Operand::Copy(Place::from_local(result)))),
        span: Span::dummy(),
    });

    func.block_mut(entry).set_terminator(Terminator { kind: TerminatorKind::Return, span: Span::dummy() });

    let fn_id = FunctionId(0);
    program.functions.insert(fn_id, func);
    program.entry = Some(fn_id);

    let output = pretty_print(&program);
    assert!(output.contains("fn add"));
    assert!(output.contains("return"));
}

#[test]
fn test_pretty_print_control_flow() {
    let mut program = MirProgram::new();

    let mut func = MirFunction::new("test_if".into(), MirType::Int, Span::dummy());

    let entry = func.new_block();
    let then_block = func.new_block();
    let else_block = func.new_block();
    let merge = func.new_block();

    let cond = func.new_local(MirType::Bool, Some("cond".into()));

    func.block_mut(entry).set_terminator(Terminator {
        kind: TerminatorKind::SwitchInt {
            discr: Operand::Copy(Place::from_local(cond)),
            targets: SwitchTargets::if_else(then_block, else_block),
        },
        span: Span::dummy(),
    });

    func.block_mut(then_block).push_stmt(Statement {
        kind: StatementKind::Assign(Place::return_place(), Rvalue::Use(Operand::const_int(1))),
        span: Span::dummy(),
    });
    func.block_mut(then_block).set_terminator(Terminator {
        kind: TerminatorKind::Goto { target: merge },
        span: Span::dummy(),
    });

    func.block_mut(else_block).push_stmt(Statement {
        kind: StatementKind::Assign(Place::return_place(), Rvalue::Use(Operand::const_int(0))),
        span: Span::dummy(),
    });
    func.block_mut(else_block).set_terminator(Terminator {
        kind: TerminatorKind::Goto { target: merge },
        span: Span::dummy(),
    });

    func.block_mut(merge).set_terminator(Terminator { kind: TerminatorKind::Return, span: Span::dummy() });

    let fn_id = FunctionId(0);
    program.functions.insert(fn_id, func);

    let output = pretty_print(&program);
    assert!(output.contains("switchInt"));
    assert!(output.contains("goto"));
    assert!(output.contains("bb0"));
    assert!(output.contains("bb1"));
    assert!(output.contains("bb2"));
    assert!(output.contains("bb3"));
}

#[test]
fn test_mir_program_effects() {
    let mut program = MirProgram::new();

    let effect_id = program.new_effect("State".into(), Span::dummy());
    assert_eq!(effect_id, EffectId(0));

    let effect = program.effect(effect_id).unwrap();
    assert_eq!(effect.name.as_str(), "State");

    let effect_mut = program.effect_mut(effect_id).unwrap();
    let op_id = effect_mut.add_operation(EffectOperation {
        id: OperationId(0),
        name: "get".into(),
        params: vec![],
        return_ty: MirType::Int,
    });
    assert_eq!(op_id, OperationId(0));

    let effect = program.effect(effect_id).unwrap();
    assert_eq!(effect.operations.len(), 1);
    assert_eq!(effect.operation(OperationId(0)).unwrap().name.as_str(), "get");
}

#[test]
fn test_mir_program_handlers() {
    let mut program = MirProgram::new();

    let effect_type = EffectType::new(EffectId(0), "State".into());
    let handler_id = program.new_handler(effect_type.clone(), Span::dummy());
    assert_eq!(handler_id, HandlerId(0));

    let handler = program.handler(handler_id).unwrap();
    assert_eq!(handler.effect.name.as_str(), "State");
    assert!(handler.is_tail_resumptive);

    let handler_mut = program.handler_mut(handler_id).unwrap();
    handler_mut.is_tail_resumptive = false;
    handler_mut.operation_blocks.push(BlockId(1));

    let handler = program.handler(handler_id).unwrap();
    assert!(!handler.is_tail_resumptive);
    assert_eq!(handler.operation_blocks.len(), 1);
}

#[test]
fn test_effect_statement_kinds() {
    let install = EffectStatementKind::InstallHandler {
        handler: HandlerId(0),
        evidence_slot: EvidenceSlot::Static(0),
        effect: EffectType::new(EffectId(0), "State".into()),
        prev_evidence: Some(Local(1)),
    };
    let _ = render(&install.pieces());

    let perform = EffectStatementKind::PerformEffect {
        effect: EffectType::new(EffectId(0), "State".into()),
        operation: OperationId(0),
        args: vec![Operand::const_int(42)],
        evidence_slot: EvidenceSlot::Static(0),
        dest: Place::from_local(Local(2)),
        classification: EffectClassification::TailResumptive,
    };
    let _ = render(&perform.pieces());

    let capture = EffectStatementKind::CaptureContunuation { dest: Place::from_local(Local(3)) };
    let _ = render(&capture.pieces());

    let barrier = EffectStatementKind::FfiBarrier {
        strategy: FfiBarrierStrategy::CallbackConvert,
        blocked_effects: vec![EffectType::new(EffectId(0), "Async".into())],
    };
    let _ = render(&barrier.pieces());
}

#[test]
fn test_effect_terminator_kinds() {
    let yield_term = EffectTerminatorKind::Yield {
        effect: EffectType::new(EffectId(0), "Choice".into()),
        operation: OperationId(0),
        args: vec![],
        continuation: Operand::Copy(Place::from_local(Local(1))),
        handler_block: BlockId(2),
    };
    let _ = render(&yield_term.pieces());

    let resume_term = EffectTerminatorKind::Resume {
        continuation: Operand::Copy(Place::from_local(Local(1))),
        value: Operand::const_bool(true),
        target: BlockId(3),
    };
    let _ = render(&resume_term.pieces());

    let handle_term = EffectTerminatorKind::Handle {
        body: BlockId(1),
        handler: HandlerId(0),
        normal_return: BlockId(2),
        effect_return: BlockId(3),
    };
    let _ = render(&handle_term.pieces());
}

#[test]
fn test_effect_type_display() {
    let simple = EffectType::new(EffectId(0), "IO".into());
    assert_eq!(simple.display(), "IO");

    let with_params =
        EffectType::new(EffectId(1), "State".into()).with_type_params(vec![MirType::Int, MirType::String]);
    assert_eq!(with_params.display(), "State[Int, String]");
}

#[test]
fn test_effect_row_display() {
    let empty = EffectRow::pure();
    assert_eq!(empty.display(), "{}");

    let single = EffectRow::new().with_effect(EffectType::new(EffectId(0), "IO".into()));
    assert_eq!(single.display(), "{IO}");

    let multiple = EffectRow::new()
        .with_effect(EffectType::new(EffectId(0), "IO".into()))
        .with_effect(EffectType::new(EffectId(1), "State".into()));
    assert_eq!(multiple.display(), "{IO, State}");

    let open = EffectRow::new().with_effect(EffectType::new(EffectId(0), "IO".into())).open();
    assert_eq!(open.display(), "{IO, ..}");
}

#[test]
fn test_type_display() {
    assert_eq!(MirType::TypeVar(TypeVarId(0)).display(), "?T0");
    assert_eq!(MirType::TypeParam("T".into()).display(), "T");
    assert_eq!(MirType::Generic { name: "List".into(), args: vec![MirType::Int] }.display(), "List<Int>");
}

// ---------------------------------------------------------------------------
// Exact listings
// ---------------------------------------------------------------------------

#[test]
fn listing_of_simple_function_is_exact() {
    let mut program = MirProgram::new();
    let mut func = MirFunction::new("add".into(), MirType::Int, Span::dummy());
    func.is_public = true;
    let a = func.new_local(MirType::Int, Some("a".into()));
    let b = func.new_local(MirType::Int, None);
    func.params = vec![a, b];
    let entry = func.new_block();
    func.block_mut(entry).push_stmt(Statement {
        kind: StatementKind::Assign(
            Place::return_place(),
            Rvalue::BinaryOp(BinOp::Add, Operand::Copy(Place::from_local(a)), Operand::Move(Place::from_local(b))),
        ),
        span: Span::dummy(),
    });
    func.block_mut(entry).set_terminator(Terminator { kind: TerminatorKind::Return, span: Span::dummy() });
    program.functions.insert(FunctionId(3), func);
    program.entry = Some(FunctionId(3));

    let expected = "pub fn add(_1: Int, _2: Int) -> Int { // fn#3\n\
                    \x20 // locals:\n\
                    \x20 // _0: mut Int (_return)\n\
                    \x20 // _1: mut Int (a)\n\
                    \x20 // _2: mut Int (_tmp)\n\
                    \n\
                    bb0:\n\
                    \x20   _0 = copy _1 + move _2;\n\
                    \x20   return;\n\
                    \n\
                    }\n\
                    \n\
                    // entry: fn#3\n";
    assert_eq!(pretty_print(&program), expected);
}

#[test]
fn listing_of_definitions_is_exact() {
    let mut program = MirProgram::new();
    let e = program.new_effect("State".into(), Span::dummy());
    {
        let effect = program.effect_mut(e).unwrap();
        effect.type_params.push("S".into());
        effect.type_params.push("T".into());
        effect.add_operation(EffectOperation {
            id: OperationId(0),
            name: "put".into(),
            params: vec![MirType::Int, MirType::Bool],
            return_ty: MirType::Unit,
        });
    }
    let h = program.new_handler(EffectType::new(e, "State".into()), Span::dummy());
    program.handler_mut(h).unwrap().is_tail_resumptive = false;
    program.handler_mut(h).unwrap().operation_blocks.push(BlockId(4));

    let expected = "effect State[S, T] { // effect#0\n\
                    \x20 put: (Int, Bool) -> (), // op#0\n\
                    }\n\
                    \n\
                    handler for State { // handler#0\n\
                    \x20 op#0 -> bb4,\n\
                    }\n\
                    \n";
    assert_eq!(pretty_print(&program), expected);
}

#[test]
fn listing_renders_constants_and_switch_values() {
    let mut func = MirFunction::new("f".into(), MirType::Unit, Span::dummy());
    let entry = func.new_block();
    func.block_mut(entry).push_stmt(Statement {
        kind: StatementKind::Assign(
            Place::from_local(Local(0)),
            Rvalue::Cast(CastKind::IntToFloat, Operand::Constant(Constant::Float64(1.5f64.to_bits())), MirType::Float32),
        ),
        span: Span::dummy(),
    });
    func.block_mut(entry).push_stmt(Statement {
        kind: StatementKind::Assign(Place::from_local(Local(0)), Rvalue::Use(Operand::Constant(Constant::Char('x')))),
        span: Span::dummy(),
    });
    func.block_mut(entry).push_stmt(Statement { kind: StatementKind::StorageDead(Local(0)), span: Span::dummy() });
    func.block_mut(entry).set_terminator(Terminator {
        kind: TerminatorKind::SwitchInt {
            discr: Operand::const_int(-7),
            targets: SwitchTargets::new(vec![(-3, BlockId(1)), (i128::MIN, BlockId(2))], BlockId(3)),
        },
        span: Span::dummy(),
    });
    let out = render(&pretty_function_pieces(&func));
    assert!(out.contains("    _0 = 1.5f64 as Float32 (IntToFloat);\n"));
    assert!(out.contains("    _0 = 'x';\n"));
    assert!(out.contains("    StorageDead(_0);\n"));
    assert!(out.contains(
        "    switchInt(-7) -> [-3: bb1, -170141183460469231731687303715884105728: bb2, otherwise: bb3];\n"
    ));
    assert!(out.starts_with("fn f() -> () { // fn#0\n"));
}

#[test]
fn listing_of_block_without_terminator() {
    let mut func = MirFunction::new("g".into(), MirType::Unit, Span::dummy());
    func.new_block();
    let out = render(&pretty_function_pieces(&func));
    assert!(out.contains("bb0:\n    // <no terminator>\n\n}\n"));
}

#[test]
fn effect_statement_listings_are_exact() {
    let install = EffectStatementKind::InstallHandler {
        handler: HandlerId(2),
        evidence_slot: EvidenceSlot::Dynamic(Local(4)),
        effect: EffectType::new(EffectId(0), "State".into()),
        prev_evidence: Some(Local(1)),
    };
    assert_eq!(render(&install.pieces()), "effect.install handler#2, ev[_4], @State (prev: _1)");
    let perform = EffectStatementKind::PerformEffect {
        effect: EffectType::new(EffectId(0), "State".into()),
        operation: OperationId(1),
        args: vec![Operand::const_int(42), Operand::Constant(Constant::Float32(0.25f32.to_bits()))],
        evidence_slot: EvidenceSlot::Static(0),
        dest: Place::from_local(Local(2)),
        classification: EffectClassification::General,
    };
    assert_eq!(render(&perform.pieces()), "_2 = effect.perform.general @State.op#1, [42, 0.25f32], ev[0]");
    let barrier = EffectStatementKind::FfiBarrier {
        strategy: FfiBarrierStrategy::HandlerSaveRestore,
        blocked_effects: vec![EffectType::new(EffectId(0), "Async".into()), EffectType::new(EffectId(1), "IO".into())],
    };
    assert_eq!(render(&barrier.pieces()), "effect.barrier @ffi, strategy: save-restore, blocked: [Async, IO]");
}

#[test]
fn effect_terminator_listings_are_exact() {
    let y = EffectTerminatorKind::Yield {
        effect: EffectType::new(EffectId(0), "Choice".into()),
        operation: OperationId(0),
        args: vec![Operand::const_bool(true)],
        continuation: Operand::Copy(Place::from_local(Local(1))),
        handler_block: BlockId(2),
    };
    assert_eq!(render(&y.pieces()), "effect.yield @Choice.op#0, [true], copy _1, -> bb2");
    let h = EffectTerminatorKind::Handle {
        body: BlockId(1),
        handler: HandlerId(0),
        normal_return: BlockId(2),
        effect_return: BlockId(3),
    };
    assert_eq!(render(&h.pieces()), "handle bb1 with handler#0 -> normal: bb2, effect: bb3");
    assert_eq!(render(&Operand::Constant(Constant::Float(2.0f64.to_bits())).pieces()), "2");
}
