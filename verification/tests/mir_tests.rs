use aria_lang::mir::{
    BlockId, EffectClassification, EffectId, EffectOperation, EffectRow, EffectStatementKind,
    EffectTerminatorKind, EffectType, EvidenceLayout, EvidenceSlot, FfiBarrierStrategy, HandlerBlock,
    HandlerId, Local, MirEffect, MirFunction, MirHandler, MirProgram, MirType, Operand, OperationId,
    Place, Span, Statement, StatementKind, SwitchTargets, Terminator, TerminatorKind, TypeVarId, Constant,
    StructId, EnumId,
};

#[test]
fn test_mir_program_creation() {
    let program = MirProgram::new();
    assert!(program.functions.entries.is_empty());
    assert!(program.structs.entries.is_empty());
    assert!(program.enums.entries.is_empty());
    assert!(program.entry.is_none());
}

#[test]
fn test_mir_function_creation() {
    let mut func = MirFunction::new("test".to_string(), MirType::Unit, Span::dummy());

    assert_eq!(func.locals.len(), 1);
    assert_eq!(func.local_decl(Local::return_local()).ty, MirType::Unit);

    let local = func.new_local(MirType::Int, Some("x".to_string()));
    assert_eq!(local.0, 1);
    assert_eq!(func.locals.len(), 2);

    let block = func.new_block();
    assert_eq!(block, BlockId::entry());
    assert_eq!(func.blocks.len(), 1);
}

#[test]
fn test_place_construction() {
    let place = Place::from_local(Local(1)).field(0).field(1);

    assert_eq!(place.local, Local(1));
    assert_eq!(place.projection.len(), 2);
}

#[test]
fn test_switch_targets() {
    let targets = SwitchTargets::if_else(BlockId(1), BlockId(2));
    assert_eq!(targets.targets.len(), 1);
    assert_eq!(targets.targets[0], (0, BlockId(2)));
    assert_eq!(targets.otherwise, BlockId(1));
}

#[test]
fn test_operand_helpers() {
    let int_op = Operand::const_int(42);
    let bool_op = Operand::const_bool(true);
    let float_op = Operand::const_float(3.14f64.to_bits());
    let unit_op = Operand::const_unit();

    match int_op {
        Operand::Constant(Constant::Int(42)) => {}
        _ => panic!("Expected Int constant"),
    }

    match bool_op {
        Operand::Constant(Constant::Bool(true)) => {}
        _ => panic!("Expected Bool constant"),
    }

    match float_op {
        Operand::Constant(Constant::Float(f)) if (f64::from_bits(f) - 3.14).abs() < 0.001 => {}
        _ => panic!("Expected Float constant"),
    }

    match unit_op {
        Operand::Constant(Constant::Unit) => {}
        _ => panic!("Expected Unit constant"),
    }
}

#[test]
fn test_mir_type_predicates() {
    assert!(MirType::Int.is_primitive());
    assert!(MirType::Bool.is_primitive());
    assert!(!MirType::String.is_primitive());
    assert!(!MirType::Array(Box::new(MirType::Int)).is_primitive());

    assert!(MirType::Int.is_integer());
    assert!(MirType::Int64.is_integer());
    assert!(MirType::UInt32.is_integer());
    assert!(!MirType::Float.is_integer());

    assert!(MirType::Float.is_float());
    assert!(MirType::Float64.is_float());
    assert!(!MirType::Int.is_float());
}

#[test]
fn test_effect_type_creation() {
    let effect = EffectType::new(EffectId(0), "State".to_string());
    assert_eq!(effect.id, EffectId(0));
    assert_eq!(effect.name.as_str(), "State");
    assert!(effect.type_params.is_empty());
}

#[test]
fn test_effect_type_with_params() {
    let effect = EffectType::new(EffectId(1), "Reader".to_string()).with_type_params(vec![MirType::Int]);
    assert_eq!(effect.type_params.len(), 1);
    assert_eq!(effect.type_params[0], MirType::Int);
}

#[test]
fn test_effect_row_pure() {
    let row = EffectRow::pure();
    assert!(row.is_pure());
    assert!(row.effects.is_empty());
    assert!(!row.is_open);
}

#[test]
fn test_effect_row_with_effects() {
    let row = EffectRow::new()
        .with_effect(EffectType::new(EffectId(0), "IO".to_string()))
        .with_effect(EffectType::new(EffectId(1), "State".to_string()));

    assert!(!row.is_pure());
    assert_eq!(row.effects.len(), 2);
}

#[test]
fn test_effect_row_open() {
    let row = EffectRow::new().open();
    assert!(!row.is_pure());
    assert!(row.is_open);
}

#[test]
fn test_evidence_slot_static() {
    let slot = EvidenceSlot::Static(5);
    match slot {
        EvidenceSlot::Static(n) => assert_eq!(n, 5),
        _ => panic!("Expected static slot"),
    }
}

#[test]
fn test_evidence_slot_dynamic() {
    let slot = EvidenceSlot::Dynamic(Local(3));
    match slot {
        EvidenceSlot::Dynamic(local) => assert_eq!(local, Local(3)),
        _ => panic!("Expected dynamic slot"),
    }
}

#[test]
fn test_evidence_layout() {
    let mut layout = EvidenceLayout::new();
    assert_eq!(layout.size, 0);

    let slot1 = layout.add_effect(EffectId(0));
    assert_eq!(slot1, 0);
    assert_eq!(layout.size, 1);

    let slot2 = layout.add_effect(EffectId(1));
    assert_eq!(slot2, 1);
    assert_eq!(layout.size, 2);

    let slot1_again = layout.add_effect(EffectId(0));
    assert_eq!(slot1_again, 0);
    assert_eq!(layout.size, 2);
}

#[test]
fn test_mir_function_with_effects() {
    let mut func = MirFunction::new("effectful".to_string(), MirType::Int, Span::dummy());

    assert!(func.is_pure());
    assert!(!func.has_evidence());

    let state_effect = EffectType::new(EffectId(0), "State".to_string());
    func.set_effect_row(EffectRow::new().with_effect(state_effect.clone()));
    assert!(!func.is_pure());

    let ev_local = func.add_evidence_param(state_effect.clone(), true);
    assert!(func.has_evidence());
    assert_eq!(func.evidence_params.len(), 1);
    assert_eq!(func.evidence_params[0].local, ev_local);
    assert!(func.evidence_params[0].is_static);
    assert_eq!(func.locals[ev_local.0 as usize].name, Some("_ev_State".to_string()));

    assert_eq!(func.evidence_layout.size, 1);
    let slot = func.evidence_slot_for(EffectId(0));
    assert!(slot.is_some());
    match slot.unwrap() {
        EvidenceSlot::Static(0) => {}
        _ => panic!("Expected static slot 0"),
    }
}

#[test]
fn test_mir_function_effect_statements() {
    let mut func = MirFunction::new("test".to_string(), MirType::Unit, Span::dummy());
    let block = func.new_block();

    func.block_mut(block).push_stmt(Statement { kind: StatementKind::Nop, span: Span::dummy() });

    let effect_stmt = EffectStatementKind::PerformEffect {
        effect: EffectType::new(EffectId(0), "State".to_string()),
        operation: OperationId(0),
        args: vec![],
        evidence_slot: EvidenceSlot::Static(0),
        dest: Place::from_local(Local(1)),
        classification: EffectClassification::TailResumptive,
    };
    func.add_effect_statement(block, 1, effect_stmt);

    func.block_mut(block).push_stmt(Statement { kind: StatementKind::Nop, span: Span::dummy() });

    assert!(func.effect_statement(block, 0).is_none());
    assert!(func.effect_statement(block, 1).is_some());
    assert!(func.effect_statement(block, 2).is_none());
}

#[test]
fn test_mir_function_effect_terminators() {
    let mut func = MirFunction::new("test".to_string(), MirType::Unit, Span::dummy());
    let block1 = func.new_block();
    let block2 = func.new_block();

    func.block_mut(block1).set_terminator(Terminator { kind: TerminatorKind::Return, span: Span::dummy() });

    let effect_term = EffectTerminatorKind::Resume {
        continuation: Operand::Copy(Place::from_local(Local(1))),
        value: Operand::const_int(42),
        target: block1,
    };
    func.set_effect_terminator(block2, effect_term);

    assert!(func.effect_terminator(block1).is_none());
    assert!(func.effect_terminator(block2).is_some());
}

#[test]
fn test_handler_block_creation() {
    let hb = HandlerBlock {
        block_id: BlockId(5),
        effect: EffectType::new(EffectId(0), "State".to_string()),
        operation: OperationId(0),
        params: vec![Local(1), Local(2)],
        continuation: Some(Local(3)),
        resume_block: Some(BlockId(6)),
    };

    assert_eq!(hb.block_id, BlockId(5));
    assert_eq!(hb.params.len(), 2);
    assert!(hb.continuation.is_some());
    assert!(hb.resume_block.is_some());
}

#[test]
fn test_effect_classification_default() {
    let classification = EffectClassification::default();
    assert_eq!(classification, EffectClassification::General);
}

#[test]
fn test_mir_effect_definition() {
    let mut effect = MirEffect::new(EffectId(0), "State".to_string(), Span::dummy());
    effect.type_params.push("T".to_string());

    let get_id = effect.add_operation(EffectOperation {
        id: OperationId(0),
        name: "get".to_string(),
        params: vec![],
        return_ty: MirType::Int,
    });
    assert_eq!(get_id, OperationId(0));

    let set_id = effect.add_operation(EffectOperation {
        id: OperationId(1),
        name: "set".to_string(),
        params: vec![MirType::Int],
        return_ty: MirType::Unit,
    });
    assert_eq!(set_id, OperationId(1));

    assert_eq!(effect.operations.len(), 2);
    assert_eq!(effect.operation(OperationId(0)).unwrap().name.as_str(), "get");
    assert_eq!(effect.operation(OperationId(1)).unwrap().name.as_str(), "set");
    assert!(effect.operation(OperationId(2)).is_none());
}

#[test]
fn test_mir_handler_definition() {
    let effect_type = EffectType::new(EffectId(0), "State".to_string());
    let mut handler = MirHandler::new(HandlerId(0), effect_type, Span::dummy());

    assert!(handler.is_tail_resumptive);

    handler.operation_blocks.push(BlockId(1));
    handler.operation_blocks.push(BlockId(2));
    handler.return_block = Some(BlockId(3));

    assert_eq!(handler.operation_blocks.len(), 2);
    assert_eq!(handler.return_block, Some(BlockId(3)));
}

#[test]
fn test_type_has_type_vars() {
    assert!(!MirType::Int.has_type_vars());
    assert!(!MirType::Array(Box::new(MirType::Int)).has_type_vars());

    assert!(MirType::TypeVar(TypeVarId(0)).has_type_vars());
    assert!(MirType::Array(Box::new(MirType::TypeVar(TypeVarId(0)))).has_type_vars());
    assert!(MirType::TypeParam("T".to_string()).has_type_vars());
}

#[test]
fn test_type_substitution() {
    let param_type = MirType::TypeParam("T".to_string());
    let array_of_t = MirType::Array(Box::new(param_type.clone()));

    let substitutions = vec![("T".to_string(), MirType::Int)];

    let substituted = array_of_t.substitute(&substitutions);
    assert_eq!(substituted, MirType::Array(Box::new(MirType::Int)));
}

#[test]
fn test_mir_type_is_copy_primitives() {
    assert!(MirType::Int.is_copy());
    assert!(MirType::Int8.is_copy());
    assert!(MirType::Int16.is_copy());
    assert!(MirType::Int32.is_copy());
    assert!(MirType::Int64.is_copy());
    assert!(MirType::UInt.is_copy());
    assert!(MirType::UInt8.is_copy());
    assert!(MirType::UInt16.is_copy());
    assert!(MirType::UInt32.is_copy());
    assert!(MirType::UInt64.is_copy());
    assert!(MirType::Float.is_copy());
    assert!(MirType::Float32.is_copy());
    assert!(MirType::Float64.is_copy());
    assert!(MirType::Bool.is_copy());
    assert!(MirType::Char.is_copy());
    assert!(MirType::Unit.is_copy());
    assert!(MirType::Never.is_copy());
    assert!(!MirType::String.is_copy());
}

#[test]
fn test_mir_type_is_copy_compound() {
    assert!(!MirType::Array(Box::new(MirType::Int)).is_copy());
    assert!(!MirType::MapOf(Box::new(MirType::String), Box::new(MirType::Int)).is_copy());
    assert!(MirType::Tuple(vec![MirType::Int, MirType::Bool]).is_copy());
    assert!(!MirType::Tuple(vec![MirType::Int, MirType::String]).is_copy());
    assert!(MirType::Optional(Box::new(MirType::Int)).is_copy());
    assert!(!MirType::Optional(Box::new(MirType::String)).is_copy());
    assert!(MirType::Result(Box::new(MirType::Int), Box::new(MirType::Bool)).is_copy());
    assert!(!MirType::Result(Box::new(MirType::String), Box::new(MirType::Int)).is_copy());
}

#[test]
fn test_mir_type_is_copy_references() {
    assert!(MirType::Ref(Box::new(MirType::Int)).is_copy());
    assert!(MirType::RefMut(Box::new(MirType::Int)).is_copy());
    assert!(MirType::Ref(Box::new(MirType::String)).is_copy());
}

#[test]
fn test_mir_type_is_copy_functions_and_structs() {
    assert!(!MirType::FnPtr { params: vec![MirType::Int], ret: Box::new(MirType::Bool) }.is_copy());
    assert!(!MirType::Closure { params: vec![MirType::Int], ret: Box::new(MirType::Bool) }.is_copy());
    assert!(!MirType::Struct(StructId(0)).is_copy());
    assert!(!MirType::Enum(EnumId(0)).is_copy());
    assert!(!MirType::TypeVar(TypeVarId(0)).is_copy());
    assert!(!MirType::TypeParam("T".to_string()).is_copy());
}

#[test]
fn type_variables_are_collected_once_in_order() {
    let t = MirType::Tuple(vec![
        MirType::TypeVar(TypeVarId(2)),
        MirType::MapOf(Box::new(MirType::TypeVar(TypeVarId(1))), Box::new(MirType::TypeVar(TypeVarId(2)))),
    ]);
    assert_eq!(t.collect_type_vars(), vec![TypeVarId(2), TypeVarId(1)]);
    assert_eq!(TypeVarId::new(7), TypeVarId(7));
}

#[test]
fn substituting_types_retypes_a_cast() {
    let mut stmt = aria_lang::mir::Statement {
        kind: StatementKind::Assign(
            Place::from_local(Local(1)),
            aria_lang::mir::Rvalue::Cast(
                aria_lang::mir::CastKind::IntToInt,
                Operand::Copy(Place::from_local(Local(2))),
                MirType::TypeParam("T".to_string()),
            ),
        ),
        span: Span::dummy(),
    };
    let subs = vec![("T".to_string(), MirType::Int64)];
    aria_lang::mir::substitute_types_in_stmt(&mut stmt, &subs);
    match stmt.kind {
        StatementKind::Assign(_, aria_lang::mir::Rvalue::Cast(_, _, ty)) => assert_eq!(ty, MirType::Int64),
        _ => panic!("the statement changed shape"),
    }
}

#[test]
fn substituting_types_retypes_an_array_aggregate() {
    let mut stmt = aria_lang::mir::Statement {
        kind: StatementKind::Assign(
            Place::from_local(Local(1)),
            aria_lang::mir::Rvalue::Aggregate(
                aria_lang::mir::AggregateKind::Array(MirType::Array(Box::new(MirType::TypeParam("T".to_string())))),
                vec![],
            ),
        ),
        span: Span::dummy(),
    };
    let subs = vec![("T".to_string(), MirType::Bool)];
    aria_lang::mir::substitute_types_in_stmt(&mut stmt, &subs);
    match stmt.kind {
        StatementKind::Assign(_, aria_lang::mir::Rvalue::Aggregate(aria_lang::mir::AggregateKind::Array(ty), _)) => {
            assert_eq!(ty, MirType::Array(Box::new(MirType::Bool)))
        }
        _ => panic!("the statement changed shape"),
    }
}

#[test]
fn substituting_types_keeps_a_terminator() {
    let mut term = Some(aria_lang::mir::Terminator {
        kind: aria_lang::mir::TerminatorKind::Goto { target: aria_lang::mir::BlockId(3) },
        span: Span::dummy(),
    });
    let subs = vec![("T".to_string(), MirType::Int)];
    aria_lang::mir::substitute_types_in_terminator(&mut term, &subs);
    assert!(matches!(term, Some(aria_lang::mir::Terminator { kind: aria_lang::mir::TerminatorKind::Goto { target: aria_lang::mir::BlockId(3) }, .. })));
}
