use omega::annotations::Layout;
use omega::checked::{CastKind, NumberValue};
use omega::codegen::constants::{ConstBlob, ConstPool, DataKey, Reloc};
use omega::codegen::llvm::blob::{materialize_blob, Initializer, Piece};
use omega::codegen::llvm::function::{llvm_function_type, ParameterHome, ResultType};
use omega::codegen::llvm::item::{
    generate, place_data, place_table, Contents, FunctionHomes, Linkage, PlanError, UnitPlan,
};
use omega::codegen::llvm::{offset_align, power_of_two, Op, Operand, SlotUse, Value, ValueType};
use omega::codegen::mir::{
    BlockId, EmissionUnit, LocalId, MirAsmOperand, MirAsmOperandKind, MirAssignment, MirBinaryOp,
    MirBlock, MirBody, MirCast, MirDeclaration, MirEnumConstruct, MirExpr, MirExprNode,
    MirFieldValue, MirForeignBinding, MirFunctionBody, MirFunctionCall, MirFunctionDef,
    MirInlineAsm, MirItem, MirLinkage, MirLocal, MirPlace, MirPlaceRoot, MirProjection,
    MirTerminator,
};
use omega::hir::{HirId, ModuleId};
use omega::resolved_type::{
    CallingConvention, ConstValue, ResolvedEnumType, ResolvedEnumVariant, ResolvedField,
    ResolvedFunctionParam, ResolvedFunctionType, ResolvedStructType, ResolvedType,
};
use omega::syntax::{BinaryOp, Ident, Visibility};
use omega::target::{Arch, Os, Target};
use std::rc::Rc;

fn id(local: u32) -> HirId {
    HirId {
        module: ModuleId(0),
        local,
    }
}

fn linux() -> Target {
    Target {
        arch: Arch::X86_64,
        os: Os::Linux,
    }
}

fn fn_type(params: Vec<ResolvedType>, ret: ResolvedType) -> Rc<ResolvedFunctionType> {
    Rc::new(ResolvedFunctionType {
        params: params
            .into_iter()
            .map(ResolvedFunctionParam::anonymous)
            .collect(),
        return_type: Rc::new(ret),
        is_variadic: false,
        self_mode: None,
        calling_convention: CallingConvention::Omega,
    })
}

fn node(kind: MirExpr, ty: ResolvedType) -> MirExprNode {
    MirExprNode { kind, ty }
}

fn local(index: u32, ty: ResolvedType) -> MirPlace {
    place(MirPlaceRoot::Local { id: LocalId(index), ty }, vec![])
}

fn place(root: MirPlaceRoot, projections: Vec<MirProjection>) -> MirPlace {
    MirPlace {
        root,
        projections,
        align: 1,
    }
}

fn read(index: u32, ty: ResolvedType) -> MirExprNode {
    node(MirExpr::Place(local(index, ty.clone())), ty)
}

fn number(value: i64, ty: ResolvedType) -> MirExprNode {
    node(MirExpr::Number(NumberValue::Signed(value)), ty)
}

fn block(statements: Vec<MirExprNode>, terminator: MirTerminator) -> MirBlock {
    MirBlock {
        statements,
        terminator,
    }
}

fn function(
    local: u32,
    symbol: &str,
    fn_type: Rc<ResolvedFunctionType>,
    locals: Vec<ResolvedType>,
    blocks: Vec<MirBlock>,
) -> MirItem {
    MirItem::FunctionDefinition(MirFunctionDef {
        id: id(local),
        symbol: symbol.to_string(),
        linkage: MirLinkage::Export,
        body: MirFunctionBody::Normal(MirBody {
            arg_count: fn_type.params.len(),
            locals: locals.into_iter().map(|ty| MirLocal { ty }).collect(),
            blocks,
        }),
        fn_type,
    })
}

fn unit(items: Vec<MirItem>) -> EmissionUnit {
    EmissionUnit {
        source: "main.omg".to_string(),
        items,
    }
}

fn plan_for(target: Target, items: Vec<MirItem>, homes: Vec<FunctionHomes>) -> UnitPlan {
    generate(target, &vec![unit(items)], &vec![], &homes)
        .expect("a well-formed compilation")
        .pop()
        .unwrap()
}

fn plan(items: Vec<MirItem>) -> UnitPlan {
    plan_for(linux(), items, vec![])
}

/// The steps of a body, with `%n` for what step `n` defined.
fn ops(plan: &UnitPlan, body: usize) -> Vec<String> {
    plan.bodies[body]
        .steps
        .iter()
        .map(|step| match step.ty {
            Some(ty) => format!("{:?}: {:?}", step.op, ty),
            None => format!("{:?}", step.op),
        })
        .collect()
}

fn value(ty: &str, operand: &str) -> String {
    format!("Value {{ ty: {ty}, operand: {operand} }}")
}

fn returning(value: MirExprNode, locals: Vec<ResolvedType>) -> (UnitPlan, Vec<String>) {
    let ty = value.ty.clone();
    let made = plan(vec![function(
        1,
        "f",
        fn_type(vec![], ty),
        locals,
        vec![block(vec![], MirTerminator::Return(Some(value)))],
    )]);
    let steps = ops(&made, 0);
    (made, steps)
}

fn field(name: &str, ty: ResolvedType) -> ResolvedField {
    ResolvedField::new(Ident::new(name), ty, Visibility::Exposed)
}

fn structure(fields: Vec<ResolvedField>) -> ResolvedType {
    ResolvedType::Struct(Rc::new(ResolvedStructType {
        id: id(100),
        name: Ident::new("S"),
        module: vec![],
        generic_args: vec![],
        fields,
        functions: vec![],
        layout: Default::default(),
        suppress: vec![],
        is_marker: false,
    }))
}

fn option_type() -> ResolvedType {
    ResolvedType::Enum {
        cell: Rc::new(ResolvedEnumType {
            id: id(101),
            name: Ident::new("Option"),
            module: vec![],
            generic_args: vec![],
            tag_type: ResolvedType::U8,
            header: vec![],
            dynamic_fields: vec![],
            variants: vec![
                ResolvedEnumVariant {
                    name: Ident::new("None"),
                    tag: NumberValue::Unsigned(0),
                    header_values: Rc::new(vec![]),
                    fields: vec![],
                },
                ResolvedEnumVariant {
                    name: Ident::new("Some"),
                    tag: NumberValue::Unsigned(1),
                    header_values: Rc::new(vec![]),
                    fields: vec![field("value", ResolvedType::I32)],
                },
            ],
            functions: vec![],
            layout: Default::default(),
            suppress: vec![],
        }),
        variant: None,
    }
}


#[test]
fn parameters_and_constants_need_no_instruction() {
    let sum = node(
        MirExpr::BinaryOp(MirBinaryOp {
            op: BinaryOp::Add,
            left: Box::new(read(0, ResolvedType::I32)),
            right: Box::new(number(3, ResolvedType::I32)),
        }),
        ResolvedType::I32,
    );
    let made = plan(vec![function(
        1,
        "sum",
        fn_type(vec![ResolvedType::I32], ResolvedType::I32),
        vec![ResolvedType::I32],
        vec![block(vec![], MirTerminator::Return(Some(sum)))],
    )]);
    assert_eq!(
        ops(&made, 0),
        [
            "Enter(0)".to_string(),
            format!(
                "Binary {{ op: IntAdd, left: {}, right: {} }}: I32",
                value("I32", "Param(0)"),
                value("I32", "Int(3)")
            ),
            format!("Pass({})", value("I32", "Step(1)")),
            "Return { count: 1 }".to_string(),
        ]
    );
    assert_eq!(made.bodies[0].slots.len(), 1);
    assert_eq!(made.bodies[0].slots[0].size, 1);
    assert_eq!(made.bodies[0].slots[0].align, 16);
    assert_eq!(made.bodies[0].slots[0].purpose, SlotUse::Locals);
}

#[test]
fn a_comparison_becomes_a_byte_and_a_condition_a_bit() {
    let less = node(
        MirExpr::BinaryOp(MirBinaryOp {
            op: BinaryOp::Lt,
            left: Box::new(read(0, ResolvedType::F64)),
            right: Box::new(read(0, ResolvedType::F64)),
        }),
        ResolvedType::Bool,
    );
    let made = plan(vec![function(
        1,
        "f",
        fn_type(vec![ResolvedType::F64], ResolvedType::Void),
        vec![ResolvedType::F64],
        vec![
            block(
                vec![],
                MirTerminator::Branch {
                    condition: less,
                    then_block: BlockId(1),
                    else_block: BlockId(1),
                },
            ),
            block(vec![], MirTerminator::Return(None)),
        ],
    )]);
    let param = value("F64", "Param(0)");
    assert_eq!(
        ops(&made, 0)[1..5],
        [
            format!("FloatCompare {{ predicate: OLT, left: {param}, right: {param} }}: I1"),
            format!("Convert {{ op: ZeroExtend, value: {} }}: I8", value("I1", "Step(1)")),
            format!(
                "IntCompare {{ predicate: NE, left: {}, right: {} }}: I1",
                value("I8", "Step(2)"),
                value("I8", "Int(0)")
            ),
            format!(
                "ConditionalBranch {{ condition: {}, then_block: 1, else_block: 1 }}",
                value("I1", "Step(3)")
            ),
        ]
    );
}

#[test]
fn bitwise_operations_on_floats_are_no_program() {
    let float = || {
        node(
            MirExpr::Number(NumberValue::Float(1.0f64.to_bits())),
            ResolvedType::F64,
        )
    };
    let items = vec![function(
        1,
        "f",
        fn_type(vec![], ResolvedType::F64),
        vec![],
        vec![block(
            vec![],
            MirTerminator::Return(Some(node(
                MirExpr::BinaryOp(MirBinaryOp {
                    op: BinaryOp::BitAnd,
                    left: Box::new(float()),
                    right: Box::new(float()),
                }),
                ResolvedType::F64,
            ))),
        )],
    )];
    assert!(matches!(
        generate(linux(), &vec![unit(items)], &vec![], &vec![]),
        Err(PlanError::Malformed)
    ));
}

#[test]
fn known_alignment_shrinks_with_the_offset() {
    assert_eq!(offset_align(16, 0), 16);
    assert_eq!(offset_align(16, 4), 4);
    assert_eq!(offset_align(16, 24), 8);
    assert_eq!(offset_align(16, 32), 16);
    assert_eq!(offset_align(2, 12), 2);
    assert_eq!(offset_align(0, 0), 1);
    assert_eq!(offset_align(8, 3), 1);
    assert_eq!(power_of_two(0), 1);
    assert_eq!(power_of_two(31), 0x8000_0000);
}

#[test]
fn assignments_use_the_alignment_of_their_place() {
    let pair = structure(vec![field("a", ResolvedType::I32), field("b", ResolvedType::I32)]);
    let mut target = local(0, pair.clone());
    target.align = 8;
    let literal = node(
        MirExpr::StructLiteral(vec![
            MirFieldValue {
                field_index: 0,
                value: number(1, ResolvedType::I32),
            },
            MirFieldValue {
                field_index: 1,
                value: number(2, ResolvedType::I32),
            },
        ]),
        pair.clone(),
    );
    let made = plan(vec![function(
        1,
        "f",
        fn_type(vec![], ResolvedType::Void),
        vec![pair.clone()],
        vec![block(
            vec![node(
                MirExpr::Assignment(MirAssignment {
                    target,
                    value: Box::new(literal),
                }),
                pair,
            )],
            MirTerminator::Return(None),
        )],
    )]);
    let frame = value("Ptr", "Slot(0)");
    assert_eq!(
        ops(&made, 0)[1..5],
        [
            format!("Gep {{ base: {frame}, offset: {} }}: Ptr", value("I64", "Int(0)")),
            format!(
                "Store {{ value: {}, pointer: {}, align: 8 }}",
                value("I32", "Int(1)"),
                value("Ptr", "Step(1)")
            ),
            format!("Gep {{ base: {frame}, offset: {} }}: Ptr", value("I64", "Int(4)")),
            format!(
                "Store {{ value: {}, pointer: {}, align: 4 }}",
                value("I32", "Int(2)"),
                value("Ptr", "Step(3)")
            ),
        ]
    );
}

#[test]
fn pointers_take_part_in_arithmetic_as_integers() {
    let pointer = ResolvedType::Pointer {
        pointee: Rc::new(ResolvedType::U8),
        mutable: false,
    };
    let cast = node(
        MirExpr::Cast(MirCast {
            kind: CastKind::IntTruncate,
            target_type: ResolvedType::U32,
            base: Box::new(read(0, pointer.clone())),
        }),
        ResolvedType::U32,
    );
    let made = plan(vec![function(
        1,
        "f",
        fn_type(vec![pointer.clone()], ResolvedType::U32),
        vec![pointer],
        vec![block(vec![], MirTerminator::Return(Some(cast)))],
    )]);
    assert_eq!(
        ops(&made, 0)[1..3],
        [
            format!("Convert {{ op: PtrToInt, value: {} }}: I64", value("Ptr", "Param(0)")),
            format!("Convert {{ op: Truncate, value: {} }}: I32", value("I64", "Step(1)")),
        ]
    );
}

#[test]
fn results_come_back_whole_apart_or_through_memory() {
    let scalar = llvm_function_type(linux(), &fn_type(vec![], ResolvedType::I32));
    assert!(matches!(scalar.result, ResultType::Single(ValueType::I32)));
    let text = llvm_function_type(
        linux(),
        &fn_type(vec![], ResolvedType::Str { mutable: false }),
    );
    assert!(
        matches!(&text.result, ResultType::Aggregate(types) if *types == vec![ValueType::Ptr, ValueType::I32])
    );
    let array = ResolvedType::SizedArray(Rc::new(ResolvedType::I64), 3);
    let large = llvm_function_type(linux(), &fn_type(vec![ResolvedType::USize], array));
    assert!(matches!(large.result, ResultType::Void));
    assert_eq!(large.params, [ValueType::Ptr, ValueType::I64]);
    let avr = Target {
        arch: Arch::Avr,
        os: Os::Freestanding,
    };
    let small = llvm_function_type(avr, &fn_type(vec![ResolvedType::USize], ResolvedType::Void));
    assert_eq!(small.params, [ValueType::I16]);
}

fn call_of(convention: CallingConvention, args: Vec<MirExprNode>) -> Vec<String> {
    let callee = Rc::new(ResolvedFunctionType {
        params: vec![],
        return_type: Rc::new(ResolvedType::Str { mutable: false }),
        is_variadic: true,
        self_mode: None,
        calling_convention: convention,
    });
    let call = node(
        MirExpr::FunctionCall(MirFunctionCall {
            callee: Box::new(node(
                MirExpr::Place(place(MirPlaceRoot::Function(id(9)), vec![])),
                ResolvedType::Function(callee.clone()),
            )),
            fn_type: callee.clone(),
            args,
        }),
        ResolvedType::Str { mutable: false },
    );
    let made = plan(vec![
        MirItem::ForeignBinding(MirForeignBinding {
            id: id(9),
            symbol: "other".to_string(),
            ty: ResolvedType::Function(callee),
        }),
        function(
            1,
            "f",
            fn_type(vec![], ResolvedType::Void),
            vec![],
            vec![block(vec![call], MirTerminator::Return(None))],
        ),
    ]);
    ops(&made, 0)
}

#[test]
fn only_c_promotes_variadic_arguments() {
    let c = call_of(CallingConvention::C, vec![number(1, ResolvedType::I16)]);
    assert_eq!(
        c[1],
        format!("Convert {{ op: SignExtend, value: {} }}: I32", value("I16", "Int(1)"))
    );
    assert_eq!(c[2], format!("Pass({})", value("I32", "Step(1)")));
    assert!(c[3].contains("convention: Some(C), count: 1"));
    assert_eq!(c[4], "ExtractValue { call: 3, index: 0 }: Ptr");
    assert_eq!(c[5], "ExtractValue { call: 3, index: 1 }: I32");

    let sysv = call_of(CallingConvention::SysV64, vec![number(1, ResolvedType::I16)]);
    assert_eq!(sysv[1], format!("Pass({})", value("I16", "Int(1)")));
}

#[test]
fn a_variant_is_built_in_memory() {
    let construct = node(
        MirExpr::EnumConstruct(MirEnumConstruct {
            variant_index: 1,
            fields: vec![MirFieldValue {
                field_index: 0,
                value: number(5, ResolvedType::I32),
            }],
        }),
        option_type(),
    );
    let (made, steps) = returning(construct, vec![]);
    assert_eq!(made.bodies[0].slots[1].purpose, SlotUse::Enum);
    assert_eq!(made.bodies[0].slots[1].size, 5);
    // The tag, the cleared payload, the field, and the two leaves.
    assert_eq!(steps.len(), 1 + 2 + 2 + 2 + 4 + 3);
    assert!(steps[2].contains(&value("I8", "Int(1)")));
    assert!(steps[4].contains(&value("I32", "Int(0)")));
    assert!(steps[6].contains(&value("I32", "Int(5)")));
}

#[test]
fn parameters_that_live_in_memory_are_stored_on_entry() {
    let homes = vec![FunctionHomes {
        id: id(1),
        homes: vec![ParameterHome::Ssa, ParameterHome::Memory],
    }];
    let made = plan_for(
        linux(),
        vec![function(
            1,
            "f",
            fn_type(vec![ResolvedType::I32, ResolvedType::I64], ResolvedType::Void),
            vec![ResolvedType::I32, ResolvedType::I64],
            vec![block(vec![], MirTerminator::Return(None))],
        )],
        homes,
    );
    assert_eq!(made.bodies[0].slots[1].purpose, SlotUse::Param);
    let steps = ops(&made, 0);
    assert!(steps[1].starts_with(&format!("Store {{ value: {}", value("I64", "Param(1)"))));
    assert_eq!(steps[2], "Enter(0)");
}

#[test]
fn machine_code_names_its_operands_and_constraints() {
    let code = MirInlineAsm {
        template: "mov $dst, $1 ; $$ $limit".to_string(),
        operands: vec![
            MirAsmOperand {
                kind: MirAsmOperandKind::Reg {
                    value: read(0, ResolvedType::I64),
                    physical: None,
                },
                binding_name: Some(Ident::new("dst")),
            },
            MirAsmOperand {
                kind: MirAsmOperandKind::Reg {
                    value: number(4, ResolvedType::I64),
                    physical: Some("rax".to_string()),
                },
                binding_name: None,
            },
            MirAsmOperand {
                kind: MirAsmOperandKind::Comp {
                    text: "42".to_string(),
                },
                binding_name: Some(Ident::new("limit")),
            },
        ],
        clobbers: vec!["rcx".to_string()],
    };
    let made = plan(vec![function(
        1,
        "f",
        fn_type(vec![ResolvedType::I64], ResolvedType::Void),
        vec![ResolvedType::I64],
        vec![block(
            vec![node(MirExpr::InlineAsm(code), ResolvedType::Void)],
            MirTerminator::Return(None),
        )],
    )]);
    let statement = &made.bodies[0].statements[0];
    assert_eq!(statement.text, "mov $0, $1 ; $$ 42");
    assert_eq!(
        statement.constraints,
        "+&r,+&{rax},~{rcx},~{dirflag},~{fpsr},~{flags},~{memory}"
    );
    assert!(statement.intel);
    assert_eq!(
        ops(&made, 0)[1..4],
        [
            format!("Pass({})", value("I64", "Param(0)")),
            format!("Pass({})", value("I64", "Int(4)")),
            "InlineCode { statement: 0, count: 2 }".to_string(),
        ]
    );
}

#[test]
fn a_naked_function_is_its_code() {
    let made = plan(vec![MirItem::FunctionDefinition(MirFunctionDef {
        id: id(1),
        symbol: "start".to_string(),
        linkage: MirLinkage::Weak,
        fn_type: fn_type(vec![], ResolvedType::Void),
        body: MirFunctionBody::Naked(MirInlineAsm {
            template: "ret".to_string(),
            operands: vec![],
            clobbers: vec![],
        }),
    })]);
    assert_eq!(
        ops(&made, 0),
        ["Enter(0)", "InlineCode { statement: 0, count: 0 }", "Unreachable"]
    );
    assert!(made.bodies[0].slots.is_empty());
    assert!(made.functions[0].naked);
    assert_eq!(made.functions[0].linkage, Linkage::WeakODR);
    assert_eq!(made.functions[0].section.as_deref(), Some(".text.start"));
}

#[test]
fn the_owner_decides_and_one_symbol_is_one_function() {
    // A gap declares the function that its glue, elsewhere in the unit, defines.
    let gap = MirItem::ForeignBinding(MirForeignBinding {
        id: id(7),
        symbol: "write".to_string(),
        ty: ResolvedType::Function(fn_type(vec![], ResolvedType::Void)),
    });
    let glue = function(
        8,
        "write",
        fn_type(vec![], ResolvedType::Void),
        vec![],
        vec![block(vec![], MirTerminator::Return(None))],
    );
    let mac = Target {
        arch: Arch::Aarch64,
        os: Os::MacOs,
    };
    let made = plan_for(mac, vec![gap, glue], vec![]);
    assert_eq!(made.functions.len(), 1);
    assert_eq!(made.function_index(id(7)), Some(0));
    assert_eq!(made.function_index(id(8)), Some(0));
    assert_eq!(made.function_index(id(9)), None);
    assert!(made.functions[0].section.is_none());
}

#[test]
fn variables_have_storage_only_where_they_are_declared() {
    let declaration = || {
        MirItem::Declaration(MirDeclaration {
            id: id(1),
            symbol: "count".to_string(),
            ty: ResolvedType::I32,
            initial_value: Some(Rc::new(ConstValue::Number(NumberValue::Signed(-2)))),
        })
    };
    let plans = generate(
        linux(),
        &vec![unit(vec![declaration()]), unit(vec![])],
        &vec![],
        &vec![],
    )
    .unwrap();
    assert_eq!(plans.len(), 2);
    let owner = &plans[0].globals[0];
    assert!(
        matches!(&owner.contents, Contents::Data(Initializer::Bytes(bytes)) if *bytes == vec![0xfe, 0xff, 0xff, 0xff])
    );
    assert_eq!(owner.section.as_deref(), Some(".data.count"));
    let other = &plans[1].globals[0];
    assert!(matches!(other.contents, Contents::External));
    assert_eq!(other.size, 4);
    assert!(other.section.is_none());
}

#[test]
fn claimed_symbols_collide_across_units() {
    let empty = |local: u32| {
        function(
            local,
            "same",
            fn_type(vec![], ResolvedType::Void),
            vec![],
            vec![block(vec![], MirTerminator::Return(None))],
        )
    };
    let result = generate(
        linux(),
        &vec![unit(vec![empty(1)]), unit(vec![empty(2)])],
        &vec![],
        &vec![],
    );
    assert!(matches!(result, Err(PlanError::Collision(text)) if text.contains("'same'")));
}

#[test]
fn a_blob_is_cut_at_its_addresses() {
    let blob = ConstBlob {
        bytes: (0u8..24).collect(),
        relocs: vec![
            Reloc {
                offset: 12,
                target: 5,
            },
            Reloc {
                offset: 0,
                target: 2,
            },
        ],
    };
    match materialize_blob(&blob, 8) {
        Some(Initializer::Packed(pieces)) => {
            assert_eq!(pieces.len(), 4);
            assert!(matches!(&pieces[0], Piece::Pointer(2)));
            assert!(matches!(&pieces[1], Piece::Bytes(bytes) if *bytes == vec![8, 9, 10, 11]));
            assert!(matches!(&pieces[2], Piece::Pointer(5)));
            assert!(matches!(&pieces[3], Piece::Bytes(bytes) if *bytes == vec![20, 21, 22, 23]));
        }
        other => panic!("not packed: {other:?}"),
    }
    let plain = ConstBlob {
        bytes: vec![],
        relocs: vec![],
    };
    assert!(
        matches!(materialize_blob(&plain, 8), Some(Initializer::Bytes(bytes)) if bytes.is_empty())
    );
    let outside = ConstBlob {
        bytes: vec![1],
        relocs: vec![Reloc {
            offset: 9,
            target: 0,
        }],
    };
    assert!(materialize_blob(&outside, 8).is_none());
}

#[test]
fn projections_reach_into_structs_behind_pointers() {
    let pair = structure(vec![field("a", ResolvedType::U8), field("b", ResolvedType::I32)]);
    let pointer = ResolvedType::Pointer {
        pointee: Rc::new(pair.clone()),
        mutable: false,
    };
    let read = node(
        MirExpr::Place(place(
            MirPlaceRoot::Local {
                id: LocalId(0),
                ty: pointer.clone(),
            },
            vec![
                MirProjection::Deref { ty: pair },
                MirProjection::FieldAccess {
                    index: 1,
                    ty: ResolvedType::I32,
                },
            ],
        )),
        ResolvedType::I32,
    );
    let made = plan(vec![function(
        1,
        "f",
        fn_type(vec![pointer.clone()], ResolvedType::I32),
        vec![pointer],
        vec![block(vec![], MirTerminator::Return(Some(read)))],
    )]);
    assert_eq!(
        ops(&made, 0)[1..3],
        [
            format!(
                "Gep {{ base: {}, offset: {} }}: Ptr",
                value("Ptr", "Param(0)"),
                value("I64", "Int(1)")
            ),
            format!("Load {{ pointer: {}, align: 1 }}: I32", value("Ptr", "Step(1)")),
        ]
    );
}

#[test]
fn equal_strings_share_their_data() {
    let text = |s: &str| node(MirExpr::Str(s.to_string()), ResolvedType::Str { mutable: false });
    let made = plan(vec![function(
        1,
        "f",
        fn_type(vec![], ResolvedType::Void),
        vec![],
        vec![block(
            vec![text("a"), text("b"), text("a")],
            MirTerminator::Return(None),
        )],
    )]);
    assert_eq!(made.pool.objects.len(), 2);
    assert!(ConstPool::new().objects.is_empty());
}

#[test]
fn values_are_used_with_the_types_they_were_defined_with() {
    let array = ResolvedType::SizedArray(Rc::new(ResolvedType::I32), 4);
    let element = node(
        MirExpr::Place(place(
            MirPlaceRoot::Local {
                id: LocalId(1),
                ty: array.clone(),
            },
            vec![MirProjection::Index {
                index_expr: Box::new(read(0, ResolvedType::I32)),
                item_type: ResolvedType::I32,
            }],
        )),
        ResolvedType::I32,
    );
    let text = node(
        MirExpr::Str("hi".to_string()),
        ResolvedType::Str { mutable: false },
    );
    let made = plan(vec![function(
        1,
        "f",
        fn_type(vec![ResolvedType::I32], ResolvedType::I32),
        vec![ResolvedType::I32, array],
        vec![block(vec![text], MirTerminator::Return(Some(element)))],
    )]);
    let body = &made.bodies[0];
    assert_eq!(body.function, 0);
    assert_eq!(made.pool.objects.len(), 1);
    let mut uses = 0;
    for (position, step) in body.steps.iter().enumerate() {
        let used: Vec<Value> = match &step.op {
            Op::Gep { base, offset } => {
                assert_eq!(base.ty, ValueType::Ptr);
                vec![*base, *offset]
            }
            Op::Load { pointer, .. } => {
                assert_eq!(pointer.ty, ValueType::Ptr);
                vec![*pointer]
            }
            Op::Binary { left, right, .. } => vec![*left, *right],
            Op::Convert { value, .. } => vec![*value],
            Op::Pass(value) => vec![*value],
            _ => vec![],
        };
        for value in used {
            match value.operand {
                Operand::Step(index) => {
                    assert!(index < position);
                    assert_eq!(body.steps[index].ty, Some(value.ty));
                    uses += 1;
                }
                Operand::Param(index) => {
                    assert_eq!(index, 0);
                    assert_eq!(value.ty, ValueType::I32);
                }
                Operand::Slot(index) => assert!(index < body.slots.len()),
                _ => {}
            }
        }
    }
    assert_eq!(uses, 6);
}

#[test]
fn each_block_is_entered_once_and_ends_once() {
    let made = plan(vec![function(
        1,
        "f",
        fn_type(vec![ResolvedType::I32], ResolvedType::Void),
        vec![ResolvedType::I32],
        vec![
            block(
                vec![read(0, ResolvedType::I32)],
                MirTerminator::Goto(BlockId(2)),
            ),
            block(vec![], MirTerminator::Unreachable),
            block(vec![], MirTerminator::Return(None)),
        ],
    )]);
    let marks: Vec<String> = made.bodies[0]
        .steps
        .iter()
        .filter(|step| {
            matches!(
                step.op,
                Op::Enter(_) | Op::Branch(_) | Op::Return { .. } | Op::Unreachable
            )
        })
        .map(|step| format!("{:?}", step.op))
        .collect();
    assert_eq!(
        marks,
        [
            "Enter(0)",
            "Branch(2)",
            "Enter(1)",
            "Unreachable",
            "Enter(2)",
            "Return { count: 0 }",
        ]
    );
}

/// An enum with a tag of one byte and a header field that is aligned to 16.
fn headed_type() -> ResolvedType {
    let wide = ResolvedType::Struct(Rc::new(ResolvedStructType {
        id: id(110),
        name: Ident::new("Wide"),
        module: vec![],
        generic_args: vec![],
        fields: vec![field("low", ResolvedType::U16)],
        functions: vec![],
        layout: Layout { pack: 1, align: 16 },
        suppress: vec![],
        is_marker: false,
    }));
    ResolvedType::Enum {
        cell: Rc::new(ResolvedEnumType {
            id: id(111),
            name: Ident::new("Headed"),
            module: vec![],
            generic_args: vec![],
            tag_type: ResolvedType::U8,
            header: vec![field("wide", wide)],
            dynamic_fields: vec![],
            variants: vec![ResolvedEnumVariant {
                name: Ident::new("Only"),
                tag: NumberValue::Unsigned(3),
                header_values: Rc::new(vec![ConstValue::Struct(vec![ConstValue::Number(
                    NumberValue::Unsigned(0x0201),
                )])]),
                fields: vec![],
            }],
            functions: vec![],
            layout: Default::default(),
            suppress: vec![],
        }),
        variant: None,
    }
}

fn headed_value() -> ConstValue {
    ConstValue::Enum {
        variant_index: 0,
        tag: NumberValue::Unsigned(3),
        header: vec![],
        dynamic_fields: vec![],
        fields: vec![],
    }
}

fn read_header() -> MirExprNode {
    let ResolvedType::Enum { cell, .. } = headed_type() else {
        panic!("an enum");
    };
    let wide = cell.header[0].ty.clone();
    node(
        MirExpr::Place(place(
            MirPlaceRoot::Global {
                id: id(9),
                ty: headed_type(),
            },
            vec![
                MirProjection::EnumHeader { index: 0, ty: wide },
                MirProjection::FieldAccess {
                    index: 0,
                    ty: ResolvedType::U16,
                },
            ],
        )),
        ResolvedType::U16,
    )
}

#[test]
fn a_header_is_stored_where_it_is_loaded() {
    let made = plan(vec![
        MirItem::Declaration(MirDeclaration {
            id: id(9),
            symbol: "headed".to_string(),
            ty: headed_type(),
            initial_value: Some(Rc::new(headed_value())),
        }),
        function(
            1,
            "f",
            fn_type(vec![], ResolvedType::U16),
            vec![],
            vec![block(
                vec![node(MirExpr::Const(Rc::new(headed_value())), headed_type())],
                MirTerminator::Return(Some(read_header())),
            )],
        ),
    ]);
    match &made.globals[0].contents {
        Contents::Data(Initializer::Bytes(bytes)) => {
            assert_eq!(bytes.len(), 32);
            assert_eq!((bytes[0], bytes[1], bytes[16], bytes[17]), (3, 0, 1, 2));
        }
        other => panic!("not bytes: {other:?}"),
    }
    let steps = &made.bodies[0].steps;
    let mut stored = vec![];
    let mut loaded = vec![];
    for step in steps {
        let pointer = match &step.op {
            Op::Store { pointer, .. } => pointer,
            Op::Load { pointer, .. } => pointer,
            _ => continue,
        };
        let Operand::Step(at) = pointer.operand else {
            panic!("no computed address");
        };
        let Op::Gep { offset, .. } = &steps[at].op else {
            panic!("no address");
        };
        let Operand::Int(along) = offset.operand else {
            panic!("no constant offset");
        };
        match &step.op {
            Op::Store { .. } => stored.push(along),
            _ => loaded.push(along),
        }
    }
    assert_eq!(stored, [0, 16]);
    assert_eq!(loaded.last(), Some(&16));
}

#[test]
fn constant_data_is_read_only_and_may_be_repeated() {
    let macos = Target {
        arch: Arch::Aarch64,
        os: Os::MacOs,
    };
    let symbol = "data".to_string();
    let text = place_data(linux(), &DataKey::Text(vec![1]), &symbol);
    assert_eq!(text.linkage, Linkage::WeakODR);
    assert_eq!(text.section.as_deref(), Some(".rodata.data"));
    assert_eq!(text.align, None);
    let blob = place_data(macos, &DataKey::Blob(vec![1]), &symbol);
    assert_eq!(blob.section, None);
    assert_eq!(blob.align, Some(1));
    let table = place_table(linux(), &symbol);
    assert_eq!(table.linkage, Linkage::WeakODR);
    assert_eq!(table.section.as_deref(), Some(".rodata.data"));
    assert_eq!(table.align, Some(8));
}
