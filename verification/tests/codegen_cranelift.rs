use cranelift_module::Init;
use omega::annotations::Layout;
use omega::checked::{CastKind, NumberValue};
use omega::codegen::constants::{build_const_blob, ConstPool, DataKey};
use omega::codegen::cranelift::data::{describe_blob, describe_table, describe_zeros};
use omega::codegen::cranelift::function::{call_site_signature, make_function_sig};
use omega::codegen::cranelift::item::{Linkage, ModulePlan, PlanError};
use omega::codegen::cranelift::{IrType, Op};
use omega::codegen::mir::{
    BlockId, EmissionUnit, ExternFunctionRef, LocalId, MirAssignment, MirBinaryOp, MirBlock,
    MirBody, MirCast, MirDeclaration, MirEnumConstruct, MirExpr, MirExprNode, MirFieldValue,
    MirForeignBinding, MirFunctionBody, MirFunctionCall, MirFunctionDef, MirInlineAsm, MirItem,
    MirLinkage, MirLocal, MirPlace, MirPlaceRoot, MirProjection, MirSlice, MirSpecCoerce,
    MirTerminator,
};
use omega::hir::{HirId, ModuleId};
use omega::resolved_type::{
    CallingConvention, ConstValue, ResolvedEnumType, ResolvedEnumVariant, ResolvedField,
    ResolvedFunctionParam, ResolvedFunctionType, ResolvedSpecShape, ResolvedStructType,
    ResolvedType,
};
use omega::syntax::{BinaryOp, Ident, Visibility};
use omega::target::{Arch, Os, Target};
use std::rc::Rc;

fn id(local: u32) -> HirId {
    HirId {
        module: ModuleId(0),
        local,
    }
}

fn linux() -> Target {
    Target {
        arch: Arch::X86_64,
        os: Os::Linux,
    }
}

fn fn_type(params: Vec<ResolvedType>, ret: ResolvedType) -> Rc<ResolvedFunctionType> {
    Rc::new(ResolvedFunctionType {
        params: params
            .into_iter()
            .map(ResolvedFunctionParam::anonymous)
            .collect(),
        return_type: Rc::new(ret),
        is_variadic: false,
        self_mode: None,
        calling_convention: CallingConvention::Omega,
    })
}

fn node(kind: MirExpr, ty: ResolvedType) -> MirExprNode {
    MirExprNode { kind, ty }
}

fn local(index: u32, ty: ResolvedType) -> MirPlace {
    place(MirPlaceRoot::Local { id: LocalId(index), ty }, vec![])
}

fn place(root: MirPlaceRoot, projections: Vec<MirProjection>) -> MirPlace {
    MirPlace {
        root,
        projections,
        align: 1,
    }
}

fn read(index: u32, ty: ResolvedType) -> MirExprNode {
    node(MirExpr::Place(local(index, ty.clone())), ty)
}

fn number(value: i64, ty: ResolvedType) -> MirExprNode {
    node(MirExpr::Number(NumberValue::Signed(value)), ty)
}

fn block(statements: Vec<MirExprNode>, terminator: MirTerminator) -> MirBlock {
    MirBlock {
        statements,
        terminator,
    }
}

fn function(
    local: u32,
    symbol: &str,
    fn_type: Rc<ResolvedFunctionType>,
    locals: Vec<ResolvedType>,
    blocks: Vec<MirBlock>,
) -> MirItem {
    MirItem::FunctionDefinition(MirFunctionDef {
        id: id(local),
        symbol: symbol.to_string(),
        linkage: MirLinkage::Export,
        body: MirFunctionBody::Normal(MirBody {
            arg_count: fn_type.params.len(),
            locals: locals.into_iter().map(|ty| MirLocal { ty }).collect(),
            blocks,
        }),
        fn_type,
    })
}

fn unit(items: Vec<MirItem>) -> EmissionUnit {
    EmissionUnit {
        source: "main.omg".to_string(),
        items,
    }
}

fn plan(items: Vec<MirItem>) -> ModulePlan {
    ModulePlan::generate(linux(), &vec![unit(items)], &vec![]).expect("a well-formed compilation")
}

fn ops(plan: &ModulePlan, body: usize) -> Vec<String> {
    plan.bodies[body]
        .steps
        .iter()
        .map(|step| match step.ty {
            Some(ty) => format!("{:?}: {:?}", step.op, ty),
            None => format!("{:?}", step.op),
        })
        .collect()
}

/// The steps of a function without parameters that returns `value`.
fn returning(value: MirExprNode, locals: Vec<ResolvedType>) -> (ModulePlan, Vec<String>) {
    let ty = value.ty.clone();
    let made = plan(vec![function(
        1,
        "f",
        fn_type(vec![], ty),
        locals,
        vec![block(vec![], MirTerminator::Return(Some(value)))],
    )]);
    let steps = ops(&made, 0);
    (made, steps)
}

fn field(name: &str, ty: ResolvedType) -> ResolvedField {
    ResolvedField::new(Ident::new(name), ty, Visibility::Exposed)
}

fn structure(fields: Vec<ResolvedField>) -> ResolvedType {
    ResolvedType::Struct(Rc::new(ResolvedStructType {
        id: id(100),
        name: Ident::new("S"),
        module: vec![],
        generic_args: vec![],
        fields,
        functions: vec![],
        layout: Default::default(),
        suppress: vec![],
        is_marker: false,
    }))
}

#[test]
fn a_sum_of_two_parameters() {
    let sum = node(
        MirExpr::BinaryOp(MirBinaryOp {
            op: BinaryOp::Add,
            left: Box::new(read(0, ResolvedType::I32)),
            right: Box::new(read(1, ResolvedType::I32)),
        }),
        ResolvedType::I32,
    );
    let made = plan(vec![function(
        1,
        "sum",
        fn_type(vec![ResolvedType::I32, ResolvedType::I32], ResolvedType::I32),
        vec![ResolvedType::I32, ResolvedType::I32],
        vec![block(vec![], MirTerminator::Return(Some(sum)))],
    )]);
    assert_eq!(
        ops(&made, 0),
        [
            "Param(0): I32",
            "Param(1): I32",
            "Enter(0)",
            "Binary { op: Iadd, left: 0, right: 1 }: I32",
            "Pass(3)",
            "Return { count: 1 }",
        ]
    );
    assert_eq!(made.bodies[0].slots.len(), 1);
    assert_eq!(made.bodies[0].slots[0].size, 0);
    assert_eq!(made.bodies[0].slots[0].align_shift, 4);
    assert_eq!(made.functions[0].symbol, "sum");
    assert_eq!(made.functions[0].linkage, Linkage::Export);
}

#[test]
fn comparisons_follow_the_signs_of_their_operands() {
    for (ty, expected) in [
        (ResolvedType::I32, "Icmp { cc: SignedLessThan, left: 1, right: 2 }: I8"),
        (ResolvedType::U32, "Icmp { cc: UnsignedLessThan, left: 1, right: 2 }: I8"),
    ] {
        let (_, steps) = returning(
            node(
                MirExpr::BinaryOp(MirBinaryOp {
                    op: BinaryOp::Lt,
                    left: Box::new(number(1, ty.clone())),
                    right: Box::new(number(2, ty)),
                }),
                ResolvedType::Bool,
            ),
            vec![],
        );
        assert_eq!(steps[3], expected);
    }
}

#[test]
fn a_remainder_of_floats_is_no_program() {
    let float = || {
        node(
            MirExpr::Number(NumberValue::Float(1.5f64.to_bits())),
            ResolvedType::F64,
        )
    };
    let remainder = node(
        MirExpr::BinaryOp(MirBinaryOp {
            op: BinaryOp::Rem,
            left: Box::new(float()),
            right: Box::new(float()),
        }),
        ResolvedType::F64,
    );
    let items = vec![function(
        1,
        "f",
        fn_type(vec![], ResolvedType::F64),
        vec![],
        vec![block(vec![], MirTerminator::Return(Some(remainder)))],
    )];
    assert!(matches!(
        ModulePlan::generate(linux(), &vec![unit(items)], &vec![]),
        Err(PlanError::Malformed)
    ));
}

#[test]
fn a_float_is_emitted_in_the_width_of_its_type() {
    let third = 1.0f64 / 3.0;
    let (_, steps) = returning(
        node(
            MirExpr::Number(NumberValue::Float(third.to_bits())),
            ResolvedType::F32,
        ),
        vec![],
    );
    assert_eq!(steps[1], format!("F32Const({}): F32", (third as f32).to_bits()));
}

#[test]
fn unsigned_numbers_keep_their_bits() {
    let (_, steps) = returning(
        node(MirExpr::Number(NumberValue::Unsigned(u64::MAX)), ResolvedType::U64),
        vec![],
    );
    assert_eq!(steps[1], "Iconst(-1): I64");
}

#[test]
fn equal_strings_are_one_piece_of_data() {
    let text = || node(MirExpr::Str("hi".to_string()), ResolvedType::Str { mutable: false });
    let made = plan(vec![function(
        1,
        "f",
        fn_type(vec![], ResolvedType::Void),
        vec![],
        vec![block(vec![text(), text()], MirTerminator::Return(None))],
    )]);
    assert_eq!(made.pool.objects.len(), 1);
    assert_eq!(made.pool.objects[0].blob.bytes, b"hi");
    assert_eq!(
        ops(&made, 0),
        [
            "Enter(0)",
            "Iconst(2): I32",
            "DataAddr(0): I64",
            "Iconst(2): I32",
            "DataAddr(0): I64",
            "Return { count: 0 }",
        ]
    );
}

#[test]
fn locals_lie_in_one_frame_and_assignments_store_into_it() {
    let made = plan(vec![function(
        1,
        "f",
        fn_type(vec![], ResolvedType::Void),
        vec![ResolvedType::U8, ResolvedType::I64],
        vec![block(
            vec![node(
                MirExpr::Assignment(MirAssignment {
                    target: local(1, ResolvedType::I64),
                    value: Box::new(number(7, ResolvedType::I64)),
                }),
                ResolvedType::I64,
            )],
            MirTerminator::Return(None),
        )],
    )]);
    // Nothing asks for an alignment, so the second local follows the first.
    assert_eq!(made.bodies[0].slots[0].size, 9);
    assert_eq!(
        ops(&made, 0),
        [
            "Enter(0)",
            "Iconst(7): I64",
            "StackStore { value: 1, slot: 0, offset: 1 }",
            "Return { count: 0 }",
        ]
    );
}

#[test]
fn a_parameter_cannot_be_stored_into() {
    let items = vec![function(
        1,
        "f",
        fn_type(vec![ResolvedType::I32], ResolvedType::Void),
        vec![ResolvedType::I32],
        vec![block(
            vec![node(
                MirExpr::Assignment(MirAssignment {
                    target: local(0, ResolvedType::I32),
                    value: Box::new(number(7, ResolvedType::I32)),
                }),
                ResolvedType::I32,
            )],
            MirTerminator::Return(None),
        )],
    )];
    assert!(matches!(
        ModulePlan::generate(linux(), &vec![unit(items)], &vec![]),
        Err(PlanError::Malformed)
    ));
}

#[test]
fn struct_fields_come_in_declared_order() {
    let pair = structure(vec![field("a", ResolvedType::U8), field("b", ResolvedType::I32)]);
    // Written as `{ b: 2, a: 1 }`.
    let literal = node(
        MirExpr::StructLiteral(vec![
            MirFieldValue {
                field_index: 1,
                value: number(2, ResolvedType::I32),
            },
            MirFieldValue {
                field_index: 0,
                value: number(1, ResolvedType::U8),
            },
        ]),
        pair,
    );
    let (_, steps) = returning(literal, vec![]);
    assert_eq!(
        steps,
        [
            "Enter(0)",
            "Iconst(2): I32",
            "Iconst(1): I8",
            "Pass(2)",
            "Pass(1)",
            "Return { count: 2 }",
        ]
    );
}

#[test]
fn three_leaves_come_back_through_a_pointer() {
    let array = ResolvedType::SizedArray(Rc::new(ResolvedType::I32), 3);
    let literal = node(
        MirExpr::ArrayLiteral(vec![
            number(1, ResolvedType::I32),
            number(2, ResolvedType::I32),
            number(3, ResolvedType::I32),
        ]),
        array.clone(),
    );
    let (_, steps) = returning(literal, vec![]);
    assert_eq!(
        steps,
        [
            "Param(0): I64",
            "Enter(0)",
            "Iconst(1): I32",
            "Iconst(2): I32",
            "Iconst(3): I32",
            "Store { value: 2, base: 0, offset: 0 }",
            "Store { value: 3, base: 0, offset: 4 }",
            "Store { value: 4, base: 0, offset: 8 }",
            "Return { count: 0 }",
        ]
    );
    let sig = make_function_sig(linux(), &fn_type(vec![ResolvedType::U8], array));
    assert_eq!(sig.params.len(), 2);
    assert!(sig.params[0].struct_return);
    assert_eq!(sig.params[1].ty, IrType::I8);
    assert!(sig.results.is_empty());
    assert!(!sig.system_v);
}

#[test]
fn variadic_calls_promote_what_goes_beyond_the_parameters() {
    let variadic = Rc::new(ResolvedFunctionType {
        params: vec![ResolvedFunctionParam::anonymous(ResolvedType::U8)],
        return_type: Rc::new(ResolvedType::I32),
        is_variadic: true,
        self_mode: None,
        calling_convention: CallingConvention::C,
    });
    let call = node(
        MirExpr::FunctionCall(MirFunctionCall {
            callee: Box::new(node(
                MirExpr::Place(place(MirPlaceRoot::Function(id(9)), vec![])),
                ResolvedType::Function(variadic.clone()),
            )),
            fn_type: variadic.clone(),
            args: vec![number(1, ResolvedType::U8), number(2, ResolvedType::U8)],
        }),
        ResolvedType::I32,
    );
    let printf = MirItem::ForeignBinding(MirForeignBinding {
        id: id(9),
        symbol: "printf".to_string(),
        ty: ResolvedType::Function(variadic.clone()),
    });
    let made = plan(vec![
        printf,
        function(
            1,
            "f",
            fn_type(vec![], ResolvedType::I32),
            vec![],
            vec![block(vec![], MirTerminator::Return(Some(call)))],
        ),
    ]);
    assert_eq!(made.functions[0].linkage, Linkage::Import);
    let steps = ops(&made, 0);
    assert_eq!(steps[1], format!("FuncAddr({:?}): I64", id(9)));
    assert_eq!(steps[2], "Iconst(1): I8");
    assert_eq!(steps[3], "Iconst(2): I8");
    assert_eq!(steps[4], "Convert { op: Uextend, value: 3 }: I32");
    assert_eq!(steps[5], "Pass(2)");
    assert_eq!(steps[6], "Pass(4)");
    assert!(steps[7].starts_with("CallIndirect { callee: 1,"));
    assert_eq!(steps[8], "CallResult { call: 7, index: 0 }: I32");

    let sig = call_site_signature(linux(), &variadic, &vec![IrType::I8, IrType::I32]);
    assert_eq!(sig.params.len(), 2);
    assert_eq!(sig.params[1].ty, IrType::I32);
    assert!(sig.system_v);
}

#[test]
fn indexing_scales_by_the_size_of_an_element() {
    let array = ResolvedType::SizedArray(Rc::new(ResolvedType::I32), 4);
    let element = node(
        MirExpr::Place(place(
            MirPlaceRoot::Local {
                id: LocalId(0),
                ty: array.clone(),
            },
            vec![MirProjection::Index {
                index_expr: Box::new(number(2, ResolvedType::I32)),
                item_type: ResolvedType::I32,
            }],
        )),
        ResolvedType::I32,
    );
    let (_, steps) = returning(element, vec![array]);
    assert_eq!(
        steps[1..7],
        [
            "StackAddr { slot: 0, offset: 0 }: I64",
            "Iconst(2): I32",
            "Convert { op: Uextend, value: 2 }: I64",
            "Iconst(4): I64",
            "Binary { op: Imul, left: 3, right: 4 }: I64",
            "Binary { op: Iadd, left: 1, right: 5 }: I64",
        ]
    );
    assert_eq!(steps[7], "Load { base: 6, offset: 0 }: I32");
}

#[test]
fn an_inclusive_slice_ends_behind_its_last_element() {
    let array = ResolvedType::SizedArray(Rc::new(ResolvedType::U8), 4);
    let slice = node(
        MirExpr::Slice(MirSlice {
            base: local(0, array.clone()),
            item_type: ResolvedType::U8,
            start: None,
            end: Some(Box::new(number(2, ResolvedType::I32))),
            inclusive: true,
        }),
        ResolvedType::Slice {
            item: Rc::new(ResolvedType::U8),
            mutable: false,
        },
    );
    let (_, steps) = returning(slice, vec![array]);
    assert!(steps.contains(&"IaddImm { value: 4, imm: 1 }: I32".to_string()));
    assert_eq!(steps.last().unwrap(), "Return { count: 2 }");
}

#[test]
fn a_cast_to_an_integer_saturates() {
    let cast = node(
        MirExpr::Cast(MirCast {
            kind: CastKind::FloatToInt { signed: false },
            target_type: ResolvedType::U32,
            base: Box::new(node(
                MirExpr::Number(NumberValue::Float(2.5f64.to_bits())),
                ResolvedType::F64,
            )),
        }),
        ResolvedType::U32,
    );
    let (_, steps) = returning(cast, vec![]);
    assert_eq!(steps[2], "Convert { op: FcvtToUintSat, value: 1 }: I32");
}

fn option_type() -> ResolvedType {
    ResolvedType::Enum {
        cell: Rc::new(ResolvedEnumType {
            id: id(101),
            name: Ident::new("Option"),
            module: vec![],
            generic_args: vec![],
            tag_type: ResolvedType::U8,
            header: vec![],
            dynamic_fields: vec![],
            variants: vec![
                ResolvedEnumVariant {
                    name: Ident::new("None"),
                    tag: NumberValue::Unsigned(0),
                    header_values: Rc::new(vec![]),
                    fields: vec![],
                },
                ResolvedEnumVariant {
                    name: Ident::new("Some"),
                    tag: NumberValue::Unsigned(1),
                    header_values: Rc::new(vec![]),
                    fields: vec![field("value", ResolvedType::I32)],
                },
            ],
            functions: vec![],
            layout: Default::default(),
            suppress: vec![],
        }),
        variant: None,
    }
}

#[test]
fn a_variant_is_put_together_in_a_cleared_slot() {
    let construct = node(
        MirExpr::EnumConstruct(MirEnumConstruct {
            variant_index: 1,
            fields: vec![MirFieldValue {
                field_index: 0,
                value: number(5, ResolvedType::I32),
            }],
        }),
        option_type(),
    );
    let (made, steps) = returning(construct, vec![]);
    assert_eq!(
        steps,
        [
            "Enter(0)",
            "Iconst(1): I8",
            "StackStore { value: 1, slot: 1, offset: 0 }",
            "Iconst(0): I32",
            "StackStore { value: 3, slot: 1, offset: 1 }",
            "Iconst(5): I32",
            "StackStore { value: 5, slot: 1, offset: 1 }",
            "StackLoad { slot: 1, offset: 0 }: I8",
            "StackLoad { slot: 1, offset: 1 }: I32",
            "Pass(7)",
            "Pass(8)",
            "Return { count: 2 }",
        ]
    );
    assert_eq!(made.bodies[0].slots[1].size, 5);
}

#[test]
fn branches_name_blocks_and_unreachable_traps() {
    let made = plan(vec![function(
        1,
        "f",
        fn_type(vec![ResolvedType::Bool], ResolvedType::Void),
        vec![ResolvedType::Bool],
        vec![
            block(
                vec![],
                MirTerminator::Branch {
                    condition: read(0, ResolvedType::Bool),
                    then_block: BlockId(1),
                    else_block: BlockId(2),
                },
            ),
            block(vec![], MirTerminator::Goto(BlockId(2))),
            block(vec![], MirTerminator::Unreachable),
        ],
    )]);
    assert_eq!(
        ops(&made, 0),
        [
            "Param(0): I8",
            "Enter(0)",
            "Brif { condition: 0, then_block: 1, else_block: 2 }",
            "Enter(1)",
            "Jump(2)",
            "Enter(2)",
            "Trap",
        ]
    );
}

#[test]
fn a_jump_to_no_block_is_no_program() {
    let items = vec![function(
        1,
        "f",
        fn_type(vec![], ResolvedType::Void),
        vec![],
        vec![block(vec![], MirTerminator::Goto(BlockId(3)))],
    )];
    assert!(matches!(
        ModulePlan::generate(linux(), &vec![unit(items)], &vec![]),
        Err(PlanError::Malformed)
    ));
}

#[test]
fn two_functions_cannot_have_one_symbol() {
    let empty = |local: u32| {
        function(
            local,
            "same",
            fn_type(vec![], ResolvedType::Void),
            vec![],
            vec![block(vec![], MirTerminator::Return(None))],
        )
    };
    let result = ModulePlan::generate(linux(), &vec![unit(vec![empty(1), empty(2)])], &vec![]);
    match result {
        Err(PlanError::Collision(text)) => assert!(text.contains("'same'"), "{text}"),
        other => panic!("not a collision: {other:?}"),
    }
}

#[test]
fn machine_code_is_refused() {
    let items = vec![MirItem::FunctionDefinition(MirFunctionDef {
        id: id(1),
        symbol: "f".to_string(),
        linkage: MirLinkage::Weak,
        fn_type: fn_type(vec![], ResolvedType::Void),
        body: MirFunctionBody::Naked(MirInlineAsm {
            template: "ret".to_string(),
            operands: vec![],
            clobbers: vec![],
        }),
    })];
    assert!(matches!(
        ModulePlan::generate(linux(), &vec![unit(items)], &vec![]),
        Err(PlanError::Malformed)
    ));
}

#[test]
fn what_outgrows_its_sizes_is_refused() {
    let huge = ResolvedType::SizedArray(
        Rc::new(ResolvedType::SizedArray(Rc::new(ResolvedType::I64), u32::MAX)),
        u32::MAX,
    );
    let items = vec![MirItem::Declaration(MirDeclaration {
        id: id(1),
        symbol: "g".to_string(),
        ty: huge,
        initial_value: None,
    })];
    assert!(matches!(
        ModulePlan::generate(linux(), &vec![unit(items)], &vec![]),
        Err(PlanError::Malformed)
    ));
}

#[test]
fn functions_of_other_packages_are_imported_last() {
    let made = ModulePlan::generate(
        linux(),
        &vec![unit(vec![])],
        &vec![ExternFunctionRef {
            decl_id: id(5),
            symbol: "elsewhere".to_string(),
            fn_type: fn_type(vec![], ResolvedType::Void),
        }],
    )
    .unwrap();
    assert_eq!(made.functions.len(), 1);
    assert_eq!(made.functions[0].symbol, "elsewhere");
    assert_eq!(made.functions[0].linkage, Linkage::Import);
}

#[test]
fn a_table_of_methods_is_made_once() {
    let object = ResolvedType::SpecObject {
        shape: Rc::new(ResolvedSpecShape { members: vec![] }),
        mutable: false,
    };
    let pointer = ResolvedType::Pointer {
        pointee: Rc::new(ResolvedType::I32),
        mutable: false,
    };
    let slots = Rc::new(vec![id(1)]);
    let coerce = |slots: &Rc<Vec<HirId>>| {
        node(
            MirExpr::SpecCoerce(MirSpecCoerce {
                base: Box::new(read(0, pointer.clone())),
                slots: slots.clone(),
            }),
            object.clone(),
        )
    };
    let made = plan(vec![function(
        1,
        "f",
        fn_type(vec![pointer.clone()], ResolvedType::Void),
        vec![pointer.clone()],
        vec![block(
            vec![coerce(&slots), coerce(&slots)],
            MirTerminator::Return(None),
        )],
    )]);
    assert_eq!(made.vtables.len(), 1);
    assert_eq!(*made.vtables[0].slots, vec![id(1)]);
    let steps = ops(&made, 0);
    assert_eq!(steps[2], "VtableAddr(0): I64");
    assert_eq!(steps[3], "VtableAddr(0): I64");
}

#[test]
fn a_blob_becomes_bytes_and_addresses() {
    let mut pool = ConstPool::new();
    let value = ConstValue::Struct(vec![
        ConstValue::Number(NumberValue::Unsigned(0x0102)),
        ConstValue::Str("abc".to_string()),
    ]);
    let ty = structure(vec![
        field("n", ResolvedType::U16),
        field("text", ResolvedType::Str { mutable: false }),
    ]);
    let blob = build_const_blob(&mut pool, &value, &ty, 8).unwrap();
    assert_eq!(
        blob.bytes,
        [2, 1, 0, 0, 0, 0, 0, 0, 0, 0, 3, 0, 0, 0]
    );
    assert_eq!(blob.relocs.len(), 1);
    assert_eq!(blob.relocs[0].offset, 2);
    assert_eq!(blob.relocs[0].target, 0);
    assert_eq!(pool.objects.len(), 1);
    assert!(matches!(&pool.objects[0].key, DataKey::Text(bytes) if bytes == b"abc"));

    let data = describe_blob(&blob, &vec![40]).unwrap();
    match &data.init {
        Init::Bytes { contents } => assert_eq!(contents.to_vec(), blob.bytes),
        other => panic!("not bytes: {other:?}"),
    }
    assert_eq!(data.data_decls.len(), 1);
    assert_eq!(data.data_decls.values().next().unwrap().to_string(), "u1:40");
    assert_eq!(data.data_relocs.len(), 1);
    let (offset, global, addend) = data.data_relocs[0];
    assert_eq!((offset, global.as_u32(), addend), (2, 0, 0));
    assert!(data.function_relocs.is_empty());

    // Data without a number cannot be referred to.
    assert!(describe_blob(&blob, &vec![]).is_none());
}

#[test]
fn zeros_are_described_by_their_size() {
    assert_eq!(describe_zeros(12).init, Init::Zeros { size: 12 });
}

#[test]
fn a_table_holds_the_address_of_each_method() {
    let data = describe_table(
        &vec![id(3), id(4)],
        &vec![(id(4), 11), (id(3), 7), (id(4), 12)],
        8,
    )
    .unwrap();
    assert_eq!(
        data.init,
        Init::Bytes {
            contents: vec![0u8; 16].into_boxed_slice()
        }
    );
    let names: Vec<String> = data
        .function_decls
        .values()
        .map(|name| name.to_string())
        .collect();
    assert_eq!(names, ["u0:7", "u0:12"]);
    let addresses: Vec<(u32, u32)> = data
        .function_relocs
        .iter()
        .map(|(offset, function)| (*offset, function.as_u32()))
        .collect();
    assert_eq!(addresses, [(0, 0), (8, 1)]);
    assert!(describe_table(&vec![id(9)], &vec![(id(4), 11)], 8).is_none());
}

#[test]
fn variables_keep_their_initial_contents() {
    let made = plan(vec![
        MirItem::Declaration(MirDeclaration {
            id: id(1),
            symbol: "zero".to_string(),
            ty: ResolvedType::I64,
            initial_value: None,
        }),
        MirItem::Declaration(MirDeclaration {
            id: id(2),
            symbol: "seven".to_string(),
            ty: ResolvedType::I32,
            initial_value: Some(Rc::new(ConstValue::Number(NumberValue::Signed(7)))),
        }),
    ]);
    assert_eq!(made.globals[0].total, 8);
    assert!(made.globals[0].blob.is_none());
    assert_eq!(made.globals[1].blob.as_ref().unwrap().bytes, [7, 0, 0, 0]);
}

#[test]
fn a_slice_of_one_reference_leads_to_it_and_it_to_its_target() {
    let pointer = ResolvedType::Pointer {
        pointee: Rc::new(ResolvedType::U32),
        mutable: false,
    };
    let made = plan(vec![MirItem::Declaration(MirDeclaration {
        id: id(1),
        symbol: "table".to_string(),
        ty: ResolvedType::Slice {
            item: Rc::new(pointer),
            mutable: false,
        },
        initial_value: Some(Rc::new(ConstValue::Slice(vec![ConstValue::Ref(Box::new(
            ConstValue::Number(NumberValue::Unsigned(7)),
        ))]))),
    })]);
    assert_eq!(made.pool.objects.len(), 2);
    assert_eq!(made.pool.objects[0].blob.bytes, [7, 0, 0, 0]);
    assert!(made.pool.objects[0].blob.relocs.is_empty());
    assert_eq!(made.pool.objects[1].blob.bytes, [0; 8]);
    assert_eq!(made.pool.objects[1].blob.relocs[0].target, 0);
    let table = made.globals[0].blob.as_ref().unwrap();
    assert_eq!(table.bytes, [0, 0, 0, 0, 0, 0, 0, 0, 1, 0, 0, 0]);
    assert_eq!((table.relocs[0].offset, table.relocs[0].target), (0, 1));
}

#[test]
fn instructions_use_only_what_came_before_them() {
    let array = ResolvedType::SizedArray(Rc::new(ResolvedType::I32), 4);
    let element = node(
        MirExpr::Place(place(
            MirPlaceRoot::Local {
                id: LocalId(1),
                ty: array.clone(),
            },
            vec![MirProjection::Index {
                index_expr: Box::new(read(0, ResolvedType::I32)),
                item_type: ResolvedType::I32,
            }],
        )),
        ResolvedType::I32,
    );
    let sum = node(
        MirExpr::BinaryOp(MirBinaryOp {
            op: BinaryOp::Add,
            left: Box::new(element),
            right: Box::new(number(1, ResolvedType::I32)),
        }),
        ResolvedType::I32,
    );
    let made = plan(vec![function(
        1,
        "f",
        fn_type(vec![ResolvedType::I32], ResolvedType::I32),
        vec![ResolvedType::I32, array],
        vec![
            block(vec![], MirTerminator::Goto(BlockId(1))),
            block(vec![], MirTerminator::Return(Some(sum))),
        ],
    )]);
    let body = &made.bodies[0];
    let mut uses = 0;
    for (position, step) in body.steps.iter().enumerate() {
        let used: Vec<usize> = match &step.op {
            Op::Load { base, .. } => vec![*base],
            Op::Binary { left, right, .. } => vec![*left, *right],
            Op::Convert { value, .. } => vec![*value],
            Op::Pass(value) => vec![*value],
            Op::StackAddr { slot, .. } => {
                assert!(*slot < body.slots.len());
                vec![]
            }
            Op::Return { count } => {
                for passed in &body.steps[position - count..position] {
                    assert!(matches!(passed.op, Op::Pass(_)));
                }
                vec![]
            }
            _ => vec![],
        };
        for value in used {
            assert!(value < position && body.steps[value].ty.is_some());
            uses += 1;
        }
    }
    assert_eq!(uses, 9);
}

#[test]
fn blocks_come_in_order_and_end_once() {
    let made = plan(vec![function(
        1,
        "f",
        fn_type(vec![ResolvedType::I32], ResolvedType::Void),
        vec![ResolvedType::I32],
        vec![
            block(
                vec![read(0, ResolvedType::I32)],
                MirTerminator::Goto(BlockId(2)),
            ),
            block(vec![], MirTerminator::Unreachable),
            block(vec![], MirTerminator::Return(None)),
        ],
    )]);
    let marks: Vec<String> = made.bodies[0]
        .steps
        .iter()
        .filter(|step| {
            matches!(
                step.op,
                Op::Enter(_) | Op::Jump(_) | Op::Return { .. } | Op::Trap
            )
        })
        .map(|step| format!("{:?}", step.op))
        .collect();
    assert_eq!(
        marks,
        [
            "Enter(0)",
            "Jump(2)",
            "Enter(1)",
            "Trap",
            "Enter(2)",
            "Return { count: 0 }",
        ]
    );
}

/// An enum with a tag of one byte and a header field that is aligned to 16.
fn headed_type() -> ResolvedType {
    let wide = ResolvedType::Struct(Rc::new(ResolvedStructType {
        id: id(110),
        name: Ident::new("Wide"),
        module: vec![],
        generic_args: vec![],
        fields: vec![field("low", ResolvedType::U16)],
        functions: vec![],
        layout: Layout { pack: 1, align: 16 },
        suppress: vec![],
        is_marker: false,
    }));
    ResolvedType::Enum {
        cell: Rc::new(ResolvedEnumType {
            id: id(111),
            name: Ident::new("Headed"),
            module: vec![],
            generic_args: vec![],
            tag_type: ResolvedType::U8,
            header: vec![field("wide", wide)],
            dynamic_fields: vec![],
            variants: vec![ResolvedEnumVariant {
                name: Ident::new("Only"),
                tag: NumberValue::Unsigned(3),
                header_values: Rc::new(vec![ConstValue::Struct(vec![ConstValue::Number(
                    NumberValue::Unsigned(0x0201),
                )])]),
                fields: vec![],
            }],
            functions: vec![],
            layout: Default::default(),
            suppress: vec![],
        }),
        variant: None,
    }
}

fn headed_value() -> ConstValue {
    ConstValue::Enum {
        variant_index: 0,
        tag: NumberValue::Unsigned(3),
        header: vec![],
        dynamic_fields: vec![],
        fields: vec![],
    }
}

fn read_header() -> MirExprNode {
    let ResolvedType::Enum { cell, .. } = headed_type() else {
        panic!("an enum");
    };
    let wide = cell.header[0].ty.clone();
    node(
        MirExpr::Place(place(
            MirPlaceRoot::Global {
                id: id(9),
                ty: headed_type(),
            },
            vec![
                MirProjection::EnumHeader { index: 0, ty: wide },
                MirProjection::FieldAccess {
                    index: 0,
                    ty: ResolvedType::U16,
                },
            ],
        )),
        ResolvedType::U16,
    )
}

#[test]
fn a_header_is_written_where_it_is_read() {
    let made = plan(vec![
        MirItem::Declaration(MirDeclaration {
            id: id(9),
            symbol: "headed".to_string(),
            ty: headed_type(),
            initial_value: Some(Rc::new(headed_value())),
        }),
        function(
            1,
            "f",
            fn_type(vec![], ResolvedType::U16),
            vec![],
            vec![block(
                vec![
                    node(MirExpr::Const(Rc::new(headed_value())), headed_type()),
                    node(
                        MirExpr::EnumConstruct(MirEnumConstruct {
                            variant_index: 0,
                            fields: vec![],
                        }),
                        headed_type(),
                    ),
                ],
                MirTerminator::Return(Some(read_header())),
            )],
        ),
    ]);
    let mut bytes = vec![0u8; 32];
    bytes[0] = 3;
    bytes[16] = 1;
    bytes[17] = 2;
    assert_eq!(made.globals[0].blob.as_ref().unwrap().bytes, bytes);
    let steps = ops(&made, 0);
    let stores: Vec<&String> = steps.iter().filter(|s| s.starts_with("StackStore")).collect();
    assert_eq!(stores.len(), 4);
    for (slot, pair) in stores.chunks(2).enumerate() {
        assert!(pair[0].ends_with(&format!("slot: {}, offset: 0 }}", slot + 1)));
        assert!(pair[1].ends_with(&format!("slot: {}, offset: 16 }}", slot + 1)));
    }
    let read = steps.iter().rev().find(|s| s.starts_with("Load")).unwrap();
    assert!(read.ends_with("offset: 16 }: I16"));
}
