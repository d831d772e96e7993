use riscv_rt::decl::{
    check_entry, check_pre_init, interrupt_handler_symbols, is_simple_type, DeclError, FnInput,
    FnSignature, HandlerArg, PathSegment, ReturnShape, TypeShape,
};

fn path(name: &str) -> TypeShape {
    TypeShape::Path {
        qualified: false,
        leading_colon: false,
        segments: vec![PathSegment { ident: name.to_string(), has_arguments: false }],
    }
}

fn sig(inputs: Vec<FnInput>, output: ReturnShape) -> FnSignature {
    FnSignature {
        is_const: false,
        is_async: false,
        is_unsafe: false,
        is_public: false,
        has_abi: false,
        generic_params: 0,
        has_where_clause: false,
        is_variadic: false,
        inputs,
        output,
    }
}

fn usize_arg() -> FnInput {
    FnInput::Typed(path("usize"))
}

#[test]
fn simple_type_matches_single_plain_segment() {
    let name = "usize".to_string();
    assert!(is_simple_type(&path("usize"), &name));
    assert!(!is_simple_type(&path("u32"), &name));
    let qualified = TypeShape::Path {
        qualified: false,
        leading_colon: true,
        segments: vec![PathSegment { ident: "usize".to_string(), has_arguments: false }],
    };
    assert!(!is_simple_type(&qualified, &name));
    let two = TypeShape::Path {
        qualified: false,
        leading_colon: false,
        segments: vec![
            PathSegment { ident: "core".to_string(), has_arguments: false },
            PathSegment { ident: "usize".to_string(), has_arguments: false },
        ],
    };
    assert!(!is_simple_type(&two, &name));
    assert!(!is_simple_type(&TypeShape::Never, &name));
}

#[test]
fn entry_accepts_up_to_three_usize_and_never() {
    let s = sig(vec![usize_arg(), usize_arg(), usize_arg()], ReturnShape::Type(TypeShape::Never));
    assert_eq!(check_entry(&s, 0), Ok(()));
    let s = sig(vec![], ReturnShape::Type(TypeShape::Never));
    assert_eq!(check_entry(&s, 0), Ok(()));
    let mut s = sig(vec![usize_arg()], ReturnShape::Type(TypeShape::Never));
    s.is_unsafe = true;
    assert_eq!(check_entry(&s, 0), Ok(()));
}

#[test]
fn entry_errors_in_order() {
    let s = sig(vec![usize_arg(), usize_arg(), usize_arg(), FnInput::Receiver], ReturnShape::Default);
    assert_eq!(check_entry(&s, 1), Err(DeclError::TooManyArguments));
    let s = sig(vec![usize_arg(), FnInput::Receiver, FnInput::Typed(path("u8"))], ReturnShape::Default);
    assert_eq!(check_entry(&s, 1), Err(DeclError::InvalidArgument));
    let s = sig(vec![FnInput::Typed(path("u8")), FnInput::Receiver], ReturnShape::Default);
    assert_eq!(check_entry(&s, 1), Err(DeclError::ArgumentNotUsize));
    let s = sig(vec![usize_arg()], ReturnShape::Default);
    assert_eq!(check_entry(&s, 1), Err(DeclError::InvalidEntrySignature));
    let mut s = sig(vec![usize_arg()], ReturnShape::Type(TypeShape::Never));
    s.is_async = true;
    assert_eq!(check_entry(&s, 0), Err(DeclError::InvalidEntrySignature));
    let s = sig(vec![usize_arg()], ReturnShape::Type(TypeShape::Never));
    assert_eq!(check_entry(&s, 1), Err(DeclError::UnexpectedAttributeArguments));
}

#[test]
fn pre_init_must_be_unsafe_unit_fn() {
    let mut s = sig(vec![], ReturnShape::Default);
    assert_eq!(check_pre_init(&s, 0), Err(DeclError::InvalidPreInitSignature));
    s.is_unsafe = true;
    assert_eq!(check_pre_init(&s, 0), Ok(()));
    assert_eq!(check_pre_init(&s, 2), Err(DeclError::UnexpectedAttributeArguments));
    let mut t = sig(vec![], ReturnShape::Type(TypeShape::Tuple { elems: 0 }));
    t.is_unsafe = true;
    assert_eq!(check_pre_init(&t, 0), Ok(()));
    let mut u = sig(vec![usize_arg()], ReturnShape::Default);
    u.is_unsafe = true;
    assert_eq!(check_pre_init(&u, 0), Err(DeclError::InvalidPreInitSignature));
    let mut v = sig(vec![], ReturnShape::Type(path("u32")));
    v.is_unsafe = true;
    assert_eq!(check_pre_init(&v, 0), Err(DeclError::InvalidPreInitSignature));
}

#[test]
fn handler_symbols_from_attribute_argument() {
    let s = sig(vec![], ReturnShape::Default);
    let name = "timer_tick".to_string();
    let r = interrupt_handler_symbols(&s, &vec![], &name).ok().unwrap();
    assert_eq!(r.wrapper, "timer_tick");
    assert_eq!(r.handler, "timer_tick_handler");
    let r = interrupt_handler_symbols(&s, &vec![HandlerArg::IntLiteral("7".to_string())], &name).ok().unwrap();
    assert_eq!(r.wrapper, "int_7");
    assert_eq!(r.handler, "timer_tick_handler");
    let r = interrupt_handler_symbols(&s, &vec![HandlerArg::Ident("UART0".to_string())], &name).ok().unwrap();
    assert_eq!(r.wrapper, "UART0");
    let n = sig(vec![], ReturnShape::Type(TypeShape::Never));
    assert!(interrupt_handler_symbols(&n, &vec![], &name).is_ok());
}

#[test]
fn handler_errors() {
    let s = sig(vec![], ReturnShape::Default);
    let name = "h".to_string();
    let two = vec![HandlerArg::IntLiteral("1".to_string()), HandlerArg::IntLiteral("2".to_string())];
    assert_eq!(interrupt_handler_symbols(&s, &two, &name).err(), Some(DeclError::TooManyAttributeArguments));
    assert_eq!(interrupt_handler_symbols(&s, &vec![HandlerArg::OtherLiteral], &name).err(), Some(DeclError::HandlerNumberNotInteger));
    assert_eq!(interrupt_handler_symbols(&s, &vec![HandlerArg::OtherPath], &name).err(), Some(DeclError::HandlerNameNotIdentifier));
    assert_eq!(interrupt_handler_symbols(&s, &vec![HandlerArg::OtherMeta], &name).err(), Some(DeclError::HandlerArgumentMalformed));
    let a = sig(vec![usize_arg()], ReturnShape::Default);
    assert_eq!(interrupt_handler_symbols(&a, &vec![], &name).err(), Some(DeclError::HandlerHasArguments));
    let v = sig(vec![], ReturnShape::Type(path("u32")));
    assert_eq!(interrupt_handler_symbols(&v, &vec![], &name).err(), Some(DeclError::HandlerReturnsValue));
}
