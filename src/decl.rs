//! Checks on the functions that an application registers as its entry
//! point, its pre-initialization hook and its controller interrupt handlers,
//! and the symbol names under which they are registered.
//!
//! A function is described by plain values: the parts of its signature that
//! the checks read, and the argument of its registration attribute.

use vstd::prelude::*;
use vstd::string::StringExecFns;

verus! {

/// One segment of a type path.
pub struct PathSegment {
    pub ident: String,
    /// The segment carries generic arguments.
    pub has_arguments: bool,
}

/// The shape of a type, as far as the checks read it.
pub enum TypeShape {
    Path { qualified: bool, leading_colon: bool, segments: Vec<PathSegment> },
    Never,
    Tuple { elems: usize },
    Other,
}

/// One parameter of a function.
pub enum FnInput {
    Receiver,
    Typed(TypeShape),
}

/// The declared return type of a function.
pub enum ReturnShape {
    /// No return type written.
    Default,
    Type(TypeShape),
}

/// The signature of a function to register.
pub struct FnSignature {
    pub is_const: bool,
    pub is_async: bool,
    pub is_unsafe: bool,
    /// The function carries a visibility qualifier.
    pub is_public: bool,
    pub has_abi: bool,
    pub generic_params: usize,
    pub has_where_clause: bool,
    pub is_variadic: bool,
    pub inputs: Vec<FnInput>,
    pub output: ReturnShape,
}

/// The argument of an interrupt handler's registration attribute.
pub enum HandlerArg {
    /// An integer literal, as written: the interrupt number.
    IntLiteral(String),
    /// A literal of another kind.
    OtherLiteral,
    /// A path made of one identifier: an interrupt's name.
    Ident(String),
    /// A path of several segments.
    OtherPath,
    /// A list or a name-value pair.
    OtherMeta,
}

/// Why a function cannot be registered.
#[derive(Clone, Copy, Debug, PartialEq, Eq, Structural)]
pub enum DeclError {
    /// The entry point takes more than three parameters.
    TooManyArguments,
    /// The entry point takes `self`.
    InvalidArgument,
    /// An entry point parameter is not a `usize`.
    ArgumentNotUsize,
    /// The entry point is not `[unsafe] fn([usize, ...]) -> !`.
    InvalidEntrySignature,
    /// The pre-initialization hook is not `unsafe fn()`.
    InvalidPreInitSignature,
    /// The attribute takes no arguments but was given some.
    UnexpectedAttributeArguments,
    /// A handler attribute was given more than one argument.
    TooManyAttributeArguments,
    /// A handler attribute literal is not an integer.
    HandlerNumberNotInteger,
    /// A handler attribute path is not a single identifier.
    HandlerNameNotIdentifier,
    /// A handler attribute argument is neither a literal nor a path.
    HandlerArgumentMalformed,
    /// A handler takes parameters.
    HandlerHasArguments,
    /// A handler returns a value.
    HandlerReturnsValue,
}

/// The name `usize`.
pub open spec fn usize_name() -> Seq<char> {
    seq!['u', 's', 'i', 'z', 'e']
}

/// `ty` is the plain, unqualified single-segment path `name`.
pub open spec fn is_simple_type_spec(ty: TypeShape, name: Seq<char>) -> bool {
    match ty {
        TypeShape::Path { qualified, leading_colon, segments } => {
            &&& !qualified
            &&& !leading_colon
            &&& segments@.len() == 1
            &&& segments@[0].ident@ == name
            &&& !segments@[0].has_arguments
        },
        _ => false,
    }
}

/// Whether `ty` is the plain, unqualified single-segment path `name`.
pub fn is_simple_type(ty: &TypeShape, name: &String) -> (r: bool)
    ensures
        r == is_simple_type_spec(*ty, name@),
{
    match ty {
        TypeShape::Path { qualified, leading_colon, segments } => {
            !*qualified && !*leading_colon && segments.len() == 1 && segments[0].ident == *name
                && !segments[0].has_arguments
        },
        _ => false,
    }
}

/// The error of the first entry point parameter that is `self` or not a
/// `usize`, if any.
pub open spec fn entry_input_error(inputs: Seq<FnInput>) -> Option<DeclError>
    decreases inputs.len(),
{
    if inputs.len() == 0 {
        None
    } else {
        match inputs[0] {
            FnInput::Receiver => Some(DeclError::InvalidArgument),
            FnInput::Typed(t) => if !is_simple_type_spec(t, usize_name()) {
                Some(DeclError::ArgumentNotUsize)
            } else {
                entry_input_error(inputs.drop_first())
            },
        }
    }
}

/// A plain function: not const, async, public or foreign, with no generics
/// and no variadic parameter.
pub open spec fn is_plain_fn(sig: FnSignature) -> bool {
    &&& !sig.is_const
    &&& !sig.is_async
    &&& !sig.is_public
    &&& !sig.has_abi
    &&& sig.generic_params == 0
    &&& !sig.has_where_clause
    &&& !sig.is_variadic
}

/// The return type is `!`.
pub open spec fn returns_never(output: ReturnShape) -> bool {
    output matches ReturnShape::Type(TypeShape::Never)
}

/// The return type is absent or `()`.
pub open spec fn returns_unit(output: ReturnShape) -> bool {
    match output {
        ReturnShape::Default => true,
        ReturnShape::Type(TypeShape::Tuple { elems }) => elems == 0,
        _ => false,
    }
}

/// The verdict on an entry point with signature `sig` and `attr_args`
/// attribute arguments.
pub open spec fn check_entry_spec(sig: FnSignature, attr_args: usize) -> Result<(), DeclError> {
    if sig.inputs@.len() > 3 {
        Err(DeclError::TooManyArguments)
    } else if entry_input_error(sig.inputs@) is Some {
        Err(entry_input_error(sig.inputs@)->Some_0)
    } else if !(is_plain_fn(sig) && returns_never(sig.output)) {
        Err(DeclError::InvalidEntrySignature)
    } else if attr_args != 0 {
        Err(DeclError::UnexpectedAttributeArguments)
    } else {
        Ok(())
    }
}

/// Checks a function to be registered as the entry point: at most three
/// `usize` parameters, a plain non-returning function, and no attribute
/// arguments; the first failed condition gives the error.
pub fn check_entry(sig: &FnSignature, attr_args: usize) -> (r: Result<(), DeclError>)
    ensures
        r == check_entry_spec(*sig, attr_args),
{
    if sig.inputs.len() > 3 {
        return Err(DeclError::TooManyArguments);
    }
    let usize_str = String::from_str("usize");
    proof {
        reveal_strlit("usize");
        assert(usize_str@ =~= usize_name());
    }
    let mut i: usize = 0;
    assert(sig.inputs@.subrange(0, sig.inputs@.len() as int) =~= sig.inputs@);
    while i < sig.inputs.len()
        invariant
            i <= sig.inputs@.len() <= 3,
            usize_str@ == usize_name(),
            entry_input_error(sig.inputs@) == entry_input_error(sig.inputs@.subrange(i as int, sig.inputs@.len() as int)),
        decreases sig.inputs@.len() - i,
    {
        let ghost rest = sig.inputs@.subrange(i as int, sig.inputs@.len() as int);
        assert(rest.drop_first() =~= sig.inputs@.subrange(i + 1, sig.inputs@.len() as int));
        assert(rest[0] == sig.inputs@[i as int]);
        match &sig.inputs[i] {
            FnInput::Receiver => {
                return Err(DeclError::InvalidArgument);
            },
            FnInput::Typed(t) => {
                if !is_simple_type(t, &usize_str) {
                    return Err(DeclError::ArgumentNotUsize);
                }
            },
        }
        i = i + 1;
    }
    assert(sig.inputs@.subrange(i as int, sig.inputs@.len() as int).len() == 0);
    let plain = !sig.is_const && !sig.is_async && !sig.is_public && !sig.has_abi && sig.generic_params
        == 0 && !sig.has_where_clause && !sig.is_variadic;
    let never = match &sig.output {
        ReturnShape::Type(TypeShape::Never) => true,
        _ => false,
    };
    if !(plain && never) {
        return Err(DeclError::InvalidEntrySignature);
    }
    if attr_args != 0 {
        return Err(DeclError::UnexpectedAttributeArguments);
    }
    Ok(())
}

/// The verdict on a pre-initialization hook.
pub open spec fn check_pre_init_spec(sig: FnSignature, attr_args: usize) -> Result<(), DeclError> {
    if !(is_plain_fn(sig) && sig.is_unsafe && sig.inputs@.len() == 0 && returns_unit(sig.output)) {
        Err(DeclError::InvalidPreInitSignature)
    } else if attr_args != 0 {
        Err(DeclError::UnexpectedAttributeArguments)
    } else {
        Ok(())
    }
}

/// Checks a function to be registered as the pre-initialization hook: a
/// plain `unsafe fn()` and no attribute arguments.
pub fn check_pre_init(sig: &FnSignature, attr_args: usize) -> (r: Result<(), DeclError>)
    ensures
        r == check_pre_init_spec(*sig, attr_args),
{
    let plain = !sig.is_const && !sig.is_async && !sig.is_public && !sig.has_abi && sig.generic_params
        == 0 && !sig.has_where_clause && !sig.is_variadic;
    let unit = match &sig.output {
        ReturnShape::Default => true,
        ReturnShape::Type(TypeShape::Tuple { elems }) => *elems == 0,
        _ => false,
    };
    if !(plain && sig.is_unsafe && sig.inputs.len() == 0 && unit) {
        return Err(DeclError::InvalidPreInitSignature);
    }
    if attr_args != 0 {
        return Err(DeclError::UnexpectedAttributeArguments);
    }
    Ok(())
}

/// The symbols of a registered interrupt handler: the entry that the
/// controller's vector table jumps to, and the function that holds the
/// handler's body when a register-saving wrapper stands in front of it.
pub struct HandlerSymbols {
    pub wrapper: String,
    pub handler: String,
}

/// The wrapper symbol that the attribute arguments `args` select for the
/// function `fn_name`, or the error in them.
pub open spec fn wrapper_symbol_spec(args: Seq<HandlerArg>, fn_name: Seq<char>) -> Result<Seq<char>, DeclError> {
    if args.len() > 1 {
        Err(DeclError::TooManyAttributeArguments)
    } else if args.len() == 0 {
        Ok(fn_name)
    } else {
        match args[0] {
            HandlerArg::IntLiteral(n) => Ok(seq!['i', 'n', 't', '_'] + n@),
            HandlerArg::OtherLiteral => Err(DeclError::HandlerNumberNotInteger),
            HandlerArg::Ident(i) => Ok(i@),
            HandlerArg::OtherPath => Err(DeclError::HandlerNameNotIdentifier),
            HandlerArg::OtherMeta => Err(DeclError::HandlerArgumentMalformed),
        }
    }
}

/// The error in an interrupt handler's registration, if any.
pub open spec fn handler_error_spec(sig: FnSignature, args: Seq<HandlerArg>, fn_name: Seq<char>) -> Option<DeclError> {
    if wrapper_symbol_spec(args, fn_name) is Err {
        Some(wrapper_symbol_spec(args, fn_name)->Err_0)
    } else if sig.inputs@.len() != 0 {
        Some(DeclError::HandlerHasArguments)
    } else if !(returns_unit(sig.output) || returns_never(sig.output)) {
        Some(DeclError::HandlerReturnsValue)
    } else {
        None
    }
}

/// Checks an interrupt handler `fn_name` with signature `sig` and
/// attribute arguments `args`, and names its symbols. With no argument the
/// wrapper takes the function's name, with an integer `n` it is `int_n`, with
/// an identifier it is that identifier; the handler body is
/// `<fn_name>_handler`. The handler takes no parameters and returns nothing
/// or never returns.
pub fn interrupt_handler_symbols(sig: &FnSignature, args: &Vec<HandlerArg>, fn_name: &String) -> (r: Result<HandlerSymbols, DeclError>)
    ensures
        match handler_error_spec(*sig, args@, fn_name@) {
            Some(e) => r == Err::<HandlerSymbols, DeclError>(e),
            None => r matches Ok(s) && s.wrapper@ == wrapper_symbol_spec(args@, fn_name@)->Ok_0
                && s.handler@ == fn_name@ + seq!['_', 'h', 'a', 'n', 'd', 'l', 'e', 'r'],
        },
{
    if args.len() > 1 {
        return Err(DeclError::TooManyAttributeArguments);
    }
    let wrapper: String = if args.len() == 0 {
        fn_name.clone()
    } else {
        match &args[0] {
            HandlerArg::IntLiteral(n) => {
                let prefix = String::from_str("int_");
                proof {
                    reveal_strlit("int_");
                }
                prefix.concat(n.as_str())
            },
            HandlerArg::OtherLiteral => {
                return Err(DeclError::HandlerNumberNotInteger);
            },
            HandlerArg::Ident(i) => i.clone(),
            HandlerArg::OtherPath => {
                return Err(DeclError::HandlerNameNotIdentifier);
            },
            HandlerArg::OtherMeta => {
                return Err(DeclError::HandlerArgumentMalformed);
            },
        }
    };
    if sig.inputs.len() != 0 {
        return Err(DeclError::HandlerHasArguments);
    }
    let ok_return = match &sig.output {
        ReturnShape::Default => true,
        ReturnShape::Type(TypeShape::Tuple { elems }) => *elems == 0,
        ReturnShape::Type(TypeShape::Never) => true,
        _ => false,
    };
    if !ok_return {
        return Err(DeclError::HandlerReturnsValue);
    }
    let handler = fn_name.clone().concat("_handler");
    proof {
        reveal_strlit("_handler");
    }
    Ok(HandlerSymbols { wrapper, handler })
}

} // verus!
