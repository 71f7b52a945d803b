use vstd::prelude::*;
use crate::value::TypeKind;

verus! {

/// A function that a module exposes to scripts.
pub struct FunctionMeta {
    pub name: &'static str,
    /// The number of arguments that the function takes.
    pub args: usize,
    /// Whether calling the function gives a future.
    pub is_async: bool,
}

/// A module of native items that the virtual machine can install.
pub struct Module {
    pub crate_name: &'static str,
    /// The path of the module below its crate.
    pub item: Vec<&'static str>,
    /// The types that the module registers.
    pub types: Vec<TypeKind>,
    pub functions: Vec<FunctionMeta>,
}

/// Construct the `std::future` module: it registers the future type and the
/// asynchronous function `join`, which takes one argument.
pub fn module() -> (r: Module)
    ensures
        r.crate_name@ == "std"@,
        r.item@.len() == 1,
        r.item@[0]@ == "future"@,
        r.types@ == seq![TypeKind::Future],
        r.functions@.len() == 1,
        r.functions@[0].name@ == "join"@,
        r.functions@[0].args == 1,
        r.functions@[0].is_async,
{
    let mut item: Vec<&'static str> = Vec::new();
    item.push("future");
    let mut types: Vec<TypeKind> = Vec::new();
    types.push(TypeKind::Future);
    let mut functions: Vec<FunctionMeta> = Vec::new();
    functions.push(FunctionMeta { name: "join", args: 1, is_async: true });
    proof {
        assert(types@ =~= seq![TypeKind::Future]);
    }
    Module { crate_name: "std", item, types, functions }
}

} // verus!
