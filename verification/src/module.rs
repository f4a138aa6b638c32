//! A module: the functions that calls can reach under its name.

use crate::decoding::{decode_ops, DecodeError};
use crate::function::{promise_of, Callback, Function, FunctionModel, NativeFunction};
use crate::value::ValueModel;
use crate::instruction::{clone_code, code_view, Code, Instruction, Op};
use crate::table::{find, put, table_view, Entry};
use crate::version::{VERSION_MAJOR, VERSION_MINOR, VERSION_PATCH};
use vstd::prelude::*;
use vstd::string::StringExecFns;

verus! {

/// Why bytes or instructions are no module.
#[derive(Clone, Copy, Debug, PartialEq, Eq, Structural)]
pub enum LoadError {
    /// The version in front is not there, or is not exactly the version of
    /// this runtime.
    VersionMismatch,
    /// The bytes behind the version are no instructions.
    Malformed(DecodeError),
    /// An instruction on the top level that defines no function.
    NotAFunction,
}

impl LoadError {
    /// The fault in words.
    pub open spec fn text(self) -> Seq<char> {
        match self {
            LoadError::VersionMismatch => "Invalid version"@,
            LoadError::Malformed(e) => e.text(),
            LoadError::NotAFunction => "Invalid instruction type"@,
        }
    }

    /// The fault in words.
    pub fn message(&self) -> (r: String)
        ensures
            r@ == self.text(),
    {
        match self {
            LoadError::VersionMismatch => String::from_str("Invalid version"),
            LoadError::Malformed(e) => e.message(),
            LoadError::NotAFunction => String::from_str("Invalid instruction type"),
        }
    }
}

/// The functions of a module, by name.
pub type Functions = Map<Seq<char>, FunctionModel>;

/// The module that a sequence of function definitions makes: each function
/// under its name, a later one in place of an earlier one of the same name.
/// Anything but a function definition is a fault.
pub open spec fn register_all(ops: Seq<Op>) -> Result<Functions, LoadError>
    decreases ops.len(),
{
    if ops.len() == 0 {
        Ok(Map::empty())
    } else {
        match register_all(ops.drop_last()) {
            Err(e) => Err(e),
            Ok(functions) => match ops.last() {
                Op::Func { name, code } => Ok(
                    functions.insert(name, FunctionModel::ByteCode { name, code }),
                ),
                _ => Err(LoadError::NotAFunction),
            },
        }
    }
}

/// Whether `bytes` starts with the version of this runtime.
pub open spec fn has_version(bytes: Seq<u8>) -> bool {
    bytes.len() >= 3 && bytes[0] == VERSION_MAJOR && bytes[1] == VERSION_MINOR && bytes[2]
        == VERSION_PATCH
}

/// The module that `bytes` holds: three bytes of version, then function
/// definitions up to the end.
pub open spec fn load_bytes(bytes: Seq<u8>) -> Result<Functions, LoadError> {
    if !has_version(bytes) {
        Err(LoadError::VersionMismatch)
    } else {
        match decode_ops(bytes.skip(3)) {
            Err(e) => Err(LoadError::Malformed(e)),
            Ok(ops) => register_all(ops),
        }
    }
}

/// The module that a sequence of instructions makes: a `Version`
/// instruction with the version of this runtime, then function definitions.
pub open spec fn load_code(ops: Seq<Op>) -> Result<Functions, LoadError> {
    if ops.len() == 0 {
        Err(LoadError::VersionMismatch)
    } else {
        match ops[0] {
            Op::Version { major, minor, patch } => if major == VERSION_MAJOR && minor
                == VERSION_MINOR && patch == VERSION_PATCH {
                register_all(ops.drop_first())
            } else {
                Err(LoadError::VersionMismatch)
            },
            _ => Err(LoadError::VersionMismatch),
        }
    }
}

/// Whether `r` is the module, or the fault, that `expected` names.
pub open spec fn loaded(r: Result<Module, LoadError>, expected: Result<Functions, LoadError>) -> bool {
    match r {
        Ok(module) => expected == Ok::<Functions, LoadError>(module@),
        Err(e) => expected == Err::<Functions, LoadError>(e),
    }
}

/// Bytes that do not start with exactly the version of this runtime are no
/// module, whatever follows.
pub proof fn lemma_version_gate(bytes: Seq<u8>)
    requires
        bytes.len() < 3 || bytes[0] != VERSION_MAJOR || bytes[1] != VERSION_MINOR || bytes[2]
            != VERSION_PATCH,
    ensures
        load_bytes(bytes) == Err::<Functions, LoadError>(LoadError::VersionMismatch),
{
}

/// Of two functions registered under one name, only the later is there.
pub proof fn lemma_later_registration_wins(
    functions: Functions,
    name: Seq<char>,
    earlier: FunctionModel,
    later: FunctionModel,
)
    ensures
        functions.insert(name, earlier).insert(name, later) == functions.insert(name, later),
        functions.insert(name, earlier).insert(name, later)[name] == later,
{
    assert(functions.insert(name, earlier).insert(name, later) =~= functions.insert(name, later));
}

/// A mapping from function names to functions. A name has at most one
/// function: one registered under a name that is taken replaces the earlier.
pub struct Module {
    functions: Vec<Entry<Function>>,
}

impl View for Module {
    type V = Map<Seq<char>, FunctionModel>;

    closed spec fn view(&self) -> Map<Seq<char>, FunctionModel> {
        table_view(self.functions@)
    }
}

impl Module {
    /// A module without functions.
    pub fn new() -> (module: Module)
        ensures
            module@ == Map::<Seq<char>, FunctionModel>::empty(),
    {
        let module = Module { functions: Vec::new() };
        assert(module@ =~= Map::<Seq<char>, FunctionModel>::empty());
        module
    }

    /// Registers code under `name`.
    pub fn add_function(&mut self, name: String, code: &Code)
        ensures
            final(self)@ == old(self)@.insert(
                name@,
                FunctionModel::ByteCode { name: name@, code: code_view(code@) },
            ),
    {
        let function = Function::ByteCode { name: name.clone(), code: clone_code(code) };
        put(&mut self.functions, name, function);
    }

    /// Registers a callback of the host under `name`. The callback has to
    /// take every argument list, since any may reach it.
    pub fn add_native_function(&mut self, name: &str, function: Box<dyn NativeFunction>)
        requires
            forall|args: Seq<ValueModel>| function.takes(args),
        ensures
            final(self)@ == old(self)@.insert(
                name@,
                FunctionModel::Native { name: name@, promise: promise_of(function) },
            ),
    {
        let ghost promise = promise_of(function);
        let callback = Callback::new(function);
        assert(callback.promise() == promise);
        let function = Function::Native { name: name.to_owned(), function: callback };
        assert(function@ == (FunctionModel::Native { name: name@, promise }));
        put(&mut self.functions, name.to_owned(), function);
    }

    /// The function registered under `name`, if there is one.
    pub fn get_function(&self, name: &str) -> (r: Option<&Function>)
        ensures
            match r {
                Some(f) => self@.dom().contains(name@) && f@ == self@[name@],
                None => !self@.dom().contains(name@),
            },
    {
        match find(&self.functions, name) {
            Some(i) => Some(&self.functions[i].item),
            None => None,
        }
    }

    /// The function registered under `name`, if there is one, to change
    /// it. The module then holds what its caller makes of the function.
    pub fn get_function_mut(&mut self, name: &str) -> (r: Option<&mut Function>)
        ensures
            match r {
                Some(f) => old(self)@.dom().contains(name@) && (*f)@ == old(self)@[name@]
                    && final(self)@ == old(self)@.insert(name@, (*final(f))@),
                None => !old(self)@.dom().contains(name@) && final(self)@ == old(self)@,
            },
    {
        match find(&self.functions, name) {
            Some(i) => {
                let ghost before = self.functions@;
                let entry = &mut self.functions[i];
                let f = &mut entry.item;
                proof {
                    crate::table::lemma_first_named(before, name@);
                    crate::table::lemma_item_replaced(before, i as int, *final(f));
                }
                Some(f)
            },
            None => None,
        }
    }

    /// Registers every function definition of `code`, from instruction
    /// `from` on.
    fn register(&mut self, code: &Code, from: usize) -> (r: Result<(), LoadError>)
        requires
            from <= code.len(),
            old(self)@ == Map::<Seq<char>, FunctionModel>::empty(),
        ensures
            match register_all(code_view(code@).skip(from as int)) {
                Ok(functions) => r is Ok && final(self)@ == functions,
                Err(e) => r == Err::<(), LoadError>(e),
            },
    {
        let ghost ops = code_view(code@).skip(from as int);
        let mut i: usize = from;
        assert(ops.take(0) =~= Seq::<Op>::empty());
        while i < code.len()
            invariant
                from <= i <= code.len(),
                ops == code_view(code@).skip(from as int),
                register_all(ops.take(i - from)) == Ok::<Functions, LoadError>(self@),
            decreases code.len() - i,
        {
            let ghost upto = ops.take(i - from + 1);
            proof {
                assert(upto.drop_last() =~= ops.take(i - from));
                assert(upto.last() == code[i as int]@);
            }
            match &code[i] {
                Instruction::Func { name, code: body } => {
                    self.add_function(name.clone(), body);
                },
                _ => {
                    proof {
                        lemma_register_all_fails(ops, i - from + 1);
                    }
                    return Err(LoadError::NotAFunction);
                },
            }
            i += 1;
        }
        assert(ops.take(code.len() - from) =~= ops);
        Ok(())
    }

    /// The module that `code` defines: a `Version` instruction that names
    /// the version of this runtime, then function definitions.
    pub fn from_instructions(code: &Code) -> (r: Result<Module, LoadError>)
        ensures
            loaded(r, load_code(code_view(code@))),
    {
        if code.len() == 0 {
            return Err(LoadError::VersionMismatch);
        }
        match &code[0] {
            Instruction::Version { major, minor, patch } => {
                if *major != VERSION_MAJOR || *minor != VERSION_MINOR || *patch != VERSION_PATCH {
                    return Err(LoadError::VersionMismatch);
                }
            },
            _ => {
                return Err(LoadError::VersionMismatch);
            },
        }
        let mut module = Module::new();
        assert(code_view(code@).skip(1) =~= code_view(code@).drop_first());
        match module.register(code, 1) {
            Ok(()) => Ok(module),
            Err(e) => Err(e),
        }
    }

    /// The module that `bytes` holds: the three bytes of the version of
    /// this runtime, then function definitions up to the end. Nothing is
    /// loaded unless all of it is.
    pub fn from_bytes(bytes: &Vec<u8>) -> (r: Result<Module, LoadError>)
        ensures
            loaded(r, load_bytes(bytes@)),
    {
        if bytes.len() < 3 || bytes[0] != VERSION_MAJOR || bytes[1] != VERSION_MINOR || bytes[2]
            != VERSION_PATCH {
            return Err(LoadError::VersionMismatch);
        }
        let mut body: Vec<u8> = Vec::new();
        let mut i: usize = 3;
        while i < bytes.len()
            invariant
                3 <= i <= bytes.len(),
                body@ == bytes@.subrange(3, i as int),
            decreases bytes.len() - i,
        {
            body.push(bytes[i]);
            assert(body@ =~= bytes@.subrange(3, i + 1));
            i += 1;
        }
        assert(body@ =~= bytes@.skip(3));
        let code = match Instruction::from_bytecode(&body) {
            Ok(code) => code,
            Err(e) => {
                return Err(LoadError::Malformed(e));
            },
        };
        let mut module = Module::new();
        assert(code_view(code@).skip(0) =~= code_view(code@));
        match module.register(&code, 0) {
            Ok(()) => Ok(module),
            Err(e) => Err(e),
        }
    }
}

/// What `try_from` gives is said by `try_from` itself, on the functions of
/// the module, and not here.
impl vstd::std_specs::convert::TryFromSpecImpl<Vec<u8>> for Module {
    open spec fn obeys_try_from_spec() -> bool {
        false
    }

    open spec fn try_from_spec(value: Vec<u8>) -> Result<Module, LoadError> {
        Err(LoadError::VersionMismatch)
    }
}

impl TryFrom<Vec<u8>> for Module {
    type Error = LoadError;

    /// The module that `value` holds; see [`Module::from_bytes`].
    fn try_from(value: Vec<u8>) -> (r: Result<Module, LoadError>)
        ensures
            loaded(r, load_bytes(value@)),
    {
        Module::from_bytes(&value)
    }
}

/// What `try_from` gives is said by `try_from` itself, on the functions of
/// the module, and not here.
impl vstd::std_specs::convert::TryFromSpecImpl<Vec<Instruction>> for Module {
    open spec fn obeys_try_from_spec() -> bool {
        false
    }

    open spec fn try_from_spec(value: Vec<Instruction>) -> Result<Module, LoadError> {
        Err(LoadError::VersionMismatch)
    }
}

impl TryFrom<Vec<Instruction>> for Module {
    type Error = LoadError;

    /// The module that `value` defines; see [`Module::from_instructions`].
    fn try_from(value: Vec<Instruction>) -> (r: Result<Module, LoadError>)
        ensures
            loaded(r, load_code(code_view(value@))),
    {
        Module::from_instructions(&value)
    }
}

/// A sequence whose front is no module is no module.
proof fn lemma_register_all_fails(ops: Seq<Op>, n: int)
    requires
        0 <= n <= ops.len(),
        register_all(ops.take(n)) is Err,
    ensures
        register_all(ops) == register_all(ops.take(n)),
    decreases ops.len() - n,
{
    if n < ops.len() {
        assert(ops.take(n + 1).drop_last() =~= ops.take(n));
        lemma_register_all_fails(ops, n + 1);
    } else {
        assert(ops.take(n) =~= ops);
    }
}

} // verus!
